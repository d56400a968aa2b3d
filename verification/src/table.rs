use vstd::prelude::*;
use crate::error::RecomputeError;
use crate::models::UserMatchPoints;

verus! {

/// Two rows are for the same user and the same match.
pub open spec fn same_key(a: UserMatchPoints, b: UserMatchPoints) -> bool {
    a.user_id == b.user_id && a.match_id == b.match_id
}

/// No two rows are for the same user and match.
pub open spec fn keys_unique(rows: Seq<UserMatchPoints>) -> bool {
    forall|i: int, j: int|
        0 <= i < j < rows.len() ==> !same_key(#[trigger] rows[i], #[trigger] rows[j])
}

/// Some row of the table is for the user and match of `row`.
pub open spec fn has_key(rows: Seq<UserMatchPoints>, row: UserMatchPoints) -> bool {
    exists|i: int| 0 <= i < rows.len() && same_key(#[trigger] rows[i], row)
}

/// Where the table holds a row for the user and match of `row`.
pub open spec fn slot_of(rows: Seq<UserMatchPoints>, row: UserMatchPoints) -> int {
    choose|i: int| 0 <= i < rows.len() && same_key(#[trigger] rows[i], row)
}

/// The table after one row was written: in place of the row with the same
/// user and match where there is one, at the end where there is none.
pub open spec fn spec_upsert(
    rows: Seq<UserMatchPoints>,
    row: UserMatchPoints,
) -> Seq<UserMatchPoints> {
    if has_key(rows, row) {
        rows.update(slot_of(rows, row), row)
    } else {
        rows.push(row)
    }
}

/// The table after the rows of `new_rows` were written one after the other.
pub open spec fn spec_upsert_all(
    rows: Seq<UserMatchPoints>,
    new_rows: Seq<UserMatchPoints>,
) -> Seq<UserMatchPoints>
    decreases new_rows.len(),
{
    if new_rows.len() == 0 {
        rows
    } else {
        spec_upsert(spec_upsert_all(rows, new_rows.drop_last()), new_rows.last())
    }
}

/// The sum of `total` over the rows of one user.
pub open spec fn spec_score(rows: Seq<UserMatchPoints>, user_id: i32) -> int
    decreases rows.len(),
{
    if rows.len() == 0 {
        0
    } else {
        spec_score(rows.drop_last(), user_id) + (if rows.last().user_id == user_id {
            rows.last().total as int
        } else {
            0
        })
    }
}

/// The rows of points that are kept, at most one for each user and match.
#[derive(Debug)]
pub struct PointsTable {
    pub rows: Vec<UserMatchPoints>,
}

impl View for PointsTable {
    type V = Seq<UserMatchPoints>;

    open spec fn view(&self) -> Seq<UserMatchPoints> {
        self.rows@
    }
}

impl PointsTable {
    /// The table holds at most one row for each user and match.
    pub open spec fn wf(&self) -> bool {
        keys_unique(self@)
    }

    /// A table without rows.
    pub fn new() -> (table: PointsTable)
        ensures
            table@ == Seq::<UserMatchPoints>::empty(),
            table.wf(),
    {
        PointsTable { rows: Vec::new() }
    }

    /// The number of rows.
    pub fn len(&self) -> (n: usize)
        ensures
            n == self@.len(),
    {
        self.rows.len()
    }

    /// The row of one user for one match, if the table holds it.
    pub fn get(&self, user_id: i32, match_id: i32) -> (found: Option<UserMatchPoints>)
        ensures
            match found {
                Some(row) => self@.contains(row) && row.user_id == user_id && row.match_id
                    == match_id,
                None => forall|i: int|
                    0 <= i < self@.len() ==> !(#[trigger] self@[i].user_id == user_id
                        && self@[i].match_id == match_id),
            },
    {
        let mut i: usize = 0;
        while i < self.rows.len()
            invariant
                i <= self.rows.len(),
                forall|k: int|
                    0 <= k < i ==> !(#[trigger] self.rows@[k].user_id == user_id
                        && self.rows@[k].match_id == match_id),
            decreases self.rows.len() - i,
        {
            let row = self.rows[i];
            if row.user_id == user_id && row.match_id == match_id {
                return Some(row);
            }
            i += 1;
        }
        None
    }

    /// Writes one row: over the row of the same user and match where the
    /// table holds one, as a new row where it holds none.
    pub fn upsert(&mut self, row: UserMatchPoints)
        requires
            old(self).wf(),
        ensures
            final(self).wf(),
            final(self)@ == spec_upsert(old(self)@, row),
    {
        let mut i: usize = 0;
        while i < self.rows.len()
            invariant
                i <= self.rows.len(),
                self.rows@ == old(self).rows@,
                keys_unique(self.rows@),
                forall|k: int| 0 <= k < i ==> !same_key(#[trigger] self.rows@[k], row),
            decreases self.rows.len() - i,
        {
            let current = self.rows[i];
            if current.user_id == row.user_id && current.match_id == row.match_id {
                proof {
                    assert(same_key(self.rows@[i as int], row));
                    let s = slot_of(self.rows@, row);
                    assert(s == i) by {
                        if s < i {
                            assert(!same_key(self.rows@[s], row));
                        } else if s > i {
                            assert(!same_key(self.rows@[i as int], self.rows@[s]));
                        }
                    }
                    lemma_update_keeps_keys(self.rows@, i as int, row);
                }
                self.rows.set(i, row);
                return ;
            }
            i += 1;
        }
        proof {
            assert(!has_key(self.rows@, row));
            lemma_push_keeps_keys(self.rows@, row);
        }
        self.rows.push(row);
    }

    /// Writes the rows one after the other: see `upsert`.
    pub fn upsert_all(&mut self, new_rows: &Vec<UserMatchPoints>)
        requires
            old(self).wf(),
        ensures
            final(self).wf(),
            final(self)@ == spec_upsert_all(old(self)@, new_rows@),
    {
        let mut i: usize = 0;
        while i < new_rows.len()
            invariant
                i <= new_rows.len(),
                self.wf(),
                self@ == spec_upsert_all(old(self)@, new_rows@.take(i as int)),
            decreases new_rows.len() - i,
        {
            proof {
                assert(new_rows@.take(i + 1).drop_last() =~= new_rows@.take(i as int));
            }
            self.upsert(new_rows[i]);
            i += 1;
        }
        proof {
            assert(new_rows@.take(i as int) =~= new_rows@);
        }
    }

    /// The score of one user: the sum of `total` over the user's rows, or
    /// `StorageFailure` where that sum is no 32-bit number.
    pub fn score_of(&self, user_id: i32) -> (res: Result<i32, RecomputeError>)
        ensures
            i32::MIN <= spec_score(self@, user_id) <= i32::MAX ==> res == Ok::<
                i32,
                RecomputeError,
            >(spec_score(self@, user_id) as i32),
            !(i32::MIN <= spec_score(self@, user_id) <= i32::MAX) ==> res == Err::<
                i32,
                RecomputeError,
            >(RecomputeError::StorageFailure),
    {
        let mut sum: i128 = 0;
        let mut i: usize = 0;
        while i < self.rows.len()
            invariant
                i <= self.rows.len(),
                sum == spec_score(self@.take(i as int), user_id),
                -0x8000_0000 * i <= sum <= 0x8000_0000 * i,
            decreases self.rows.len() - i,
        {
            proof {
                assert(self@.take(i + 1).drop_last() =~= self@.take(i as int));
            }
            if self.rows[i].user_id == user_id {
                sum = sum + self.rows[i].total as i128;
            }
            i += 1;
        }
        proof {
            assert(self@.take(i as int) =~= self@);
        }
        if sum < -0x8000_0000 || sum > 0x7fff_ffff {
            Err(RecomputeError::StorageFailure)
        } else {
            Ok(sum as i32)
        }
    }

    /// A second table with the same rows.
    pub fn duplicate(&self) -> (copy: PointsTable)
        ensures
            copy@ == self@,
    {
        let mut rows: Vec<UserMatchPoints> = Vec::new();
        let mut i: usize = 0;
        while i < self.rows.len()
            invariant
                i <= self.rows.len(),
                rows@ == self@.take(i as int),
            decreases self.rows.len() - i,
        {
            rows.push(self.rows[i]);
            proof {
                assert(self@.take(i + 1) =~= self@.take(i as int).push(self@[i as int]));
            }
            i += 1;
        }
        proof {
            assert(self@.take(i as int) =~= self@);
        }
        PointsTable { rows }
    }
}

/// Writing a row over one of the same key leaves the keys unique.
pub proof fn lemma_update_keeps_keys(rows: Seq<UserMatchPoints>, i: int, row: UserMatchPoints)
    requires
        keys_unique(rows),
        0 <= i < rows.len(),
        same_key(rows[i], row),
    ensures
        keys_unique(rows.update(i, row)),
{
    let after = rows.update(i, row);
    assert forall|a: int, b: int| 0 <= a < b < after.len() implies !same_key(
        #[trigger] after[a],
        #[trigger] after[b],
    ) by {
        assert(!same_key(rows[a], rows[b]));
    }
}

/// Adding a row whose key the table does not hold leaves the keys unique.
pub proof fn lemma_push_keeps_keys(rows: Seq<UserMatchPoints>, row: UserMatchPoints)
    requires
        keys_unique(rows),
        !has_key(rows, row),
    ensures
        keys_unique(rows.push(row)),
{
    let after = rows.push(row);
    assert forall|a: int, b: int| 0 <= a < b < after.len() implies !same_key(
        #[trigger] after[a],
        #[trigger] after[b],
    ) by {
        if b < rows.len() {
            assert(!same_key(rows[a], rows[b]));
        } else {
            assert(!same_key(rows[a], row));
        }
    }
}

/// The last of `new_rows` that is for the user and match of `row`.
pub open spec fn latest(new_rows: Seq<UserMatchPoints>, row: UserMatchPoints) -> Option<
    UserMatchPoints,
>
    decreases new_rows.len(),
{
    if new_rows.len() == 0 {
        None
    } else if same_key(new_rows.last(), row) {
        Some(new_rows.last())
    } else {
        latest(new_rows.drop_last(), row)
    }
}

/// Which row is the last for a key depends on the key alone.
pub proof fn lemma_latest_by_key(
    new_rows: Seq<UserMatchPoints>,
    a: UserMatchPoints,
    b: UserMatchPoints,
)
    requires
        same_key(a, b),
    ensures
        latest(new_rows, a) == latest(new_rows, b),
    decreases new_rows.len(),
{
    if new_rows.len() > 0 {
        lemma_latest_by_key(new_rows.drop_last(), a, b);
    }
}

/// What a table holds after rows were written into it, row by row: the keys
/// stay unique, the rows that were there keep their places and keys, each
/// place holds the last row written for its key, or what it held before where
/// none was written, and every key that was written is there.
pub proof fn lemma_upsert_all_rows(rows: Seq<UserMatchPoints>, new_rows: Seq<UserMatchPoints>)
    requires
        keys_unique(rows),
    ensures
        keys_unique(spec_upsert_all(rows, new_rows)),
        rows.len() <= spec_upsert_all(rows, new_rows).len(),
        forall|i: int|
            0 <= i < rows.len() ==> same_key(
                #[trigger] spec_upsert_all(rows, new_rows)[i],
                rows[i],
            ),
        forall|i: int|
            0 <= i < spec_upsert_all(rows, new_rows).len() ==> match latest(
                new_rows,
                #[trigger] spec_upsert_all(rows, new_rows)[i],
            ) {
                Some(row) => spec_upsert_all(rows, new_rows)[i] == row,
                None => i < rows.len() && spec_upsert_all(rows, new_rows)[i] == rows[i],
            },
        forall|j: int|
            0 <= j < new_rows.len() ==> has_key(
                spec_upsert_all(rows, new_rows),
                #[trigger] new_rows[j],
            ),
        (forall|j: int| 0 <= j < new_rows.len() ==> has_key(rows, #[trigger] new_rows[j]))
            ==> spec_upsert_all(rows, new_rows).len() == rows.len(),
    decreases new_rows.len(),
{
    if new_rows.len() > 0 {
        let earlier = new_rows.drop_last();
        let row = new_rows.last();
        let before = spec_upsert_all(rows, earlier);
        let after = spec_upsert_all(rows, new_rows);
        lemma_upsert_all_rows(rows, earlier);
        assert(after == spec_upsert(before, row));
        if has_key(before, row) {
            let s = slot_of(before, row);
            lemma_update_keeps_keys(before, s, row);
            assert forall|i: int| 0 <= i < after.len() implies match latest(
                new_rows,
                #[trigger] after[i],
            ) {
                Some(r) => after[i] == r,
                None => i < rows.len() && after[i] == rows[i],
            } by {
                if i != s {
                    if s < i {
                        assert(!same_key(before[s], before[i]));
                    } else {
                        assert(!same_key(before[i], before[s]));
                    }
                    assert(!same_key(row, before[i]));
                    assert(latest(new_rows, before[i]) == latest(earlier, before[i]));
                }
            }
            assert forall|j: int| 0 <= j < new_rows.len() implies has_key(
                after,
                #[trigger] new_rows[j],
            ) by {
                if j < earlier.len() {
                    assert(new_rows[j] == earlier[j]);
                    assert(has_key(before, earlier[j]));
                    let k = slot_of(before, earlier[j]);
                    assert(same_key(after[k], new_rows[j]));
                } else {
                    assert(same_key(after[s], new_rows[j]));
                }
            }
            if forall|j: int| 0 <= j < new_rows.len() ==> has_key(rows, #[trigger] new_rows[j]) {
                assert forall|j: int| 0 <= j < earlier.len() implies has_key(
                    rows,
                    #[trigger] earlier[j],
                ) by {
                    assert(earlier[j] == new_rows[j]);
                }
            }
        } else {
            lemma_push_keeps_keys(before, row);
            assert forall|i: int| 0 <= i < after.len() implies match latest(
                new_rows,
                #[trigger] after[i],
            ) {
                Some(r) => after[i] == r,
                None => i < rows.len() && after[i] == rows[i],
            } by {
                if i < before.len() {
                    assert(same_key(before[i], before[i]));
                    assert(!same_key(before[i], row));
                    assert(latest(new_rows, before[i]) == latest(earlier, before[i]));
                }
            }
            assert forall|j: int| 0 <= j < new_rows.len() implies has_key(
                after,
                #[trigger] new_rows[j],
            ) by {
                if j < earlier.len() {
                    assert(new_rows[j] == earlier[j]);
                    assert(has_key(before, earlier[j]));
                    let k = slot_of(before, earlier[j]);
                    assert(same_key(after[k], new_rows[j]));
                } else {
                    assert(same_key(after[before.len() as int], new_rows[j]));
                }
            }
            if forall|j: int| 0 <= j < new_rows.len() ==> has_key(rows, #[trigger] new_rows[j]) {
                assert(has_key(rows, new_rows[new_rows.len() - 1]));
                let k = slot_of(rows, row);
                assert(same_key(before[k], rows[k]));
                assert(same_key(before[k], row));
                assert(false);
            }
        }
    }
}

/// Writing the same rows a second time changes nothing.
pub proof fn lemma_upsert_all_twice(rows: Seq<UserMatchPoints>, new_rows: Seq<UserMatchPoints>)
    requires
        keys_unique(rows),
    ensures
        spec_upsert_all(spec_upsert_all(rows, new_rows), new_rows) == spec_upsert_all(
            rows,
            new_rows,
        ),
{
    let once = spec_upsert_all(rows, new_rows);
    let twice = spec_upsert_all(once, new_rows);
    lemma_upsert_all_rows(rows, new_rows);
    lemma_upsert_all_rows(once, new_rows);
    assert(twice.len() == once.len());
    assert forall|i: int| 0 <= i < once.len() implies twice[i] == once[i] by {
        assert(same_key(twice[i], once[i]));
        lemma_latest_by_key(new_rows, twice[i], once[i]);
    }
    assert(twice =~= once);
}

/// The last row for a key is one of the rows, and is for that key.
pub proof fn lemma_latest_is_a_row(new_rows: Seq<UserMatchPoints>, row: UserMatchPoints)
    ensures
        latest(new_rows, row) matches Some(found) ==> same_key(found, row) && new_rows.contains(
            found,
        ),
    decreases new_rows.len(),
{
    if new_rows.len() > 0 {
        if same_key(new_rows.last(), row) {
            assert(new_rows[new_rows.len() - 1] == new_rows.last());
        } else {
            lemma_latest_is_a_row(new_rows.drop_last(), row);
            if latest(new_rows.drop_last(), row) is Some {
                let found = latest(new_rows.drop_last(), row)->0;
                let k = choose|k: int|
                    0 <= k < new_rows.drop_last().len() && new_rows.drop_last()[k] == found;
                assert(new_rows[k] == found);
            }
        }
    }
}

} // verus!
