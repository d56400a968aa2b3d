use vstd::prelude::*;
use crate::clock::{current_time, Timestamp};
use crate::models::{Country, Favourite, Group, UpdatedFavourite};

verus! {

/// The phase whose favourites can be picked at present.
pub const OPEN_PHASE: i16 = 2;

/// The choice under which the one favourite of the last phase is kept.
pub const FINALIST_CHOICE: i16 = 8;

/// The number of favourites that the dashboard shows.
pub const DASHBOARD_FAVOURITES: usize = 4;

/// A selection of favourites did not have the size that its phase asks for.
#[derive(Clone, Copy, Debug, PartialEq, Eq, Structural)]
pub struct UnexpectedError;

/// The countries that a favourite of a phase can be picked from.
#[derive(Clone, Copy, Debug, PartialEq, Eq, Structural)]
pub enum CountryPool {
    /// Every country of the tournament.
    All,
    /// The countries that have come through the group stage.
    Qualified,
    /// The countries that play in the semi-finals.
    SemiFinalists,
}

/// The stage whose participants can be picked as finalists.
pub const SEMI_FINAL_STAGE: i32 = 4;

/// The countries that a favourite of the phase can be picked from: all for
/// phase 0, the qualified ones for phase 1, the semi-finalists for any other.
pub fn country_pool(phase: i16) -> (pool: CountryPool)
    ensures
        pool == (if phase == 0 {
            CountryPool::All
        } else if phase == 1 {
            CountryPool::Qualified
        } else {
            CountryPool::SemiFinalists
        }),
{
    if phase == 0 {
        CountryPool::All
    } else if phase == 1 {
        CountryPool::Qualified
    } else {
        CountryPool::SemiFinalists
    }
}

/// The first choice of a phase and the number of its choices: four from 1 for
/// phase 0, three from 5 for phase 1, one at 8 for phase 2.
pub open spec fn spec_favourite_slots(phase: i16) -> (i16, usize) {
    if phase == 0 {
        (1, 4)
    } else if phase == 1 {
        (5, 3)
    } else {
        (8, 1)
    }
}

/// The first choice of a phase and the number of its choices.
pub fn favourite_slots(phase: i16) -> (slots: (i16, usize))
    requires
        0 <= phase <= 2,
    ensures
        slots == spec_favourite_slots(phase),
{
    if phase == 0 {
        (1, 4)
    } else if phase == 1 {
        (5, 3)
    } else {
        (8, 1)
    }
}

/// A favourite that stands for a choice that was not made yet: no country,
/// entered by hand, made and changed at `now`.
pub open spec fn is_placeholder(
    favourite: Favourite,
    user_id: i32,
    choice: i16,
    phase: i16,
    now: Timestamp,
) -> bool {
    &&& favourite.user_id == user_id
    &&& favourite.country_id is None
    &&& favourite.choice == choice
    &&& favourite.created_at == now
    &&& favourite.updated_at == now
    &&& favourite.phase == phase
    &&& favourite.source@ == "manual"@
}

/// A favourite that stands for a choice that was not made yet.
pub fn placeholder(user_id: i32, choice: i16, phase: i16, now: Timestamp) -> (favourite: Favourite)
    ensures
        is_placeholder(favourite, user_id, choice, phase, now),
{
    Favourite {
        user_id,
        country_id: None,
        choice,
        created_at: now,
        updated_at: now,
        phase,
        source: "manual".to_string(),
    }
}

/// The selection is one placeholder for each choice of the phase, in order.
pub open spec fn is_empty_selection(
    selection: Seq<(Favourite, Option<Country>)>,
    user_id: i32,
    phase: i16,
    now: Timestamp,
) -> bool {
    &&& selection.len() == spec_favourite_slots(phase).1
    &&& forall|i: int|
        0 <= i < selection.len() ==> is_placeholder(
            (#[trigger] selection[i]).0,
            user_id,
            (spec_favourite_slots(phase).0 + i) as i16,
            phase,
            now,
        ) && selection[i].1 is None
}

/// The selection that is shown for a phase: the user's favourites of the
/// phase, or one placeholder for each choice where the user has none yet.
/// `UnexpectedError` where the user has some, but not as many as the phase
/// has choices.
pub fn complete_selection(
    current_selection: Vec<(Favourite, Option<Country>)>,
    user_id: i32,
    phase: i16,
    now: Timestamp,
) -> (res: Result<Vec<(Favourite, Option<Country>)>, UnexpectedError>)
    requires
        0 <= phase <= 2,
    ensures
        current_selection@.len() == 0 ==> res is Ok && is_empty_selection(
            res.unwrap()@,
            user_id,
            phase,
            now,
        ),
        current_selection@.len() == spec_favourite_slots(phase).1 ==> res is Ok && res.unwrap()@
            == current_selection@,
        current_selection@.len() != 0 && current_selection@.len() != spec_favourite_slots(
            phase,
        ).1 ==> res is Err,
{
    let (offset, length) = favourite_slots(phase);
    let mut current_selection = current_selection;
    if current_selection.len() == 0 {
        let mut i: usize = 0;
        while i < length
            invariant
                0 <= phase <= 2,
                (offset, length) == spec_favourite_slots(phase),
                i <= length,
                current_selection@.len() == i,
                forall|k: int|
                    0 <= k < i ==> is_placeholder(
                        (#[trigger] current_selection@[k]).0,
                        user_id,
                        (offset + k) as i16,
                        phase,
                        now,
                    ) && current_selection@[k].1 is None,
            decreases length - i,
        {
            let choice: i16 = offset + i as i16;
            current_selection.push((placeholder(user_id, choice, phase, now), None));
            i += 1;
        }
    }
    if current_selection.len() != length {
        Err(UnexpectedError)
    } else {
        Ok(current_selection)
    }
}

/// The selection that is shown for a phase, with placeholders made at the
/// time of the system clock: see `complete_selection`.
pub fn complete_selection_now(
    current_selection: Vec<(Favourite, Option<Country>)>,
    user_id: i32,
    phase: i16,
) -> (res: Result<Vec<(Favourite, Option<Country>)>, UnexpectedError>)
    requires
        0 <= phase <= 2,
    ensures
        current_selection@.len() == 0 ==> res is Ok && exists|now: Timestamp|
            is_empty_selection(res.unwrap()@, user_id, phase, now),
        current_selection@.len() == spec_favourite_slots(phase).1 ==> res is Ok && res.unwrap()@
            == current_selection@,
        current_selection@.len() != 0 && current_selection@.len() != spec_favourite_slots(
            phase,
        ).1 ==> res is Err,
{
    let now = current_time();
    complete_selection(current_selection, user_id, phase, now)
}

/// The favourites of the dashboard: the user's own, and placeholders of phase
/// 0 for the choices up to the fourth that the user has not made.
pub open spec fn is_padded(
    padded: Seq<(Favourite, Option<Country>, Option<Group>)>,
    current: Seq<(Favourite, Option<Country>, Option<Group>)>,
    user_id: i32,
    now: Timestamp,
) -> bool {
    &&& padded.len() == if current.len() < 4 {
        4
    } else {
        current.len()
    }
    &&& padded.take(current.len() as int) == current
    &&& forall|i: int|
        current.len() <= i < padded.len() ==> is_placeholder(
            (#[trigger] padded[i]).0,
            user_id,
            (i + 1) as i16,
            0,
            now,
        ) && padded[i].1 is None && padded[i].2 is None
}

/// Fills the user's favourites up to four with placeholders.
pub fn pad_favourites(
    current_selection: Vec<(Favourite, Option<Country>, Option<Group>)>,
    user_id: i32,
    now: Timestamp,
) -> (padded: Vec<(Favourite, Option<Country>, Option<Group>)>)
    ensures
        is_padded(padded@, current_selection@, user_id, now),
{
    let ghost before = current_selection@;
    let mut current_selection = current_selection;
    proof {
        assert(current_selection@.take(before.len() as int) =~= before);
    }
    while current_selection.len() < DASHBOARD_FAVOURITES
        invariant
            before.len() <= current_selection@.len(),
            before.len() < 4 ==> current_selection@.len() <= 4,
            before.len() >= 4 ==> current_selection@.len() == before.len(),
            current_selection@.take(before.len() as int) == before,
            forall|i: int|
                before.len() <= i < current_selection@.len() ==> is_placeholder(
                    (#[trigger] current_selection@[i]).0,
                    user_id,
                    (i + 1) as i16,
                    0,
                    now,
                ) && current_selection@[i].1 is None && current_selection@[i].2 is None,
        decreases 4 - current_selection@.len(),
    {
        let choice: i16 = current_selection.len() as i16 + 1;
        let ghost earlier = current_selection@;
        current_selection.push((placeholder(user_id, choice, 0, now), None, None));
        proof {
            assert(current_selection@.take(before.len() as int) =~= earlier.take(
                before.len() as int,
            ));
        }
    }
    current_selection
}

/// Fills the user's favourites up to four with placeholders made at the time
/// of the system clock: see `pad_favourites`.
pub fn pad_favourites_now(
    current_selection: Vec<(Favourite, Option<Country>, Option<Group>)>,
    user_id: i32,
) -> (padded: Vec<(Favourite, Option<Country>, Option<Group>)>)
    ensures
        exists|now: Timestamp| is_padded(padded@, current_selection@, user_id, now),
{
    let now = current_time();
    pad_favourites(current_selection, user_id, now)
}

/// What a user entered as the favourite of the last phase: the id of a
/// country, or 0 for none.
#[derive(Clone, Copy, Debug, PartialEq, Eq, Structural)]
pub struct FavouriteSelectionForm {
    pub fav_1: i32,
}

/// The country that a form names: none for 0.
pub open spec fn picked_country(country_id: i32) -> Option<i32> {
    if country_id == 0 {
        None
    } else {
        Some(country_id)
    }
}

/// The changes that a form asks for: one, to the choice of the finalist.
pub fn favourite_changes(user_id: i32, phase: i16, form: &FavouriteSelectionForm) -> (changes:
    Vec<UpdatedFavourite>)
    ensures
        changes@ == seq![
            (UpdatedFavourite {
                user_id,
                country_id: picked_country(form.fav_1),
                choice: FINALIST_CHOICE,
                phase,
            }),
        ],
{
    let country_id = if form.fav_1 == 0 {
        None
    } else {
        Some(form.fav_1)
    };
    let mut changes: Vec<UpdatedFavourite> = Vec::new();
    changes.push(UpdatedFavourite { user_id, country_id, phase, choice: FINALIST_CHOICE });
    changes
}

} // verus!
