use vstd::prelude::*;
use std::collections::HashMap;
use crate::error::RecomputeError;
use crate::models::{
    Favourite, Match, MatchOutcome, MatchParticipant, MatchPrediction, MatchWithParticipants,
    User, UserMatchPoints,
};
use crate::scores::{
    points_fit, points_if_they_fit, prediction_of, spec_user_match_points, stage_is_known,
};
use crate::table::{
    keys_unique, latest, lemma_latest_is_a_row, lemma_upsert_all_rows, lemma_upsert_all_twice,
    same_key, spec_score, spec_upsert_all, PointsTable,
};

verus! {

/// The first outcome that is for the match, if there is one.
pub open spec fn spec_find_outcome(outcomes: Seq<MatchOutcome>, match_id: i32) -> Option<
    MatchOutcome,
>
    decreases outcomes.len(),
{
    if outcomes.len() == 0 {
        None
    } else if spec_find_outcome(outcomes.drop_last(), match_id) is Some {
        spec_find_outcome(outcomes.drop_last(), match_id)
    } else if outcomes.last().match_id == match_id {
        Some(outcomes.last())
    } else {
        None
    }
}

/// An outcome that is found among the first outcomes is found among all.
pub proof fn lemma_find_outcome_in_prefix(outcomes: Seq<MatchOutcome>, match_id: i32, n: int)
    requires
        0 <= n <= outcomes.len(),
        spec_find_outcome(outcomes.take(n), match_id) is Some,
    ensures
        spec_find_outcome(outcomes, match_id) == spec_find_outcome(outcomes.take(n), match_id),
    decreases outcomes.len() - n,
{
    if n < outcomes.len() {
        assert(outcomes.take(n + 1).drop_last() =~= outcomes.take(n));
        lemma_find_outcome_in_prefix(outcomes, match_id, n + 1);
    } else {
        assert(outcomes.take(n) =~= outcomes);
    }
}

/// The first outcome that is for the match, if there is one.
pub fn find_outcome(outcomes: &Vec<MatchOutcome>, match_id: i32) -> (found: Option<MatchOutcome>)
    ensures
        found == spec_find_outcome(outcomes@, match_id),
{
    let mut i: usize = 0;
    while i < outcomes.len()
        invariant
            i <= outcomes.len(),
            spec_find_outcome(outcomes@.take(i as int), match_id) is None,
        decreases outcomes.len() - i,
    {
        proof {
            assert(outcomes@.take(i + 1).drop_last() =~= outcomes@.take(i as int));
        }
        if outcomes[i].match_id == match_id {
            proof {
                lemma_find_outcome_in_prefix(outcomes@, match_id, i + 1);
            }
            return Some(outcomes[i]);
        }
        i += 1;
    }
    proof {
        assert(outcomes@.take(i as int) =~= outcomes@);
    }
    None
}

/// Where the participant with this id stands: the last place, where the id
/// occurs more than once.
pub open spec fn participant_slot(participants: Seq<MatchParticipant>, id: i32) -> Option<int>
    decreases participants.len(),
{
    if participants.len() == 0 {
        None
    } else if participants.last().match_participant_id == id {
        Some(participants.len() - 1)
    } else {
        participant_slot(participants.drop_last(), id)
    }
}

/// A slot that was found is a place of the list, and holds the id.
pub proof fn lemma_participant_slot(participants: Seq<MatchParticipant>, id: i32)
    ensures
        participant_slot(participants, id) matches Some(slot) ==> 0 <= slot < participants.len()
            && participants[slot].match_participant_id == id,
    decreases participants.len(),
{
    if participants.len() > 0 {
        lemma_participant_slot(participants.drop_last(), id);
    }
}

/// Both sides of every match are among the participants.
pub open spec fn participants_known(games: Seq<Match>, participants: Seq<MatchParticipant>) -> bool {
    forall|i: int|
        0 <= i < games.len() ==> participant_slot(
            participants,
            (#[trigger] games[i]).home_participant_id,
        ) is Some && participant_slot(participants, games[i].away_participant_id) is Some
}

/// The match with both of its sides looked up among the participants.
pub open spec fn with_participants(
    game: Match,
    participants: Seq<MatchParticipant>,
) -> MatchWithParticipants {
    MatchWithParticipants {
        match_id: game.match_id,
        stage_id: game.stage_id,
        home_participant: participants[participant_slot(
            participants,
            game.home_participant_id,
        )->0],
        away_participant: participants[participant_slot(
            participants,
            game.away_participant_id,
        )->0],
        time: game.time,
    }
}

/// The matches that have an outcome, in their order, each with its sides and
/// its outcome. A match without an outcome is left out.
pub open spec fn spec_join_games(
    games: Seq<Match>,
    participants: Seq<MatchParticipant>,
    outcomes: Seq<MatchOutcome>,
) -> Seq<(MatchWithParticipants, MatchOutcome)>
    decreases games.len(),
{
    if games.len() == 0 {
        Seq::empty()
    } else {
        let earlier = spec_join_games(games.drop_last(), participants, outcomes);
        match spec_find_outcome(outcomes, games.last().match_id) {
            Some(outcome) => earlier.push((with_participants(games.last(), participants), outcome)),
            None => earlier,
        }
    }
}

fn index_participants(participants: &Vec<MatchParticipant>) -> (by_id: HashMap<i32, usize>)
    ensures
        forall|id: i32|
            by_id@.contains_key(id) <==> #[trigger] participant_slot(participants@, id) is Some,
        forall|id: i32|
            by_id@.contains_key(id) ==> (#[trigger] by_id@[id]) as int == participant_slot(
                participants@,
                id,
            )->0,
{
    broadcast use vstd::std_specs::hash::group_hash_axioms;

    let mut by_id: HashMap<i32, usize> = HashMap::new();
    let mut i: usize = 0;
    while i < participants.len()
        invariant
            i <= participants.len(),
            forall|id: i32|
                by_id@.contains_key(id) <==> #[trigger] participant_slot(
                    participants@.take(i as int),
                    id,
                ) is Some,
            forall|id: i32|
                by_id@.contains_key(id) ==> (#[trigger] by_id@[id]) as int == participant_slot(
                    participants@.take(i as int),
                    id,
                )->0,
        decreases participants.len() - i,
    {
        proof {
            assert(participants@.take(i + 1).drop_last() =~= participants@.take(i as int));
        }
        let ghost before = by_id@;
        let id_here = participants[i].match_participant_id;
        by_id.insert(id_here, i);
        proof {
            assert(by_id@ == before.insert(id_here, i));
            let earlier = participants@.take(i as int);
            let next = participants@.take(i + 1);
            assert forall|id: i32|
                by_id@.contains_key(id) <==> #[trigger] participant_slot(next, id) is Some by {
                if id != id_here {
                    assert(before.contains_key(id) <==> participant_slot(earlier, id) is Some);
                }
            }
            assert forall|id: i32| by_id@.contains_key(id) implies (#[trigger] by_id@[id]) as int
                == participant_slot(next, id)->0 by {
                if id != id_here {
                    assert(before.contains_key(id) <==> participant_slot(earlier, id) is Some);
                    assert(before[id] as int == participant_slot(earlier, id)->0);
                }
            }
        }
        i += 1;
    }
    proof {
        assert(participants@.take(i as int) =~= participants@);
    }
    by_id
}

/// Whether both sides of every match are among the participants.
pub fn participants_resolved(games: &Vec<Match>, participants: &Vec<MatchParticipant>) -> (ok:
    bool)
    ensures
        ok == participants_known(games@, participants@),
{
    broadcast use vstd::std_specs::hash::group_hash_axioms;

    let by_id = index_participants(participants);
    let mut i: usize = 0;
    while i < games.len()
        invariant
            i <= games.len(),
            forall|id: i32|
                by_id@.contains_key(id) <==> #[trigger] participant_slot(participants@, id) is Some,
            participants_known(games@.take(i as int), participants@),
        decreases games.len() - i,
    {
        if !by_id.contains_key(&games[i].home_participant_id) || !by_id.contains_key(
            &games[i].away_participant_id,
        ) {
            return false;
        }
        proof {
            let next = games@.take(i + 1);
            assert forall|k: int| 0 <= k < next.len() implies participant_slot(
                participants@,
                (#[trigger] next[k]).home_participant_id,
            ) is Some && participant_slot(participants@, next[k].away_participant_id) is Some by {
                if k < i {
                    assert(games@.take(i as int)[k] == next[k]);
                }
            }
        }
        i += 1;
    }
    proof {
        assert(games@.take(i as int) =~= games@);
    }
    true
}

/// Joins the matches with their sides and their outcomes. A match without an
/// outcome is left out; the others keep their order. Of several outcomes for
/// one match the first counts, and of several participants with one id the
/// last. Both sides of every match must be among the participants.
pub fn join_games(
    plain_games: &Vec<Match>,
    match_participants: &Vec<MatchParticipant>,
    match_outcomes: &Vec<MatchOutcome>,
) -> (games: Vec<(MatchWithParticipants, MatchOutcome)>)
    requires
        participants_known(plain_games@, match_participants@),
    ensures
        games@ == spec_join_games(plain_games@, match_participants@, match_outcomes@),
{
    broadcast use vstd::std_specs::hash::group_hash_axioms;

    let participants_by_id = index_participants(match_participants);
    let mut games: Vec<(MatchWithParticipants, MatchOutcome)> = Vec::new();
    let mut i: usize = 0;
    while i < plain_games.len()
        invariant
            i <= plain_games.len(),
            participants_known(plain_games@, match_participants@),
            forall|id: i32|
                participants_by_id@.contains_key(id) <==> #[trigger] participant_slot(
                    match_participants@,
                    id,
                ) is Some,
            forall|id: i32|
                participants_by_id@.contains_key(id) ==> (
                #[trigger] participants_by_id@[id]) as int == participant_slot(
                    match_participants@,
                    id,
                )->0,
            games@ == spec_join_games(
                plain_games@.take(i as int),
                match_participants@,
                match_outcomes@,
            ),
        decreases plain_games.len() - i,
    {
        let game = &plain_games[i];
        proof {
            assert(plain_games@.take(i + 1).drop_last() =~= plain_games@.take(i as int));
            lemma_participant_slot(match_participants@, game.home_participant_id);
            lemma_participant_slot(match_participants@, game.away_participant_id);
        }
        let home = *participants_by_id.get(&game.home_participant_id).unwrap();
        let away = *participants_by_id.get(&game.away_participant_id).unwrap();
        match find_outcome(match_outcomes, game.match_id) {
            Some(outcome) => {
                games.push(
                    (
                        MatchWithParticipants {
                            match_id: game.match_id,
                            stage_id: game.stage_id,
                            home_participant: match_participants[home].duplicate(),
                            away_participant: match_participants[away].duplicate(),
                            time: game.time,
                        },
                        outcome,
                    ),
                );
            },
            None => {},
        }
        i += 1;
    }
    proof {
        assert(plain_games@.take(i as int) =~= plain_games@);
    }
    games
}

/// The first prediction that is for the match, if there is one.
pub open spec fn spec_find_prediction(predictions: Seq<MatchPrediction>, match_id: i32) -> Option<
    MatchPrediction,
>
    decreases predictions.len(),
{
    if predictions.len() == 0 {
        None
    } else if spec_find_prediction(predictions.drop_last(), match_id) is Some {
        spec_find_prediction(predictions.drop_last(), match_id)
    } else if predictions.last().match_id == match_id {
        Some(predictions.last())
    } else {
        None
    }
}

/// A prediction that is found among the first predictions is found among all.
pub proof fn lemma_find_prediction_in_prefix(
    predictions: Seq<MatchPrediction>,
    match_id: i32,
    n: int,
)
    requires
        0 <= n <= predictions.len(),
        spec_find_prediction(predictions.take(n), match_id) is Some,
    ensures
        spec_find_prediction(predictions, match_id) == spec_find_prediction(
            predictions.take(n),
            match_id,
        ),
    decreases predictions.len() - n,
{
    if n < predictions.len() {
        assert(predictions.take(n + 1).drop_last() =~= predictions.take(n));
        lemma_find_prediction_in_prefix(predictions, match_id, n + 1);
    } else {
        assert(predictions.take(n) =~= predictions);
    }
}

/// The first prediction that is for the match, if there is one.
pub fn find_prediction(predictions: &Vec<MatchPrediction>, match_id: i32) -> (found: Option<
    &MatchPrediction,
>)
    ensures
        prediction_of(found) == spec_find_prediction(predictions@, match_id),
{
    let mut i: usize = 0;
    while i < predictions.len()
        invariant
            i <= predictions.len(),
            spec_find_prediction(predictions@.take(i as int), match_id) is None,
        decreases predictions.len() - i,
    {
        proof {
            assert(predictions@.take(i + 1).drop_last() =~= predictions@.take(i as int));
        }
        if predictions[i].match_id == match_id {
            proof {
                lemma_find_prediction_in_prefix(predictions@, match_id, i + 1);
            }
            return Some(&predictions[i]);
        }
        i += 1;
    }
    proof {
        assert(predictions@.take(i as int) =~= predictions@);
    }
    None
}

/// Every match is of a known stage.
pub open spec fn stages_known(games: Seq<(MatchWithParticipants, MatchOutcome)>) -> bool {
    forall|g: int| 0 <= g < games.len() ==> stage_is_known((#[trigger] games[g]).0.stage_id as int)
}

/// The row of one user, given with all predictions and favourites, for one
/// match with its outcome.
pub open spec fn spec_row(
    user: (User, Vec<MatchPrediction>, Vec<Favourite>),
    game: (MatchWithParticipants, MatchOutcome),
) -> UserMatchPoints {
    spec_user_match_points(
        user.0.user_id,
        user.2@,
        spec_find_prediction(user.1@, game.0.match_id),
        game.0,
        game.1,
    )
}

/// The rows of one user for the matches, in their order.
pub open spec fn spec_user_rows(
    user: (User, Vec<MatchPrediction>, Vec<Favourite>),
    games: Seq<(MatchWithParticipants, MatchOutcome)>,
) -> Seq<UserMatchPoints>
    decreases games.len(),
{
    if games.len() == 0 {
        Seq::empty()
    } else {
        spec_user_rows(user, games.drop_last()).push(spec_row(user, games.last()))
    }
}

/// The rows of all users for all matches: user by user, and for each user
/// match by match.
pub open spec fn spec_all_rows(
    users: Seq<(User, Vec<MatchPrediction>, Vec<Favourite>)>,
    games: Seq<(MatchWithParticipants, MatchOutcome)>,
) -> Seq<UserMatchPoints>
    decreases users.len(),
{
    if users.len() == 0 {
        Seq::empty()
    } else {
        spec_all_rows(users.drop_last(), games) + spec_user_rows(users.last(), games)
    }
}

/// The points of every user for every match can be written down as 32-bit
/// numbers.
pub open spec fn all_points_fit(
    users: Seq<(User, Vec<MatchPrediction>, Vec<Favourite>)>,
    games: Seq<(MatchWithParticipants, MatchOutcome)>,
) -> bool {
    forall|u: int, g: int|
        0 <= u < users.len() && 0 <= g < games.len() ==> points_fit(
            (#[trigger] users[u]).2@,
            spec_find_prediction(users[u].1@, (#[trigger] games[g]).0.match_id),
            games[g].0,
            games[g].1,
        )
}

/// Whether every match is of a known stage.
pub fn check_stages(games: &Vec<(MatchWithParticipants, MatchOutcome)>) -> (res: Result<
    (),
    RecomputeError,
>)
    ensures
        stages_known(games@) ==> res == Ok::<(), RecomputeError>(()),
        !stages_known(games@) ==> res == Err::<(), RecomputeError>(RecomputeError::InvalidStage),
{
    let mut g: usize = 0;
    while g < games.len()
        invariant
            g <= games.len(),
            forall|k: int| 0 <= k < g ==> stage_is_known((#[trigger] games@[k]).0.stage_id as int),
        decreases games.len() - g,
    {
        let stage_id = games[g].0.stage_id;
        if stage_id < 1 || stage_id > 6 {
            proof {
                assert(!stage_is_known(games@[g as int].0.stage_id as int));
            }
            return Err(RecomputeError::InvalidStage);
        }
        g += 1;
    }
    Ok(())
}

/// The points of every user for every match. `InvalidStage` where a match is
/// of an unknown stage; `StorageFailure` where every stage is known and the
/// points of some user for some match are no 32-bit numbers; else one row for
/// each user and match, user by user.
pub fn all_match_points(
    users: &Vec<(User, Vec<MatchPrediction>, Vec<Favourite>)>,
    games: &Vec<(MatchWithParticipants, MatchOutcome)>,
) -> (res: Result<Vec<UserMatchPoints>, RecomputeError>)
    ensures
        !stages_known(games@) ==> res == Err::<Vec<UserMatchPoints>, RecomputeError>(
            RecomputeError::InvalidStage,
        ),
        stages_known(games@) && !all_points_fit(users@, games@) ==> res == Err::<
            Vec<UserMatchPoints>,
            RecomputeError,
        >(RecomputeError::StorageFailure),
        stages_known(games@) && all_points_fit(users@, games@) ==> res is Ok && res.unwrap()@
            == spec_all_rows(users@, games@),
{
    match check_stages(games) {
        Ok(()) => {},
        Err(e) => { return Err(e); },
    }
    let mut match_points: Vec<UserMatchPoints> = Vec::new();
    let mut u: usize = 0;
    while u < users.len()
        invariant
            u <= users.len(),
            stages_known(games@),
            all_points_fit(users@.take(u as int), games@),
            match_points@ == spec_all_rows(users@.take(u as int), games@),
        decreases users.len() - u,
    {
        let user = &users[u];
        let ghost done = match_points@;
        let mut g: usize = 0;
        while g < games.len()
            invariant
                g <= games.len(),
                u < users.len(),
                *user == users@[u as int],
                stages_known(games@),
                forall|k: int|
                    0 <= k < g ==> points_fit(
                        user.2@,
                        spec_find_prediction(user.1@, (#[trigger] games@[k]).0.match_id),
                        games@[k].0,
                        games@[k].1,
                    ),
                match_points@ == done + spec_user_rows(*user, games@.take(g as int)),
            decreases games.len() - g,
        {
            let game = &games[g];
            let prediction = find_prediction(&user.1, game.0.match_id);
            proof {
                assert(stage_is_known(games@[g as int].0.stage_id as int));
                assert(games@.take(g + 1).drop_last() =~= games@.take(g as int));
            }
            match points_if_they_fit(user.0.user_id, &user.2, prediction, &game.0, &game.1) {
                Ok(Some(points)) => {
                    match_points.push(points);
                    proof {
                        assert(match_points@ =~= done + spec_user_rows(
                            *user,
                            games@.take(g + 1),
                        ));
                    }
                },
                Ok(None) => {
                    proof {
                        assert(!points_fit(
                            users@[u as int].2@,
                            spec_find_prediction(users@[u as int].1@, games@[g as int].0.match_id),
                            games@[g as int].0,
                            games@[g as int].1,
                        ));
                    }
                    return Err(RecomputeError::StorageFailure);
                },
                Err(e) => { return Err(e); },
            }
            g += 1;
        }
        proof {
            assert(games@.take(g as int) =~= games@);
            assert(users@.take(u + 1).drop_last() =~= users@.take(u as int));
            let next = users@.take(u + 1);
            assert forall|a: int, b: int|
                0 <= a < next.len() && 0 <= b < games@.len() implies points_fit(
                (#[trigger] next[a]).2@,
                spec_find_prediction(next[a].1@, (#[trigger] games@[b]).0.match_id),
                games@[b].0,
                games@[b].1,
            ) by {
                if a < u {
                    assert(users@.take(u as int)[a] == next[a]);
                }
            }
        }
        u += 1;
    }
    proof {
        assert(users@.take(u as int) =~= users@);
    }
    Ok(match_points)
}

/// The rows of the users, each given with the prediction for this match, for
/// one match with its outcome.
pub open spec fn spec_match_rows(
    users: Seq<(User, Option<MatchPrediction>, Vec<Favourite>)>,
    game: (MatchWithParticipants, MatchOutcome),
) -> Seq<UserMatchPoints>
    decreases users.len(),
{
    if users.len() == 0 {
        Seq::empty()
    } else {
        spec_match_rows(users.drop_last(), game).push(
            spec_user_match_points(
                users.last().0.user_id,
                users.last().2@,
                users.last().1,
                game.0,
                game.1,
            ),
        )
    }
}

/// The points of every user for the match can be written down as 32-bit
/// numbers.
pub open spec fn match_points_fit(
    users: Seq<(User, Option<MatchPrediction>, Vec<Favourite>)>,
    game: (MatchWithParticipants, MatchOutcome),
) -> bool {
    forall|u: int|
        0 <= u < users.len() ==> points_fit(
            (#[trigger] users[u]).2@,
            users[u].1,
            game.0,
            game.1,
        )
}

/// The points of every user for one match. `InvalidStage` where the match is
/// of an unknown stage; `StorageFailure` where the stage is known and the
/// points of some user are no 32-bit numbers; else one row for each user, in
/// the users' order.
pub fn single_match_points(
    users: &Vec<(User, Option<MatchPrediction>, Vec<Favourite>)>,
    game: &(MatchWithParticipants, MatchOutcome),
) -> (res: Result<Vec<UserMatchPoints>, RecomputeError>)
    ensures
        !stage_is_known(game.0.stage_id as int) ==> res == Err::<
            Vec<UserMatchPoints>,
            RecomputeError,
        >(RecomputeError::InvalidStage),
        stage_is_known(game.0.stage_id as int) && !match_points_fit(users@, *game) ==> res
            == Err::<Vec<UserMatchPoints>, RecomputeError>(RecomputeError::StorageFailure),
        stage_is_known(game.0.stage_id as int) && match_points_fit(users@, *game) ==> res is Ok
            && res.unwrap()@ == spec_match_rows(users@, *game),
{
    if game.0.stage_id < 1 || game.0.stage_id > 6 {
        return Err(RecomputeError::InvalidStage);
    }
    let mut match_points: Vec<UserMatchPoints> = Vec::new();
    let mut u: usize = 0;
    while u < users.len()
        invariant
            u <= users.len(),
            stage_is_known(game.0.stage_id as int),
            match_points_fit(users@.take(u as int), *game),
            match_points@ == spec_match_rows(users@.take(u as int), *game),
        decreases users.len() - u,
    {
        proof {
            assert(users@.take(u + 1).drop_last() =~= users@.take(u as int));
        }
        let user = &users[u];
        let prediction: Option<&MatchPrediction> = match &user.1 {
            Some(prediction) => Some(prediction),
            None => None,
        };
        match points_if_they_fit(user.0.user_id, &user.2, prediction, &game.0, &game.1) {
            Ok(Some(points)) => {
                match_points.push(points);
            },
            Ok(None) => {
                proof {
                    assert(!points_fit(
                        users@[u as int].2@,
                        users@[u as int].1,
                        game.0,
                        game.1,
                    ));
                }
                return Err(RecomputeError::StorageFailure);
            },
            Err(e) => { return Err(e); },
        }
        proof {
            let next = users@.take(u + 1);
            assert forall|a: int| 0 <= a < next.len() implies points_fit(
                (#[trigger] next[a]).2@,
                next[a].1,
                game.0,
                game.1,
            ) by {
                if a < u {
                    assert(users@.take(u as int)[a] == next[a]);
                }
            }
        }
        u += 1;
    }
    proof {
        assert(users@.take(u as int) =~= users@);
    }
    Ok(match_points)
}

/// The ids of the users, in their order.
pub open spec fn spec_user_ids<P>(users: Seq<(User, P, Vec<Favourite>)>) -> Seq<i32> {
    Seq::new(users.len(), |u: int| users[u].0.user_id)
}

fn user_ids<P>(users: &Vec<(User, P, Vec<Favourite>)>) -> (ids: Vec<i32>)
    ensures
        ids@ == spec_user_ids(users@),
{
    let mut ids: Vec<i32> = Vec::new();
    let mut u: usize = 0;
    while u < users.len()
        invariant
            u <= users.len(),
            ids@ == spec_user_ids(users@.take(u as int)),
        decreases users.len() - u,
    {
        ids.push(users[u].0.user_id);
        proof {
            assert(ids@ =~= spec_user_ids(users@.take(u + 1)));
        }
        u += 1;
    }
    proof {
        assert(users@.take(u as int) =~= users@);
    }
    ids
}

/// The score of every user is a 32-bit number.
pub open spec fn scores_fit(rows: Seq<UserMatchPoints>, user_ids: Seq<i32>) -> bool {
    forall|u: int|
        0 <= u < user_ids.len() ==> i32::MIN <= spec_score(rows, #[trigger] user_ids[u])
            <= i32::MAX
}

/// The score of every user: the sum of `total` over the user's rows.
pub open spec fn spec_scores(rows: Seq<UserMatchPoints>, user_ids: Seq<i32>) -> Seq<i32> {
    Seq::new(user_ids.len(), |u: int| spec_score(rows, user_ids[u]) as i32)
}

/// Writes the rows into the table and sums up the score of every user. Where
/// a score is no 32-bit number the table is left as it was.
fn settle(table: &mut PointsTable, new_rows: &Vec<UserMatchPoints>, ids: &Vec<i32>) -> (res:
    Result<Vec<i32>, RecomputeError>)
    requires
        old(table).wf(),
    ensures
        final(table).wf(),
        scores_fit(spec_upsert_all(old(table)@, new_rows@), ids@) ==> res is Ok && final(table)@
            == spec_upsert_all(old(table)@, new_rows@) && res->Ok_0@ == spec_scores(
            final(table)@,
            ids@,
        ),
        !scores_fit(spec_upsert_all(old(table)@, new_rows@), ids@) ==> res == Err::<
            Vec<i32>,
            RecomputeError,
        >(RecomputeError::StorageFailure) && final(table)@ == old(table)@,
{
    let mut updated = table.duplicate();
    updated.upsert_all(new_rows);
    let mut scores: Vec<i32> = Vec::new();
    let mut u: usize = 0;
    while u < ids.len()
        invariant
            u <= ids.len(),
            updated.wf(),
            table.wf(),
            table@ == old(table)@,
            updated@ == spec_upsert_all(old(table)@, new_rows@),
            scores_fit(updated@, ids@.take(u as int)),
            scores@ == spec_scores(updated@, ids@.take(u as int)),
        decreases ids.len() - u,
    {
        match updated.score_of(ids[u]) {
            Ok(score) => {
                scores.push(score);
            },
            Err(e) => {
                proof {
                    assert(!(i32::MIN <= spec_score(updated@, ids@[u as int]) <= i32::MAX));
                }
                return Err(e);
            },
        }
        proof {
            let next = ids@.take(u + 1);
            assert forall|k: int| 0 <= k < next.len() implies i32::MIN <= spec_score(
                updated@,
                #[trigger] next[k],
            ) <= i32::MAX by {
                if k < u {
                    assert(ids@.take(u as int)[k] == next[k]);
                }
            }
            assert(scores@ =~= spec_scores(updated@, next));
        }
        u += 1;
    }
    proof {
        assert(ids@.take(u as int) =~= ids@);
    }
    *table = updated;
    Ok(scores)
}

/// The table after the points of every user for every match were written.
pub open spec fn spec_recalculated(
    rows: Seq<UserMatchPoints>,
    users: Seq<(User, Vec<MatchPrediction>, Vec<Favourite>)>,
    games: Seq<(MatchWithParticipants, MatchOutcome)>,
) -> Seq<UserMatchPoints> {
    spec_upsert_all(rows, spec_all_rows(users, games))
}

/// The recalculation can be carried through: all points and all scores are
/// 32-bit numbers.
pub open spec fn recalculation_fits(
    rows: Seq<UserMatchPoints>,
    users: Seq<(User, Vec<MatchPrediction>, Vec<Favourite>)>,
    games: Seq<(MatchWithParticipants, MatchOutcome)>,
) -> bool {
    all_points_fit(users, games) && scores_fit(
        spec_recalculated(rows, users, games),
        spec_user_ids(users),
    )
}

/// Works out the points of every user for every match that has an outcome,
/// writes them into the table, and sums up every user's score.
///
/// A match without an outcome is not among `games`, as `join_games` gives
/// them: no row is written for it, and rows that the table holds for it
/// already are left as they are, and count towards the scores.
///
/// All of it happens or none: on an error the table is as it was.
/// `InvalidStage` comes where a match is of an unknown stage, and
/// `StorageFailure` where every stage is known and some points or some score
/// would be no 32-bit number. Else the result holds, for each user in turn,
/// the sum of `total` over the user's rows of the new table.
pub fn recalculate_scores(
    users: &Vec<(User, Vec<MatchPrediction>, Vec<Favourite>)>,
    games: &Vec<(MatchWithParticipants, MatchOutcome)>,
    table: &mut PointsTable,
) -> (res: Result<Vec<i32>, RecomputeError>)
    requires
        old(table).wf(),
    ensures
        final(table).wf(),
        !stages_known(games@) ==> res == Err::<Vec<i32>, RecomputeError>(
            RecomputeError::InvalidStage,
        ),
        stages_known(games@) && !recalculation_fits(old(table)@, users@, games@) ==> res == Err::<
            Vec<i32>,
            RecomputeError,
        >(RecomputeError::StorageFailure),
        stages_known(games@) && recalculation_fits(old(table)@, users@, games@) ==> res is Ok
            && res.unwrap()@ == spec_scores(final(table)@, spec_user_ids(users@)),
        res is Ok ==> final(table)@ == spec_recalculated(old(table)@, users@, games@),
        res is Err ==> final(table)@ == old(table)@,
{
    let match_points = match all_match_points(users, games) {
        Ok(match_points) => match_points,
        Err(e) => { return Err(e); },
    };
    let ids = user_ids(users);
    settle(table, &match_points, &ids)
}

/// The table after the points of every user for one match were written.
pub open spec fn spec_match_recalculated(
    rows: Seq<UserMatchPoints>,
    users: Seq<(User, Option<MatchPrediction>, Vec<Favourite>)>,
    game: (MatchWithParticipants, MatchOutcome),
) -> Seq<UserMatchPoints> {
    spec_upsert_all(rows, spec_match_rows(users, game))
}

/// The recalculation of one match can be carried through: all points and all
/// scores are 32-bit numbers.
pub open spec fn match_recalculation_fits(
    rows: Seq<UserMatchPoints>,
    users: Seq<(User, Option<MatchPrediction>, Vec<Favourite>)>,
    game: (MatchWithParticipants, MatchOutcome),
) -> bool {
    match_points_fit(users, game) && scores_fit(
        spec_match_recalculated(rows, users, game),
        spec_user_ids(users),
    )
}

/// Works out the points of every user for one match, writes them into the
/// table, and sums up every user's score over all rows of the table.
///
/// All of it happens or none, and the errors come as in `recalculate_scores`.
pub fn recalculate_match(
    users: &Vec<(User, Option<MatchPrediction>, Vec<Favourite>)>,
    game: &(MatchWithParticipants, MatchOutcome),
    table: &mut PointsTable,
) -> (res: Result<Vec<i32>, RecomputeError>)
    requires
        old(table).wf(),
    ensures
        final(table).wf(),
        !stage_is_known(game.0.stage_id as int) ==> res == Err::<Vec<i32>, RecomputeError>(
            RecomputeError::InvalidStage,
        ),
        stage_is_known(game.0.stage_id as int) && !match_recalculation_fits(
            old(table)@,
            users@,
            *game,
        ) ==> res == Err::<Vec<i32>, RecomputeError>(RecomputeError::StorageFailure),
        stage_is_known(game.0.stage_id as int) && match_recalculation_fits(
            old(table)@,
            users@,
            *game,
        ) ==> res is Ok && res.unwrap()@ == spec_scores(final(table)@, spec_user_ids(users@)),
        res is Ok ==> final(table)@ == spec_match_recalculated(old(table)@, users@, *game),
        res is Err ==> final(table)@ == old(table)@,
{
    let match_points = match single_match_points(users, game) {
        Ok(match_points) => match_points,
        Err(e) => { return Err(e); },
    };
    let ids = user_ids(users);
    settle(table, &match_points, &ids)
}

/// Running the recalculation a second time on the same users and matches
/// changes no row and no score, and does not fail where the first run did not.
pub proof fn lemma_recalculation_twice(
    rows: Seq<UserMatchPoints>,
    users: Seq<(User, Vec<MatchPrediction>, Vec<Favourite>)>,
    games: Seq<(MatchWithParticipants, MatchOutcome)>,
)
    requires
        keys_unique(rows),
    ensures
        spec_recalculated(spec_recalculated(rows, users, games), users, games)
            == spec_recalculated(rows, users, games),
        spec_scores(
            spec_recalculated(spec_recalculated(rows, users, games), users, games),
            spec_user_ids(users),
        ) == spec_scores(spec_recalculated(rows, users, games), spec_user_ids(users)),
        recalculation_fits(rows, users, games) ==> recalculation_fits(
            spec_recalculated(rows, users, games),
            users,
            games,
        ),
{
    lemma_upsert_all_twice(rows, spec_all_rows(users, games));
}

/// Running the recalculation of one match a second time on the same users
/// changes no row and no score.
pub proof fn lemma_match_recalculation_twice(
    rows: Seq<UserMatchPoints>,
    users: Seq<(User, Option<MatchPrediction>, Vec<Favourite>)>,
    game: (MatchWithParticipants, MatchOutcome),
)
    requires
        keys_unique(rows),
    ensures
        spec_match_recalculated(spec_match_recalculated(rows, users, game), users, game)
            == spec_match_recalculated(rows, users, game),
        spec_scores(
            spec_match_recalculated(spec_match_recalculated(rows, users, game), users, game),
            spec_user_ids(users),
        ) == spec_scores(spec_match_recalculated(rows, users, game), spec_user_ids(users)),
        match_recalculation_fits(rows, users, game) ==> match_recalculation_fits(
            spec_match_recalculated(rows, users, game),
            users,
            game,
        ),
{
    lemma_upsert_all_twice(rows, spec_match_rows(users, game));
}

/// Every match that was joined has an outcome, and is one of the matches.
pub proof fn lemma_joined_games_have_outcomes(
    games: Seq<Match>,
    participants: Seq<MatchParticipant>,
    outcomes: Seq<MatchOutcome>,
)
    ensures
        forall|k: int|
            0 <= k < spec_join_games(games, participants, outcomes).len() ==> spec_find_outcome(
                outcomes,
                (#[trigger] spec_join_games(games, participants, outcomes)[k]).0.match_id,
            ) == Some(spec_join_games(games, participants, outcomes)[k].1),
    decreases games.len(),
{
    if games.len() > 0 {
        lemma_joined_games_have_outcomes(games.drop_last(), participants, outcomes);
    }
}

/// Every row that is worked out is for one of the matches.
pub proof fn lemma_rows_are_of_games(
    users: Seq<(User, Vec<MatchPrediction>, Vec<Favourite>)>,
    games: Seq<(MatchWithParticipants, MatchOutcome)>,
)
    ensures
        forall|i: int|
            0 <= i < spec_all_rows(users, games).len() ==> exists|g: int|
                0 <= g < games.len() && (#[trigger] games[g]).0.match_id == (
                #[trigger] spec_all_rows(users, games)[i]).match_id,
    decreases users.len(),
{
    if users.len() > 0 {
        lemma_rows_are_of_games(users.drop_last(), games);
        lemma_user_rows_are_of_games(users.last(), games);
        let earlier = spec_all_rows(users.drop_last(), games);
        let last = spec_user_rows(users.last(), games);
        assert forall|i: int| 0 <= i < spec_all_rows(users, games).len() implies exists|g: int|
            0 <= g < games.len() && (#[trigger] games[g]).0.match_id == (#[trigger] spec_all_rows(
                users,
                games,
            )[i]).match_id by {
            if i < earlier.len() {
                assert(spec_all_rows(users, games)[i] == earlier[i]);
            } else {
                assert(spec_all_rows(users, games)[i] == last[i - earlier.len()]);
            }
        }
    }
}

/// Every row of one user is for the match at the same place.
pub proof fn lemma_user_rows_are_of_games(
    user: (User, Vec<MatchPrediction>, Vec<Favourite>),
    games: Seq<(MatchWithParticipants, MatchOutcome)>,
)
    ensures
        spec_user_rows(user, games).len() == games.len(),
        forall|g: int|
            0 <= g < games.len() ==> (#[trigger] spec_user_rows(user, games)[g]).match_id
                == games[g].0.match_id && spec_user_rows(user, games)[g].user_id
                == user.0.user_id,
    decreases games.len(),
{
    if games.len() > 0 {
        lemma_user_rows_are_of_games(user, games.drop_last());
    }
}

/// A match without an outcome is passed over: the recalculation writes no
/// row for it, and the rows that the table held for it stay as they were.
pub proof fn lemma_match_without_outcome_is_skipped(
    rows: Seq<UserMatchPoints>,
    users: Seq<(User, Vec<MatchPrediction>, Vec<Favourite>)>,
    plain_games: Seq<Match>,
    participants: Seq<MatchParticipant>,
    outcomes: Seq<MatchOutcome>,
    match_id: i32,
)
    requires
        keys_unique(rows),
        spec_find_outcome(outcomes, match_id) is None,
    ensures
        forall|g: int|
            0 <= g < spec_join_games(plain_games, participants, outcomes).len() ==> (
            #[trigger] spec_join_games(plain_games, participants, outcomes)[g]).0.match_id
                != match_id,
        forall|i: int|
            0 <= i < spec_all_rows(
                users,
                spec_join_games(plain_games, participants, outcomes),
            ).len() ==> (#[trigger] spec_all_rows(
                users,
                spec_join_games(plain_games, participants, outcomes),
            )[i]).match_id != match_id,
        forall|i: int|
            0 <= i < spec_recalculated(
                rows,
                users,
                spec_join_games(plain_games, participants, outcomes),
            ).len() && (#[trigger] spec_recalculated(
                rows,
                users,
                spec_join_games(plain_games, participants, outcomes),
            )[i]).match_id == match_id ==> i < rows.len() && spec_recalculated(
                rows,
                users,
                spec_join_games(plain_games, participants, outcomes),
            )[i] == rows[i],
        forall|i: int|
            0 <= i < rows.len() && (#[trigger] rows[i]).match_id == match_id ==> spec_recalculated(
                rows,
                users,
                spec_join_games(plain_games, participants, outcomes),
            )[i] == rows[i],
{
    let games = spec_join_games(plain_games, participants, outcomes);
    let new_rows = spec_all_rows(users, games);
    let after = spec_recalculated(rows, users, games);
    lemma_joined_games_have_outcomes(plain_games, participants, outcomes);
    lemma_rows_are_of_games(users, games);
    lemma_upsert_all_rows(rows, new_rows);
    assert forall|i: int| 0 <= i < new_rows.len() implies (#[trigger] new_rows[i]).match_id
        != match_id by {
        let g = choose|g: int|
            0 <= g < games.len() && (#[trigger] games[g]).0.match_id == new_rows[i].match_id;
        assert(spec_find_outcome(outcomes, games[g].0.match_id) is Some);
    }
    assert forall|i: int| 0 <= i < after.len() && (#[trigger] after[i]).match_id
        == match_id implies i < rows.len() && after[i] == rows[i] by {
        lemma_latest_is_a_row(new_rows, after[i]);
        if latest(new_rows, after[i]) is Some {
            let found = latest(new_rows, after[i])->0;
            let k = choose|k: int| 0 <= k < new_rows.len() && new_rows[k] == found;
            assert(new_rows[k].match_id != match_id);
        }
    }
    assert forall|i: int| 0 <= i < rows.len() && (#[trigger] rows[i]).match_id
        == match_id implies after[i] == rows[i] by {
        assert(same_key(after[i], rows[i]));
    }
}

} // verus!
