use vstd::prelude::*;
use crate::error::RecomputeError;
use crate::models::{Favourite, MatchOutcome, MatchPrediction, MatchWithParticipants, User, UserMatchPoints};

verus! {

/// The stages that a match can belong to.
pub open spec fn stage_is_known(stage_id: int) -> bool {
    1 <= stage_id <= 6
}

/// The phase of a known stage: 0 for the group stage, 1 for the first two
/// knockout rounds, 2 for the rounds after them.
pub open spec fn phase_of_stage(stage_id: int) -> int {
    if stage_id == 1 {
        0
    } else if stage_id == 2 || stage_id == 3 {
        1
    } else {
        2
    }
}

/// The phase of the match's stage, or `InvalidStage` where the stage is none
/// of 1..=6.
pub fn phase_of(game: &MatchWithParticipants) -> (res: Result<i16, RecomputeError>)
    ensures
        stage_is_known(game.stage_id as int) ==> res == Ok::<i16, RecomputeError>(
            phase_of_stage(game.stage_id as int) as i16,
        ),
        !stage_is_known(game.stage_id as int) ==> res == Err::<i16, RecomputeError>(
            RecomputeError::InvalidStage,
        ),
{
    match game.stage_id {
        1 => Ok(0),
        2 | 3 => Ok(1),
        4 | 5 | 6 => Ok(2),
        _ => Err(RecomputeError::InvalidStage),
    }
}

/// Which side has more: 1 for the first, -1 for the second, 0 for neither.
pub open spec fn winner_of(home: int, away: int) -> int {
    if home > away {
        1
    } else if home == away {
        0
    } else {
        -1
    }
}

/// What a side earns for the result: 3 for a win, 1 for a draw, 0 for a loss.
pub open spec fn result_bonus(own: int, other: int) -> int {
    if own > other {
        3
    } else if own == other {
        1
    } else {
        0
    }
}

/// The 3 extra points for the side that wins the final (stage 5) outright.
pub open spec fn championship_bonus(stage_id: int, own: int, other: int) -> int {
    if stage_id == 5 && own > other {
        3
    } else {
        0
    }
}

/// What a favourite earns when it is one of the two sides: the goals that the
/// side scored, the bonus for the result, and the bonus for winning the final.
pub open spec fn side_points(stage_id: int, own: int, other: int) -> int {
    own + result_bonus(own, other) + championship_bonus(stage_id, own, other)
}

/// The points of one favourite for one match of a known stage.
///
/// Nothing for a favourite that was last changed at kickoff or later, nothing
/// for one of another phase, nothing for one that names no country or whose
/// country plays on neither side. The home side is looked at first.
pub open spec fn spec_favourite_points(
    favourite: Favourite,
    game: MatchWithParticipants,
    outcome: MatchOutcome,
) -> int {
    if favourite.updated_at.at_or_after(game.time) {
        0
    } else if favourite.phase as int != phase_of_stage(game.stage_id as int) {
        0
    } else if favourite.country_id is None {
        0
    } else if favourite.country_id == game.home_participant.country_id {
        side_points(game.stage_id as int, outcome.home_score as int, outcome.away_score as int)
    } else if favourite.country_id == game.away_participant.country_id {
        side_points(game.stage_id as int, outcome.away_score as int, outcome.home_score as int)
    } else {
        0
    }
}

/// The points for the three parts of a scoreline: 2 for the right winner (or
/// the right draw), 1 for each side's goals, and 3 more where all three are
/// right.
pub open spec fn scoreline_points(
    predicted_home: int,
    predicted_away: int,
    actual_home: int,
    actual_away: int,
) -> int {
    let base = (if winner_of(predicted_home, predicted_away) == winner_of(
        actual_home,
        actual_away,
    ) {
        2int
    } else {
        0int
    }) + (if predicted_home == actual_home {
        1int
    } else {
        0int
    }) + (if predicted_away == actual_away {
        1int
    } else {
        0int
    });
    if base == 4 {
        base + 3
    } else {
        base
    }
}

/// The points for a predicted shoot-out against the one that took place.
///
/// A side is taken to win the shoot-out when it has more penalties than the
/// other; with equal numbers the away side is taken. 1 for the right winner,
/// then 1 for each side's number, and 1 more where both numbers are right.
/// Nothing where any of the four numbers is missing.
pub open spec fn shootout_points(
    predicted_home: Option<i16>,
    predicted_away: Option<i16>,
    actual_home: Option<i16>,
    actual_away: Option<i16>,
) -> int {
    if predicted_home is Some && predicted_away is Some && actual_home is Some
        && actual_away is Some {
        let ph = predicted_home->0;
        let pa = predicted_away->0;
        let ah = actual_home->0;
        let aa = actual_away->0;
        if (ph > pa) == (ah > aa) {
            let hits = 1 + (if ph == ah {
                1int
            } else {
                0int
            }) + (if pa == aa {
                1int
            } else {
                0int
            });
            if hits == 3 {
                4
            } else {
                hits
            }
        } else {
            0
        }
    } else {
        0
    }
}

/// The point for having backed the side that went on to win the shoot-out of
/// a match that the user did not expect to be drawn. Nothing where a number
/// of the shoot-out is missing.
pub open spec fn consolation_point(
    predicted_winner: int,
    actual_home: Option<i16>,
    actual_away: Option<i16>,
) -> int {
    if actual_home is Some && actual_away is Some && winner_of(
        actual_home->0 as int,
        actual_away->0 as int,
    ) == predicted_winner {
        1
    } else {
        0
    }
}

/// The point for the right duration. A prediction without a duration counts
/// as one of 90 minutes; an outcome without one matches nothing.
pub open spec fn duration_point(predicted: Option<i16>, actual: Option<i16>) -> int {
    let assumed: i16 = if predicted is Some {
        predicted->0
    } else {
        90i16
    };
    if actual is Some && actual->0 == assumed {
        1
    } else {
        0
    }
}

/// What the knockout rounds add to the points of a prediction.
pub open spec fn knockout_points(prediction: MatchPrediction, outcome: MatchOutcome) -> int {
    let predicted_winner = winner_of(prediction.home_score as int, prediction.away_score as int);
    let actual_winner = winner_of(outcome.home_score as int, outcome.away_score as int);
    if actual_winner == 0 {
        if predicted_winner == 0 {
            1 + shootout_points(
                prediction.home_penalties,
                prediction.away_penalties,
                outcome.home_penalties,
                outcome.away_penalties,
            )
        } else {
            consolation_point(predicted_winner, outcome.home_penalties, outcome.away_penalties)
        }
    } else if predicted_winner != 0 {
        duration_point(prediction.duration, outcome.duration)
    } else {
        0
    }
}

/// A prediction that was last changed at kickoff or later earns nothing.
pub open spec fn prediction_is_late(
    prediction: MatchPrediction,
    game: MatchWithParticipants,
) -> bool {
    prediction.updated_at.at_or_after(game.time)
}

/// The points of a prediction for a match of a known stage, without those
/// for the time of the first goal.
pub open spec fn spec_prediction_points(
    prediction: MatchPrediction,
    game: MatchWithParticipants,
    outcome: MatchOutcome,
) -> int {
    if prediction_is_late(prediction, game) {
        0
    } else {
        scoreline_points(
            prediction.home_score as int,
            prediction.away_score as int,
            outcome.home_score as int,
            outcome.away_score as int,
        ) + (if phase_of_stage(game.stage_id as int) >= 1 {
            knockout_points(prediction, outcome)
        } else {
            0
        })
    }
}

/// How far two minutes lie apart.
pub open spec fn minutes_apart(a: int, b: int) -> int {
    if a >= b {
        a - b
    } else {
        b - a
    }
}

/// The points for the time of the first goal: 5 less one for each minute
/// between the predicted and the actual time, never less than 0; and nothing
/// where the predicted winner is not the actual one or the prediction is late.
pub open spec fn spec_tofg_points(
    prediction: MatchPrediction,
    game: MatchWithParticipants,
    outcome: MatchOutcome,
) -> int {
    if prediction_is_late(prediction, game) {
        0
    } else if winner_of(prediction.home_score as int, prediction.away_score as int)
        != winner_of(outcome.home_score as int, outcome.away_score as int) {
        0
    } else {
        let apart = minutes_apart(
            outcome.time_of_first_goal as int,
            prediction.time_of_first_goal as int,
        );
        if apart >= 5 {
            0
        } else {
            5 - apart
        }
    }
}

/// The points of all of a user's favourites for one match.
pub open spec fn spec_favourites_total(
    favourites: Seq<Favourite>,
    game: MatchWithParticipants,
    outcome: MatchOutcome,
) -> int
    decreases favourites.len(),
{
    if favourites.len() == 0 {
        0
    } else {
        spec_favourites_total(favourites.drop_last(), game, outcome) + spec_favourite_points(
            favourites.last(),
            game,
            outcome,
        )
    }
}

/// The points of a prediction, if there is one: those for the result and
/// those for the time of the first goal.
pub open spec fn spec_prediction_parts(
    prediction: Option<MatchPrediction>,
    game: MatchWithParticipants,
    outcome: MatchOutcome,
) -> (int, int) {
    match prediction {
        Some(p) => (spec_prediction_points(p, game, outcome), spec_tofg_points(p, game, outcome)),
        None => (0, 0),
    }
}

/// The sum of all three parts of a user's points for one match.
pub open spec fn spec_total_points(
    favourites: Seq<Favourite>,
    prediction: Option<MatchPrediction>,
    game: MatchWithParticipants,
    outcome: MatchOutcome,
) -> int {
    spec_prediction_parts(prediction, game, outcome).0 + spec_prediction_parts(
        prediction,
        game,
        outcome,
    ).1 + spec_favourites_total(favourites, game, outcome)
}

/// The points can be written down as 32-bit numbers.
pub open spec fn points_fit(
    favourites: Seq<Favourite>,
    prediction: Option<MatchPrediction>,
    game: MatchWithParticipants,
    outcome: MatchOutcome,
) -> bool {
    i32::MIN <= spec_favourites_total(favourites, game, outcome) && spec_total_points(
        favourites,
        prediction,
        game,
        outcome,
    ) <= i32::MAX
}

/// The row of points of one user for one match of a known stage.
pub open spec fn spec_user_match_points(
    user_id: i32,
    favourites: Seq<Favourite>,
    prediction: Option<MatchPrediction>,
    game: MatchWithParticipants,
    outcome: MatchOutcome,
) -> UserMatchPoints {
    UserMatchPoints {
        user_id,
        match_id: game.match_id,
        favourites: spec_favourites_total(favourites, game, outcome) as i32,
        prediction: spec_prediction_parts(prediction, game, outcome).0 as i32,
        time_of_first_goal: spec_prediction_parts(prediction, game, outcome).1 as i32,
        total: spec_total_points(favourites, prediction, game, outcome) as i32,
    }
}

/// The prediction behind a reference, as contracts speak of it.
pub open spec fn prediction_of(prediction: Option<&MatchPrediction>) -> Option<MatchPrediction> {
    match prediction {
        Some(p) => Some(*p),
        None => None,
    }
}

/// The bounds within which the points of one favourite always lie.
pub proof fn lemma_favourite_points_bounds(
    favourite: Favourite,
    game: MatchWithParticipants,
    outcome: MatchOutcome,
)
    ensures
        -32768 <= spec_favourite_points(favourite, game, outcome) <= 32773,
{
}

/// The bounds within which the points of a prediction always lie.
pub proof fn lemma_prediction_points_bounds(
    prediction: MatchPrediction,
    game: MatchWithParticipants,
    outcome: MatchOutcome,
)
    ensures
        0 <= spec_prediction_points(prediction, game, outcome) <= 12,
        0 <= spec_tofg_points(prediction, game, outcome) <= 5,
{
}

/// With at most this many favourites the points of a user always fit.
pub const MAX_FAVOURITES: usize = 65_000;

/// The bounds within which the points of a number of favourites always lie.
pub proof fn lemma_favourites_total_bounds(
    favourites: Seq<Favourite>,
    game: MatchWithParticipants,
    outcome: MatchOutcome,
)
    ensures
        -32768 * favourites.len() <= spec_favourites_total(favourites, game, outcome) <= 32773
            * favourites.len(),
    decreases favourites.len(),
{
    if favourites.len() > 0 {
        lemma_favourites_total_bounds(favourites.drop_last(), game, outcome);
        lemma_favourite_points_bounds(favourites.last(), game, outcome);
    }
}

/// The points of a user with at most `MAX_FAVOURITES` favourites fit, for
/// whatever match and prediction.
pub proof fn lemma_few_favourites_fit(
    favourites: Seq<Favourite>,
    prediction: Option<MatchPrediction>,
    game: MatchWithParticipants,
    outcome: MatchOutcome,
)
    requires
        favourites.len() <= MAX_FAVOURITES,
    ensures
        points_fit(favourites, prediction, game, outcome),
{
    lemma_favourites_total_bounds(favourites, game, outcome);
    if prediction is Some {
        lemma_prediction_points_bounds(prediction.unwrap(), game, outcome);
    }
}

/// Whether the favourites are at most `MAX_FAVOURITES`, so that the points
/// that they earn fit for whatever match and prediction.
pub fn few_enough(favourites: &Vec<Favourite>) -> (ok: bool)
    ensures
        ok == (favourites@.len() <= MAX_FAVOURITES),
        ok ==> forall|
            prediction: Option<MatchPrediction>,
            game: MatchWithParticipants,
            outcome: MatchOutcome,
        | #[trigger] points_fit(favourites@, prediction, game, outcome),
{
    let ok = favourites.len() <= MAX_FAVOURITES;
    proof {
        if ok {
            assert forall|
                prediction: Option<MatchPrediction>,
                game: MatchWithParticipants,
                outcome: MatchOutcome,
            | #[trigger] points_fit(favourites@, prediction, game, outcome) by {
                lemma_few_favourites_fit(favourites@, prediction, game, outcome);
            }
        }
    }
    ok
}

/// The points of one favourite: see `spec_favourite_points`.
pub fn favourite_points(
    favourite: &Favourite,
    game: &MatchWithParticipants,
    outcome: &MatchOutcome,
) -> (res: Result<i32, RecomputeError>)
    ensures
        stage_is_known(game.stage_id as int) ==> res == Ok::<i32, RecomputeError>(
            spec_favourite_points(*favourite, *game, *outcome) as i32,
        ),
        !stage_is_known(game.stage_id as int) ==> res == Err::<i32, RecomputeError>(
            RecomputeError::InvalidStage,
        ),
{
    let phase = match phase_of(game) {
        Ok(phase) => phase,
        Err(e) => { return Err(e); },
    };
    if favourite.updated_at.is_at_or_after(&game.time) {
        return Ok(0);
    }
    if favourite.phase != phase {
        return Ok(0);
    }
    if favourite.country_id.is_none() {
        return Ok(0);
    }
    if favourite.country_id == game.home_participant.country_id {
        Ok(points_for_side(game.stage_id, outcome.home_score, outcome.away_score))
    } else if favourite.country_id == game.away_participant.country_id {
        Ok(points_for_side(game.stage_id, outcome.away_score, outcome.home_score))
    } else {
        Ok(0)
    }
}

fn points_for_side(stage_id: i32, own: i16, other: i16) -> (points: i32)
    ensures
        points == side_points(stage_id as int, own as int, other as int),
{
    let goals: i32 = own as i32;
    let bonus: i32 = if own > other {
        3
    } else if own == other {
        1
    } else {
        0
    };
    let championship: i32 = if stage_id == 5 && own > other {
        3
    } else {
        0
    };
    goals + bonus + championship
}

fn winner(home: i16, away: i16) -> (w: i8)
    ensures
        w == winner_of(home as int, away as int),
{
    if home > away {
        1
    } else if home == away {
        0
    } else {
        -1
    }
}

fn shootout(
    predicted_home: Option<i16>,
    predicted_away: Option<i16>,
    actual_home: Option<i16>,
    actual_away: Option<i16>,
) -> (points: i32)
    ensures
        points == shootout_points(predicted_home, predicted_away, actual_home, actual_away),
{
    match (predicted_home, predicted_away, actual_home, actual_away) {
        (Some(ph), Some(pa), Some(ah), Some(aa)) => {
            if (ph > pa) == (ah > aa) {
                let mut hits: i32 = 1;
                if ph == ah {
                    hits += 1;
                }
                if pa == aa {
                    hits += 1;
                }
                if hits == 3 {
                    hits += 1;
                }
                hits
            } else {
                0
            }
        },
        _ => 0,
    }
}

/// The points of a prediction and those for the time of the first goal: see
/// `spec_prediction_points` and `spec_tofg_points`.
pub fn prediction_and_tofg_points(
    prediction: &MatchPrediction,
    game: &MatchWithParticipants,
    outcome: &MatchOutcome,
) -> (res: Result<(i32, i32), RecomputeError>)
    ensures
        stage_is_known(game.stage_id as int) ==> res == Ok::<(i32, i32), RecomputeError>(
            (
                spec_prediction_points(*prediction, *game, *outcome) as i32,
                spec_tofg_points(*prediction, *game, *outcome) as i32,
            ),
        ),
        !stage_is_known(game.stage_id as int) ==> res == Err::<(i32, i32), RecomputeError>(
            RecomputeError::InvalidStage,
        ),
{
    let phase = match phase_of(game) {
        Ok(phase) => phase,
        Err(e) => { return Err(e); },
    };
    if prediction.updated_at.is_at_or_after(&game.time) {
        return Ok((0, 0));
    }
    let predicted_winner = winner(prediction.home_score, prediction.away_score);
    let actual_winner = winner(outcome.home_score, outcome.away_score);

    let mut result: i32 = 0;
    if predicted_winner == actual_winner {
        result += 2;
    }
    if prediction.home_score == outcome.home_score {
        result += 1;
    }
    if prediction.away_score == outcome.away_score {
        result += 1;
    }
    if result == 4 {
        result += 3;
    }
    if phase >= 1 {
        if actual_winner == 0 {
            if predicted_winner == 0 {
                result += 1;
                result += shootout(
                    prediction.home_penalties,
                    prediction.away_penalties,
                    outcome.home_penalties,
                    outcome.away_penalties,
                );
            } else {
                match (outcome.home_penalties, outcome.away_penalties) {
                    (Some(home_penalties), Some(away_penalties)) => {
                        if winner(home_penalties, away_penalties) == predicted_winner {
                            result += 1;
                        }
                    },
                    _ => {},
                }
            }
        } else if predicted_winner != 0 {
            let assumed: i16 = match prediction.duration {
                Some(minutes) => minutes,
                None => 90,
            };
            match outcome.duration {
                Some(minutes) => {
                    if minutes == assumed {
                        result += 1;
                    }
                },
                None => {},
            }
        }
    }
    let points_for_time_of_goal: i32 = if predicted_winner == actual_winner {
        let actual: i32 = outcome.time_of_first_goal as i32;
        let predicted: i32 = prediction.time_of_first_goal as i32;
        let apart: i32 = if actual >= predicted {
            actual - predicted
        } else {
            predicted - actual
        };
        if apart >= 5 {
            0
        } else {
            5 - apart
        }
    } else {
        0
    };
    Ok((result, points_for_time_of_goal))
}

/// The points of one user for one match, as far as they can be written down:
/// `InvalidStage` where the match's stage is none of 1..=6, and else `None`
/// where the points are no 32-bit numbers, and the row of points where they
/// are.
pub fn points_if_they_fit(
    user_id: i32,
    favourites: &Vec<Favourite>,
    prediction: Option<&MatchPrediction>,
    game: &MatchWithParticipants,
    outcome: &MatchOutcome,
) -> (res: Result<Option<UserMatchPoints>, RecomputeError>)
    ensures
        !stage_is_known(game.stage_id as int) ==> res == Err::<
            Option<UserMatchPoints>,
            RecomputeError,
        >(RecomputeError::InvalidStage),
        stage_is_known(game.stage_id as int) && !points_fit(
            favourites@,
            prediction_of(prediction),
            *game,
            *outcome,
        ) ==> res == Ok::<Option<UserMatchPoints>, RecomputeError>(None),
        stage_is_known(game.stage_id as int) && points_fit(
            favourites@,
            prediction_of(prediction),
            *game,
            *outcome,
        ) ==> res == Ok::<Option<UserMatchPoints>, RecomputeError>(
            Some(
                spec_user_match_points(
                    user_id,
                    favourites@,
                    prediction_of(prediction),
                    *game,
                    *outcome,
                ),
            ),
        ),
{
    if phase_of(game).is_err() {
        return Err(RecomputeError::InvalidStage);
    }
    let mut fav_points: i128 = 0;
    let mut i: usize = 0;
    while i < favourites.len()
        invariant
            i <= favourites.len(),
            stage_is_known(game.stage_id as int),
            fav_points == spec_favourites_total(favourites@.take(i as int), *game, *outcome),
            -32768 * i <= fav_points <= 32773 * i,
        decreases favourites.len() - i,
    {
        let points = match favourite_points(&favourites[i], game, outcome) {
            Ok(points) => points,
            Err(e) => { return Err(e); },
        };
        proof {
            lemma_favourite_points_bounds(favourites@[i as int], *game, *outcome);
            assert(favourites@.take(i + 1).drop_last() =~= favourites@.take(i as int));
        }
        fav_points = fav_points + points as i128;
        i += 1;
    }
    proof {
        assert(favourites@.take(i as int) =~= favourites@);
    }
    let (prediction_points, tofg_points) = match prediction {
        Some(prediction) => {
            proof {
                lemma_prediction_points_bounds(*prediction, *game, *outcome);
            }
            match prediction_and_tofg_points(prediction, game, outcome) {
                Ok(parts) => parts,
                Err(e) => { return Err(e); },
            }
        },
        None => (0, 0),
    };
    let total: i128 = prediction_points as i128 + tofg_points as i128 + fav_points;
    if fav_points < -0x8000_0000 || total > 0x7fff_ffff {
        return Ok(None);
    }
    Ok(
        Some(
            UserMatchPoints {
                user_id,
                match_id: game.match_id,
                favourites: fav_points as i32,
                prediction: prediction_points,
                time_of_first_goal: tofg_points,
                total: total as i32,
            },
        ),
    )
}

/// The points of one user for one match.
///
/// `InvalidStage` where the match's stage is none of 1..=6; else the row that
/// holds the sum over the user's favourites, the points of the prediction (0
/// without one), those for the time of the first goal, and the sum of the
/// three.
pub fn compute_points(
    user_id: i32,
    favourites: &Vec<Favourite>,
    prediction: Option<&MatchPrediction>,
    game: &MatchWithParticipants,
    outcome: &MatchOutcome,
) -> (res: Result<UserMatchPoints, RecomputeError>)
    requires
        stage_is_known(game.stage_id as int) ==> points_fit(
            favourites@,
            prediction_of(prediction),
            *game,
            *outcome,
        ),
    ensures
        stage_is_known(game.stage_id as int) ==> res == Ok::<UserMatchPoints, RecomputeError>(
            spec_user_match_points(
                user_id,
                favourites@,
                prediction_of(prediction),
                *game,
                *outcome,
            ),
        ),
        !stage_is_known(game.stage_id as int) ==> res == Err::<UserMatchPoints, RecomputeError>(
            RecomputeError::InvalidStage,
        ),
{
    match points_if_they_fit(user_id, favourites, prediction, game, outcome) {
        Ok(Some(points)) => Ok(points),
        Ok(None) => vstd::pervasive::unreached(),
        Err(e) => Err(e),
    }
}

/// The points of one user, given with the prediction for this match and all
/// favourites, for one match with its outcome: see `compute_points`.
pub fn user_match_points(
    user_with_prediction: &(User, Option<MatchPrediction>, Vec<Favourite>),
    game: &(MatchWithParticipants, MatchOutcome),
) -> (res: Result<UserMatchPoints, RecomputeError>)
    requires
        stage_is_known(game.0.stage_id as int) ==> points_fit(
            user_with_prediction.2@,
            user_with_prediction.1,
            game.0,
            game.1,
        ),
    ensures
        stage_is_known(game.0.stage_id as int) ==> res == Ok::<UserMatchPoints, RecomputeError>(
            spec_user_match_points(
                user_with_prediction.0.user_id,
                user_with_prediction.2@,
                user_with_prediction.1,
                game.0,
                game.1,
            ),
        ),
        !stage_is_known(game.0.stage_id as int) ==> res == Err::<UserMatchPoints, RecomputeError>(
            RecomputeError::InvalidStage,
        ),
{
    let prediction: Option<&MatchPrediction> = match &user_with_prediction.1 {
        Some(prediction) => Some(prediction),
        None => None,
    };
    compute_points(
        user_with_prediction.0.user_id,
        &user_with_prediction.2,
        prediction,
        &game.0,
        &game.1,
    )
}

/// Where the points fit, the total of a row is the sum of its three parts.
pub proof fn lemma_total_is_the_sum(
    user_id: i32,
    favourites: Seq<Favourite>,
    prediction: Option<MatchPrediction>,
    game: MatchWithParticipants,
    outcome: MatchOutcome,
)
    requires
        points_fit(favourites, prediction, game, outcome),
    ensures
        spec_user_match_points(user_id, favourites, prediction, game, outcome).total
            == spec_user_match_points(user_id, favourites, prediction, game, outcome).favourites
            + spec_user_match_points(user_id, favourites, prediction, game, outcome).prediction
            + spec_user_match_points(
            user_id,
            favourites,
            prediction,
            game,
            outcome,
        ).time_of_first_goal,
{
    if prediction is Some {
        lemma_prediction_points_bounds(prediction.unwrap(), game, outcome);
    }
}

/// A prediction that was last changed at kickoff or later earns nothing, for
/// the result or for the time of the first goal, whatever it holds.
pub proof fn lemma_late_prediction_earns_nothing(
    user_id: i32,
    favourites: Seq<Favourite>,
    prediction: MatchPrediction,
    game: MatchWithParticipants,
    outcome: MatchOutcome,
)
    requires
        prediction.updated_at.at_or_after(game.time),
    ensures
        spec_prediction_points(prediction, game, outcome) == 0,
        spec_tofg_points(prediction, game, outcome) == 0,
        spec_user_match_points(user_id, favourites, Some(prediction), game, outcome).prediction
            == 0,
        spec_user_match_points(
            user_id,
            favourites,
            Some(prediction),
            game,
            outcome,
        ).time_of_first_goal == 0,
{
}

/// A favourite that was last changed at kickoff or later earns nothing, and
/// adds nothing to what the other favourites earn.
pub proof fn lemma_late_favourite_earns_nothing(
    others: Seq<Favourite>,
    favourite: Favourite,
    game: MatchWithParticipants,
    outcome: MatchOutcome,
)
    requires
        favourite.updated_at.at_or_after(game.time),
    ensures
        spec_favourite_points(favourite, game, outcome) == 0,
        spec_favourites_total(others.push(favourite), game, outcome) == spec_favourites_total(
            others,
            game,
            outcome,
        ),
{
    assert(others.push(favourite).drop_last() =~= others);
}

/// Where the predicted winner is not the actual one, the time of the first
/// goal earns nothing, however close the predicted time is.
pub proof fn lemma_wrong_winner_earns_no_time_points(
    prediction: MatchPrediction,
    game: MatchWithParticipants,
    outcome: MatchOutcome,
)
    requires
        winner_of(prediction.home_score as int, prediction.away_score as int) != winner_of(
            outcome.home_score as int,
            outcome.away_score as int,
        ),
    ensures
        spec_tofg_points(prediction, game, outcome) == 0,
{
}

/// The scoreline earns 7 points exactly when both numbers of goals are right,
/// and at most 3 otherwise.
pub proof fn lemma_exact_scoreline(
    predicted_home: int,
    predicted_away: int,
    actual_home: int,
    actual_away: int,
)
    ensures
        scoreline_points(predicted_home, predicted_away, actual_home, actual_away) == 7 <==> (
        predicted_home == actual_home && predicted_away == actual_away),
        !(predicted_home == actual_home && predicted_away == actual_away) ==> 0
            <= scoreline_points(predicted_home, predicted_away, actual_home, actual_away) <= 3,
{
}

} // verus!
