use vstd::prelude::*;
use rand::distributions::Uniform;
use rand::rngs::ThreadRng;
use rand::Rng;
use crate::models::UpdatedPrediction;
use crate::predictions::prediction_holds;

verus! {

/// The generator of random numbers that belongs to the running thread.
#[verifier::external_type_specification]
#[verifier::external_body]
pub struct ExThreadRng(ThreadRng);

/// The numbers of goals that a lucky prediction is drawn from. A number that
/// stands here more often is drawn more often.
pub const GOAL_POSSIBILITIES: [i16; 25] = [
    0, 0, 0, 0, 0, 0, 0, 1, 1, 1, 1, 1, 1, 2, 2, 2, 2, 3, 3, 3, 4, 4, 5, 6, 7,
];

/// The matches up to this one belong to the group stage.
pub const LAST_GROUP_MATCH: i32 = 48;

/// `Rng::choose` of rand: one of the values, whichever the generator picks,
/// and `None` where there is no value to pick.
#[verifier::external_body]
fn choose_one(rng: &mut ThreadRng, values: &[i16]) -> (picked: Option<i16>)
    ensures
        values@.len() == 0 ==> picked is None,
        values@.len() > 0 ==> picked is Some && values@.contains(picked.unwrap()),
{
    rng.choose(values).copied()
}

/// `Rng::sample` of rand on `Uniform::from(low..high)`: a number from `low`
/// up to, and without, `high`.
#[verifier::external_body]
fn sample_between(rng: &mut ThreadRng, low: i16, high: i16) -> (drawn: i16)
    requires
        low < high,
    ensures
        low <= drawn < high,
{
    rng.sample(Uniform::from(low..high))
}

/// `Rng::gen_range` of rand: a number from `low` up to, and without, `high`.
#[verifier::external_body]
fn range_between(rng: &mut ThreadRng, low: i16, high: i16) -> (drawn: i16)
    requires
        low < high,
    ensures
        low <= drawn < high,
{
    rng.gen_range(low, high)
}

/// `Rng::gen` of rand at `bool`: true or false, the one as likely as the
/// other. Nothing is claimed of which it is.
#[verifier::external_body]
fn toss(rng: &mut ThreadRng) -> (heads: bool) {
    rng.gen::<bool>()
}

/// What was drawn for one lucky prediction.
#[derive(Clone, Copy, Debug, PartialEq, Eq)]
pub struct LuckyDraws {
    pub home_score: i16,
    pub away_score: i16,
    /// The minute of the first goal, should there be one.
    pub minute: i16,
    /// The home side's penalties, should there be a shoot-out.
    pub home_penalties: i16,
    pub coin: bool,
}

impl LuckyDraws {
    /// Each number is one that can be drawn.
    pub open spec fn wf(self) -> bool {
        &&& GOAL_POSSIBILITIES@.contains(self.home_score)
        &&& GOAL_POSSIBILITIES@.contains(self.away_score)
        &&& 0 <= self.minute < 90
        &&& 0 <= self.home_penalties < 10
    }
}

/// The minute of the first goal of a lucky prediction: 0 without a goal.
pub open spec fn lucky_minute(draws: LuckyDraws) -> i16 {
    if draws.home_score > 0 || draws.away_score > 0 {
        draws.minute
    } else {
        0
    }
}

/// The home side's penalties of a lucky prediction: only for a drawn match
/// after the group stage.
pub open spec fn lucky_home_penalties(match_id: i32, draws: LuckyDraws) -> Option<i16> {
    if match_id > LAST_GROUP_MATCH && draws.home_score == draws.away_score {
        Some(draws.home_penalties)
    } else {
        None
    }
}

/// The away side's penalties of a lucky prediction: 5 against fewer than 5,
/// else one more or one less than the home side's, as the coin falls.
pub open spec fn lucky_away_penalties(match_id: i32, draws: LuckyDraws) -> Option<i16> {
    if match_id > LAST_GROUP_MATCH && draws.home_score == draws.away_score {
        if draws.home_penalties < 5 {
            Some(5i16)
        } else if draws.coin {
            Some((draws.home_penalties + 1) as i16)
        } else {
            Some((draws.home_penalties - 1) as i16)
        }
    } else {
        None
    }
}

/// The duration of a lucky prediction: none in the group stage, 120 minutes
/// for a drawn match, and 90 or 120 for another, as the coin falls.
pub open spec fn lucky_duration(match_id: i32, draws: LuckyDraws) -> Option<i16> {
    if match_id <= LAST_GROUP_MATCH {
        None
    } else if draws.home_score == draws.away_score {
        Some(120i16)
    } else if draws.coin {
        Some(90i16)
    } else {
        Some(120i16)
    }
}

/// The prediction is the lucky one that these draws give.
pub open spec fn is_lucky_prediction(
    prediction: UpdatedPrediction,
    user_id: i32,
    match_id: i32,
    draws: LuckyDraws,
) -> bool {
    prediction_holds(
        prediction,
        user_id,
        match_id,
        draws.home_score,
        draws.away_score,
        lucky_minute(draws),
        "lucky"@,
        lucky_home_penalties(match_id, draws),
        lucky_away_penalties(match_id, draws),
        lucky_duration(match_id, draws),
    )
}

/// The lucky prediction that the draws give. The home side's penalties must
/// leave room for one more and one less.
pub fn prediction_from_draws(user_id: i32, match_id: i32, draws: &LuckyDraws) -> (prediction:
    UpdatedPrediction)
    requires
        i16::MIN < draws.home_penalties < i16::MAX,
    ensures
        is_lucky_prediction(prediction, user_id, match_id, *draws),
{
    let time_of_first_goal = if draws.home_score > 0 || draws.away_score > 0 {
        draws.minute
    } else {
        0
    };
    let (home_penalties, away_penalties, duration) = if match_id <= LAST_GROUP_MATCH {
        (None, None, None)
    } else if draws.home_score == draws.away_score {
        let home = draws.home_penalties;
        let away = if home < 5 {
            5
        } else if draws.coin {
            home + 1
        } else {
            home - 1
        };
        (Some(home), Some(away), Some(120))
    } else {
        (None, None, Some(if draws.coin { 90 } else { 120 }))
    };
    UpdatedPrediction {
        user_id,
        match_id,
        home_score: draws.home_score,
        away_score: draws.away_score,
        time_of_first_goal,
        source: "lucky".to_string(),
        home_penalties,
        away_penalties,
        duration,
    }
}

/// A lucky prediction for the match: goals drawn from `GOAL_POSSIBILITIES`,
/// and a minute, penalties and a duration drawn as far as the prediction needs
/// them. Whatever the generator gives, the result is the lucky prediction of
/// some draws that can be drawn.
pub fn generate_random_score(rng: &mut ThreadRng, user_id: i32, match_id: i32) -> (prediction:
    UpdatedPrediction)
    ensures
        exists|draws: LuckyDraws| #[trigger]
            draws.wf() && is_lucky_prediction(prediction, user_id, match_id, draws),
{
    let home_score = match choose_one(rng, GOAL_POSSIBILITIES.as_slice()) {
        Some(goals) => goals,
        None => 0,
    };
    let away_score = match choose_one(rng, GOAL_POSSIBILITIES.as_slice()) {
        Some(goals) => goals,
        None => 0,
    };
    let minute = if home_score > 0 || away_score > 0 {
        sample_between(rng, 0, 90)
    } else {
        0
    };
    let mut home_penalties: i16 = 0;
    let mut coin = false;
    if match_id > LAST_GROUP_MATCH {
        if home_score == away_score {
            home_penalties = range_between(rng, 0, 10);
            if home_penalties >= 5 {
                coin = toss(rng);
            }
        } else {
            coin = toss(rng);
        }
    }
    let draws = LuckyDraws { home_score, away_score, minute, home_penalties, coin };
    let prediction = prediction_from_draws(user_id, match_id, &draws);
    proof {
        assert(draws.wf() && is_lucky_prediction(prediction, user_id, match_id, draws));
    }
    prediction
}

} // verus!
