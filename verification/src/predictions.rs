use vstd::prelude::*;
use crate::clock::{current_time, Timestamp};
use crate::models::{Match, UpdatedPrediction};
use crate::text::{parse_i16, parse_i32, same_text, spec_parse_i16, spec_parse_i32};

verus! {

/// What a user entered for one match. The penalties and the duration come as
/// text, and may be empty.
#[derive(Clone, Debug)]
pub struct PredictionForm {
    pub home_score: i16,
    pub away_score: i16,
    pub time_of_first_goal: i16,
    pub home_penalties: String,
    pub away_penalties: String,
    pub duration: String,
}

/// Why a prediction was not taken.
#[derive(Clone, Copy, Debug, PartialEq, Eq, Structural)]
pub enum PredictionError {
    /// A number of the form could not be read.
    InvalidNumber,
    /// The match has started.
    TooLateToPredict,
}

/// The prediction holds exactly these values.
pub open spec fn prediction_holds(
    prediction: UpdatedPrediction,
    user_id: i32,
    match_id: i32,
    home_score: i16,
    away_score: i16,
    time_of_first_goal: i16,
    source: Seq<char>,
    home_penalties: Option<i16>,
    away_penalties: Option<i16>,
    duration: Option<i16>,
) -> bool {
    &&& prediction.user_id == user_id
    &&& prediction.match_id == match_id
    &&& prediction.home_score == home_score
    &&& prediction.away_score == away_score
    &&& prediction.time_of_first_goal == time_of_first_goal
    &&& prediction.source@ == source
    &&& prediction.home_penalties == home_penalties
    &&& prediction.away_penalties == away_penalties
    &&& prediction.duration == duration
}

/// The penalties of a form: none where the home side's are left empty, else
/// both numbers. `None` where a number cannot be read.
pub open spec fn spec_form_penalties(home: Seq<char>, away: Seq<char>) -> Option<
    (Option<i16>, Option<i16>),
> {
    if home.len() == 0 {
        Some((None, None))
    } else if spec_parse_i16(home) is Some && spec_parse_i16(away) is Some {
        Some((spec_parse_i16(home), spec_parse_i16(away)))
    } else {
        None
    }
}

/// The duration of a form: none for a match of the group stage, else the
/// number. `None` where the number cannot be read.
pub open spec fn spec_form_duration(stage_id: i32, duration: Seq<char>) -> Option<Option<i16>> {
    if stage_id > 1 {
        if spec_parse_i16(duration) is Some {
            Some(spec_parse_i16(duration))
        } else {
            None
        }
    } else {
        Some(None)
    }
}

/// The numbers of the form can be read.
pub open spec fn form_is_readable(stage_id: i32, form: PredictionForm) -> bool {
    spec_form_penalties(form.home_penalties@, form.away_penalties@) is Some && spec_form_duration(
        stage_id,
        form.duration@,
    ) is Some
}

/// The prediction is what the form says, entered by hand.
pub open spec fn prediction_matches_form(
    prediction: UpdatedPrediction,
    user_id: i32,
    match_id: i32,
    stage_id: i32,
    form: PredictionForm,
) -> bool {
    let penalties = spec_form_penalties(form.home_penalties@, form.away_penalties@).unwrap();
    prediction_holds(
        prediction,
        user_id,
        match_id,
        form.home_score,
        form.away_score,
        form.time_of_first_goal,
        "manual"@,
        penalties.0,
        penalties.1,
        spec_form_duration(stage_id, form.duration@).unwrap(),
    )
}

/// Reads a form into a prediction that was entered by hand.
///
/// `InvalidNumber` where the penalties are given and one of them is no number,
/// or where the match is of a knockout stage and the duration is no number.
pub fn prediction_from_form(
    user_id: i32,
    match_id: i32,
    stage_id: i32,
    form: &PredictionForm,
) -> (res: Result<UpdatedPrediction, PredictionError>)
    ensures
        form_is_readable(stage_id, *form) ==> res is Ok && prediction_matches_form(
            res->Ok_0,
            user_id,
            match_id,
            stage_id,
            *form,
        ),
        !form_is_readable(stage_id, *form) ==> res == Err::<UpdatedPrediction, PredictionError>(
            PredictionError::InvalidNumber,
        ),
{
    let (home_penalties, away_penalties) = if form.home_penalties.as_str().is_empty() {
        (None, None)
    } else {
        match (
            parse_i16(form.home_penalties.as_str()),
            parse_i16(form.away_penalties.as_str()),
        ) {
            (Some(home), Some(away)) => (Some(home), Some(away)),
            _ => { return Err(PredictionError::InvalidNumber); },
        }
    };
    let duration = if stage_id > 1 {
        match parse_i16(form.duration.as_str()) {
            Some(minutes) => Some(minutes),
            None => { return Err(PredictionError::InvalidNumber); },
        }
    } else {
        None
    };
    Ok(
        UpdatedPrediction {
            user_id,
            match_id,
            home_score: form.home_score,
            away_score: form.away_score,
            time_of_first_goal: form.time_of_first_goal,
            source: "manual".to_string(),
            home_penalties,
            away_penalties,
            duration,
        },
    )
}

/// A prediction is taken up to and at kickoff, and no longer after it.
pub open spec fn still_open(kickoff: Timestamp, now: Timestamp) -> bool {
    kickoff.at_or_after(now)
}

/// Whether a prediction for a match with this kickoff is still taken.
pub fn may_still_predict(kickoff: &Timestamp, now: &Timestamp) -> (open: bool)
    ensures
        open == still_open(*kickoff, *now),
{
    kickoff.is_at_or_after(now)
}

/// Whether the match lies ahead: its kickoff is after `now`.
pub fn in_future(kickoff: &Timestamp, now: &Timestamp) -> (ahead: bool)
    ensures
        ahead == now.before(*kickoff),
{
    now.is_before(kickoff)
}

/// Whether the match has begun: its kickoff is before `now`.
pub fn has_started(kickoff: &Timestamp, now: &Timestamp) -> (begun: bool)
    ensures
        begun == kickoff.before(*now),
{
    kickoff.is_before(now)
}

/// What becomes of a form that arrives at `now`: the form is read first, so
/// that a form with an unreadable number gives `InvalidNumber` whatever the
/// time; a readable one gives `TooLateToPredict` after kickoff, and the
/// prediction else.
pub fn prediction_at(
    user_id: i32,
    match_info: &Match,
    form: &PredictionForm,
    now: &Timestamp,
) -> (res: Result<UpdatedPrediction, PredictionError>)
    ensures
        !form_is_readable(match_info.stage_id, *form) ==> res == Err::<
            UpdatedPrediction,
            PredictionError,
        >(PredictionError::InvalidNumber),
        form_is_readable(match_info.stage_id, *form) && !still_open(match_info.time, *now)
            ==> res == Err::<UpdatedPrediction, PredictionError>(
            PredictionError::TooLateToPredict,
        ),
        form_is_readable(match_info.stage_id, *form) && still_open(match_info.time, *now)
            ==> res is Ok && prediction_matches_form(
            res->Ok_0,
            user_id,
            match_info.match_id,
            match_info.stage_id,
            *form,
        ),
{
    let prediction = match prediction_from_form(
        user_id,
        match_info.match_id,
        match_info.stage_id,
        form,
    ) {
        Ok(prediction) => prediction,
        Err(e) => { return Err(e); },
    };
    if may_still_predict(&match_info.time, now) {
        Ok(prediction)
    } else {
        Err(PredictionError::TooLateToPredict)
    }
}

/// What becomes of a form that arrives now, by the system clock: see
/// `prediction_at`. The clock decides between the prediction and
/// `TooLateToPredict`; a form with an unreadable number gives
/// `InvalidNumber` at any time.
pub fn prediction_now(user_id: i32, match_info: &Match, form: &PredictionForm) -> (res: Result<
    UpdatedPrediction,
    PredictionError,
>)
    ensures
        !form_is_readable(match_info.stage_id, *form) ==> res == Err::<
            UpdatedPrediction,
            PredictionError,
        >(PredictionError::InvalidNumber),
        form_is_readable(match_info.stage_id, *form) ==> res == Err::<
            UpdatedPrediction,
            PredictionError,
        >(PredictionError::TooLateToPredict) || (res is Ok && prediction_matches_form(
            res->Ok_0,
            user_id,
            match_info.match_id,
            match_info.stage_id,
            *form,
        )),
{
    let now = current_time();
    prediction_at(user_id, match_info, form, &now)
}

/// One prediction of a form that holds many.
#[derive(Clone, Copy, Debug, PartialEq, Eq, Structural)]
pub struct MatchPredictionItem {
    pub match_id: i32,
    pub home_score: i16,
    pub away_score: i16,
    pub time_of_first_goal: i16,
}

/// A form that holds many predictions could not be taken apart.
#[derive(Clone, Copy, Debug, PartialEq, Eq, Structural)]
pub struct ParseError;

/// The fields of the prediction that is being read, as far as they have come.
pub struct PendingItem {
    pub match_id: Option<Seq<char>>,
    pub home_score: Option<Seq<char>>,
    pub away_score: Option<Seq<char>>,
    pub time_of_first_goal: Option<Seq<char>>,
}

/// How far a form of many predictions has been read.
pub struct BulkState {
    pub items: Seq<MatchPredictionItem>,
    pub pending: PendingItem,
}

/// No field has come yet.
pub open spec fn nothing_pending() -> PendingItem {
    PendingItem { match_id: None, home_score: None, away_score: None, time_of_first_goal: None }
}

/// The prediction that four texts stand for, where all four are numbers.
pub open spec fn spec_item(
    match_id: Seq<char>,
    home_score: Seq<char>,
    away_score: Seq<char>,
    time_of_first_goal: Seq<char>,
) -> Option<MatchPredictionItem> {
    if spec_parse_i32(match_id) is Some && spec_parse_i16(home_score) is Some && spec_parse_i16(
        away_score,
    ) is Some && spec_parse_i16(time_of_first_goal) is Some {
        Some(
            MatchPredictionItem {
                match_id: spec_parse_i32(match_id).unwrap(),
                home_score: spec_parse_i16(home_score).unwrap(),
                away_score: spec_parse_i16(away_score).unwrap(),
                time_of_first_goal: spec_parse_i16(time_of_first_goal).unwrap(),
            },
        )
    } else {
        None
    }
}

/// Reads one more pair of a form. The keys `match_id`, `home_score` and
/// `away_score` set their field. The key `time_of_first_goal` ends a
/// prediction: the three other fields must have come, which is an error
/// otherwise (`None`); the prediction is kept where all four texts are
/// numbers and dropped where one is not. Any other key is an error.
pub open spec fn bulk_step(state: BulkState, key: Seq<char>, value: Seq<char>) -> Option<
    BulkState,
> {
    if key == "match_id"@ {
        Some(BulkState { pending: PendingItem { match_id: Some(value), ..state.pending }, ..state })
    } else if key == "home_score"@ {
        Some(
            BulkState { pending: PendingItem { home_score: Some(value), ..state.pending }, ..state },
        )
    } else if key == "away_score"@ {
        Some(
            BulkState { pending: PendingItem { away_score: Some(value), ..state.pending }, ..state },
        )
    } else if key == "time_of_first_goal"@ {
        if state.pending.match_id is Some && state.pending.home_score is Some
            && state.pending.away_score is Some {
            match spec_item(
                state.pending.match_id.unwrap(),
                state.pending.home_score.unwrap(),
                state.pending.away_score.unwrap(),
                value,
            ) {
                Some(item) => Some(
                    BulkState { items: state.items.push(item), pending: nothing_pending() },
                ),
                None => Some(BulkState { items: state.items, pending: nothing_pending() }),
            }
        } else {
            None
        }
    } else {
        None
    }
}

/// Reads the pairs of a form one after the other; `None` at the first error.
pub open spec fn bulk_read(pairs: Seq<(String, String)>) -> Option<BulkState>
    decreases pairs.len(),
{
    if pairs.len() == 0 {
        Some(BulkState { items: Seq::empty(), pending: nothing_pending() })
    } else {
        match bulk_read(pairs.drop_last()) {
            Some(state) => bulk_step(state, pairs.last().0@, pairs.last().1@),
            None => None,
        }
    }
}

/// The predictions of a form of many: an error where the number of pairs is
/// no multiple of four or where reading them fails, else the predictions that
/// were kept. Fields that are left over at the end are dropped.
pub open spec fn spec_bulk_items(pairs: Seq<(String, String)>) -> Option<
    Seq<MatchPredictionItem>,
> {
    if pairs.len() % 4 != 0 {
        None
    } else {
        match bulk_read(pairs) {
            Some(state) => Some(state.items),
            None => None,
        }
    }
}

/// The text behind a reference, if there is one.
pub open spec fn text_of(text: Option<&String>) -> Option<Seq<char>> {
    match text {
        Some(text) => Some(text@),
        None => None,
    }
}

fn item_from_texts(
    match_id: &String,
    home_score: &String,
    away_score: &String,
    time_of_first_goal: &String,
) -> (item: Option<MatchPredictionItem>)
    ensures
        item == spec_item(match_id@, home_score@, away_score@, time_of_first_goal@),
{
    let match_id = match parse_i32(match_id.as_str()) {
        Some(number) => number,
        None => { return None; },
    };
    let home_score = match parse_i16(home_score.as_str()) {
        Some(number) => number,
        None => { return None; },
    };
    let away_score = match parse_i16(away_score.as_str()) {
        Some(number) => number,
        None => { return None; },
    };
    let time_of_first_goal = match parse_i16(time_of_first_goal.as_str()) {
        Some(number) => number,
        None => { return None; },
    };
    Some(MatchPredictionItem { match_id, home_score, away_score, time_of_first_goal })
}

/// Takes a form of many predictions apart: see `spec_bulk_items`.
pub fn bulk_items(pairs: &Vec<(String, String)>) -> (res: Result<
    Vec<MatchPredictionItem>,
    ParseError,
>)
    ensures
        match spec_bulk_items(pairs@) {
            Some(items) => res is Ok && res->Ok_0@ == items,
            None => res is Err,
        },
{
    if pairs.len() % 4 != 0 {
        return Err(ParseError);
    }
    let mut result: Vec<MatchPredictionItem> = Vec::new();
    let mut match_id: Option<&String> = None;
    let mut home_score: Option<&String> = None;
    let mut away_score: Option<&String> = None;
    let mut i: usize = 0;
    while i < pairs.len()
        invariant
            i <= pairs.len(),
            bulk_read(pairs@.take(i as int)) is Some,
            bulk_read(pairs@.take(i as int)).unwrap().items == result@,
            bulk_read(pairs@.take(i as int)).unwrap().pending == (PendingItem {
                match_id: text_of(match_id),
                home_score: text_of(home_score),
                away_score: text_of(away_score),
                time_of_first_goal: None,
            }),
        decreases pairs.len() - i,
    {
        let key = pairs[i].0.as_str();
        let value = &pairs[i].1;
        proof {
            assert(pairs@.take(i + 1).drop_last() =~= pairs@.take(i as int));
            assert(pairs@.take(i + 1).last() == pairs@[i as int]);
        }
        if same_text(key, "match_id") {
            match_id = Some(value);
        } else if same_text(key, "home_score") {
            home_score = Some(value);
        } else if same_text(key, "away_score") {
            away_score = Some(value);
        } else if same_text(key, "time_of_first_goal") {
            match (match_id, home_score, away_score) {
                (Some(m), Some(h), Some(a)) => {
                    match item_from_texts(m, h, a, value) {
                        Some(item) => {
                            result.push(item);
                        },
                        None => {},
                    }
                },
                _ => {
                    proof {
                        lemma_bulk_read_fails_for_good(pairs@, i + 1);
                    }
                    return Err(ParseError);
                },
            }
            match_id = None;
            home_score = None;
            away_score = None;
        } else {
            proof {
                lemma_bulk_read_fails_for_good(pairs@, i + 1);
            }
            return Err(ParseError);
        }
        i += 1;
    }
    proof {
        assert(pairs@.take(i as int) =~= pairs@);
    }
    Ok(result)
}

/// Once reading has failed it has failed for the whole form.
pub proof fn lemma_bulk_read_fails_for_good(pairs: Seq<(String, String)>, n: int)
    requires
        0 <= n <= pairs.len(),
        bulk_read(pairs.take(n)) is None,
    ensures
        bulk_read(pairs) is None,
    decreases pairs.len() - n,
{
    if n < pairs.len() {
        assert(pairs.take(n + 1).drop_last() =~= pairs.take(n));
        lemma_bulk_read_fails_for_good(pairs, n + 1);
    } else {
        assert(pairs.take(n) =~= pairs);
    }
}

/// The prediction of one user that an item of a form of many stands for: it
/// was entered by hand and says nothing of penalties or duration.
pub fn prediction_from_item(user_id: i32, item: &MatchPredictionItem) -> (prediction:
    UpdatedPrediction)
    ensures
        prediction_holds(
            prediction,
            user_id,
            item.match_id,
            item.home_score,
            item.away_score,
            item.time_of_first_goal,
            "manual"@,
            None,
            None,
            None,
        ),
{
    UpdatedPrediction {
        user_id,
        match_id: item.match_id,
        home_score: item.home_score,
        away_score: item.away_score,
        time_of_first_goal: item.time_of_first_goal,
        source: "manual".to_string(),
        home_penalties: None,
        away_penalties: None,
        duration: None,
    }
}

} // verus!
