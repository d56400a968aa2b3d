use wk_predictions::clock::Timestamp;
use wk_predictions::error::RecomputeError;
use wk_predictions::models::{
    Favourite, MatchOutcome, MatchParticipant, MatchPrediction, MatchWithParticipants, User,
    UserMatchPoints,
};
use wk_predictions::scores::{
    compute_points, favourite_points, few_enough, phase_of, points_if_they_fit,
    prediction_and_tofg_points, user_match_points, MAX_FAVOURITES,
};

const KICKOFF: i64 = 1_530_000_000;

fn at(seconds: i64) -> Timestamp {
    Timestamp::new(seconds, 0)
}

fn participant(id: i32, country: Option<i32>, stage_id: i32) -> MatchParticipant {
    MatchParticipant {
        match_participant_id: id,
        country_id: country,
        stage_id,
        group_id: None,
        previous_match_id: None,
        group_drawn_place: None,
        result: None,
    }
}

fn game(stage_id: i32) -> MatchWithParticipants {
    MatchWithParticipants {
        match_id: 7,
        stage_id,
        home_participant: participant(1, Some(10), stage_id),
        away_participant: participant(2, Some(20), stage_id),
        time: at(KICKOFF),
    }
}

fn outcome(home: i16, away: i16, first_goal: i16) -> MatchOutcome {
    MatchOutcome {
        match_id: 7,
        home_score: home,
        away_score: away,
        time_of_first_goal: first_goal,
        home_penalties: None,
        away_penalties: None,
        duration: None,
    }
}

fn prediction(home: i16, away: i16, first_goal: i16) -> MatchPrediction {
    MatchPrediction {
        match_id: 7,
        user_id: 3,
        home_score: home,
        away_score: away,
        time_of_first_goal: first_goal,
        home_penalties: None,
        away_penalties: None,
        duration: None,
        created_at: at(KICKOFF - 1000),
        updated_at: at(KICKOFF - 1000),
        source: "manual".to_string(),
    }
}

fn favourite(country: Option<i32>, phase: i16) -> Favourite {
    Favourite {
        user_id: 3,
        country_id: country,
        choice: 1,
        created_at: at(KICKOFF - 5000),
        updated_at: at(KICKOFF - 5000),
        phase,
        source: "manual".to_string(),
    }
}

fn user(user_id: i32) -> User {
    User {
        user_id,
        display_name: Some("Player".to_string()),
        login: "player".to_string(),
        email: "player@example.org".to_string(),
        score: 0,
        encrypted_password: String::new(),
        slack_handle: None,
        created_at: at(0),
        updated_at: at(0),
    }
}

#[test]
fn phase_of_every_known_stage() {
    assert_eq!(phase_of(&game(1)), Ok(0));
    assert_eq!(phase_of(&game(2)), Ok(1));
    assert_eq!(phase_of(&game(3)), Ok(1));
    assert_eq!(phase_of(&game(4)), Ok(2));
    assert_eq!(phase_of(&game(5)), Ok(2));
    assert_eq!(phase_of(&game(6)), Ok(2));
}

#[test]
fn phase_of_unknown_stage_is_an_error() {
    assert_eq!(phase_of(&game(0)), Err(RecomputeError::InvalidStage));
    assert_eq!(phase_of(&game(7)), Err(RecomputeError::InvalidStage));
    assert_eq!(phase_of(&game(-1)), Err(RecomputeError::InvalidStage));
}

#[test]
fn exact_score_on_a_group_match_earns_seven() {
    let points = prediction_and_tofg_points(&prediction(2, 1, 10), &game(1), &outcome(2, 1, 10));
    assert_eq!(points, Ok((7, 5)));
}

#[test]
fn right_winner_and_one_side_earns_three() {
    let points = prediction_and_tofg_points(&prediction(2, 1, 10), &game(1), &outcome(3, 1, 10));
    assert_eq!(points, Ok((3, 5)));
}

#[test]
fn both_sides_wrong_but_right_winner_earns_two() {
    let points = prediction_and_tofg_points(&prediction(2, 1, 10), &game(1), &outcome(3, 0, 40));
    assert_eq!(points, Ok((2, 0)));
}

#[test]
fn one_side_right_with_wrong_winner_earns_one() {
    let points = prediction_and_tofg_points(&prediction(2, 1, 10), &game(1), &outcome(2, 2, 10));
    assert_eq!(points, Ok((1, 0)));
}

#[test]
fn time_of_first_goal_decays_by_the_minute() {
    let three_off = prediction_and_tofg_points(&prediction(1, 0, 10), &game(1), &outcome(2, 0, 13));
    assert_eq!(three_off.map(|p| p.1), Ok(2));
    let ten_off = prediction_and_tofg_points(&prediction(1, 0, 10), &game(1), &outcome(2, 0, 20));
    assert_eq!(ten_off.map(|p| p.1), Ok(0));
    let earlier = prediction_and_tofg_points(&prediction(1, 0, 13), &game(1), &outcome(2, 0, 9));
    assert_eq!(earlier.map(|p| p.1), Ok(1));
    let five_off = prediction_and_tofg_points(&prediction(1, 0, 10), &game(1), &outcome(2, 0, 15));
    assert_eq!(five_off.map(|p| p.1), Ok(0));
}

#[test]
fn time_of_first_goal_far_apart_does_not_overflow() {
    let points =
        prediction_and_tofg_points(&prediction(1, 0, i16::MIN), &game(1), &outcome(1, 0, i16::MAX));
    assert_eq!(points, Ok((7, 0)));
}

#[test]
fn wrong_winner_earns_no_time_points() {
    let points = prediction_and_tofg_points(&prediction(1, 0, 10), &game(1), &outcome(0, 1, 10));
    assert_eq!(points, Ok((0, 0)));
}

#[test]
fn goalless_match_predicted_as_goalless() {
    let points = prediction_and_tofg_points(&prediction(0, 0, 0), &game(1), &outcome(0, 0, 0));
    assert_eq!(points, Ok((7, 5)));
}

#[test]
fn late_prediction_earns_nothing() {
    let mut late = prediction(2, 1, 10);
    late.updated_at = at(KICKOFF);
    assert_eq!(prediction_and_tofg_points(&late, &game(1), &outcome(2, 1, 10)), Ok((0, 0)));
    late.updated_at = at(KICKOFF + 1);
    assert_eq!(prediction_and_tofg_points(&late, &game(1), &outcome(2, 1, 10)), Ok((0, 0)));
}

#[test]
fn prediction_a_nanosecond_before_kickoff_counts() {
    let mut early = prediction(2, 1, 10);
    early.updated_at = Timestamp::new(KICKOFF - 1, 999_999_999);
    assert_eq!(prediction_and_tofg_points(&early, &game(1), &outcome(2, 1, 10)), Ok((7, 5)));
    let mut kickoff_later = game(1);
    kickoff_later.time = Timestamp::new(KICKOFF, 1);
    let mut same_second = prediction(2, 1, 10);
    same_second.updated_at = Timestamp::new(KICKOFF, 0);
    assert_eq!(
        prediction_and_tofg_points(&same_second, &kickoff_later, &outcome(2, 1, 10)),
        Ok((7, 5))
    );
}

#[test]
fn prediction_for_unknown_stage_is_an_error() {
    assert_eq!(
        prediction_and_tofg_points(&prediction(2, 1, 10), &game(9), &outcome(2, 1, 10)),
        Err(RecomputeError::InvalidStage)
    );
}

#[test]
fn knockout_shootout_scoring() {
    let mut drawn = outcome(1, 1, 30);
    drawn.home_penalties = Some(5);
    drawn.away_penalties = Some(4);
    drawn.duration = Some(120);
    let mut guess = prediction(1, 1, 30);
    guess.home_penalties = Some(5);
    guess.away_penalties = Some(3);
    guess.duration = Some(120);
    // 7 for the scoreline, 1 for the draw, 1 for the winner of the
    // shoot-out and 1 for the home side's penalties.
    assert_eq!(prediction_and_tofg_points(&guess, &game(3), &drawn), Ok((10, 5)));
}

#[test]
fn knockout_shootout_fully_right() {
    let mut drawn = outcome(1, 1, 30);
    drawn.home_penalties = Some(5);
    drawn.away_penalties = Some(4);
    let mut guess = prediction(0, 0, 90);
    guess.home_penalties = Some(5);
    guess.away_penalties = Some(4);
    // 2 for the draw, 1 for expecting a shoot-out, 4 for the shoot-out.
    assert_eq!(prediction_and_tofg_points(&guess, &game(2), &drawn), Ok((7, 0)));
}

#[test]
fn knockout_shootout_wrong_winner() {
    let mut drawn = outcome(1, 1, 30);
    drawn.home_penalties = Some(5);
    drawn.away_penalties = Some(4);
    let mut guess = prediction(1, 1, 30);
    guess.home_penalties = Some(4);
    guess.away_penalties = Some(5);
    assert_eq!(prediction_and_tofg_points(&guess, &game(3), &drawn), Ok((8, 5)));
}

#[test]
fn knockout_missing_penalty_prediction_earns_no_shootout_points() {
    let mut home_wins = outcome(1, 1, 30);
    home_wins.home_penalties = Some(5);
    home_wins.away_penalties = Some(4);
    let guess = prediction(1, 1, 30);
    assert_eq!(prediction_and_tofg_points(&guess, &game(3), &home_wins), Ok((8, 5)));
    let mut away_wins = outcome(1, 1, 30);
    away_wins.home_penalties = Some(3);
    away_wins.away_penalties = Some(4);
    assert_eq!(prediction_and_tofg_points(&guess, &game(3), &away_wins), Ok((8, 5)));
    let mut half = prediction(1, 1, 30);
    half.home_penalties = Some(5);
    assert_eq!(prediction_and_tofg_points(&half, &game(3), &home_wins), Ok((8, 5)));
}

#[test]
fn knockout_missing_outcome_penalties_earn_nothing() {
    let drawn = outcome(1, 1, 30);
    let mut guess = prediction(1, 1, 30);
    guess.home_penalties = Some(5);
    guess.away_penalties = Some(3);
    assert_eq!(prediction_and_tofg_points(&guess, &game(3), &drawn), Ok((8, 5)));
    let backed_home = prediction(2, 1, 30);
    assert_eq!(prediction_and_tofg_points(&backed_home, &game(3), &drawn), Ok((1, 0)));
}

#[test]
fn knockout_consolation_for_backing_the_shootout_winner() {
    let mut drawn = outcome(1, 1, 30);
    drawn.home_penalties = Some(5);
    drawn.away_penalties = Some(4);
    // Right goals for the away side, and the home side won the shoot-out.
    assert_eq!(prediction_and_tofg_points(&prediction(2, 1, 30), &game(4), &drawn), Ok((2, 0)));
    assert_eq!(prediction_and_tofg_points(&prediction(0, 2, 30), &game(4), &drawn), Ok((0, 0)));
    drawn.home_penalties = Some(2);
    drawn.away_penalties = Some(4);
    assert_eq!(prediction_and_tofg_points(&prediction(0, 2, 30), &game(4), &drawn), Ok((1, 0)));
}

#[test]
fn knockout_duration_point() {
    let mut won = outcome(2, 1, 30);
    won.duration = Some(120);
    let mut guess = prediction(3, 0, 50);
    guess.duration = Some(120);
    assert_eq!(prediction_and_tofg_points(&guess, &game(2), &won), Ok((3, 0)));
    guess.duration = Some(90);
    assert_eq!(prediction_and_tofg_points(&guess, &game(2), &won), Ok((2, 0)));
}

#[test]
fn knockout_missing_duration_counts_as_ninety() {
    let mut won = outcome(2, 1, 30);
    won.duration = Some(90);
    let guess = prediction(3, 0, 50);
    assert_eq!(prediction_and_tofg_points(&guess, &game(2), &won), Ok((3, 0)));
    won.duration = Some(120);
    assert_eq!(prediction_and_tofg_points(&guess, &game(2), &won), Ok((2, 0)));
    won.duration = None;
    assert_eq!(prediction_and_tofg_points(&guess, &game(2), &won), Ok((2, 0)));
}

#[test]
fn knockout_predicted_draw_but_match_was_won() {
    let mut won = outcome(2, 1, 30);
    won.duration = Some(90);
    let mut guess = prediction(1, 1, 30);
    guess.duration = Some(90);
    assert_eq!(prediction_and_tofg_points(&guess, &game(2), &won), Ok((1, 0)));
}

#[test]
fn group_match_has_no_knockout_points() {
    let mut drawn = outcome(1, 1, 30);
    drawn.home_penalties = Some(5);
    drawn.away_penalties = Some(4);
    drawn.duration = Some(120);
    let mut guess = prediction(1, 1, 30);
    guess.home_penalties = Some(5);
    guess.away_penalties = Some(4);
    guess.duration = Some(120);
    assert_eq!(prediction_and_tofg_points(&guess, &game(1), &drawn), Ok((7, 5)));
}

#[test]
fn favourite_home_side_wins_three_nil() {
    assert_eq!(favourite_points(&favourite(Some(10), 0), &game(1), &outcome(3, 0, 12)), Ok(6));
}

#[test]
fn favourite_away_side() {
    assert_eq!(favourite_points(&favourite(Some(20), 0), &game(1), &outcome(3, 0, 12)), Ok(0));
    assert_eq!(favourite_points(&favourite(Some(20), 0), &game(1), &outcome(1, 2, 12)), Ok(5));
    assert_eq!(favourite_points(&favourite(Some(20), 0), &game(1), &outcome(2, 2, 12)), Ok(3));
}

#[test]
fn favourite_draw_and_loss() {
    assert_eq!(favourite_points(&favourite(Some(10), 0), &game(1), &outcome(2, 2, 12)), Ok(3));
    assert_eq!(favourite_points(&favourite(Some(10), 0), &game(1), &outcome(1, 2, 12)), Ok(1));
}

#[test]
fn favourite_of_another_country_earns_nothing() {
    assert_eq!(favourite_points(&favourite(Some(30), 0), &game(1), &outcome(3, 0, 12)), Ok(0));
    assert_eq!(favourite_points(&favourite(None, 0), &game(1), &outcome(3, 0, 12)), Ok(0));
}

#[test]
fn favourite_without_a_country_earns_nothing() {
    let mut open_game = game(1);
    open_game.home_participant.country_id = None;
    assert_eq!(favourite_points(&favourite(None, 0), &open_game, &outcome(3, 0, 12)), Ok(0));
    open_game.away_participant.country_id = None;
    assert_eq!(favourite_points(&favourite(None, 0), &open_game, &outcome(0, 3, 12)), Ok(0));
    assert_eq!(favourite_points(&favourite(Some(10), 0), &open_game, &outcome(0, 3, 12)), Ok(0));
}

#[test]
fn favourite_of_another_phase_earns_nothing() {
    assert_eq!(favourite_points(&favourite(Some(10), 1), &game(1), &outcome(3, 0, 12)), Ok(0));
    assert_eq!(favourite_points(&favourite(Some(10), 0), &game(2), &outcome(3, 0, 12)), Ok(0));
    assert_eq!(favourite_points(&favourite(Some(10), 1), &game(3), &outcome(3, 0, 12)), Ok(6));
    assert_eq!(favourite_points(&favourite(Some(10), 2), &game(4), &outcome(3, 0, 12)), Ok(6));
}

#[test]
fn late_favourite_earns_nothing() {
    let mut late = favourite(Some(10), 0);
    late.updated_at = at(KICKOFF);
    assert_eq!(favourite_points(&late, &game(1), &outcome(3, 0, 12)), Ok(0));
    late.updated_at = at(KICKOFF + 60);
    assert_eq!(favourite_points(&late, &game(1), &outcome(3, 0, 12)), Ok(0));
}

#[test]
fn favourite_wins_the_final() {
    assert_eq!(favourite_points(&favourite(Some(10), 2), &game(5), &outcome(2, 1, 12)), Ok(8));
    assert_eq!(favourite_points(&favourite(Some(20), 2), &game(5), &outcome(2, 1, 12)), Ok(1));
}

#[test]
fn favourite_away_side_wins_the_final() {
    assert_eq!(favourite_points(&favourite(Some(20), 2), &game(5), &outcome(0, 1, 12)), Ok(7));
    assert_eq!(favourite_points(&favourite(Some(10), 2), &game(5), &outcome(0, 1, 12)), Ok(0));
}

#[test]
fn favourite_in_a_drawn_final_gets_no_championship_bonus() {
    assert_eq!(favourite_points(&favourite(Some(10), 2), &game(5), &outcome(1, 1, 12)), Ok(2));
}

#[test]
fn favourite_in_the_third_place_match_gets_no_championship_bonus() {
    assert_eq!(favourite_points(&favourite(Some(10), 2), &game(6), &outcome(2, 1, 12)), Ok(5));
    assert_eq!(favourite_points(&favourite(Some(10), 2), &game(4), &outcome(2, 1, 12)), Ok(5));
}

#[test]
fn favourite_with_the_most_goals_does_not_overflow() {
    assert_eq!(
        favourite_points(&favourite(Some(10), 2), &game(5), &outcome(i16::MAX, 0, 12)),
        Ok(32773)
    );
}

#[test]
fn favourite_for_unknown_stage_is_an_error() {
    assert_eq!(
        favourite_points(&favourite(Some(10), 0), &game(0), &outcome(3, 0, 12)),
        Err(RecomputeError::InvalidStage)
    );
    let mut late = favourite(Some(10), 0);
    late.updated_at = at(KICKOFF + 60);
    assert_eq!(
        favourite_points(&late, &game(0), &outcome(3, 0, 12)),
        Err(RecomputeError::InvalidStage)
    );
}

#[test]
fn user_match_points_adds_up_the_parts() {
    let favourites = vec![
        favourite(Some(10), 0),
        favourite(Some(20), 0),
        favourite(Some(30), 0),
        favourite(Some(10), 1),
    ];
    let row = user_match_points(
        &(user(3), Some(prediction(2, 1, 10)), favourites),
        &(game(1), outcome(2, 1, 12)),
    );
    assert_eq!(
        row,
        Ok(UserMatchPoints {
            user_id: 3,
            match_id: 7,
            favourites: 6,
            prediction: 7,
            time_of_first_goal: 3,
            total: 16,
        })
    );
}

#[test]
fn user_match_points_without_prediction_or_favourites() {
    let row = user_match_points(&(user(4), None, Vec::new()), &(game(1), outcome(2, 1, 12)));
    assert_eq!(
        row,
        Ok(UserMatchPoints {
            user_id: 4,
            match_id: 7,
            favourites: 0,
            prediction: 0,
            time_of_first_goal: 0,
            total: 0,
        })
    );
}

#[test]
fn user_match_points_for_unknown_stage_is_an_error() {
    let row = user_match_points(&(user(4), None, Vec::new()), &(game(12), outcome(2, 1, 12)));
    assert_eq!(row, Err(RecomputeError::InvalidStage));
}

#[test]
fn user_match_points_is_the_same_every_time() {
    let player = (user(3), Some(prediction(2, 1, 10)), vec![favourite(Some(10), 0)]);
    let played = (game(1), outcome(2, 1, 12));
    assert_eq!(user_match_points(&player, &played), user_match_points(&player, &played));
}

#[test]
fn compute_points_agrees_with_user_match_points() {
    let favourites = vec![favourite(Some(20), 1)];
    let guess = prediction(0, 2, 44);
    let played = (game(3), outcome(0, 2, 45));
    let direct = compute_points(3, &favourites, Some(&guess), &played.0, &played.1);
    let bundled = user_match_points(&(user(3), Some(guess.clone()), favourites.clone()), &played);
    assert_eq!(direct, bundled);
    assert_eq!(direct.map(|row| (row.favourites, row.prediction, row.time_of_first_goal, row.total)), Ok((5, 7, 4, 16)));
}

#[test]
fn points_that_fit_are_given() {
    let favourites = vec![favourite(Some(10), 0)];
    let guess = prediction(2, 1, 10);
    let row = points_if_they_fit(3, &favourites, Some(&guess), &game(1), &outcome(2, 1, 12));
    assert_eq!(
        row,
        Ok(Some(UserMatchPoints {
            user_id: 3,
            match_id: 7,
            favourites: 5,
            prediction: 7,
            time_of_first_goal: 3,
            total: 15,
        }))
    );
    assert_eq!(
        points_if_they_fit(3, &favourites, Some(&guess), &game(0), &outcome(2, 1, 12)),
        Err(RecomputeError::InvalidStage)
    );
}

#[test]
fn points_that_do_not_fit_are_withheld() {
    // 65 536 favourites that win the final with 32 767 goals earn 32 773
    // points each, which is more than a 32-bit number holds.
    let mut favourites = Vec::new();
    for _ in 0..65_536 {
        favourites.push(favourite(Some(10), 2));
    }
    let most = outcome(i16::MAX, 0, 12);
    assert_eq!(points_if_they_fit(3, &favourites, None, &game(5), &most), Ok(None));
    // 65 525 of them earn 2 147 450 825 points, which still fit.
    favourites.truncate(65_525);
    assert_eq!(
        points_if_they_fit(3, &favourites, None, &game(5), &most).map(|r| r.map(|r| r.total)),
        Ok(Some(2_147_450_825))
    );
    // With the fewest goals each earns -32 768, and 65 537 of them do not fit.
    let mut losers = Vec::new();
    for _ in 0..65_537 {
        losers.push(favourite(Some(10), 0));
    }
    let least = outcome(i16::MIN, 0, 12);
    assert_eq!(points_if_they_fit(3, &losers, None, &game(1), &least), Ok(None));
    losers.truncate(65_536);
    assert_eq!(
        points_if_they_fit(3, &losers, None, &game(1), &least).map(|r| r.map(|r| r.favourites)),
        Ok(Some(i32::MIN))
    );
}

#[test]
fn few_enough_favourites() {
    assert_eq!(MAX_FAVOURITES, 65_000);
    assert!(few_enough(&Vec::new()));
    let mut favourites = Vec::new();
    for _ in 0..65_000 {
        favourites.push(favourite(Some(10), 2));
    }
    assert!(few_enough(&favourites));
    favourites.push(favourite(Some(10), 2));
    assert!(!few_enough(&favourites));
}
