use wk_predictions::clock::Timestamp;
use wk_predictions::error::RecomputeError;
use wk_predictions::models::{
    Favourite, Match, MatchOutcome, MatchParticipant, MatchPrediction, MatchWithParticipants,
    User, UserMatchPoints,
};
use wk_predictions::recompute::{
    all_match_points, check_stages, find_outcome, find_prediction, join_games,
    participants_resolved, recalculate_match, recalculate_scores, single_match_points,
};
use wk_predictions::table::PointsTable;

const KICKOFF: i64 = 1_530_000_000;

fn at(seconds: i64) -> Timestamp {
    Timestamp::new(seconds, 0)
}

fn side(id: i32, country: i32) -> MatchParticipant {
    MatchParticipant {
        match_participant_id: id,
        country_id: Some(country),
        stage_id: 1,
        group_id: Some(1),
        previous_match_id: None,
        group_drawn_place: None,
        result: Some("winner".to_string()),
    }
}

fn fixture(match_id: i32, stage_id: i32, home: i32, away: i32) -> Match {
    Match {
        match_id,
        stage_id,
        location_id: 1,
        home_participant_id: home,
        away_participant_id: away,
        time: at(KICKOFF + match_id as i64),
    }
}

fn result(match_id: i32, home: i16, away: i16, first_goal: i16) -> MatchOutcome {
    MatchOutcome {
        match_id,
        home_score: home,
        away_score: away,
        time_of_first_goal: first_goal,
        home_penalties: None,
        away_penalties: None,
        duration: None,
    }
}

fn guess(user_id: i32, match_id: i32, home: i16, away: i16, first_goal: i16) -> MatchPrediction {
    MatchPrediction {
        match_id,
        user_id,
        home_score: home,
        away_score: away,
        time_of_first_goal: first_goal,
        home_penalties: None,
        away_penalties: None,
        duration: None,
        created_at: at(KICKOFF - 1000),
        updated_at: at(KICKOFF - 1000),
        source: "manual".to_string(),
    }
}

fn pick(user_id: i32, country: i32, choice: i16) -> Favourite {
    Favourite {
        user_id,
        country_id: Some(country),
        choice,
        created_at: at(KICKOFF - 5000),
        updated_at: at(KICKOFF - 5000),
        phase: 0,
        source: "manual".to_string(),
    }
}

fn player(user_id: i32) -> User {
    User {
        user_id,
        display_name: None,
        login: format!("user{}", user_id),
        email: format!("user{}@example.org", user_id),
        score: 0,
        encrypted_password: String::new(),
        slack_handle: None,
        created_at: at(0),
        updated_at: at(0),
    }
}

fn points(
    user_id: i32,
    match_id: i32,
    favourites: i32,
    prediction: i32,
    time_of_first_goal: i32,
) -> UserMatchPoints {
    UserMatchPoints {
        user_id,
        match_id,
        favourites,
        prediction,
        time_of_first_goal,
        total: favourites + prediction + time_of_first_goal,
    }
}

fn sides() -> Vec<MatchParticipant> {
    vec![side(1, 10), side(2, 20), side(3, 30), side(4, 40)]
}

// Match 1: country 10 beats country 20 by 2-1, first goal in minute 12.
// Match 2: countries 30 and 40 draw 0-0. Match 3 has no outcome.
fn season() -> Vec<(MatchWithParticipants, MatchOutcome)> {
    join_games(
        &vec![fixture(1, 1, 1, 2), fixture(2, 1, 3, 4), fixture(3, 1, 1, 3)],
        &sides(),
        &vec![result(2, 0, 0, 0), result(1, 2, 1, 12)],
    )
}

fn league() -> Vec<(User, Vec<MatchPrediction>, Vec<Favourite>)> {
    vec![
        (
            player(1),
            vec![guess(1, 1, 2, 1, 10), guess(1, 2, 1, 1, 30), guess(1, 3, 1, 0, 5)],
            vec![pick(1, 10, 1), pick(1, 30, 2)],
        ),
        (player(2), vec![guess(2, 2, 0, 0, 0)], vec![pick(2, 20, 1)]),
        (player(3), Vec::new(), Vec::new()),
    ]
}

fn expected_rows() -> Vec<UserMatchPoints> {
    vec![
        points(1, 1, 5, 7, 3),
        points(1, 2, 1, 2, 0),
        points(2, 1, 1, 0, 0),
        points(2, 2, 0, 7, 5),
        points(3, 1, 0, 0, 0),
        points(3, 2, 0, 0, 0),
    ]
}

#[test]
fn find_outcome_takes_the_first_of_the_match() {
    let outcomes = vec![result(2, 0, 0, 0), result(1, 2, 1, 12), result(1, 5, 5, 5)];
    assert_eq!(find_outcome(&outcomes, 1), Some(result(1, 2, 1, 12)));
    assert_eq!(find_outcome(&outcomes, 2), Some(result(2, 0, 0, 0)));
    assert_eq!(find_outcome(&outcomes, 3), None);
    assert_eq!(find_outcome(&Vec::new(), 1), None);
}

#[test]
fn find_prediction_takes_the_first_of_the_match() {
    let predictions = vec![guess(1, 2, 1, 1, 30), guess(1, 1, 2, 1, 10), guess(1, 1, 4, 4, 4)];
    assert_eq!(find_prediction(&predictions, 1).map(|p| p.home_score), Some(2));
    assert_eq!(find_prediction(&predictions, 2).map(|p| p.home_score), Some(1));
    assert!(find_prediction(&predictions, 3).is_none());
}

#[test]
fn join_leaves_out_matches_without_outcome() {
    let games = season();
    assert_eq!(games.len(), 2);
    assert_eq!(games[0].0.match_id, 1);
    assert_eq!(games[0].0.stage_id, 1);
    assert_eq!(games[0].0.time, at(KICKOFF + 1));
    assert_eq!(games[0].0.home_participant.match_participant_id, 1);
    assert_eq!(games[0].0.home_participant.country_id, Some(10));
    assert_eq!(games[0].0.home_participant.result, Some("winner".to_string()));
    assert_eq!(games[0].0.away_participant.country_id, Some(20));
    assert_eq!(games[0].1, result(1, 2, 1, 12));
    assert_eq!(games[1].0.match_id, 2);
    assert_eq!(games[1].0.home_participant.country_id, Some(30));
    assert_eq!(games[1].0.away_participant.country_id, Some(40));
    assert_eq!(games[1].1, result(2, 0, 0, 0));
}

#[test]
fn join_takes_the_last_participant_of_an_id() {
    let games = join_games(
        &vec![fixture(1, 1, 1, 2)],
        &vec![side(1, 10), side(2, 20), side(1, 11)],
        &vec![result(1, 2, 1, 12)],
    );
    assert_eq!(games.len(), 1);
    assert_eq!(games[0].0.home_participant.country_id, Some(11));
    assert_eq!(games[0].0.away_participant.country_id, Some(20));
}

#[test]
fn join_of_nothing_is_nothing() {
    assert_eq!(join_games(&Vec::new(), &sides(), &vec![result(1, 2, 1, 12)]).len(), 0);
    assert_eq!(join_games(&vec![fixture(1, 1, 1, 2)], &sides(), &Vec::new()).len(), 0);
}

#[test]
fn participants_resolved_tells_whether_all_sides_are_there() {
    assert!(participants_resolved(&vec![fixture(1, 1, 1, 2), fixture(2, 1, 3, 4)], &sides()));
    assert!(!participants_resolved(&vec![fixture(1, 1, 1, 2), fixture(2, 1, 3, 5)], &sides()));
    assert!(!participants_resolved(&vec![fixture(1, 1, 9, 2)], &sides()));
    assert!(participants_resolved(&Vec::new(), &Vec::new()));
}

#[test]
fn check_stages_finds_an_unknown_stage() {
    assert_eq!(check_stages(&season()), Ok(()));
    let games = join_games(
        &vec![fixture(1, 1, 1, 2), fixture(2, 7, 3, 4)],
        &sides(),
        &vec![result(2, 0, 0, 0), result(1, 2, 1, 12)],
    );
    assert_eq!(check_stages(&games), Err(RecomputeError::InvalidStage));
}

#[test]
fn all_match_points_go_user_by_user() {
    assert_eq!(all_match_points(&league(), &season()), Ok(expected_rows()));
}

#[test]
fn all_match_points_of_nobody() {
    assert_eq!(all_match_points(&Vec::new(), &season()), Ok(Vec::new()));
    assert_eq!(all_match_points(&league(), &Vec::new()), Ok(Vec::new()));
}

#[test]
fn all_match_points_with_unknown_stage_is_an_error() {
    let games = join_games(&vec![fixture(1, 0, 1, 2)], &sides(), &vec![result(1, 2, 1, 12)]);
    assert_eq!(all_match_points(&league(), &games), Err(RecomputeError::InvalidStage));
    assert_eq!(all_match_points(&Vec::new(), &games), Err(RecomputeError::InvalidStage));
}

#[test]
fn full_recalculation_fills_table_and_scores() {
    let mut table = PointsTable::new();
    let scores = recalculate_scores(&league(), &season(), &mut table);
    assert_eq!(scores, Ok(vec![18, 13, 0]));
    assert_eq!(table.rows, expected_rows());
}

#[test]
fn full_recalculation_twice_gives_the_same() {
    let mut table = PointsTable::new();
    let first = recalculate_scores(&league(), &season(), &mut table);
    let rows_after_first = table.rows.clone();
    let second = recalculate_scores(&league(), &season(), &mut table);
    assert_eq!(first, second);
    assert_eq!(table.rows, rows_after_first);
}

#[test]
fn score_is_the_sum_of_the_rows_after_recalculation() {
    let mut table = PointsTable::new();
    table.upsert(points(1, 40, 0, 100, 0));
    table.upsert(points(1, 1, 50, 50, 50));
    let scores = recalculate_scores(&league(), &season(), &mut table).unwrap();
    let users = league();
    for (u, user) in users.iter().enumerate() {
        let sum: i32 = table
            .rows
            .iter()
            .filter(|row| row.user_id == user.0.user_id)
            .map(|row| row.total)
            .sum();
        assert_eq!(scores[u], sum);
    }
    assert_eq!(scores, vec![118, 13, 0]);
}

#[test]
fn match_without_outcome_is_passed_over() {
    let mut table = PointsTable::new();
    table.upsert(points(1, 3, 1, 2, 3));
    recalculate_scores(&league(), &season(), &mut table).unwrap();
    assert_eq!(table.get(1, 3), Some(points(1, 3, 1, 2, 3)));
    assert_eq!(table.get(2, 3), None);
    assert_eq!(table.get(3, 3), None);
    assert_eq!(table.rows.iter().filter(|row| row.match_id == 3).count(), 1);
    assert_eq!(table.len(), 7);
}

#[test]
fn full_recalculation_overwrites_old_rows() {
    let mut table = PointsTable::new();
    table.upsert(points(2, 2, 9, 9, 9));
    table.upsert(points(1, 1, 9, 9, 9));
    let scores = recalculate_scores(&league(), &season(), &mut table);
    assert_eq!(scores, Ok(vec![18, 13, 0]));
    assert_eq!(table.rows[0], points(2, 2, 0, 7, 5));
    assert_eq!(table.rows[1], points(1, 1, 5, 7, 3));
    assert_eq!(table.len(), 6);
}

#[test]
fn unknown_stage_leaves_the_table_alone() {
    let mut table = PointsTable::new();
    table.upsert(points(1, 1, 9, 9, 9));
    let games = join_games(
        &vec![fixture(1, 1, 1, 2), fixture(2, 8, 3, 4)],
        &sides(),
        &vec![result(2, 0, 0, 0), result(1, 2, 1, 12)],
    );
    assert_eq!(
        recalculate_scores(&league(), &games, &mut table),
        Err(RecomputeError::InvalidStage)
    );
    assert_eq!(table.rows, vec![points(1, 1, 9, 9, 9)]);
}

#[test]
fn score_out_of_range_leaves_the_table_alone() {
    let mut table = PointsTable::new();
    table.upsert(points(1, 40, i32::MAX - 10, 0, 0));
    assert_eq!(
        recalculate_scores(&league(), &season(), &mut table),
        Err(RecomputeError::StorageFailure)
    );
    assert_eq!(table.rows, vec![points(1, 40, i32::MAX - 10, 0, 0)]);
}

#[test]
fn points_out_of_range_are_a_storage_failure() {
    let mut many = Vec::new();
    for choice in 0..70_000 {
        let mut favourite = pick(1, 10, (choice % 30_000) as i16);
        favourite.phase = 2;
        many.push(favourite);
    }
    let games = join_games(
        &vec![fixture(1, 5, 1, 2)],
        &sides(),
        &vec![result(1, i16::MAX, 0, 12)],
    );
    let users = vec![(player(1), Vec::new(), many.clone())];
    let mut table = PointsTable::new();
    table.upsert(points(1, 1, 9, 9, 9));
    assert_eq!(all_match_points(&users, &games), Err(RecomputeError::StorageFailure));
    assert_eq!(
        recalculate_scores(&users, &games, &mut table),
        Err(RecomputeError::StorageFailure)
    );
    assert_eq!(table.rows, vec![points(1, 1, 9, 9, 9)]);
    let single = vec![(player(1), None, many)];
    assert_eq!(single_match_points(&single, &games[0]), Err(RecomputeError::StorageFailure));
    assert_eq!(
        recalculate_match(&single, &games[0], &mut table),
        Err(RecomputeError::StorageFailure)
    );
    assert_eq!(table.rows, vec![points(1, 1, 9, 9, 9)]);
}

#[test]
fn single_match_points_take_the_given_prediction() {
    let games = season();
    let users = vec![
        (player(1), Some(guess(1, 1, 2, 1, 10)), vec![pick(1, 10, 1), pick(1, 30, 2)]),
        (player(2), None, vec![pick(2, 20, 1)]),
    ];
    assert_eq!(
        single_match_points(&users, &games[0]),
        Ok(vec![points(1, 1, 5, 7, 3), points(2, 1, 1, 0, 0)])
    );
}

#[test]
fn single_match_points_with_unknown_stage_is_an_error() {
    let games = join_games(&vec![fixture(1, 9, 1, 2)], &sides(), &vec![result(1, 2, 1, 12)]);
    let users = vec![(player(1), None, Vec::new())];
    assert_eq!(single_match_points(&users, &games[0]), Err(RecomputeError::InvalidStage));
    assert_eq!(single_match_points(&Vec::new(), &games[0]), Err(RecomputeError::InvalidStage));
}

#[test]
fn recalculation_of_one_match_sums_over_all_rows() {
    let games = season();
    let mut table = PointsTable::new();
    recalculate_scores(&league(), &games, &mut table).unwrap();
    let changed = (games[0].0.clone(), result(1, 0, 3, 50));
    let users = vec![
        (player(1), Some(guess(1, 1, 2, 1, 10)), vec![pick(1, 10, 1), pick(1, 30, 2)]),
        (player(2), None, vec![pick(2, 20, 1)]),
        (player(3), None, Vec::new()),
    ];
    let scores = recalculate_match(&users, &changed, &mut table);
    // User 1 now has nothing for match 1 and keeps 3 for match 2; user 2 has
    // 6 for the favourite that won 3-0 away, and keeps 12 for match 2.
    assert_eq!(scores, Ok(vec![3, 18, 0]));
    assert_eq!(table.get(1, 1), Some(points(1, 1, 0, 0, 0)));
    assert_eq!(table.get(2, 1), Some(points(2, 1, 6, 0, 0)));
    assert_eq!(table.get(1, 2), Some(points(1, 2, 1, 2, 0)));
    assert_eq!(table.len(), 6);
    let again = recalculate_match(&users, &changed, &mut table);
    assert_eq!(again, Ok(vec![3, 18, 0]));
    assert_eq!(table.len(), 6);
}

#[test]
fn recalculation_of_one_match_with_unknown_stage() {
    let games = join_games(&vec![fixture(1, 9, 1, 2)], &sides(), &vec![result(1, 2, 1, 12)]);
    let mut table = PointsTable::new();
    table.upsert(points(1, 1, 9, 9, 9));
    let users = vec![(player(1), None, Vec::new())];
    assert_eq!(
        recalculate_match(&users, &games[0], &mut table),
        Err(RecomputeError::InvalidStage)
    );
    assert_eq!(table.rows, vec![points(1, 1, 9, 9, 9)]);
}

#[test]
fn recalculation_of_one_match_with_score_out_of_range() {
    let games = season();
    let mut table = PointsTable::new();
    table.upsert(points(1, 40, i32::MAX, 0, 0));
    let users = vec![(player(1), Some(guess(1, 1, 2, 1, 10)), Vec::new())];
    assert_eq!(
        recalculate_match(&users, &games[0], &mut table),
        Err(RecomputeError::StorageFailure)
    );
    assert_eq!(table.rows, vec![points(1, 40, i32::MAX, 0, 0)]);
}
