use wk_predictions::lucky::{
    generate_random_score, prediction_from_draws, LuckyDraws, GOAL_POSSIBILITIES,
};

fn draws(home_score: i16, away_score: i16, minute: i16, home_penalties: i16, coin: bool) -> LuckyDraws {
    LuckyDraws { home_score, away_score, minute, home_penalties, coin }
}

#[test]
fn goal_possibilities_favour_few_goals() {
    assert_eq!(GOAL_POSSIBILITIES.len(), 25);
    assert_eq!(GOAL_POSSIBILITIES.iter().filter(|g| **g == 0).count(), 7);
    assert_eq!(GOAL_POSSIBILITIES.iter().filter(|g| **g == 1).count(), 6);
    assert_eq!(GOAL_POSSIBILITIES.iter().filter(|g| **g == 7).count(), 1);
    assert!(GOAL_POSSIBILITIES.iter().all(|g| (0..=7).contains(g)));
}

#[test]
fn lucky_group_match() {
    let p = prediction_from_draws(3, 48, &draws(2, 2, 17, 7, true));
    assert_eq!((p.user_id, p.match_id), (3, 48));
    assert_eq!((p.home_score, p.away_score, p.time_of_first_goal), (2, 2, 17));
    assert_eq!(p.source, "lucky");
    assert_eq!((p.home_penalties, p.away_penalties, p.duration), (None, None, None));
}

#[test]
fn lucky_goalless_match_has_no_first_goal() {
    let p = prediction_from_draws(3, 1, &draws(0, 0, 17, 7, true));
    assert_eq!(p.time_of_first_goal, 0);
    let p = prediction_from_draws(3, 1, &draws(0, 1, 17, 7, true));
    assert_eq!(p.time_of_first_goal, 17);
}

#[test]
fn lucky_drawn_knockout_match() {
    let p = prediction_from_draws(3, 49, &draws(1, 1, 40, 3, true));
    assert_eq!((p.home_penalties, p.away_penalties, p.duration), (Some(3), Some(5), Some(120)));
    let p = prediction_from_draws(3, 49, &draws(1, 1, 40, 4, false));
    assert_eq!((p.home_penalties, p.away_penalties, p.duration), (Some(4), Some(5), Some(120)));
    let p = prediction_from_draws(3, 49, &draws(1, 1, 40, 5, true));
    assert_eq!((p.home_penalties, p.away_penalties, p.duration), (Some(5), Some(6), Some(120)));
    let p = prediction_from_draws(3, 49, &draws(1, 1, 40, 5, false));
    assert_eq!((p.home_penalties, p.away_penalties, p.duration), (Some(5), Some(4), Some(120)));
    let p = prediction_from_draws(3, 64, &draws(0, 0, 40, 9, true));
    assert_eq!((p.home_penalties, p.away_penalties, p.duration), (Some(9), Some(10), Some(120)));
    assert_eq!(p.time_of_first_goal, 0);
}

#[test]
fn lucky_decided_knockout_match() {
    let p = prediction_from_draws(3, 49, &draws(2, 1, 40, 3, true));
    assert_eq!((p.home_penalties, p.away_penalties, p.duration), (None, None, Some(90)));
    let p = prediction_from_draws(3, 49, &draws(2, 1, 40, 3, false));
    assert_eq!((p.home_penalties, p.away_penalties, p.duration), (None, None, Some(120)));
}

#[test]
fn random_group_predictions_are_well_formed() {
    let mut rng = rand::thread_rng();
    for _ in 0..500 {
        let p = generate_random_score(&mut rng, 11, 17);
        assert_eq!((p.user_id, p.match_id), (11, 17));
        assert_eq!(p.source, "lucky");
        assert!(GOAL_POSSIBILITIES.contains(&p.home_score));
        assert!(GOAL_POSSIBILITIES.contains(&p.away_score));
        if p.home_score > 0 || p.away_score > 0 {
            assert!((0..90).contains(&p.time_of_first_goal));
        } else {
            assert_eq!(p.time_of_first_goal, 0);
        }
        assert_eq!((p.home_penalties, p.away_penalties, p.duration), (None, None, None));
    }
}

#[test]
fn random_knockout_predictions_are_well_formed() {
    let mut rng = rand::thread_rng();
    for _ in 0..500 {
        let p = generate_random_score(&mut rng, 11, 60);
        assert!(GOAL_POSSIBILITIES.contains(&p.home_score));
        assert!(GOAL_POSSIBILITIES.contains(&p.away_score));
        if p.home_score == p.away_score {
            let home = p.home_penalties.unwrap();
            let away = p.away_penalties.unwrap();
            assert!((0..10).contains(&home));
            if home < 5 {
                assert_eq!(away, 5);
            } else {
                assert!(away == home + 1 || away == home - 1);
            }
            assert_eq!(p.duration, Some(120));
        } else {
            assert_eq!((p.home_penalties, p.away_penalties), (None, None));
            assert!(p.duration == Some(90) || p.duration == Some(120));
        }
    }
}

#[test]
fn random_predictions_are_not_all_the_same() {
    let mut rng = rand::thread_rng();
    let mut scorelines = Vec::new();
    let mut minutes = Vec::new();
    let mut durations = Vec::new();
    for _ in 0..500 {
        let p = generate_random_score(&mut rng, 11, 60);
        scorelines.push((p.home_score, p.away_score));
        minutes.push(p.time_of_first_goal);
        durations.push(p.duration);
    }
    assert!(scorelines.iter().any(|s| *s != scorelines[0]));
    assert!(minutes.iter().any(|m| *m != minutes[0]));
    assert!(minutes.iter().any(|m| *m != 0 && *m != 90));
    assert!(durations.contains(&Some(90)));
    assert!(durations.contains(&Some(120)));
}
