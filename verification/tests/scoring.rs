use modular_game_engine::scoring::presets;
use modular_game_engine::scoring::{
    same_score_type, Achievement, AchievementCondition, GameResult, Metadata, ScoreType,
    ScoringSystem, WinCondition,
};
use std::time::Duration;

fn achievement(id: &str, condition: AchievementCondition) -> Achievement {
    Achievement {
        id: id.to_string(),
        name: id.to_string(),
        description: String::new(),
        condition,
        reward_points: 10,
        unlocked: false,
        unlocked_at: None,
    }
}

#[test]
fn test_scoring_system() {
    let mut system = ScoringSystem::new();

    system.add_score("player1", ScoreType::Points, 10);
    assert_eq!(system.get_score("player1", &ScoreType::Points), 10);

    system.add_score("player1", ScoreType::Points, 5);
    assert_eq!(system.get_score("player1", &ScoreType::Points), 15);
}

#[test]
fn test_win_conditions() {
    let mut system = ScoringSystem::with_pong_defaults(5);

    system.add_score("player1", ScoreType::Points, 5);

    match system.check_win_conditions() {
        GameResult::Win { winner, .. } => assert_eq!(winner, "player1"),
        _ => panic!("Expected win condition"),
    }
}

#[test]
fn test_leaderboard() {
    let mut system = ScoringSystem::new();

    system.add_score("player1", ScoreType::Points, 10);
    system.add_score("player2", ScoreType::Points, 20);
    system.add_score("player3", ScoreType::Points, 15);

    let leaderboard = system.get_leaderboard(&ScoreType::Points);
    assert_eq!(leaderboard[0], ("player2".to_string(), 20));
    assert_eq!(leaderboard[1], ("player3".to_string(), 15));
    assert_eq!(leaderboard[2], ("player1".to_string(), 10));
}

#[test]
fn test_achievements() {
    let mut system = ScoringSystem::new();

    let achievement = Achievement {
        id: "test_achievement".to_string(),
        name: "Test Achievement".to_string(),
        description: "Test achievement".to_string(),
        condition: AchievementCondition::ScoreThreshold {
            score_type: ScoreType::Points,
            threshold: 5,
        },
        reward_points: 10,
        unlocked: false,
        unlocked_at: None,
    };

    system.add_achievement(achievement);
    system.add_score("player1", ScoreType::Points, 5);

    let unlocked = system.get_unlocked_achievements("player1");
    assert_eq!(unlocked.len(), 1);
    assert_eq!(unlocked[0].id, "test_achievement");
}

#[test]
fn test_pong_preset() {
    let system = presets::pong_scoring(5);
    assert_eq!(system.win_conditions().len(), 1);
    assert!(!system.achievements().is_empty());
}

#[test]
fn scores_are_kept_by_player_and_type() {
    let mut system = ScoringSystem::new();
    assert_eq!(system.get_score("nobody", &ScoreType::Points), 0);
    assert_eq!(system.add_score("a", ScoreType::Points, 3), 3);
    assert_eq!(system.add_score("a", ScoreType::Kills, 1), 1);
    assert_eq!(system.add_score("b", ScoreType::Points, -7), -7);
    assert_eq!(system.add_score("a", ScoreType::Custom("laps".to_string()), 2), 2);
    assert_eq!(system.add_score("a", ScoreType::Custom("laps".to_string()), 2), 4);
    assert_eq!(system.add_score("a", ScoreType::Custom("flags".to_string()), 9), 9);
    assert_eq!(system.add_score("a", ScoreType::Points, -3), 0);
    assert_eq!(system.get_score("a", &ScoreType::Points), 0);
    assert_eq!(system.get_score("a", &ScoreType::Kills), 1);
    assert_eq!(system.get_score("b", &ScoreType::Points), -7);
    assert_eq!(system.get_score("b", &ScoreType::Kills), 0);
    assert_eq!(system.get_score("a", &ScoreType::Custom("laps".to_string())), 4);
    let of_a = system.get_player_scores("a");
    assert_eq!(of_a.len(), 4);
    assert!(same_score_type(&of_a[0].0, &ScoreType::Points));
    assert_eq!(of_a[0].1, 0);
    assert!(same_score_type(&of_a[2].0, &ScoreType::Custom("laps".to_string())));
    assert_eq!(of_a[2].1, 4);
    assert!(system.get_player_scores("c").is_empty());
}

#[test]
fn score_types_are_told_apart() {
    assert!(same_score_type(&ScoreType::Points, &ScoreType::Points));
    assert!(!same_score_type(&ScoreType::Points, &ScoreType::Kills));
    assert!(!same_score_type(&ScoreType::Combo, &ScoreType::Custom("".to_string())));
    assert!(same_score_type(&ScoreType::Custom("x".to_string()), &ScoreType::Custom("x".to_string())));
    assert!(!same_score_type(&ScoreType::Custom("x".to_string()), &ScoreType::Custom("y".to_string())));
}

#[test]
fn equal_scores_stand_in_order_of_first_scoring() {
    let mut system = ScoringSystem::new();
    for (player, points) in [("d", 5), ("a", 9), ("c", 5), ("b", 9), ("e", 1)] {
        system.add_score(player, ScoreType::Points, points);
    }
    system.add_score("z", ScoreType::Kills, 100);
    system.add_score("e", ScoreType::Points, 4);
    let board = system.get_leaderboard(&ScoreType::Points);
    let names: Vec<&str> = board.iter().map(|row| row.0.as_str()).collect();
    assert_eq!(names, vec!["a", "b", "d", "c", "e"]);
    let values: Vec<i64> = board.iter().map(|row| row.1).collect();
    assert_eq!(values, vec![9, 9, 5, 5, 5]);
    assert_eq!(system.get_leaderboard(&ScoreType::Kills), vec![("z".to_string(), 100)]);
    assert!(system.get_leaderboard(&ScoreType::Deaths).is_empty());
}

#[test]
fn the_first_condition_that_is_met_decides() {
    let mut system = ScoringSystem::new();
    assert!(matches!(system.check_win_conditions(), GameResult::Ongoing));
    system.add_win_condition(WinCondition::Elimination);
    system.add_win_condition(WinCondition::ScoreThreshold {
        target_score: 3,
        score_type: ScoreType::Kills,
    });
    system.add_win_condition(WinCondition::TimeSurvival { duration: Duration::from_secs(0) });
    system.add_score("early", ScoreType::Kills, 2);
    system.add_score("late", ScoreType::Kills, 7);
    system.add_score("other", ScoreType::Points, 50);
    match system.check_win_conditions() {
        GameResult::Win { winner, reason } => {
            assert_eq!(winner, "late");
            assert_eq!(reason, "Reached 3 kills");
        }
        _ => panic!("a win was due"),
    }
    system.add_score("early", ScoreType::Kills, 1);
    assert!(matches!(system.check_win_conditions(), GameResult::Win { winner, .. } if winner == "early"));
    system.reset();
    match system.check_win_conditions() {
        GameResult::Win { winner, reason } => {
            assert_eq!(winner, "Player");
            assert_eq!(reason, "Survived for 0ns");
        }
        _ => panic!("a win was due"),
    }
}

#[test]
fn a_survival_time_that_has_not_passed_wins_nothing() {
    let mut system = ScoringSystem::new();
    system.add_win_condition(WinCondition::TimeSurvival { duration: Duration::from_secs(3600) });
    system.add_win_condition(WinCondition::Location);
    system.add_win_condition(WinCondition::Custom { condition_id: "flag".to_string() });
    system.update_time();
    assert!(matches!(system.check_win_conditions(), GameResult::Ongoing));
    assert!(system.game_duration() < Duration::from_secs(3600));
}

#[test]
fn the_history_keeps_its_newest_thousand() {
    let mut system = ScoringSystem::new();
    for i in 0..1003 {
        system.add_score("p", ScoreType::Points, i);
    }
    let history = system.score_history();
    assert_eq!(history.len(), 1000);
    assert_eq!(history[0].value, 3);
    assert_eq!(history[999].value, 1002);
    assert_eq!(history[999].player_id, "p");
    assert_eq!(history[999].metadata.len(), 0);
    assert!(system.can_total());
    let stats = system.get_stats();
    assert_eq!(stats.total_actions, 1000);
    assert_eq!(stats.total_scores, (3..1003).sum::<i64>());
    assert_eq!(stats.active_players, 1);
    assert_eq!(stats.unlocked_achievements, 0);
}

#[test]
fn stats_count_players_once() {
    let mut system = ScoringSystem::new();
    system.add_achievement(achievement(
        "any",
        AchievementCondition::ScoreThreshold { score_type: ScoreType::Kills, threshold: 1 },
    ));
    system.add_achievement(achievement(
        "never",
        AchievementCondition::Custom { condition_id: "x".to_string() },
    ));
    system.add_score("a", ScoreType::Points, 4);
    system.add_score("b", ScoreType::Points, -1);
    system.add_score("a", ScoreType::Kills, 1);
    system.add_score("c", ScoreType::Deaths, 2);
    let stats = system.get_stats();
    assert_eq!(stats.total_scores, 6);
    assert_eq!(stats.total_actions, 4);
    assert_eq!(stats.active_players, 3);
    assert_eq!(stats.unlocked_achievements, 1);
    assert_eq!(stats.game_duration, system.game_duration());
}

#[test]
fn a_total_out_of_range_is_found_out() {
    let mut system = ScoringSystem::new();
    system.add_score("a", ScoreType::Points, i64::MAX);
    system.add_score("b", ScoreType::Points, 1);
    assert!(!system.can_total());
    system.add_score("c", ScoreType::Points, -1);
    assert!(system.can_total());
    assert_eq!(system.get_stats().total_scores, i64::MAX);
}

#[test]
fn achievements_unlock_when_their_condition_is_met() {
    let mut system = ScoringSystem::new();
    system.add_achievement(achievement(
        "scorer",
        AchievementCondition::ScoreThreshold { score_type: ScoreType::Points, threshold: 5 },
    ));
    system.add_achievement(achievement(
        "finisher",
        AchievementCondition::GameCompletion { win_condition: WinCondition::Elimination },
    ));
    system.add_achievement(achievement(
        "patient",
        AchievementCondition::TimeBased { duration: Duration::from_secs(3600) },
    ));
    system.add_score("a", ScoreType::Points, 4);
    assert!(system.get_unlocked_achievements("a").is_empty());
    system.add_score("b", ScoreType::Kills, 50);
    assert!(system.get_unlocked_achievements("b").is_empty());
    system.add_score("a", ScoreType::Points, 1);
    let unlocked = system.get_unlocked_achievements("a");
    assert_eq!(unlocked.len(), 1);
    assert_eq!(unlocked[0].id, "scorer");
    assert!(unlocked[0].unlocked_at.is_some());
    assert_eq!(system.get_unlocked_achievements("somebody else").len(), 1);
    system.add_score("a", ScoreType::Points, -5);
    assert_eq!(system.get_unlocked_achievements("a").len(), 1);
    system.reset();
    assert!(system.get_unlocked_achievements("a").is_empty());
    assert_eq!(system.achievements().len(), 3);
    assert!(system.achievements()[0].unlocked_at.is_none());
    assert_eq!(system.get_score("a", &ScoreType::Points), 0);
    assert!(system.score_history().is_empty());
}

#[test]
fn a_time_based_achievement_unlocks_once_the_time_is_played() {
    let mut system = ScoringSystem::new();
    system.add_achievement(achievement(
        "at once",
        AchievementCondition::TimeBased { duration: Duration::from_secs(0) },
    ));
    system.check_achievements("anyone");
    assert_eq!(system.get_unlocked_achievements("anyone").len(), 1);
}

#[test]
fn an_achievement_of_the_same_id_takes_the_place_of_the_old() {
    let mut system = ScoringSystem::new();
    system.add_achievement(achievement(
        "a",
        AchievementCondition::ScoreThreshold { score_type: ScoreType::Points, threshold: 1 },
    ));
    system.add_achievement(achievement("b", AchievementCondition::Custom { condition_id: "c".to_string() }));
    system.add_achievement(achievement(
        "a",
        AchievementCondition::ScoreThreshold { score_type: ScoreType::Points, threshold: 100 },
    ));
    assert_eq!(system.achievements().len(), 2);
    assert_eq!(system.achievements()[0].id, "a");
    system.add_score("p", ScoreType::Points, 5);
    assert!(system.get_unlocked_achievements("p").is_empty());
}

#[test]
fn the_presets() {
    let pong = presets::pong_scoring(7);
    assert!(matches!(
        pong.win_conditions()[0],
        WinCondition::ScoreThreshold { target_score: 7, score_type: ScoreType::Points }
    ));
    assert_eq!(pong.achievements().len(), 2);
    assert_eq!(pong.achievements()[0].id, "first_point");
    assert_eq!(pong.achievements()[0].name, "First Blood");
    assert_eq!(pong.achievements()[0].description, "Score your first point");
    assert_eq!(pong.achievements()[0].reward_points, 10);
    assert_eq!(pong.achievements()[1].id, "speed_demon");
    assert!(matches!(
        pong.achievements()[1].condition,
        AchievementCondition::TimeBased { duration } if duration == Duration::from_secs(120)
    ));
    let shooter = presets::shooter_scoring();
    assert!(matches!(shooter.win_conditions()[0], WinCondition::Elimination));
    assert_eq!(shooter.achievements()[0].id, "headshot_master");
    assert_eq!(shooter.achievements()[0].reward_points, 100);
    assert!(matches!(
        &shooter.achievements()[0].condition,
        AchievementCondition::ActionCount { action, count: 10 } if action == "headshot"
    ));
    let racing = presets::racing_scoring();
    assert!(matches!(racing.win_conditions()[0], WinCondition::Location));
    assert_eq!(racing.achievements()[0].id, "speed_racer");
    assert_eq!(racing.achievements()[0].reward_points, 75);
    assert!(matches!(
        racing.achievements()[0].condition,
        AchievementCondition::TimeBased { duration } if duration == Duration::from_secs(30)
    ));
}

#[test]
fn notes_are_kept_by_key() {
    let mut notes = Metadata::new();
    assert_eq!(notes.len(), 0);
    assert_eq!(notes.get("action"), None);
    notes.insert("action", "headshot");
    notes.insert("map", "dust");
    notes.insert("action", "melee");
    notes.insert("", "empty key");
    assert_eq!(notes.len(), 3);
    assert_eq!(notes.get("action"), Some(&"melee".to_string()));
    assert_eq!(notes.get("map"), Some(&"dust".to_string()));
    assert_eq!(notes.get(""), Some(&"empty key".to_string()));
    assert_eq!(notes.get("Action"), None);
    assert_eq!(
        notes.entries(),
        &vec![
            ("action".to_string(), "melee".to_string()),
            ("map".to_string(), "dust".to_string()),
            ("".to_string(), "empty key".to_string()),
        ]
    );
}

#[test]
fn a_recorded_time_decides_the_conditions_of_time() {
    let mut system = ScoringSystem::new();
    system.add_win_condition(WinCondition::TimeSurvival { duration: Duration::from_secs(60) });
    system.add_achievement(achievement(
        "an hour",
        AchievementCondition::TimeBased { duration: Duration::from_secs(3600) },
    ));
    system.add_score("p", ScoreType::Points, 7);

    system.record_time(Duration::from_nanos(59_999_999_999));
    assert_eq!(system.game_duration(), Duration::from_nanos(59_999_999_999));
    assert!(matches!(system.check_win_conditions(), GameResult::Ongoing));

    system.record_time(Duration::from_secs(60));
    assert!(matches!(
        system.check_win_conditions(),
        GameResult::Win { winner, .. } if winner == "Player"
    ));
    system.check_achievements("p");
    assert!(system.get_unlocked_achievements("p").is_empty());

    system.record_time(Duration::from_secs(3600));
    system.check_achievements("p");
    assert_eq!(system.get_unlocked_achievements("p").len(), 1);
    // Recording a time changes neither scores nor history.
    assert_eq!(system.get_score("p", &ScoreType::Points), 7);
    assert_eq!(system.score_history().len(), 1);
}

#[test]
fn the_clock_brings_the_time_played_up_and_keeps_the_rest() {
    let mut system = ScoringSystem::new();
    system.add_score("p", ScoreType::Points, 3);
    system.record_time(Duration::from_secs(86_400));
    // The clock overrides what was recorded: the game has only just begun.
    system.update_time();
    assert!(system.game_duration() < Duration::from_secs(3600));
    let first = system.game_duration();
    system.update_time();
    assert!(system.game_duration() >= first);
    assert_eq!(system.get_score("p", &ScoreType::Points), 3);
    assert_eq!(system.score_history().len(), 1);
}

#[test]
fn a_score_stands_in_the_cell_of_its_player_and_type() {
    let mut system = ScoringSystem::new();
    system.add_score("player1", ScoreType::Points, 10);
    system.add_score("player2", ScoreType::Points, 20);
    system.add_score("player1", ScoreType::Kills, 1);
    system.add_score("player1", ScoreType::Points, 5);
    // One row for each player who has scored in the type, and no other.
    assert_eq!(
        system.get_leaderboard(&ScoreType::Points),
        vec![("player2".to_string(), 20), ("player1".to_string(), 15)]
    );
    assert_eq!(system.get_leaderboard(&ScoreType::Kills), vec![("player1".to_string(), 1)]);
    assert!(system.get_leaderboard(&ScoreType::Deaths).is_empty());
    assert_eq!(system.get_stats().active_players, 2);
}
