//! Scoring systems for typical games.

use vstd::prelude::*;
use crate::scoring::duration_nanos;
use crate::scoring::seconds;
use crate::scoring::Achievement;
use crate::scoring::AchievementCondition;
use crate::scoring::ScoreType;
use crate::scoring::ScoringSystem;
use crate::scoring::WinCondition;

verus! {

/// An achievement that is still locked.
fn locked(
    id: &str,
    name: &str,
    description: &str,
    condition: AchievementCondition,
    reward_points: i64,
) -> (achievement: Achievement)
    ensures
        achievement.id@ == id@,
        achievement.name@ == name@,
        achievement.description@ == description@,
        achievement.condition == condition,
        achievement.reward_points == reward_points,
        !achievement.unlocked,
        achievement.unlocked_at is None,
{
    Achievement {
        id: id.to_owned(),
        name: name.to_owned(),
        description: description.to_owned(),
        condition,
        reward_points,
        unlocked: false,
        unlocked_at: None,
    }
}

/// Scoring for the paddle game: won by the first to reach `max_score`
/// points, with an achievement for the first point and one for two minutes
/// of play.
pub fn pong_scoring(max_score: i32) -> (system: ScoringSystem)
    ensures
        system.wf(),
        system.cells().len() == 0,
        system.history().len() == 0,
        system.conditions().len() == 1,
        system.conditions()[0] == (WinCondition::ScoreThreshold {
            target_score: max_score as i64,
            score_type: ScoreType::Points,
        }),
        system.known_achievements().len() == 2,
        system.known_achievements()[0].id@ == "first_point"@,
        system.known_achievements()[0].condition == (AchievementCondition::ScoreThreshold {
            score_type: ScoreType::Points,
            threshold: 1,
        }),
        system.known_achievements()[0].reward_points == 10,
        !system.known_achievements()[0].unlocked,
        system.known_achievements()[1].id@ == "speed_demon"@,
        system.known_achievements()[1].condition is TimeBased,
        duration_nanos(system.known_achievements()[1].condition->TimeBased_duration)
            == 120_000_000_000u128,
        system.known_achievements()[1].reward_points == 50,
        !system.known_achievements()[1].unlocked,
{
    let mut system = ScoringSystem::with_pong_defaults(max_score);
    proof {
        reveal_strlit("first_point");
        reveal_strlit("speed_demon");
        assert("first_point"@[0] != "speed_demon"@[0]);
    }
    system.add_achievement(
        locked(
            "first_point",
            "First Blood",
            "Score your first point",
            AchievementCondition::ScoreThreshold { score_type: ScoreType::Points, threshold: 1 },
            10,
        ),
    );
    system.add_achievement(
        locked(
            "speed_demon",
            "Speed Demon",
            "Win a game in under 2 minutes",
            AchievementCondition::TimeBased { duration: seconds(120) },
            50,
        ),
    );
    system
}

/// Scoring for a shooter: won by elimination, with an achievement for ten
/// headshots.
pub fn shooter_scoring() -> (system: ScoringSystem)
    ensures
        system.wf(),
        system.cells().len() == 0,
        system.history().len() == 0,
        system.conditions().len() == 1,
        system.conditions()[0] is Elimination,
        system.known_achievements().len() == 1,
        system.known_achievements()[0].id@ == "headshot_master"@,
        system.known_achievements()[0].condition is ActionCount,
        system.known_achievements()[0].condition->ActionCount_action@ == "headshot"@,
        system.known_achievements()[0].condition->ActionCount_count == 10,
        system.known_achievements()[0].reward_points == 100,
        !system.known_achievements()[0].unlocked,
{
    let mut system = ScoringSystem::new();
    system.add_win_condition(WinCondition::Elimination);
    system.add_achievement(
        locked(
            "headshot_master",
            "Headshot Master",
            "Get 10 headshots",
            AchievementCondition::ActionCount { action: "headshot".to_owned(), count: 10 },
            100,
        ),
    );
    system
}

/// Scoring for a race: won by reaching a place, with an achievement for
/// thirty seconds of play.
pub fn racing_scoring() -> (system: ScoringSystem)
    ensures
        system.wf(),
        system.cells().len() == 0,
        system.history().len() == 0,
        system.conditions().len() == 1,
        system.conditions()[0] is Location,
        system.known_achievements().len() == 1,
        system.known_achievements()[0].id@ == "speed_racer"@,
        system.known_achievements()[0].condition is TimeBased,
        duration_nanos(system.known_achievements()[0].condition->TimeBased_duration)
            == 30_000_000_000u128,
        system.known_achievements()[0].reward_points == 75,
        !system.known_achievements()[0].unlocked,
{
    let mut system = ScoringSystem::new();
    system.add_win_condition(WinCondition::Location);
    system.add_achievement(
        locked(
            "speed_racer",
            "Speed Racer",
            "Complete a lap in under 30 seconds",
            AchievementCondition::TimeBased { duration: seconds(30) },
            75,
        ),
    );
    system
}

} // verus!
