//! Components and resources that hold no coordinates: tags, counters and the
//! score.

use vstd::prelude::*;
use crate::num::Scalar;

verus! {

#[verifier::external_type_specification]
#[verifier::external_body]
#[verifier::reject_recursive_types(T)]
pub struct ExVecStorage<T>(specs::VecStorage<T>);

#[verifier::external_type_specification]
#[verifier::external_body]
#[verifier::reject_recursive_types(T)]
pub struct ExDenseVecStorage<T>(specs::DenseVecStorage<T>);

/// Kinds of enemies.
#[derive(Debug, Clone, Copy, PartialEq, Eq, Structural)]
pub enum EnemyType {
    Basic,
    Advanced,
    Boss,
}

/// Tag for entities that are to be removed at the next `maintain`.
#[derive(Debug, Clone, Copy, Default, PartialEq, Eq, Structural)]
pub struct MarkedForRemoval;

impl specs::Component for MarkedForRemoval {
    type Storage = specs::DenseVecStorage<Self>;
}

/// A destructible brick: how many more hits it takes, and what it is worth.
#[derive(Debug, Clone, Copy, PartialEq, Eq, Structural)]
pub struct Brick {
    pub hits_required: i32,
    pub points: i32,
}

impl specs::Component for Brick {
    type Storage = specs::VecStorage<Self>;
}

/// Tag for a paddle, and who steers it.
#[derive(Debug, Clone, Copy, PartialEq, Eq, Structural)]
pub struct Paddle {
    pub player_controlled: bool,
}

impl specs::Component for Paddle {
    type Storage = specs::VecStorage<Self>;
}

/// Tag for a ball.
#[derive(Debug, Clone, Copy, Default, PartialEq, Eq, Structural)]
pub struct Ball;

impl specs::Component for Ball {
    type Storage = specs::DenseVecStorage<Self>;
}

/// Points of the two sides.
#[derive(Debug, Clone, Copy, PartialEq, Eq, Structural)]
pub struct Score {
    pub player_score: u32,
    pub ai_score: u32,
}

impl specs::Component for Score {
    type Storage = specs::DenseVecStorage<Self>;
}

/// One of the two sides of a match.
#[derive(Debug, Clone, Copy, PartialEq, Eq, Structural)]
pub enum Side {
    Player,
    Ai,
}

impl Score {
    /// The points of `side`.
    pub open spec fn of(self, side: Side) -> int {
        match side {
            Side::Player => self.player_score as int,
            Side::Ai => self.ai_score as int,
        }
    }

    /// The side that has reached `max_score`; the player's side where both
    /// have.
    pub open spec fn leader(self, max_score: u32) -> Option<Side> {
        if self.player_score >= max_score {
            Some(Side::Player)
        } else if self.ai_score >= max_score {
            Some(Side::Ai)
        } else {
            None
        }
    }

    /// Gives `side` one point.
    pub fn award(&mut self, side: Side)
        requires
            old(self).of(side) < u32::MAX,
        ensures
            final(self).of(side) == old(self).of(side) + 1,
            side == Side::Player ==> final(self).ai_score == old(self).ai_score,
            side == Side::Ai ==> final(self).player_score == old(self).player_score,
    {
        match side {
            Side::Player => {
                self.player_score = self.player_score + 1;
            },
            Side::Ai => {
                self.ai_score = self.ai_score + 1;
            },
        }
    }

    /// Whether `side` can still be given a point.
    pub fn can_award(&self, side: Side) -> (ok: bool)
        ensures
            ok == (self.of(side) < u32::MAX),
    {
        match side {
            Side::Player => self.player_score < u32::MAX,
            Side::Ai => self.ai_score < u32::MAX,
        }
    }

    /// The side that has won a match played to `max_score`, if one has.
    pub fn winner(&self, max_score: u32) -> (side: Option<Side>)
        ensures
            side == self.leader(max_score),
    {
        if self.player_score >= max_score {
            Some(Side::Player)
        } else if self.ai_score >= max_score {
            Some(Side::Ai)
        } else {
            None
        }
    }

    /// Sets both sides back to nil.
    pub fn reset(&mut self)
        ensures
            final(self).player_score == 0,
            final(self).ai_score == 0,
    {
        self.player_score = 0;
        self.ai_score = 0;
    }
}

impl Default for Score {
    /// Nil all.
    fn default() -> (score: Score)
        ensures
            score.player_score == 0,
            score.ai_score == 0,
    {
        Score { player_score: 0, ai_score: 0 }
    }
}

/// How much damage an entity can still take.
#[derive(Debug, Clone, Copy, PartialEq)]
pub struct Health<T> {
    pub current: T,
    pub maximum: T,
}

impl<T: Scalar> Health<T> {
    /// Whether there is health left: more than nil.
    pub open spec fn alive(self) -> bool {
        T::ratio(0, 1).below(self.current)
    }

    /// Full health.
    pub fn new(maximum: T) -> (health: Health<T>)
        ensures
            health == (Health { current: maximum, maximum }),
    {
        Health { current: maximum, maximum }
    }

    /// Whether there is health left.
    pub fn is_alive(&self) -> (yes: bool)
        ensures
            yes == self.alive(),
    {
        T::from_ratio(0, 1).less_than(self.current)
    }

    /// Takes `damage` off the health, down to nil.
    pub fn take_damage(&mut self, damage: T)
        ensures
            final(self).maximum == old(self).maximum,
            final(self).current == old(self).current.difference(damage).larger(T::ratio(0, 1)),
    {
        self.current = self.current.minus(damage).max_of(T::from_ratio(0, 1));
    }

    /// Gives `amount` of health back, up to the maximum.
    pub fn heal(&mut self, amount: T)
        ensures
            final(self).maximum == old(self).maximum,
            final(self).current == old(self).current.sum(amount).smaller(old(self).maximum),
    {
        self.current = self.current.plus(amount).min_of(self.maximum);
    }
}

/// A computer-steered enemy.
#[derive(Debug, Clone, Copy, PartialEq)]
pub struct Enemy<T> {
    pub enemy_type: EnemyType,
    pub health: T,
    pub max_health: T,
    pub damage: T,
}

/// The health an enemy of a kind starts with.
pub open spec fn enemy_health(enemy_type: EnemyType) -> i32 {
    match enemy_type {
        EnemyType::Basic => 50,
        EnemyType::Advanced => 100,
        EnemyType::Boss => 500,
    }
}

/// The damage an enemy of a kind does.
pub open spec fn enemy_damage(enemy_type: EnemyType) -> i32 {
    match enemy_type {
        EnemyType::Basic => 10,
        EnemyType::Advanced => 20,
        EnemyType::Boss => 50,
    }
}

impl<T: Scalar> Enemy<T> {
    /// An enemy of a kind, at full health.
    pub fn new(enemy_type: EnemyType) -> (enemy: Enemy<T>)
        ensures
            enemy.enemy_type == enemy_type,
            enemy.health == T::ratio(enemy_health(enemy_type), 1),
            enemy.max_health == enemy.health,
            enemy.damage == T::ratio(enemy_damage(enemy_type), 1),
    {
        let (health, damage): (i32, i32) = match enemy_type {
            EnemyType::Basic => (50, 10),
            EnemyType::Advanced => (100, 20),
            EnemyType::Boss => (500, 50),
        };
        let health = T::from_ratio(health, 1);
        Enemy { enemy_type, health, max_health: health, damage: T::from_ratio(damage, 1) }
    }
}

/// The frames of an animated sprite and the frame that shows.
#[derive(Debug, Clone)]
pub struct Animation<T> {
    pub current_frame: usize,
    /// How long the current frame has been showing.
    pub frame_time: T,
    /// How long a frame shows.
    pub frame_duration: T,
    pub loop_animation: bool,
    /// The sprite of each frame.
    pub frames: Vec<String>,
}

/// The frame that follows `current` among `count` frames: the next one, and
/// after the last the first of a looping animation and the last of any other.
pub open spec fn frame_after(current: int, count: int, looping: bool) -> int {
    if current + 1 >= count {
        if looping {
            0
        } else {
            count - 1
        }
    } else {
        current + 1
    }
}

impl<T: Scalar> Animation<T> {
    /// A looping animation at its first frame.
    pub fn new(frames: Vec<String>, frame_duration: T) -> (animation: Animation<T>)
        ensures
            animation.current_frame == 0,
            animation.frame_time == T::ratio(0, 1),
            animation.frame_duration == frame_duration,
            animation.loop_animation,
            animation.frames == frames,
    {
        Animation {
            current_frame: 0,
            frame_time: T::from_ratio(0, 1),
            frame_duration,
            loop_animation: true,
            frames,
        }
    }

    /// Lets the time `delta_time` pass: once the current frame has shown
    /// for its duration, the next frame shows and its time starts at nil.
    pub fn update(&mut self, delta_time: T)
        requires
            old(self).current_frame < usize::MAX,
            old(self).loop_animation || old(self).frames@.len() > 0,
        ensures
            final(self).frames == old(self).frames,
            final(self).frame_duration == old(self).frame_duration,
            final(self).loop_animation == old(self).loop_animation,
            old(self).frame_duration.within(old(self).frame_time.sum(delta_time)) ==> {
                &&& final(self).frame_time == T::ratio(0, 1)
                &&& final(self).current_frame == frame_after(
                    old(self).current_frame as int,
                    old(self).frames@.len() as int,
                    old(self).loop_animation,
                )
            },
            !old(self).frame_duration.within(old(self).frame_time.sum(delta_time)) ==> {
                &&& final(self).frame_time == old(self).frame_time.sum(delta_time)
                &&& final(self).current_frame == old(self).current_frame
            },
    {
        self.frame_time = self.frame_time.plus(delta_time);
        if self.frame_duration.at_most(self.frame_time) {
            self.frame_time = T::from_ratio(0, 1);
            self.current_frame = self.current_frame + 1;
            if self.current_frame >= self.frames.len() {
                if self.loop_animation {
                    self.current_frame = 0;
                } else {
                    self.current_frame = self.frames.len() - 1;
                }
            }
        }
    }

    /// The sprite of the frame that shows.
    pub fn current_sprite(&self) -> (sprite: &String)
        requires
            self.current_frame < self.frames@.len(),
        ensures
            *sprite == self.frames@[self.current_frame as int],
    {
        &self.frames[self.current_frame]
    }
}

} // verus!
