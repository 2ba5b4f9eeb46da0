//! Difficulty levels and which of them is selected.

use vstd::prelude::*;
use crate::num::Scalar;
use crate::str_map::names_of;
use crate::str_map::StrMap;

verus! {

/// A difficulty level.
#[derive(Debug, Clone, Copy, PartialEq, Eq, Hash, Structural)]
pub enum DifficultyLevel {
    VeryEasy,
    Easy,
    Normal,
    Hard,
    VeryHard,
    Custom,
}

impl Default for DifficultyLevel {
    /// The normal level.
    fn default() -> (level: DifficultyLevel)
        ensures
            level == DifficultyLevel::Normal,
    {
        DifficultyLevel::Normal
    }
}

impl DifficultyLevel {
    /// The level's place in the order from easiest to hardest, from 0; the
    /// custom level comes last.
    pub open spec fn spec_rank(self) -> int {
        match self {
            DifficultyLevel::VeryEasy => 0,
            DifficultyLevel::Easy => 1,
            DifficultyLevel::Normal => 2,
            DifficultyLevel::Hard => 3,
            DifficultyLevel::VeryHard => 4,
            DifficultyLevel::Custom => 5,
        }
    }

    /// The level's place in the order from easiest to hardest, from 0.
    pub fn rank(self) -> (rank: usize)
        ensures
            rank == self.spec_rank(),
    {
        match self {
            DifficultyLevel::VeryEasy => 0,
            DifficultyLevel::Easy => 1,
            DifficultyLevel::Normal => 2,
            DifficultyLevel::Hard => 3,
            DifficultyLevel::VeryHard => 4,
            DifficultyLevel::Custom => 5,
        }
    }

    /// The level at a place in the order.
    pub fn at_rank(rank: usize) -> (level: DifficultyLevel)
        requires
            rank < 6,
        ensures
            level.spec_rank() == rank,
    {
        if rank == 0 {
            DifficultyLevel::VeryEasy
        } else if rank == 1 {
            DifficultyLevel::Easy
        } else if rank == 2 {
            DifficultyLevel::Normal
        } else if rank == 3 {
            DifficultyLevel::Hard
        } else if rank == 4 {
            DifficultyLevel::VeryHard
        } else {
            DifficultyLevel::Custom
        }
    }
}

/// Two levels of the same rank are the same level.
pub proof fn lemma_rank_is_injective(a: DifficultyLevel, b: DifficultyLevel)
    requires
        a.spec_rank() == b.spec_rank(),
    ensures
        a == b,
{
}

/// Whether `level` is among `levels`.
pub open spec fn offered(levels: Seq<DifficultyLevel>, level: DifficultyLevel) -> bool {
    exists|i: int| 0 <= i < levels.len() && levels[i] == level
}

/// The place of `level` among `levels`: its first, or the first place of
/// all where it is not among them.
pub open spec fn place_of(levels: Seq<DifficultyLevel>, level: DifficultyLevel) -> int {
    if offered(levels, level) {
        choose|i: int|
            0 <= i < levels.len() && levels[i] == level && forall|k: int|
                0 <= k < i ==> levels[k] != level
    } else {
        0
    }
}

/// The level after `current` among `levels`; after the last comes the first.
pub open spec fn level_after(levels: Seq<DifficultyLevel>, current: DifficultyLevel) -> DifficultyLevel {
    levels[(place_of(levels, current) + 1) % levels.len() as int]
}

/// The level before `current` among `levels`; before the first comes the
/// last.
pub open spec fn level_before(levels: Seq<DifficultyLevel>, current: DifficultyLevel) -> DifficultyLevel {
    if place_of(levels, current) == 0 {
        levels[levels.len() - 1]
    } else {
        levels[place_of(levels, current) - 1]
    }
}

/// The first place of `level` among `levels`, or the first place of all.
fn find_level(levels: &Vec<DifficultyLevel>, level: DifficultyLevel) -> (place: usize)
    requires
        levels@.len() > 0,
    ensures
        place == place_of(levels@, level),
        place < levels@.len(),
{
    let mut i: usize = 0;
    while i < levels.len()
        invariant
            0 <= i <= levels.len(),
            forall|k: int| 0 <= k < i ==> levels@[k] != level,
        decreases levels.len() - i,
    {
        if levels[i] == level {
            proof {
                let n = place_of(levels@, level);
                assert(levels@[i as int] == level);
                assert(0 <= n < levels@.len() && levels@[n] == level && forall|k: int|
                    0 <= k < n ==> levels@[k] != level);
                if n < i {
                    assert(levels@[n] != level);
                } else if n > i {
                    assert(levels@[i as int] != level);
                }
            }
            return i;
        }
        i = i + 1;
    }
    0
}

/// The level that follows `current` when the player steps on: the next of
/// `levels`, and the first after the last. A level that is not offered
/// counts as the first.
pub fn next_level(levels: &Vec<DifficultyLevel>, current: DifficultyLevel) -> (level: DifficultyLevel)
    requires
        levels@.len() > 0,
    ensures
        level == level_after(levels@, current),
{
    let count = levels.len();
    let place = find_level(levels, current);
    let next = (place + 1) % count;
    levels[next]
}

/// The level that precedes `current` when the player steps back: the one
/// before it in `levels`, and the last before the first. A level that is not
/// offered counts as the first.
pub fn previous_level(levels: &Vec<DifficultyLevel>, current: DifficultyLevel) -> (level:
    DifficultyLevel)
    requires
        levels@.len() > 0,
    ensures
        level == level_before(levels@, current),
{
    let place = find_level(levels, current);
    if place == 0 {
        levels[levels.len() - 1]
    } else {
        levels[place - 1]
    }
}

/// Whether `level` is one of the levels of `list`.
fn has_level(list: &Vec<DifficultyLevel>, level: DifficultyLevel) -> (yes: bool)
    ensures
        yes == offered(list@, level),
{
    let mut i: usize = 0;
    while i < list.len()
        invariant
            0 <= i <= list.len(),
            forall|k: int| 0 <= k < i ==> list@[k] != level,
        decreases list.len() - i,
    {
        if list[i] == level {
            return true;
        }
        i = i + 1;
    }
    false
}

/// Whether `levels` are in order of rank.
pub open spec fn in_rank_order(levels: Seq<DifficultyLevel>) -> bool {
    forall|i: int, j: int|
        0 <= i < j < levels.len() ==> levels[i].spec_rank() <= levels[j].spec_rank()
}

/// The levels a player can choose from, easiest first: the levels that are
/// configured, each once, and after them the custom level where a custom
/// configuration is set.
pub fn available_levels(configured: &Vec<DifficultyLevel>, custom: bool) -> (levels: Vec<
    DifficultyLevel,
>)
    ensures
        in_rank_order(levels@),
        forall|level: DifficultyLevel|
            offered(levels@, level) == (offered(configured@, level) || (custom && level
                == DifficultyLevel::Custom)),
        forall|i: int, j: int|
            0 <= i < j < levels@.len() && levels@[i] == levels@[j] ==> levels@[i]
                == DifficultyLevel::Custom && custom && offered(configured@, DifficultyLevel::Custom)
                && i == levels@.len() - 2,
{
    let mut levels: Vec<DifficultyLevel> = Vec::new();
    let mut rank: usize = 0;
    while rank < 6
        invariant
            0 <= rank <= 6,
            levels@.len() <= rank,
            forall|i: int| 0 <= i < levels@.len() ==> (#[trigger] levels@[i]).spec_rank() < rank,
            forall|i: int, j: int|
                0 <= i < j < levels@.len() ==> levels@[i].spec_rank() < levels@[j].spec_rank(),
            forall|level: DifficultyLevel|
                offered(levels@, level) == (offered(configured@, level) && level.spec_rank() < rank),
        decreases 6 - rank,
    {
        let level = DifficultyLevel::at_rank(rank);
        let ghost before = levels@;
        if has_level(configured, level) {
            levels.push(level);
            proof {
                assert(levels@[before.len() as int] == level);
                assert forall|other: DifficultyLevel|
                    offered(levels@, other) == (offered(configured@, other) && other.spec_rank()
                        < rank + 1) by {
                    if offered(before, other) {
                        let n = choose|n: int| 0 <= n < before.len() && before[n] == other;
                        assert(levels@[n] == other);
                    }
                    if offered(levels@, other) && other != level {
                        let n = choose|n: int| 0 <= n < levels@.len() && levels@[n] == other;
                        assert(before[n] == other);
                    }
                    if other.spec_rank() == rank {
                        lemma_rank_is_injective(other, level);
                    }
                }
            }
        } else {
            proof {
                assert forall|other: DifficultyLevel|
                    offered(levels@, other) == (offered(configured@, other) && other.spec_rank()
                        < rank + 1) by {
                    if other.spec_rank() == rank {
                        lemma_rank_is_injective(other, level);
                    }
                }
            }
        }
        rank = rank + 1;
    }
    let ghost sorted = levels@;
    if custom {
        levels.push(DifficultyLevel::Custom);
        proof {
            assert(levels@[sorted.len() as int] == DifficultyLevel::Custom);
            assert forall|other: DifficultyLevel|
                offered(levels@, other) == (offered(configured@, other) || other
                    == DifficultyLevel::Custom) by {
                if offered(sorted, other) {
                    let n = choose|n: int| 0 <= n < sorted.len() && sorted[n] == other;
                    assert(levels@[n] == other);
                }
                if offered(levels@, other) && other != DifficultyLevel::Custom {
                    let n = choose|n: int| 0 <= n < levels@.len() && levels@[n] == other;
                    assert(sorted[n] == other);
                }
            }
            assert forall|i: int, j: int|
                0 <= i < j < levels@.len() && levels@[i] == levels@[j] implies levels@[i]
                == DifficultyLevel::Custom && offered(configured@, DifficultyLevel::Custom) && i
                == levels@.len() - 2 by {
                if j < sorted.len() {
                    assert(sorted[i].spec_rank() < sorted[j].spec_rank());
                } else {
                    assert(sorted[i] == DifficultyLevel::Custom);
                    assert(offered(sorted, DifficultyLevel::Custom));
                    if i < sorted.len() - 1 {
                        assert(sorted[i].spec_rank() < sorted[sorted.len() - 1].spec_rank());
                    }
                }
            }
        }
    } else {
        proof {
            assert forall|i: int, j: int|
                0 <= i < j < levels@.len() && levels@[i] == levels@[j] implies false by {
                assert(sorted[i].spec_rank() < sorted[j].spec_rank());
            }
        }
    }
    levels
}

/// A value of a difficulty setting.
pub enum DifficultyValue<T> {
    Float(T),
    Int(i32),
    Bool(bool),
    String(String),
}

/// The settings of one difficulty level, by aspect of the game.
pub struct DifficultyConfig<T> {
    pub name: String,
    pub description: String,
    pub values: StrMap<DifficultyValue<T>>,
}

impl<T: Scalar> DifficultyConfig<T> {
    /// The values are well formed.
    pub open spec fn wf(&self) -> bool {
        self.values.wf()
    }

    /// The number set for `aspect`; one where the aspect has none.
    pub open spec fn float_of(&self, aspect: Seq<char>) -> T {
        if self.values@.dom().contains(aspect) && self.values@[aspect] is Float {
            self.values@[aspect]->Float_0
        } else {
            T::ratio(1, 1)
        }
    }

    /// The whole number set for `aspect`; nil where the aspect has none.
    pub open spec fn int_of(&self, aspect: Seq<char>) -> i32 {
        if self.values@.dom().contains(aspect) && self.values@[aspect] is Int {
            self.values@[aspect]->Int_0
        } else {
            0
        }
    }

    /// The switch set for `aspect`; off where the aspect has none.
    pub open spec fn bool_of(&self, aspect: Seq<char>) -> bool {
        self.values@.dom().contains(aspect) && self.values@[aspect] is Bool
            && self.values@[aspect]->Bool_0
    }

    /// The text set for `aspect`; empty where the aspect has none.
    pub open spec fn string_of(&self, aspect: Seq<char>) -> Seq<char> {
        if self.values@.dom().contains(aspect) && self.values@[aspect] is String {
            self.values@[aspect]->String_0@
        } else {
            Seq::empty()
        }
    }

    /// Settings without values.
    pub fn new(name: &str, description: &str) -> (config: DifficultyConfig<T>)
        ensures
            config.wf(),
            config.name@ == name@,
            config.description@ == description@,
            config.values@ == Map::<Seq<char>, DifficultyValue<T>>::empty(),
            config.values.pairs().len() == 0,
    {
        DifficultyConfig {
            name: name.to_owned(),
            description: description.to_owned(),
            values: StrMap::new(),
        }
    }

    /// Sets a number for an aspect of the game.
    pub fn set_float(&mut self, aspect: &str, value: T)
        requires
            old(self).wf(),
        ensures
            final(self).wf(),
            final(self).name == old(self).name,
            final(self).description == old(self).description,
            final(self).values@ == old(self).values@.insert(aspect@, DifficultyValue::Float(value)),
            names_of(final(self).values.pairs()) == (if old(self).values@.dom().contains(aspect@) {
                names_of(old(self).values.pairs())
            } else {
                names_of(old(self).values.pairs()).push(aspect@)
            }),
    {
        self.values.insert(aspect, DifficultyValue::Float(value));
    }

    /// Sets a whole number for an aspect of the game.
    pub fn set_int(&mut self, aspect: &str, value: i32)
        requires
            old(self).wf(),
        ensures
            final(self).wf(),
            final(self).name == old(self).name,
            final(self).description == old(self).description,
            final(self).values@ == old(self).values@.insert(aspect@, DifficultyValue::Int(value)),
            names_of(final(self).values.pairs()) == (if old(self).values@.dom().contains(aspect@) {
                names_of(old(self).values.pairs())
            } else {
                names_of(old(self).values.pairs()).push(aspect@)
            }),
    {
        self.values.insert(aspect, DifficultyValue::Int(value));
    }

    /// Sets a switch for an aspect of the game.
    pub fn set_bool(&mut self, aspect: &str, value: bool)
        requires
            old(self).wf(),
        ensures
            final(self).wf(),
            final(self).name == old(self).name,
            final(self).description == old(self).description,
            final(self).values@ == old(self).values@.insert(aspect@, DifficultyValue::Bool(value)),
            names_of(final(self).values.pairs()) == (if old(self).values@.dom().contains(aspect@) {
                names_of(old(self).values.pairs())
            } else {
                names_of(old(self).values.pairs()).push(aspect@)
            }),
    {
        self.values.insert(aspect, DifficultyValue::Bool(value));
    }

    /// Sets a text for an aspect of the game.
    pub fn set_string(&mut self, aspect: &str, value: &str)
        requires
            old(self).wf(),
        ensures
            final(self).wf(),
            final(self).name == old(self).name,
            final(self).description == old(self).description,
            final(self).values@.dom() == old(self).values@.dom().insert(aspect@),
            final(self).string_of(aspect@) == value@,
            final(self).values@[aspect@] is String,
            forall|other: Seq<char>|
                other != aspect@ && old(self).values@.dom().contains(other)
                    ==> #[trigger] final(self).values@[other] == old(self).values@[other],
            names_of(final(self).values.pairs()) == (if old(self).values@.dom().contains(aspect@) {
                names_of(old(self).values.pairs())
            } else {
                names_of(old(self).values.pairs()).push(aspect@)
            }),
    {
        self.values.insert(aspect, DifficultyValue::String(value.to_owned()));
    }

    /// The number set for an aspect; one, the neutral factor, where the
    /// aspect has no number.
    pub fn get_float(&self, aspect: &str) -> (value: T)
        requires
            self.wf(),
        ensures
            value == self.float_of(aspect@),
    {
        match self.values.get(aspect) {
            Some(DifficultyValue::Float(value)) => *value,
            _ => T::from_ratio(1, 1),
        }
    }

    /// The whole number set for an aspect; nil where the aspect has none.
    pub fn get_int(&self, aspect: &str) -> (value: i32)
        requires
            self.wf(),
        ensures
            value == self.int_of(aspect@),
    {
        match self.values.get(aspect) {
            Some(DifficultyValue::Int(value)) => *value,
            _ => 0,
        }
    }

    /// The switch set for an aspect; off where the aspect has none.
    pub fn get_bool(&self, aspect: &str) -> (value: bool)
        requires
            self.wf(),
        ensures
            value == self.bool_of(aspect@),
    {
        match self.values.get(aspect) {
            Some(DifficultyValue::Bool(value)) => *value,
            _ => false,
        }
    }

    /// The text set for an aspect; empty where the aspect has none.
    pub fn get_string(&self, aspect: &str) -> (value: String)
        requires
            self.wf(),
        ensures
            value@ == self.string_of(aspect@),
    {
        match self.values.get(aspect) {
            Some(DifficultyValue::String(value)) => value.clone(),
            _ => String::new(),
        }
    }

    /// The value set for an aspect, of whatever kind.
    pub fn get_value(&self, aspect: &str) -> (value: Option<&DifficultyValue<T>>)
        requires
            self.wf(),
        ensures
            match value {
                Some(v) => self.values@.dom().contains(aspect@) && self.values@[aspect@] == *v,
                None => !self.values@.dom().contains(aspect@),
            },
    {
        self.values.get(aspect)
    }

    /// Whether an aspect has a value.
    pub fn has_aspect(&self, aspect: &str) -> (yes: bool)
        requires
            self.wf(),
        ensures
            yes == self.values@.dom().contains(aspect@),
    {
        self.values.contains_key(aspect)
    }

    /// The aspects that have a value, in the order in which they were
    /// first set.
    pub fn get_aspects(&self) -> (aspects: Vec<String>)
        ensures
            Seq::new(aspects@.len(), |i: int| aspects@[i]@) == names_of(self.values.pairs()),
    {
        self.values.keys()
    }
}

/// The place of the settings of `level` among `configs`.
pub open spec fn config_place<T>(configs: Seq<(DifficultyLevel, DifficultyConfig<T>)>, level: DifficultyLevel) -> int {
    choose|i: int| 0 <= i < configs.len() && configs[i].0 == level
}

/// Whether `level` has settings among `configs`.
pub open spec fn configured<T>(configs: Seq<(DifficultyLevel, DifficultyConfig<T>)>, level: DifficultyLevel) -> bool {
    exists|i: int| 0 <= i < configs.len() && configs[i].0 == level
}

/// The levels of `configs`, in their order.
pub open spec fn levels_of<T>(configs: Seq<(DifficultyLevel, DifficultyConfig<T>)>) -> Seq<DifficultyLevel> {
    Seq::new(configs.len(), |i: int| configs[i].0)
}

/// The numbers of the paddle game at a level: speeds and accuracy in
/// hundredths, and the counts.
pub struct PongNumbers {
    pub ai_speed: i32,
    pub ball_speed: i32,
    pub paddle_speed: i32,
    pub ai_accuracy: i32,
    pub max_score: i32,
    pub ball_trail_length: i32,
    pub particle_count: i32,
}

/// The numbers of the paddle game at each level but the custom one.
pub open spec fn pong_numbers(level: DifficultyLevel) -> PongNumbers {
    match level {
        DifficultyLevel::VeryEasy => PongNumbers {
            ai_speed: 40,
            ball_speed: 70,
            paddle_speed: 120,
            ai_accuracy: 30,
            max_score: 3,
            ball_trail_length: 10,
            particle_count: 15,
        },
        DifficultyLevel::Easy => PongNumbers {
            ai_speed: 60,
            ball_speed: 80,
            paddle_speed: 110,
            ai_accuracy: 50,
            max_score: 5,
            ball_trail_length: 15,
            particle_count: 20,
        },
        DifficultyLevel::Normal => PongNumbers {
            ai_speed: 80,
            ball_speed: 100,
            paddle_speed: 100,
            ai_accuracy: 70,
            max_score: 5,
            ball_trail_length: 20,
            particle_count: 25,
        },
        DifficultyLevel::Hard => PongNumbers {
            ai_speed: 100,
            ball_speed: 120,
            paddle_speed: 90,
            ai_accuracy: 90,
            max_score: 7,
            ball_trail_length: 25,
            particle_count: 30,
        },
        _ => PongNumbers {
            ai_speed: 120,
            ball_speed: 140,
            paddle_speed: 80,
            ai_accuracy: 95,
            max_score: 10,
            ball_trail_length: 30,
            particle_count: 40,
        },
    }
}

/// The values of the paddle game at a level.
pub open spec fn pong_values<T: Scalar>(level: DifficultyLevel) -> Map<Seq<char>, DifficultyValue<T>> {
    Map::<Seq<char>, DifficultyValue<T>>::empty().insert(
        "ai_speed"@,
        DifficultyValue::Float(T::ratio(pong_numbers(level).ai_speed, 100)),
    ).insert(
        "ball_speed"@,
        DifficultyValue::Float(T::ratio(pong_numbers(level).ball_speed, 100)),
    ).insert(
        "paddle_speed"@,
        DifficultyValue::Float(T::ratio(pong_numbers(level).paddle_speed, 100)),
    ).insert(
        "ai_accuracy"@,
        DifficultyValue::Float(T::ratio(pong_numbers(level).ai_accuracy, 100)),
    ).insert("max_score"@, DifficultyValue::Int(pong_numbers(level).max_score)).insert(
        "ball_trail_length"@,
        DifficultyValue::Int(pong_numbers(level).ball_trail_length),
    ).insert("particle_count"@, DifficultyValue::Int(pong_numbers(level).particle_count))
}

/// The name of a level of the paddle game.
pub open spec fn pong_name(level: DifficultyLevel) -> Seq<char> {
    match level {
        DifficultyLevel::VeryEasy => "Very Easy"@,
        DifficultyLevel::Easy => "Easy"@,
        DifficultyLevel::Normal => "Normal"@,
        DifficultyLevel::Hard => "Hard"@,
        _ => "Very Hard"@,
    }
}

/// What a level of the paddle game is like.
pub open spec fn pong_description(level: DifficultyLevel) -> Seq<char> {
    match level {
        DifficultyLevel::VeryEasy => "Perfect for beginners"@,
        DifficultyLevel::Easy => "Relaxed gameplay"@,
        DifficultyLevel::Normal => "Balanced challenge"@,
        DifficultyLevel::Hard => "Challenging gameplay"@,
        _ => "Extreme challenge"@,
    }
}

/// Whether `config` holds the settings of the paddle game at `level`.
pub open spec fn is_pong_config<T: Scalar>(config: DifficultyConfig<T>, level: DifficultyLevel) -> bool {
    &&& config.wf()
    &&& config.name@ == pong_name(level)
    &&& config.description@ == pong_description(level)
    &&& config.values@ == pong_values::<T>(level)
}

/// The settings of the paddle game at a level.
pub fn pong_config<T: Scalar>(level: DifficultyLevel) -> (config: DifficultyConfig<T>)
    requires
        level != DifficultyLevel::Custom,
    ensures
        is_pong_config(config, level),
{
    let (numbers, name, description): (PongNumbers, &str, &str) = match level {
        DifficultyLevel::VeryEasy => (
            PongNumbers {
                ai_speed: 40,
                ball_speed: 70,
                paddle_speed: 120,
                ai_accuracy: 30,
                max_score: 3,
                ball_trail_length: 10,
                particle_count: 15,
            },
            "Very Easy",
            "Perfect for beginners",
        ),
        DifficultyLevel::Easy => (
            PongNumbers {
                ai_speed: 60,
                ball_speed: 80,
                paddle_speed: 110,
                ai_accuracy: 50,
                max_score: 5,
                ball_trail_length: 15,
                particle_count: 20,
            },
            "Easy",
            "Relaxed gameplay",
        ),
        DifficultyLevel::Normal => (
            PongNumbers {
                ai_speed: 80,
                ball_speed: 100,
                paddle_speed: 100,
                ai_accuracy: 70,
                max_score: 5,
                ball_trail_length: 20,
                particle_count: 25,
            },
            "Normal",
            "Balanced challenge",
        ),
        DifficultyLevel::Hard => (
            PongNumbers {
                ai_speed: 100,
                ball_speed: 120,
                paddle_speed: 90,
                ai_accuracy: 90,
                max_score: 7,
                ball_trail_length: 25,
                particle_count: 30,
            },
            "Hard",
            "Challenging gameplay",
        ),
        _ => (
            PongNumbers {
                ai_speed: 120,
                ball_speed: 140,
                paddle_speed: 80,
                ai_accuracy: 95,
                max_score: 10,
                ball_trail_length: 30,
                particle_count: 40,
            },
            "Very Hard",
            "Extreme challenge",
        ),
    };
    let mut config = DifficultyConfig::new(name, description);
    config.set_float("ai_speed", T::from_ratio(numbers.ai_speed, 100));
    config.set_float("ball_speed", T::from_ratio(numbers.ball_speed, 100));
    config.set_float("paddle_speed", T::from_ratio(numbers.paddle_speed, 100));
    config.set_float("ai_accuracy", T::from_ratio(numbers.ai_accuracy, 100));
    config.set_int("max_score", numbers.max_score);
    config.set_int("ball_trail_length", numbers.ball_trail_length);
    config.set_int("particle_count", numbers.particle_count);
    config
}

/// The difficulty levels of a game, their settings, and the level that is
/// selected.
pub struct DifficultySystem<T> {
    current_level: DifficultyLevel,
    configs: Vec<(DifficultyLevel, DifficultyConfig<T>)>,
    custom_config: Option<DifficultyConfig<T>>,
    registered_aspects: StrMap<String>,
}

impl<T: Scalar> DifficultySystem<T> {
    /// The level that is selected.
    pub closed spec fn current(&self) -> DifficultyLevel {
        self.current_level
    }

    /// The levels that have settings, each with its settings, in the order
    /// in which they were first added.
    pub closed spec fn configs(&self) -> Seq<(DifficultyLevel, DifficultyConfig<T>)> {
        self.configs@
    }

    /// The custom settings, if they are set.
    pub closed spec fn custom(&self) -> Option<DifficultyConfig<T>> {
        self.custom_config
    }

    /// The registered aspects, each with what it means.
    pub closed spec fn aspects(&self) -> StrMap<String> {
        self.registered_aspects
    }

    /// The settings of `level` among the levels that have settings.
    pub open spec fn config_of(&self, level: DifficultyLevel) -> Option<DifficultyConfig<T>> {
        if configured(self.configs(), level) {
            Some(self.configs()[config_place(self.configs(), level)].1)
        } else {
            None
        }
    }

    /// The settings of the level that is selected: the custom settings for
    /// the custom level, else the settings of the level.
    pub open spec fn current_config(&self) -> Option<DifficultyConfig<T>> {
        if self.current() == DifficultyLevel::Custom {
            self.custom()
        } else {
            self.config_of(self.current())
        }
    }

    /// No level has settings twice, and all settings are well formed.
    pub open spec fn wf(&self) -> bool {
        &&& forall|i: int, j: int|
            0 <= i < j < self.configs().len() ==> self.configs()[i].0 != self.configs()[j].0
        &&& forall|i: int| 0 <= i < self.configs().len() ==> (#[trigger] self.configs()[i]).1.wf()
        &&& self.custom() is Some ==> self.custom().unwrap().wf()
        &&& self.aspects().wf()
    }

    /// A system at the normal level, without settings or aspects.
    pub fn new() -> (system: DifficultySystem<T>)
        ensures
            system.wf(),
            system.current() == DifficultyLevel::Normal,
            system.configs().len() == 0,
            system.custom() is None,
            system.aspects()@ == Map::<Seq<char>, String>::empty(),
            system.aspects().pairs().len() == 0,
    {
        DifficultySystem {
            current_level: DifficultyLevel::Normal,
            configs: Vec::new(),
            custom_config: None,
            registered_aspects: StrMap::new(),
        }
    }

    /// Registers an aspect of the game with what it means.
    pub fn register_aspect(&mut self, aspect: &str, description: &str)
        requires
            old(self).wf(),
        ensures
            final(self).wf(),
            final(self).current() == old(self).current(),
            final(self).configs() == old(self).configs(),
            final(self).custom() == old(self).custom(),
            final(self).aspects()@.dom() == old(self).aspects()@.dom().insert(aspect@),
            final(self).aspects()@[aspect@]@ == description@,
            forall|other: Seq<char>|
                other != aspect@ && old(self).aspects()@.dom().contains(other)
                    ==> #[trigger] final(self).aspects()@[other] == old(self).aspects()@[other],
            names_of(final(self).aspects().pairs()) == (if old(self).aspects()@.dom().contains(
                aspect@,
            ) {
                names_of(old(self).aspects().pairs())
            } else {
                names_of(old(self).aspects().pairs()).push(aspect@)
            }),
    {
        self.registered_aspects.insert(aspect, description.to_owned());
        proof {
            assert(self.configs() == old(self).configs());
            assert(self.custom() == old(self).custom());
            assert(self.aspects().wf());
            assert(forall|i: int, j: int|
                0 <= i < j < self.configs().len() ==> self.configs()[i].0 != self.configs()[j].0);
            assert(forall|i: int|
                0 <= i < self.configs().len() ==> (#[trigger] self.configs()[i]).1.wf());
        }
    }

    /// Registers the seven aspects of the paddle game.
    pub fn register_pong_aspects(&mut self)
        requires
            old(self).wf(),
        ensures
            final(self).wf(),
            final(self).current() == old(self).current(),
            final(self).configs() == old(self).configs(),
            final(self).custom() == old(self).custom(),
            final(self).aspects()@.dom() == old(self).aspects()@.dom().insert("ai_speed"@).insert(
                "ball_speed"@,
            ).insert("paddle_speed"@).insert("ai_accuracy"@).insert("max_score"@).insert(
                "ball_trail_length"@,
            ).insert("particle_count"@),
    {
        self.register_aspect("ai_speed", "AI paddle movement speed multiplier");
        self.register_aspect("ball_speed", "Ball movement speed multiplier");
        self.register_aspect("paddle_speed", "Player paddle movement speed multiplier");
        self.register_aspect("ai_accuracy", "AI targeting accuracy (0.0-1.0)");
        self.register_aspect("max_score", "Maximum score to win the game");
        self.register_aspect("ball_trail_length", "Length of ball trail effect");
        self.register_aspect("particle_count", "Number of particles in effects");
    }

    /// The place of the settings of `level`.
    fn find_config(&self, level: DifficultyLevel) -> (found: Option<usize>)
        requires
            self.wf(),
        ensures
            match found {
                Some(i) => i < self.configs().len() && self.configs()[i as int].0 == level
                    && config_place(self.configs(), level) == i,
                None => !configured(self.configs(), level),
            },
    {
        let mut i: usize = 0;
        while i < self.configs.len()
            invariant
                0 <= i <= self.configs.len(),
                self.wf(),
                forall|k: int| 0 <= k < i ==> self.configs()[k].0 != level,
            decreases self.configs.len() - i,
        {
            if self.configs[i].0 == level {
                proof {
                    let n = config_place(self.configs(), level);
                    assert(self.configs()[i as int].0 == level);
                    assert(self.configs()[n].0 == level);
                    if n < i {
                        assert(self.configs()[n].0 != level);
                    } else if n > i {
                        assert(self.configs()[i as int].0 != self.configs()[n].0);
                    }
                }
                return Some(i);
            }
            i = i + 1;
        }
        None
    }

    /// Gives `level` the settings `config`, in place of the settings it
    /// had.
    pub fn add_config(&mut self, level: DifficultyLevel, config: DifficultyConfig<T>)
        requires
            old(self).wf(),
            config.wf(),
        ensures
            final(self).wf(),
            final(self).current() == old(self).current(),
            final(self).custom() == old(self).custom(),
            final(self).aspects() == old(self).aspects(),
            final(self).config_of(level) == Some(config),
            forall|other: DifficultyLevel|
                other != level ==> final(self).config_of(other) == old(self).config_of(other),
            levels_of(final(self).configs()) == (if configured(old(self).configs(), level) {
                levels_of(old(self).configs())
            } else {
                levels_of(old(self).configs()).push(level)
            }),
    {
        let ghost before = self.configs();
        match self.find_config(level) {
            Some(i) => {
                self.configs[i] = (level, config);
                proof {
                    let after = self.configs();
                    assert(levels_of(after) =~= levels_of(before));
                    assert forall|a: int, b: int| 0 <= a < b < after.len() implies after[a].0
                        != after[b].0 by {
                        assert(before[a].0 != before[b].0);
                    }
                    lemma_config_at(after, level, i as int);
                    assert forall|other: DifficultyLevel| other != level implies self.config_of(other)
                        == old(self).config_of(other) by {
                        if configured(before, other) {
                            let n = config_place(before, other);
                            assert(after[n].0 == other);
                            lemma_config_at(after, other, n);
                        } else if configured(after, other) {
                            let n = config_place(after, other);
                            assert(before[n].0 == other);
                        }
                    }
                }
            },
            None => {
                self.configs.push((level, config));
                proof {
                    let after = self.configs();
                    let last = before.len() as int;
                    assert(levels_of(after) =~= levels_of(before).push(level));
                    assert(after[last].0 == level);
                    assert forall|a: int, b: int| 0 <= a < b < after.len() implies after[a].0
                        != after[b].0 by {
                        if b < last {
                            assert(before[a].0 != before[b].0);
                        } else {
                            assert(before[a].0 != level);
                        }
                    }
                    lemma_config_at(after, level, last);
                    assert forall|other: DifficultyLevel| other != level implies self.config_of(other)
                        == old(self).config_of(other) by {
                        if configured(before, other) {
                            let n = config_place(before, other);
                            assert(after[n].0 == other);
                            lemma_config_at(after, other, n);
                        } else if configured(after, other) {
                            let n = config_place(after, other);
                            assert(before[n].0 == other);
                        }
                    }
                }
            },
        }
    }

    /// Gives the five levels of the paddle game their settings.
    pub fn initialize_pong_configs(&mut self)
        requires
            old(self).wf(),
        ensures
            final(self).wf(),
            final(self).current() == old(self).current(),
            final(self).custom() == old(self).custom(),
            final(self).aspects() == old(self).aspects(),
            forall|level: DifficultyLevel|
                level != DifficultyLevel::Custom ==> (#[trigger] final(self).config_of(level)) is Some
                    && is_pong_config(final(self).config_of(level).unwrap(), level),
            final(self).config_of(DifficultyLevel::Custom) == old(self).config_of(
                DifficultyLevel::Custom,
            ),
    {
        self.add_config(DifficultyLevel::VeryEasy, pong_config(DifficultyLevel::VeryEasy));
        self.add_config(DifficultyLevel::Easy, pong_config(DifficultyLevel::Easy));
        self.add_config(DifficultyLevel::Normal, pong_config(DifficultyLevel::Normal));
        self.add_config(DifficultyLevel::Hard, pong_config(DifficultyLevel::Hard));
        self.add_config(DifficultyLevel::VeryHard, pong_config(DifficultyLevel::VeryHard));
    }

    /// A system with the aspects and the five levels of the paddle game, at
    /// the normal level.
    pub fn with_pong_defaults() -> (system: DifficultySystem<T>)
        ensures
            system.wf(),
            system.current() == DifficultyLevel::Normal,
            system.custom() is None,
            forall|level: DifficultyLevel|
                level != DifficultyLevel::Custom ==> (#[trigger] system.config_of(level)) is Some
                    && is_pong_config(system.config_of(level).unwrap(), level),
            system.config_of(DifficultyLevel::Custom) is None,
            system.current_config() is Some,
    {
        let mut system = DifficultySystem::new();
        system.register_pong_aspects();
        proof {
            assert(!configured(system.configs(), DifficultyLevel::Custom));
        }
        system.initialize_pong_configs();
        proof {
            assert(system.config_of(DifficultyLevel::Normal) is Some);
        }
        system
    }

    /// Selects a level.
    pub fn set_difficulty(&mut self, level: DifficultyLevel)
        ensures
            final(self).current() == level,
            final(self).configs() == old(self).configs(),
            final(self).custom() == old(self).custom(),
            final(self).aspects() == old(self).aspects(),
    {
        self.current_level = level;
    }

    /// The level that is selected.
    pub fn get_current_level(&self) -> (level: DifficultyLevel)
        ensures
            level == self.current(),
    {
        self.current_level
    }

    /// Whether the level that is selected has settings.
    pub fn has_current_config(&self) -> (yes: bool)
        requires
            self.wf(),
        ensures
            yes == self.current_config() is Some,
    {
        match self.current_level {
            DifficultyLevel::Custom => self.custom_config.is_some(),
            level => self.find_config(level).is_some(),
        }
    }

    /// The settings of the level that is selected.
    pub fn get_current_config(&self) -> (config: &DifficultyConfig<T>)
        requires
            self.wf(),
            self.current_config() is Some,
        ensures
            *config == self.current_config().unwrap(),
            config.wf(),
    {
        match self.current_level {
            DifficultyLevel::Custom => {
                match &self.custom_config {
                    Some(config) => config,
                    None => vstd::pervasive::unreached(),
                }
            },
            level => {
                match self.find_config(level) {
                    Some(i) => &self.configs[i].1,
                    None => vstd::pervasive::unreached(),
                }
            },
        }
    }

    /// The number the selected level sets for an aspect.
    pub fn get_float(&self, aspect: &str) -> (value: T)
        requires
            self.wf(),
            self.current_config() is Some,
        ensures
            value == self.current_config().unwrap().float_of(aspect@),
    {
        self.get_current_config().get_float(aspect)
    }

    /// The whole number the selected level sets for an aspect.
    pub fn get_int(&self, aspect: &str) -> (value: i32)
        requires
            self.wf(),
            self.current_config() is Some,
        ensures
            value == self.current_config().unwrap().int_of(aspect@),
    {
        self.get_current_config().get_int(aspect)
    }

    /// The switch the selected level sets for an aspect.
    pub fn get_bool(&self, aspect: &str) -> (value: bool)
        requires
            self.wf(),
            self.current_config() is Some,
        ensures
            value == self.current_config().unwrap().bool_of(aspect@),
    {
        self.get_current_config().get_bool(aspect)
    }

    /// The text the selected level sets for an aspect.
    pub fn get_string(&self, aspect: &str) -> (value: String)
        requires
            self.wf(),
            self.current_config() is Some,
        ensures
            value@ == self.current_config().unwrap().string_of(aspect@),
    {
        self.get_current_config().get_string(aspect)
    }

    /// The value the selected level sets for an aspect, of whatever kind.
    pub fn get_value(&self, aspect: &str) -> (value: Option<&DifficultyValue<T>>)
        requires
            self.wf(),
            self.current_config() is Some,
        ensures
            match value {
                Some(v) => self.current_config().unwrap().values@.dom().contains(aspect@)
                    && self.current_config().unwrap().values@[aspect@] == *v,
                None => !self.current_config().unwrap().values@.dom().contains(aspect@),
            },
    {
        self.get_current_config().get_value(aspect)
    }

    /// How fast the opponent's paddle moves, as a factor.
    pub fn ai_speed_multiplier(&self) -> (value: T)
        requires
            self.wf(),
            self.current_config() is Some,
        ensures
            value == self.current_config().unwrap().float_of("ai_speed"@),
    {
        self.get_float("ai_speed")
    }

    /// How fast the ball moves, as a factor.
    pub fn ball_speed_multiplier(&self) -> (value: T)
        requires
            self.wf(),
            self.current_config() is Some,
        ensures
            value == self.current_config().unwrap().float_of("ball_speed"@),
    {
        self.get_float("ball_speed")
    }

    /// How fast the player's paddle moves, as a factor.
    pub fn paddle_speed_multiplier(&self) -> (value: T)
        requires
            self.wf(),
            self.current_config() is Some,
        ensures
            value == self.current_config().unwrap().float_of("paddle_speed"@),
    {
        self.get_float("paddle_speed")
    }

    /// How well the opponent aims, from nil to one.
    pub fn ai_accuracy(&self) -> (value: T)
        requires
            self.wf(),
            self.current_config() is Some,
        ensures
            value == self.current_config().unwrap().float_of("ai_accuracy"@),
    {
        self.get_float("ai_accuracy")
    }

    /// The points that win a match.
    pub fn max_score(&self) -> (value: i32)
        requires
            self.wf(),
            self.current_config() is Some,
        ensures
            value == self.current_config().unwrap().int_of("max_score"@),
    {
        self.get_int("max_score")
    }

    /// How long the trail of the ball is.
    pub fn ball_trail_length(&self) -> (value: i32)
        requires
            self.wf(),
            self.current_config() is Some,
        ensures
            value == self.current_config().unwrap().int_of("ball_trail_length"@),
    {
        self.get_int("ball_trail_length")
    }

    /// How many particles an effect has.
    pub fn particle_count(&self) -> (value: i32)
        requires
            self.wf(),
            self.current_config() is Some,
        ensures
            value == self.current_config().unwrap().int_of("particle_count"@),
    {
        self.get_int("particle_count")
    }

    /// The factor the selected level sets for an aspect.
    pub fn get_multiplier(&self, aspect: &str) -> (value: T)
        requires
            self.wf(),
            self.current_config() is Some,
        ensures
            value == self.current_config().unwrap().float_of(aspect@),
    {
        self.get_current_config().get_float(aspect)
    }

    /// The number the selected level sets for a setting.
    pub fn get_setting(&self, setting: &str) -> (value: T)
        requires
            self.wf(),
            self.current_config() is Some,
        ensures
            value == self.current_config().unwrap().float_of(setting@),
    {
        self.get_current_config().get_float(setting)
    }

    /// Sets the custom settings and selects the custom level.
    pub fn set_custom_config(&mut self, config: DifficultyConfig<T>)
        requires
            old(self).wf(),
            config.wf(),
        ensures
            final(self).wf(),
            final(self).current() == DifficultyLevel::Custom,
            final(self).custom() == Some(config),
            final(self).configs() == old(self).configs(),
            final(self).aspects() == old(self).aspects(),
    {
        self.custom_config = Some(config);
        self.current_level = DifficultyLevel::Custom;
        proof {
            assert(self.configs() == old(self).configs());
            assert(self.aspects() == old(self).aspects());
            assert(self.custom() == Some(config));
            assert(self.aspects().wf());
            assert(self.custom().unwrap().wf());
            assert(forall|i: int, j: int|
                0 <= i < j < self.configs().len() ==> self.configs()[i].0 != self.configs()[j].0);
            assert(forall|i: int|
                0 <= i < self.configs().len() ==> (#[trigger] self.configs()[i]).1.wf());
        }
    }

    /// The levels that have settings, in the order in which they were
    /// first added.
    fn configured_levels(&self) -> (levels: Vec<DifficultyLevel>)
        ensures
            levels@ == levels_of(self.configs()),
    {
        let mut levels: Vec<DifficultyLevel> = Vec::new();
        let mut i: usize = 0;
        while i < self.configs.len()
            invariant
                0 <= i <= self.configs.len(),
                levels@.len() == i,
                forall|k: int| 0 <= k < i ==> levels@[k] == self.configs()[k].0,
            decreases self.configs.len() - i,
        {
            levels.push(self.configs[i].0);
            i = i + 1;
        }
        assert(levels@ =~= levels_of(self.configs()));
        levels
    }

    /// The levels a player can choose from, easiest first, the custom level
    /// last where custom settings are set.
    pub fn get_available_levels(&self) -> (levels: Vec<DifficultyLevel>)
        ensures
            in_rank_order(levels@),
            forall|level: DifficultyLevel|
                offered(levels@, level) == (offered(levels_of(self.configs()), level) || (
                self.custom() is Some && level == DifficultyLevel::Custom)),
    {
        let configured = self.configured_levels();
        available_levels(&configured, self.custom_config.is_some())
    }

    /// Takes the settings of `level` away. Where `level` was selected, the
    /// normal level is selected instead.
    pub fn remove_config(&mut self, level: DifficultyLevel)
        requires
            old(self).wf(),
        ensures
            final(self).wf(),
            final(self).custom() == old(self).custom(),
            final(self).aspects() == old(self).aspects(),
            final(self).config_of(level) is None,
            forall|other: DifficultyLevel|
                other != level ==> final(self).config_of(other) == old(self).config_of(other),
            final(self).current() == (if old(self).current() == level {
                DifficultyLevel::Normal
            } else {
                old(self).current()
            }),
    {
        let ghost before = self.configs();
        match self.find_config(level) {
            Some(i) => {
                self.configs.remove(i);
                proof {
                    let after = self.configs();
                    assert forall|k: int| 0 <= k < after.len() implies after[k] == (if k < i {
                        before[k]
                    } else {
                        before[k + 1]
                    }) by {}
                    assert forall|a: int, b: int| 0 <= a < b < after.len() implies after[a].0
                        != after[b].0 by {
                        let x = if a < i {
                            a
                        } else {
                            a + 1
                        };
                        let y = if b < i {
                            b
                        } else {
                            b + 1
                        };
                        assert(before[x].0 != before[y].0);
                    }
                    assert forall|k: int| 0 <= k < after.len() implies after[k].0 != level by {
                        let x = if k < i {
                            k
                        } else {
                            k + 1
                        };
                        if x < i {
                            assert(before[x].0 != before[i as int].0);
                        } else {
                            assert(before[i as int].0 != before[x].0);
                        }
                    }
                    assert forall|other: DifficultyLevel| other != level implies self.config_of(other)
                        == old(self).config_of(other) by {
                        if configured(before, other) {
                            let n = config_place(before, other);
                            let m = if n < i {
                                n
                            } else {
                                n - 1
                            };
                            assert(after[m] == before[n]);
                            lemma_config_at(after, other, m);
                        } else if configured(after, other) {
                            let m = config_place(after, other);
                            let n = if m < i {
                                m
                            } else {
                                m + 1
                            };
                            assert(before[n].0 == other);
                        }
                    }
                }
            },
            None => {},
        }
        if self.current_level == level {
            self.current_level = DifficultyLevel::Normal;
        }
    }

    /// The registered aspects, each with what it means.
    pub fn get_registered_aspects(&self) -> (aspects: &StrMap<String>)
        ensures
            *aspects == self.aspects(),
    {
        &self.registered_aspects
    }

    /// The registered aspects that `config` sets no value for, in the order
    /// in which they were registered.
    pub fn validate_config(&self, config: &DifficultyConfig<T>) -> (missing: Vec<String>)
        requires
            self.wf(),
            config.wf(),
        ensures
            Seq::new(missing@.len(), |i: int| missing@[i]@) == unset(
                names_of(self.aspects().pairs()),
                config.values@.dom(),
            ),
    {
        let aspects = self.registered_aspects.keys();
        let ghost names = names_of(self.aspects().pairs());
        let mut missing: Vec<String> = Vec::new();
        let mut i: usize = 0;
        while i < aspects.len()
            invariant
                0 <= i <= aspects.len(),
                config.wf(),
                names == Seq::new(aspects@.len(), |k: int| aspects@[k]@),
                Seq::new(missing@.len(), |k: int| missing@[k]@) == unset(
                    names.subrange(0, i as int),
                    config.values@.dom(),
                ),
            decreases aspects.len() - i,
        {
            let ghost so_far = Seq::new(missing@.len(), |k: int| missing@[k]@);
            proof {
                let next = names.subrange(0, i + 1);
                assert(next.drop_last() =~= names.subrange(0, i as int));
                assert(next.last() == aspects@[i as int]@);
            }
            if !config.has_aspect(aspects[i].as_str()) {
                missing.push(aspects[i].clone());
                proof {
                    assert(Seq::new(missing@.len(), |k: int| missing@[k]@) =~= so_far.push(
                        aspects@[i as int]@,
                    ));
                }
            }
            i = i + 1;
        }
        proof {
            assert(names.subrange(0, aspects@.len() as int) =~= names);
        }
        missing
    }

    /// The name of a level: that of its settings, and where it has none
    /// "Custom" for the custom level and "Unknown" for any other.
    pub fn get_level_name(&self, level: DifficultyLevel) -> (name: &str)
        requires
            self.wf(),
        ensures
            name@ == (if level == DifficultyLevel::Custom {
                match self.custom() {
                    Some(config) => config.name@,
                    None => "Custom"@,
                }
            } else {
                match self.config_of(level) {
                    Some(config) => config.name@,
                    None => "Unknown"@,
                }
            }),
    {
        match level {
            DifficultyLevel::Custom => {
                match &self.custom_config {
                    Some(config) => config.name.as_str(),
                    None => "Custom",
                }
            },
            level => {
                match self.find_config(level) {
                    Some(i) => self.configs[i].1.name.as_str(),
                    None => "Unknown",
                }
            },
        }
    }

    /// What a level is like: the description of its settings, and a
    /// standing text where it has none.
    pub fn get_level_description(&self, level: DifficultyLevel) -> (description: &str)
        requires
            self.wf(),
        ensures
            description@ == (if level == DifficultyLevel::Custom {
                match self.custom() {
                    Some(config) => config.description@,
                    None => "Custom difficulty configuration"@,
                }
            } else {
                match self.config_of(level) {
                    Some(config) => config.description@,
                    None => "Unknown difficulty level"@,
                }
            }),
    {
        match level {
            DifficultyLevel::Custom => {
                match &self.custom_config {
                    Some(config) => config.description.as_str(),
                    None => "Custom difficulty configuration",
                }
            },
            level => {
                match self.find_config(level) {
                    Some(i) => self.configs[i].1.description.as_str(),
                    None => "Unknown difficulty level",
                }
            },
        }
    }

    /// Whether there is a level to choose from.
    pub fn has_levels(&self) -> (yes: bool)
        ensures
            yes == (self.configs().len() > 0 || self.custom() is Some),
    {
        self.configs.len() > 0 || self.custom_config.is_some()
    }

    /// Selects the next of the available levels, and the first after the
    /// last.
    pub fn next_level(&mut self)
        requires
            old(self).wf(),
            old(self).configs().len() > 0 || old(self).custom() is Some,
        ensures
            final(self).wf(),
            final(self).configs() == old(self).configs(),
            final(self).custom() == old(self).custom(),
            final(self).aspects() == old(self).aspects(),
            exists|levels: Seq<DifficultyLevel>|
                {
                    &&& levels.len() > 0
                    &&& in_rank_order(levels)
                    &&& forall|level: DifficultyLevel|
                        offered(levels, level) == (offered(levels_of(old(self).configs()), level) || (
                        old(self).custom() is Some && level == DifficultyLevel::Custom))
                    &&& final(self).current() == level_after(levels, old(self).current())
                },
    {
        let levels = self.get_available_levels();
        proof {
            if self.configs().len() > 0 {
                assert(levels_of(self.configs())[0] == self.configs()[0].0);
                assert(offered(levels_of(self.configs()), self.configs()[0].0));
                assert(offered(levels@, self.configs()[0].0));
            } else {
                assert(offered(levels@, DifficultyLevel::Custom));
            }
        }
        self.current_level = next_level(&levels, self.current_level);
    }

    /// Selects the previous of the available levels, and the last before
    /// the first.
    pub fn previous_level(&mut self)
        requires
            old(self).wf(),
            old(self).configs().len() > 0 || old(self).custom() is Some,
        ensures
            final(self).wf(),
            final(self).configs() == old(self).configs(),
            final(self).custom() == old(self).custom(),
            final(self).aspects() == old(self).aspects(),
            exists|levels: Seq<DifficultyLevel>|
                {
                    &&& levels.len() > 0
                    &&& in_rank_order(levels)
                    &&& forall|level: DifficultyLevel|
                        offered(levels, level) == (offered(levels_of(old(self).configs()), level) || (
                        old(self).custom() is Some && level == DifficultyLevel::Custom))
                    &&& final(self).current() == level_before(levels, old(self).current())
                },
    {
        let levels = self.get_available_levels();
        proof {
            if self.configs().len() > 0 {
                assert(levels_of(self.configs())[0] == self.configs()[0].0);
                assert(offered(levels_of(self.configs()), self.configs()[0].0));
                assert(offered(levels@, self.configs()[0].0));
            } else {
                assert(offered(levels@, DifficultyLevel::Custom));
            }
        }
        self.current_level = previous_level(&levels, self.current_level);
    }
}

/// The names of `names` that are not in `set`, in their order.
pub open spec fn unset(names: Seq<Seq<char>>, set: Set<Seq<char>>) -> Seq<Seq<char>>
    decreases names.len(),
{
    if names.len() == 0 {
        Seq::empty()
    } else if !set.contains(names.last()) {
        unset(names.drop_last(), set).push(names.last())
    } else {
        unset(names.drop_last(), set)
    }
}

/// The settings of a level are those at the one place where the level
/// stands.
pub proof fn lemma_config_at<T>(configs: Seq<(DifficultyLevel, DifficultyConfig<T>)>, level: DifficultyLevel, at: int)
    requires
        0 <= at < configs.len(),
        configs[at].0 == level,
        forall|i: int, j: int| 0 <= i < j < configs.len() ==> configs[i].0 != configs[j].0,
    ensures
        configured(configs, level),
        config_place(configs, level) == at,
{
    let n = config_place(configs, level);
    assert(configs[n].0 == level);
    if n < at {
        assert(configs[n].0 != configs[at].0);
    } else if n > at {
        assert(configs[at].0 != configs[n].0);
    }
}

} // verus!
