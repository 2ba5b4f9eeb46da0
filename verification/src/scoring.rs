//! Scores: who has how many of what, the history of scoring, win conditions
//! and achievements.
//!
//! Players and score types are kept in the order in which they first scored;
//! wherever several players qualify, the one who scored first comes first.

use vstd::prelude::*;
use crate::str_map::StrMap;
use std::time::Duration;
use std::time::Instant;

pub mod presets;

verus! {

#[verifier::external_type_specification]
#[verifier::external_body]
pub struct ExInstant(Instant);

/// What a score counts.
#[derive(Debug, Clone)]
pub enum ScoreType {
    Points,
    Kills,
    Deaths,
    Assists,
    Time,
    Distance,
    Accuracy,
    Combo,
    /// A count of the game's own, by name.
    Custom(String),
}

/// A score type as a value: its number among the types, and the name of a
/// custom type.
pub type TypeKey = (int, Seq<char>);

/// The key of a score type.
pub open spec fn type_key(score_type: ScoreType) -> TypeKey {
    match score_type {
        ScoreType::Points => (0, Seq::empty()),
        ScoreType::Kills => (1, Seq::empty()),
        ScoreType::Deaths => (2, Seq::empty()),
        ScoreType::Assists => (3, Seq::empty()),
        ScoreType::Time => (4, Seq::empty()),
        ScoreType::Distance => (5, Seq::empty()),
        ScoreType::Accuracy => (6, Seq::empty()),
        ScoreType::Combo => (7, Seq::empty()),
        ScoreType::Custom(name) => (8, name@),
    }
}

/// How a score type is called in messages.
pub open spec fn score_type_name(score_type: ScoreType) -> Seq<char> {
    match score_type {
        ScoreType::Points => "points"@,
        ScoreType::Kills => "kills"@,
        ScoreType::Deaths => "deaths"@,
        ScoreType::Assists => "assists"@,
        ScoreType::Time => "time"@,
        ScoreType::Distance => "distance"@,
        ScoreType::Accuracy => "accuracy"@,
        ScoreType::Combo => "combo"@,
        ScoreType::Custom(name) => name@,
    }
}

/// How a score type is called in messages: its name in lower case, and for a
/// custom type the name it was given.
pub fn format_score_type(score_type: &ScoreType) -> (name: String)
    ensures
        name@ == score_type_name(*score_type),
{
    match score_type {
        ScoreType::Points => "points".to_owned(),
        ScoreType::Kills => "kills".to_owned(),
        ScoreType::Deaths => "deaths".to_owned(),
        ScoreType::Assists => "assists".to_owned(),
        ScoreType::Time => "time".to_owned(),
        ScoreType::Distance => "distance".to_owned(),
        ScoreType::Accuracy => "accuracy".to_owned(),
        ScoreType::Combo => "combo".to_owned(),
        ScoreType::Custom(name) => name.clone(),
    }
}

/// The number of a score type among the types.
fn type_number(score_type: &ScoreType) -> (number: u8)
    ensures
        number == type_key(*score_type).0,
{
    match score_type {
        ScoreType::Points => 0,
        ScoreType::Kills => 1,
        ScoreType::Deaths => 2,
        ScoreType::Assists => 3,
        ScoreType::Time => 4,
        ScoreType::Distance => 5,
        ScoreType::Accuracy => 6,
        ScoreType::Combo => 7,
        ScoreType::Custom(_) => 8,
    }
}

/// Whether two score types are the same type.
pub fn same_score_type(first: &ScoreType, second: &ScoreType) -> (same: bool)
    ensures
        same == (type_key(*first) == type_key(*second)),
{
    match (first, second) {
        (ScoreType::Custom(a), ScoreType::Custom(b)) => *a == *b,
        _ => type_number(first) == type_number(second),
    }
}

/// A copy of a score type.
pub fn copy_score_type(score_type: &ScoreType) -> (copy: ScoreType)
    ensures
        copy == *score_type,
{
    match score_type {
        ScoreType::Points => ScoreType::Points,
        ScoreType::Kills => ScoreType::Kills,
        ScoreType::Deaths => ScoreType::Deaths,
        ScoreType::Assists => ScoreType::Assists,
        ScoreType::Time => ScoreType::Time,
        ScoreType::Distance => ScoreType::Distance,
        ScoreType::Accuracy => ScoreType::Accuracy,
        ScoreType::Combo => ScoreType::Combo,
        ScoreType::Custom(name) => ScoreType::Custom(name.clone()),
    }
}

/// Calls `Instant::now`. Nothing is known of the moment it returns.
#[verifier::external_body]
fn clock_now() -> (now: Instant) {
    Instant::now()
}

/// Calls `Instant::elapsed`. Nothing is known of the time it returns.
#[verifier::external_body]
fn elapsed_since(moment: &Instant) -> (elapsed: Duration) {
    moment.elapsed()
}

/// The length of a duration in nanoseconds: what `Duration::as_nanos`
/// returns.
pub uninterp spec fn duration_nanos(duration: Duration) -> u128;

/// Calls `Duration::as_nanos`.
#[verifier::external_body]
fn nanos_of(duration: &Duration) -> (nanos: u128)
    ensures
        nanos == duration_nanos(*duration),
{
    duration.as_nanos()
}

/// Calls `Duration::from_secs`, which makes a duration of that many whole
/// seconds.
#[verifier::external_body]
pub(crate) fn seconds(secs: u64) -> (duration: Duration)
    ensures
        duration_nanos(duration) == secs * 1_000_000_000,
{
    Duration::from_secs(secs)
}

/// Free notes on a score entry, by key. A key has one note.
pub struct Metadata {
    notes: StrMap<String>,
}

impl View for Metadata {
    type V = Map<Seq<char>, Seq<char>>;

    closed spec fn view(&self) -> Map<Seq<char>, Seq<char>> {
        self.notes@.map_values(|note: String| note@)
    }
}

impl Metadata {
    /// The notes as pairs of key and note, in the order in which the keys
    /// were first used.
    pub closed spec fn pairs(&self) -> Seq<(String, String)> {
        self.notes.pairs()
    }

    /// No key occurs twice.
    pub closed spec fn wf(&self) -> bool {
        self.notes.wf()
    }

    /// No notes.
    pub fn new() -> (notes: Metadata)
        ensures
            notes.wf(),
            notes@ == Map::<Seq<char>, Seq<char>>::empty(),
            notes.pairs().len() == 0,
    {
        let notes = Metadata { notes: StrMap::new() };
        assert(notes@ =~= Map::<Seq<char>, Seq<char>>::empty());
        notes
    }

    /// How many keys have a note.
    pub fn len(&self) -> (count: usize)
        ensures
            count == self.pairs().len(),
    {
        self.notes.len()
    }

    /// The note under `key`.
    pub fn get(&self, key: &str) -> (note: Option<&String>)
        requires
            self.wf(),
        ensures
            match note {
                Some(text) => self@.dom().contains(key@) && self@[key@] == text@,
                None => !self@.dom().contains(key@),
            },
    {
        self.notes.get(key)
    }

    /// Puts `value` under `key`, in place of an earlier note under that key.
    pub fn insert(&mut self, key: &str, value: &str)
        requires
            old(self).wf(),
        ensures
            final(self).wf(),
            final(self)@ == old(self)@.insert(key@, value@),
    {
        self.notes.insert(key, value.to_owned());
        assert(self@ =~= old(self)@.insert(key@, value@));
    }

    /// The notes as pairs of key and note.
    pub fn entries(&self) -> (entries: &Vec<(String, String)>)
        ensures
            entries@ == self.pairs(),
    {
        self.notes.entries()
    }
}

/// One score: who, what, how much, when, and free notes.
pub struct ScoreEntry {
    pub player_id: String,
    pub score_type: ScoreType,
    pub value: i64,
    pub timestamp: Instant,
    pub metadata: Metadata,
}

impl ScoreEntry {
    /// An entry made now, without notes.
    pub fn new(player_id: &str, score_type: ScoreType, value: i64) -> (entry: ScoreEntry)
        ensures
            entry.player_id@ == player_id@,
            entry.score_type == score_type,
            entry.value == value,
            entry.metadata.wf(),
            entry.metadata@ == Map::<Seq<char>, Seq<char>>::empty(),
    {
        ScoreEntry {
            player_id: player_id.to_owned(),
            score_type,
            value,
            timestamp: clock_now(),
            metadata: Metadata::new(),
        }
    }

    /// The entry with the note `value` under `key`, in place of an earlier
    /// note under that key.
    pub fn with_metadata(self, key: &str, value: &str) -> (entry: ScoreEntry)
        requires
            self.metadata.wf(),
        ensures
            entry.player_id == self.player_id,
            entry.score_type == self.score_type,
            entry.value == self.value,
            entry.timestamp == self.timestamp,
            entry.metadata.wf(),
            entry.metadata@ == self.metadata@.insert(key@, value@),
    {
        let mut entry = self;
        entry.metadata.insert(key, value);
        entry
    }

    /// How long ago the entry was made. The answer is the clock's.
    pub fn age(&self) -> (age: Duration) {
        elapsed_since(&self.timestamp)
    }
}

/// How a game stands.
#[derive(Debug, Clone)]
pub enum GameResult {
    Win { winner: String, reason: String },
    Loss { loser: String, reason: String },
    Draw { reason: String },
    Ongoing,
}

/// Totals of a game.
pub struct GameStats {
    pub total_scores: i64,
    pub total_actions: usize,
    pub game_duration: Duration,
    pub active_players: usize,
    pub unlocked_achievements: usize,
}

/// A score entry in a form that can be written out: the type by name, the
/// time as the entry's age in seconds.
pub struct SerializableScoreEntry {
    pub player_id: String,
    pub score_type: String,
    pub value: i64,
    pub timestamp: u64,
    pub metadata: Metadata,
}

/// When a game is won.
pub enum WinCondition {
    /// By the first to reach a score.
    ScoreThreshold { target_score: i64, score_type: ScoreType },
    /// By lasting for a time.
    TimeSurvival { duration: Duration },
    /// By eliminating all enemies.
    Elimination,
    /// By reaching a place; where it is, is the game's to know.
    Location,
    /// By a condition of the game's own.
    Custom { condition_id: String },
}

/// When an achievement is unlocked.
pub enum AchievementCondition {
    /// By reaching a score.
    ScoreThreshold { score_type: ScoreType, threshold: i64 },
    /// By doing something a number of times.
    ActionCount { action: String, count: u32 },
    /// By completing a game under a win condition.
    GameCompletion { win_condition: WinCondition },
    /// By playing for a time.
    TimeBased { duration: Duration },
    /// By a condition of the game's own.
    Custom { condition_id: String },
}

/// An achievement.
pub struct Achievement {
    pub id: String,
    pub name: String,
    pub description: String,
    pub condition: AchievementCondition,
    pub reward_points: i64,
    pub unlocked: bool,
    pub unlocked_at: Option<Instant>,
}

/// The score of one player in one type.
pub struct ScoreCell {
    pub player_id: String,
    pub score_type: ScoreType,
    pub value: i64,
}

/// Whether `cell` is the score of `player` in the type `key`.
pub open spec fn cell_matches(cell: ScoreCell, player: Seq<char>, key: TypeKey) -> bool {
    cell.player_id@ == player && type_key(cell.score_type) == key
}

/// Whether `player` has a score in the type `key`.
pub open spec fn has_cell(cells: Seq<ScoreCell>, player: Seq<char>, key: TypeKey) -> bool {
    exists|i: int| 0 <= i < cells.len() && cell_matches(cells[i], player, key)
}

/// The place of the score of `player` in the type `key`.
pub open spec fn cell_of(cells: Seq<ScoreCell>, player: Seq<char>, key: TypeKey) -> int {
    choose|i: int| 0 <= i < cells.len() && cell_matches(cells[i], player, key)
}

/// The score of `player` in the type `key`; nil where the player has none.
pub open spec fn score_in(cells: Seq<ScoreCell>, player: Seq<char>, key: TypeKey) -> int {
    if has_cell(cells, player, key) {
        cells[cell_of(cells, player, key)].value as int
    } else {
        0
    }
}

/// Whether `after` are the cells `before` once `player` has the score
/// `total` in `score_type`: where the player had a score in that type, its
/// cell holds the new score in its place; where not, a new cell stands at
/// the end. Every other cell is as it was.
pub open spec fn cells_with(
    before: Seq<ScoreCell>,
    after: Seq<ScoreCell>,
    player: Seq<char>,
    score_type: ScoreType,
    total: int,
) -> bool {
    if has_cell(before, player, type_key(score_type)) {
        let at = cell_of(before, player, type_key(score_type));
        &&& after.len() == before.len()
        &&& after[at].player_id == before[at].player_id
        &&& after[at].score_type == before[at].score_type
        &&& after[at].value == total
        &&& forall|i: int| 0 <= i < before.len() && i != at ==> #[trigger] after[i] == before[i]
    } else {
        &&& after.len() == before.len() + 1
        &&& after.drop_last() == before
        &&& after.last().player_id@ == player
        &&& after.last().score_type == score_type
        &&& after.last().value == total
    }
}

/// No player has two scores in one type.
pub open spec fn cells_distinct(cells: Seq<ScoreCell>) -> bool {
    forall|i: int, j: int|
        0 <= i < j < cells.len() ==> !cell_matches(
            cells[i],
            cells[j].player_id@,
            type_key(cells[j].score_type),
        )
}

/// Whether `entry` records that `player` did `action`.
pub open spec fn records_action(entry: ScoreEntry, player: Seq<char>, action: Seq<char>) -> bool {
    &&& entry.player_id@ == player
    &&& entry.metadata@.dom().contains("action"@)
    &&& entry.metadata@["action"@] == action
}

/// How often the history records that `player` did `action`.
pub open spec fn action_count(history: Seq<ScoreEntry>, player: Seq<char>, action: Seq<char>) -> int
    decreases history.len(),
{
    if history.len() == 0 {
        0
    } else {
        action_count(history.drop_last(), player, action) + if records_action(
            history.last(),
            player,
            action,
        ) {
            1int
        } else {
            0int
        }
    }
}

/// The sum of the values in the history.
pub open spec fn total_value(history: Seq<ScoreEntry>) -> int
    decreases history.len(),
{
    if history.len() == 0 {
        0
    } else {
        total_value(history.drop_last()) + history.last().value
    }
}

/// The history once `entry` has been added to a history that keeps at most
/// `limit` entries: the oldest entry goes where the limit is passed.
pub open spec fn history_with(history: Seq<ScoreEntry>, entry: ScoreEntry, limit: int) -> Seq<
    ScoreEntry,
> {
    if history.len() + 1 > limit {
        history.push(entry).subrange(1, history.len() as int + 1)
    } else {
        history.push(entry)
    }
}

/// Whether the condition of an achievement is met for `player`.
pub open spec fn condition_met(
    condition: AchievementCondition,
    cells: Seq<ScoreCell>,
    history: Seq<ScoreEntry>,
    played: Duration,
    player: Seq<char>,
) -> bool {
    match condition {
        AchievementCondition::ScoreThreshold { score_type, threshold } => score_in(
            cells,
            player,
            type_key(score_type),
        ) >= threshold,
        AchievementCondition::ActionCount { action, count } => action_count(
            history,
            player,
            action@,
        ) >= count,
        AchievementCondition::GameCompletion { win_condition } => false,
        AchievementCondition::TimeBased { duration } => duration_nanos(played) >= duration_nanos(
            duration,
        ),
        AchievementCondition::Custom { condition_id } => false,
    }
}

/// Whether `after` is `before` with everything unlocked whose condition is
/// met for `player`; what was unlocked stays unlocked, and nothing else about
/// an achievement changes.
pub open spec fn unlocked_for(
    before: Seq<Achievement>,
    after: Seq<Achievement>,
    cells: Seq<ScoreCell>,
    history: Seq<ScoreEntry>,
    played: Duration,
    player: Seq<char>,
) -> bool {
    &&& after.len() == before.len()
    &&& forall|i: int|
        0 <= i < before.len() ==> {
            &&& (#[trigger] after[i]).id == before[i].id
            &&& after[i].name == before[i].name
            &&& after[i].description == before[i].description
            &&& after[i].condition == before[i].condition
            &&& after[i].reward_points == before[i].reward_points
            &&& after[i].unlocked == (before[i].unlocked || condition_met(
                before[i].condition,
                cells,
                history,
                played,
                player,
            ))
            &&& (after[i].unlocked == before[i].unlocked ==> after[i].unlocked_at
                == before[i].unlocked_at)
            &&& (after[i].unlocked ==> before[i].unlocked || after[i].unlocked_at is Some)
        }
}

/// Scores, their history, win conditions and achievements of a game.
pub struct ScoringSystem {
    cells: Vec<ScoreCell>,
    score_history: Vec<ScoreEntry>,
    win_conditions: Vec<WinCondition>,
    achievements: Vec<Achievement>,
    game_start_time: Instant,
    game_duration: Duration,
    max_history_size: usize,
}

impl ScoringSystem {
    /// The scores, in the order in which they were first given.
    pub closed spec fn cells(&self) -> Seq<ScoreCell> {
        self.cells@
    }

    /// The history of scoring, oldest first.
    pub closed spec fn history(&self) -> Seq<ScoreEntry> {
        self.score_history@
    }

    /// The win conditions, in the order in which they were added.
    pub closed spec fn conditions(&self) -> Seq<WinCondition> {
        self.win_conditions@
    }

    /// The achievements, in the order in which they were added.
    pub closed spec fn known_achievements(&self) -> Seq<Achievement> {
        self.achievements@
    }

    /// How long the game has been played, as of the last `update_time`.
    pub closed spec fn played(&self) -> Duration {
        self.game_duration
    }

    /// The moment from which the time played is measured.
    pub closed spec fn started(&self) -> Instant {
        self.game_start_time
    }

    /// How many entries the history keeps.
    pub closed spec fn history_limit(&self) -> int {
        self.max_history_size as int
    }

    /// The score of `player` in the type `key`.
    pub open spec fn score(&self, player: Seq<char>, key: TypeKey) -> int {
        score_in(self.cells(), player, key)
    }

    /// No player has two scores in one type, no two achievements share an
    /// id, and the notes of every entry are well formed.
    pub open spec fn wf(&self) -> bool {
        &&& cells_distinct(self.cells())
        &&& forall|i: int, j: int|
            0 <= i < j < self.known_achievements().len() ==> self.known_achievements()[i].id@
                != self.known_achievements()[j].id@
        &&& forall|i: int| 0 <= i < self.history().len() ==> (#[trigger] self.history()[i]).metadata.wf()
        &&& self.history().len() <= self.history_limit()
        &&& self.history_limit() == 1000
    }

    /// A scoring system without scores, conditions or achievements, that
    /// keeps a history of a thousand entries.
    pub fn new() -> (system: ScoringSystem)
        ensures
            system.wf(),
            system.cells().len() == 0,
            system.history().len() == 0,
            system.conditions().len() == 0,
            system.known_achievements().len() == 0,
            duration_nanos(system.played()) == 0,
    {
        ScoringSystem {
            cells: Vec::new(),
            score_history: Vec::new(),
            win_conditions: Vec::new(),
            achievements: Vec::new(),
            game_start_time: clock_now(),
            game_duration: seconds(0),
            max_history_size: 1000,
        }
    }

    /// The place of the score of `player` in `score_type`.
    fn find_cell(&self, player: &str, score_type: &ScoreType) -> (found: Option<usize>)
        requires
            cells_distinct(self.cells()),
        ensures
            match found {
                Some(i) => i < self.cells().len() && cell_matches(
                    self.cells()[i as int],
                    player@,
                    type_key(*score_type),
                ) && cell_of(self.cells(), player@, type_key(*score_type)) == i,
                None => !has_cell(self.cells(), player@, type_key(*score_type)),
            },
    {
        let wanted: String = player.to_owned();
        let mut i: usize = 0;
        while i < self.cells.len()
            invariant
                0 <= i <= self.cells.len(),
                wanted@ == player@,
                cells_distinct(self.cells()),
                forall|k: int|
                    0 <= k < i ==> !cell_matches(self.cells()[k], player@, type_key(*score_type)),
            decreases self.cells.len() - i,
        {
            if self.cells[i].player_id == wanted && same_score_type(
                &self.cells[i].score_type,
                score_type,
            ) {
                proof {
                    let key = type_key(*score_type);
                    let n = cell_of(self.cells(), player@, key);
                    assert(cell_matches(self.cells()[i as int], player@, key));
                    assert(cell_matches(self.cells()[n], player@, key));
                    assert(n == i) by {
                        if n < i {
                            assert(!cell_matches(self.cells()[n], player@, key));
                        } else if n > i {
                            assert(!cell_matches(
                                self.cells()[i as int],
                                self.cells()[n].player_id@,
                                type_key(self.cells()[n].score_type),
                            ));
                        }
                    }
                }
                return Some(i);
            }
            i = i + 1;
        }
        None
    }

    /// The score of `player_id` in `score_type`; nil where the player has
    /// none.
    pub fn get_score(&self, player_id: &str, score_type: &ScoreType) -> (score: i64)
        requires
            self.wf(),
        ensures
            score == self.score(player_id@, type_key(*score_type)),
    {
        match self.find_cell(player_id, score_type) {
            Some(i) => self.cells[i].value,
            None => 0,
        }
    }
}

impl ScoringSystem {
    /// How often the history records that `player` did `action`.
    fn count_actions(&self, player: &str, action: &String) -> (count: usize)
        requires
            self.wf(),
        ensures
            count == action_count(self.history(), player@, action@),
    {
        let wanted: String = player.to_owned();
        let mut count: usize = 0;
        let mut i: usize = 0;
        while i < self.score_history.len()
            invariant
                0 <= i <= self.score_history.len(),
                wanted@ == player@,
                self.wf(),
                count <= i,
                count == action_count(self.history().subrange(0, i as int), player@, action@),
            decreases self.score_history.len() - i,
        {
            let entry = &self.score_history[i];
            proof {
                let next = self.history().subrange(0, i + 1);
                assert(next.drop_last() =~= self.history().subrange(0, i as int));
                assert(next.last() == self.history()[i as int]);
                assert(self.history()[i as int].metadata.wf());
            }
            let mut recorded = false;
            if entry.player_id == wanted {
                match entry.metadata.get("action") {
                    Some(text) => {
                        recorded = *text == *action;
                    },
                    None => {},
                }
            }
            if recorded {
                count = count + 1;
            }
            i = i + 1;
        }
        proof {
            assert(self.history().subrange(0, self.score_history.len() as int) =~= self.history());
        }
        count
    }

    /// Whether `condition` is met for `player`.
    fn condition_holds(&self, condition: &AchievementCondition, player: &str) -> (met: bool)
        requires
            self.wf(),
        ensures
            met == condition_met(*condition, self.cells(), self.history(), self.played(), player@),
    {
        match condition {
            AchievementCondition::ScoreThreshold { score_type, threshold } => self.get_score(
                player,
                score_type,
            ) >= *threshold,
            AchievementCondition::ActionCount { action, count } => {
                let done = self.count_actions(player, action);
                let needed: u32 = *count;
                done as u128 >= needed as u128
            },
            AchievementCondition::GameCompletion { win_condition } => false,
            AchievementCondition::TimeBased { duration } => nanos_of(&self.game_duration)
                >= nanos_of(duration),
            AchievementCondition::Custom { condition_id } => false,
        }
    }

    /// Unlocks every achievement whose condition is met for `player_id`.
    pub fn check_achievements(&mut self, player_id: &str)
        requires
            old(self).wf(),
        ensures
            final(self).wf(),
            final(self).cells() == old(self).cells(),
            final(self).history() == old(self).history(),
            final(self).conditions() == old(self).conditions(),
            final(self).played() == old(self).played(),
            unlocked_for(
                old(self).known_achievements(),
                final(self).known_achievements(),
                old(self).cells(),
                old(self).history(),
                old(self).played(),
                player_id@,
            ),
    {
        let mut i: usize = 0;
        while i < self.achievements.len()
            invariant
                0 <= i <= self.achievements.len(),
                self.wf(),
                self.cells() == old(self).cells(),
                self.history() == old(self).history(),
                self.conditions() == old(self).conditions(),
                self.played() == old(self).played(),
                self.known_achievements().len() == old(self).known_achievements().len(),
                unlocked_for(
                    old(self).known_achievements().subrange(0, i as int),
                    self.known_achievements().subrange(0, i as int),
                    old(self).cells(),
                    old(self).history(),
                    old(self).played(),
                    player_id@,
                ),
                forall|k: int|
                    i <= k < self.known_achievements().len() ==> self.known_achievements()[k] == old(
                        self,
                    ).known_achievements()[k],
                forall|k: int|
                    0 <= k < self.known_achievements().len() ==> (#[trigger] self.known_achievements()[k]).id
                        == old(self).known_achievements()[k].id,
            decreases self.achievements.len() - i,
        {
            let ghost before = self.known_achievements();
            let mut due = false;
            if !self.achievements[i].unlocked {
                due = self.condition_holds(&self.achievements[i].condition, player_id);
            }
            if due {
                let now = clock_now();
                let entry = &mut self.achievements[i];
                entry.unlocked = true;
                entry.unlocked_at = Some(now);
            }
            proof {
                let first = old(self).known_achievements();
                let after = self.known_achievements();
                assert(before[i as int] == first[i as int]);
                assert forall|k: int| 0 <= k < after.len() && k != i implies after[k] == before[k] by {}
                assert forall|k: int| 0 <= k < i + 1 implies {
                    &&& (#[trigger] after.subrange(0, i + 1)[k]).id == first.subrange(0, i + 1)[k].id
                    &&& after.subrange(0, i + 1)[k].name == first.subrange(0, i + 1)[k].name
                    &&& after.subrange(0, i + 1)[k].description == first.subrange(
                        0,
                        i + 1,
                    )[k].description
                    &&& after.subrange(0, i + 1)[k].condition == first.subrange(0, i + 1)[k].condition
                    &&& after.subrange(0, i + 1)[k].reward_points == first.subrange(
                        0,
                        i + 1,
                    )[k].reward_points
                    &&& after.subrange(0, i + 1)[k].unlocked == (first.subrange(0, i + 1)[k].unlocked
                        || condition_met(
                        first.subrange(0, i + 1)[k].condition,
                        old(self).cells(),
                        old(self).history(),
                        old(self).played(),
                        player_id@,
                    ))
                    &&& (after.subrange(0, i + 1)[k].unlocked == first.subrange(0, i + 1)[k].unlocked
                        ==> after.subrange(0, i + 1)[k].unlocked_at == first.subrange(
                        0,
                        i + 1,
                    )[k].unlocked_at)
                    &&& (after.subrange(0, i + 1)[k].unlocked ==> first.subrange(
                        0,
                        i + 1,
                    )[k].unlocked || after.subrange(0, i + 1)[k].unlocked_at is Some)
                } by {
                    assert(after.subrange(0, i + 1)[k] == after[k]);
                    assert(first.subrange(0, i + 1)[k] == first[k]);
                    if k < i {
                        assert(after[k] == before[k]);
                        assert(before.subrange(0, i as int)[k] == before[k]);
                        assert(first.subrange(0, i as int)[k] == first[k]);
                    }
                }
            }
            i = i + 1;
        }
        proof {
            assert(self.known_achievements().subrange(0, self.known_achievements().len() as int)
                =~= self.known_achievements());
            assert(old(self).known_achievements().subrange(0, self.known_achievements().len() as int) =~= old(
                self,
            ).known_achievements());
        }
    }
}

/// A player's score in a type is the value of the one cell that holds it.
pub proof fn lemma_cell_is_score(cells: Seq<ScoreCell>, player: Seq<char>, key: TypeKey, at: int)
    requires
        cells_distinct(cells),
        0 <= at < cells.len(),
        cell_matches(cells[at], player, key),
    ensures
        has_cell(cells, player, key),
        cell_of(cells, player, key) == at,
        score_in(cells, player, key) == cells[at].value,
{
    let n = cell_of(cells, player, key);
    assert(cell_matches(cells[n], player, key));
    if n < at {
        assert(!cell_matches(cells[n], cells[at].player_id@, type_key(cells[at].score_type)));
    } else if n > at {
        assert(!cell_matches(cells[at], cells[n].player_id@, type_key(cells[n].score_type)));
    }
}

/// Two tables give a player the same score in a type where they hold the
/// same cell for it, or none.
pub proof fn lemma_scores_agree(
    first: Seq<ScoreCell>,
    second: Seq<ScoreCell>,
    player: Seq<char>,
    key: TypeKey,
)
    requires
        cells_distinct(first),
        cells_distinct(second),
        forall|n: int|
            0 <= n < first.len() && cell_matches(first[n], player, key) ==> n < second.len()
                && cell_matches(second[n], player, key) && second[n].value == first[n].value,
        forall|n: int|
            0 <= n < second.len() && cell_matches(second[n], player, key) ==> n < first.len()
                && cell_matches(first[n], player, key),
    ensures
        score_in(first, player, key) == score_in(second, player, key),
{
    if has_cell(first, player, key) {
        let n = cell_of(first, player, key);
        lemma_cell_is_score(first, player, key, n);
        lemma_cell_is_score(second, player, key, n);
    } else if has_cell(second, player, key) {
        let n = cell_of(second, player, key);
        assert(cell_matches(first[n], player, key));
    }
}

impl ScoringSystem {
    /// Adds `points` to the score of `player_id` in `score_type`, records
    /// the scoring in the history, unlocks the achievements that are due,
    /// and returns the player's new score in that type. The history keeps
    /// its newest entries: where it is full, the oldest entry goes.
    pub fn add_score(&mut self, player_id: &str, score_type: ScoreType, points: i64) -> (total: i64)
        requires
            old(self).wf(),
            i64::MIN <= old(self).score(player_id@, type_key(score_type)) + points <= i64::MAX,
        ensures
            final(self).wf(),
            total == old(self).score(player_id@, type_key(score_type)) + points,
            final(self).score(player_id@, type_key(score_type)) == total,
            forall|player: Seq<char>, key: TypeKey|
                player != player_id@ || key != type_key(score_type) ==> final(self).score(
                    player,
                    key,
                ) == old(self).score(player, key),
            cells_with(old(self).cells(), final(self).cells(), player_id@, score_type, total as int),
            final(self).conditions() == old(self).conditions(),
            final(self).played() == old(self).played(),
            exists|entry: ScoreEntry|
                {
                    &&& entry.player_id@ == player_id@
                    &&& entry.score_type == score_type
                    &&& entry.value == points
                    &&& entry.metadata@ == Map::<Seq<char>, Seq<char>>::empty()
                    &&& final(self).history() == history_with(
                        old(self).history(),
                        entry,
                        old(self).history_limit(),
                    )
                },
            unlocked_for(
                old(self).known_achievements(),
                final(self).known_achievements(),
                final(self).cells(),
                final(self).history(),
                final(self).played(),
                player_id@,
            ),
    {
        let ghost key = type_key(score_type);
        let ghost before = self.cells();
        let total: i64;
        match self.find_cell(player_id, &score_type) {
            Some(i) => {
                proof {
                    lemma_cell_is_score(before, player_id@, key, i as int);
                }
                let cell = &mut self.cells[i];
                cell.value = cell.value + points;
                total = cell.value;
            },
            None => {
                total = points;
                self.cells.push(
                    ScoreCell {
                        player_id: player_id.to_owned(),
                        score_type: copy_score_type(&score_type),
                        value: points,
                    },
                );
            },
        }
        proof {
            let after = self.cells();
            assert forall|i: int, j: int| 0 <= i < j < after.len() implies !cell_matches(
                after[i],
                after[j].player_id@,
                type_key(after[j].score_type),
            ) by {
                if j < before.len() {
                    assert(!cell_matches(
                        before[i],
                        before[j].player_id@,
                        type_key(before[j].score_type),
                    ));
                } else {
                    assert(!cell_matches(before[i], player_id@, key));
                }
            }
            assert forall|player: Seq<char>, other: TypeKey|
                player != player_id@ || other != key implies score_in(after, player, other)
                == score_in(before, player, other) by {
                lemma_scores_agree(before, after, player, other);
            }
            if has_cell(before, player_id@, key) {
                lemma_cell_is_score(after, player_id@, key, cell_of(before, player_id@, key));
            } else {
                assert(cell_matches(after[before.len() as int], player_id@, key));
                lemma_cell_is_score(after, player_id@, key, before.len() as int);
                assert(after.drop_last() =~= before);
            }
            assert(cells_with(before, after, player_id@, score_type, total as int));
        }
        let ghost scored = self.cells();
        let entry = ScoreEntry::new(player_id, score_type, points);
        let ghost recorded = entry;
        self.score_history.push(entry);
        if self.score_history.len() > self.max_history_size {
            self.score_history.remove(0);
        }
        proof {
            assert(self.history() =~= history_with(
                old(self).history(),
                recorded,
                old(self).history_limit(),
            ));
        }
        self.check_achievements(player_id);
        proof {
            assert(self.cells() == scored);
            assert(self.history() == history_with(
                old(self).history(),
                recorded,
                old(self).history_limit(),
            ));
        }
        total
    }

    /// Adds a win condition after those that are there.
    pub fn add_win_condition(&mut self, condition: WinCondition)
        requires
            old(self).wf(),
        ensures
            final(self).wf(),
            final(self).conditions() == old(self).conditions().push(condition),
            final(self).cells() == old(self).cells(),
            final(self).history() == old(self).history(),
            final(self).known_achievements() == old(self).known_achievements(),
            final(self).played() == old(self).played(),
    {
        self.win_conditions.push(condition);
    }

    /// A scoring system for a match that is won by the first to reach
    /// `max_score` points.
    pub fn with_pong_defaults(max_score: i32) -> (system: ScoringSystem)
        ensures
            system.wf(),
            system.cells().len() == 0,
            system.history().len() == 0,
            system.known_achievements().len() == 0,
            system.conditions().len() == 1,
            system.conditions()[0] == (WinCondition::ScoreThreshold {
                target_score: max_score as i64,
                score_type: ScoreType::Points,
            }),
    {
        let mut system = ScoringSystem::new();
        system.add_win_condition(
            WinCondition::ScoreThreshold {
                target_score: max_score as i64,
                score_type: ScoreType::Points,
            },
        );
        system
    }

    /// The place of the achievement called `id`.
    fn find_achievement(&self, id: &String) -> (found: Option<usize>)
        ensures
            match found {
                Some(i) => i < self.known_achievements().len() && self.known_achievements()[i as int].id@ == id@,
                None => forall|k: int|
                    0 <= k < self.known_achievements().len() ==> self.known_achievements()[k].id@ != id@,
            },
    {
        let mut i: usize = 0;
        while i < self.achievements.len()
            invariant
                0 <= i <= self.achievements.len(),
                forall|k: int| 0 <= k < i ==> self.known_achievements()[k].id@ != id@,
            decreases self.achievements.len() - i,
        {
            if self.achievements[i].id == *id {
                return Some(i);
            }
            i = i + 1;
        }
        None
    }

    /// Adds an achievement, in place of the achievement of the same id
    /// where there is one.
    pub fn add_achievement(&mut self, achievement: Achievement)
        requires
            old(self).wf(),
        ensures
            final(self).wf(),
            final(self).cells() == old(self).cells(),
            final(self).history() == old(self).history(),
            final(self).conditions() == old(self).conditions(),
            final(self).played() == old(self).played(),
            final(self).known_achievements() == (if exists|i: int|
                0 <= i < old(self).known_achievements().len() && old(self).known_achievements()[i].id@
                    == achievement.id@ {
                old(self).known_achievements().update(
                    choose|i: int|
                        0 <= i < old(self).known_achievements().len() && old(self).known_achievements()[i].id@
                            == achievement.id@,
                    achievement,
                )
            } else {
                old(self).known_achievements().push(achievement)
            }),
    {
        match self.find_achievement(&achievement.id) {
            Some(i) => {
                proof {
                    let n = choose|n: int|
                        0 <= n < self.known_achievements().len() && self.known_achievements()[n].id@
                            == achievement.id@;
                    assert(n == i);
                }
                self.achievements[i] = achievement;
            },
            None => {
                self.achievements.push(achievement);
            },
        }
    }

    /// Takes `played` for the time that the game has been played. Nothing
    /// else changes: the clock goes on from the moment it started at.
    pub fn record_time(&mut self, played: Duration)
        requires
            old(self).wf(),
        ensures
            final(self).wf(),
            final(self).played() == played,
            final(self).started() == old(self).started(),
            final(self).cells() == old(self).cells(),
            final(self).history() == old(self).history(),
            final(self).conditions() == old(self).conditions(),
            final(self).known_achievements() == old(self).known_achievements(),
    {
        self.game_duration = played;
    }

    /// Brings the time played up to the clock: it becomes what the clock
    /// says has passed since the game started, whatever that is. The clock
    /// is not started anew, and nothing else changes.
    pub fn update_time(&mut self)
        requires
            old(self).wf(),
        ensures
            final(self).wf(),
            final(self).started() == old(self).started(),
            final(self).cells() == old(self).cells(),
            final(self).history() == old(self).history(),
            final(self).conditions() == old(self).conditions(),
            final(self).known_achievements() == old(self).known_achievements(),
    {
        let played = elapsed_since(&self.game_start_time);
        self.record_time(played);
    }
}

/// Whether the cell at `first` ranks before the cell at `second`: by the
/// higher value, and among equal values by the earlier place.
pub open spec fn ranks_before(cells: Seq<ScoreCell>, first: int, second: int) -> bool {
    cells[first].value > cells[second].value || (cells[first].value == cells[second].value && first
        < second)
}

/// Whether `order` ranks the cells of type `key` among the first `upto`
/// cells: it holds the place of each of them once, best first.
pub open spec fn is_ranking(cells: Seq<ScoreCell>, key: TypeKey, upto: int, order: Seq<int>) -> bool {
    &&& forall|i: int|
        0 <= i < order.len() ==> 0 <= #[trigger] order[i] < upto && type_key(
            cells[order[i]].score_type,
        ) == key
    &&& forall|i: int, j: int|
        0 <= i < j < order.len() ==> ranks_before(cells, #[trigger] order[i], #[trigger] order[j])
    &&& forall|c: int|
        0 <= c < upto && type_key(#[trigger] cells[c].score_type) == key ==> order.contains(c)
}

/// A leaderboard as values: each row a player and a score.
pub open spec fn rows_of(board: Seq<(String, i64)>) -> Seq<(Seq<char>, int)> {
    Seq::new(board.len(), |i: int| (board[i].0@, board[i].1 as int))
}

/// The rows that `order` stands for.
pub open spec fn ranked_rows(cells: Seq<ScoreCell>, order: Seq<int>) -> Seq<(Seq<char>, int)> {
    Seq::new(order.len(), |i: int| (cells[order[i]].player_id@, cells[order[i]].value as int))
}

impl ScoringSystem {
    /// The places of the cells of `score_type`, best first.
    fn rank(&self, score_type: &ScoreType) -> (order: Vec<usize>)
        ensures
            is_ranking(
                self.cells(),
                type_key(*score_type),
                self.cells().len() as int,
                Seq::new(order@.len(), |i: int| order@[i] as int),
            ),
    {
        let ghost key = type_key(*score_type);
        let ghost cells = self.cells();
        let mut order: Vec<usize> = Vec::new();
        let mut n: usize = 0;
        while n < self.cells.len()
            invariant
                0 <= n <= self.cells.len(),
                cells == self.cells(),
                key == type_key(*score_type),
                is_ranking(cells, key, n as int, Seq::new(order@.len(), |i: int| order@[i] as int)),
            decreases self.cells.len() - n,
        {
            let ghost before = Seq::new(order@.len(), |i: int| order@[i] as int);
            if same_score_type(&self.cells[n].score_type, score_type) {
                let value = self.cells[n].value;
                proof {
                    assert forall|q: int| 0 <= q < order@.len() implies #[trigger] order@[q]
                        < cells.len() by {
                        assert(before[q] == order@[q]);
                    }
                }
                let mut at: usize = 0;
                while at < order.len() && self.cells[order[at]].value >= value
                    invariant
                        0 <= at <= order.len(),
                        cells == self.cells(),
                        n < cells.len(),
                        value == cells[n as int].value,
                        before == Seq::new(order@.len(), |i: int| order@[i] as int),
                        is_ranking(cells, key, n as int, before),
                        forall|q: int| 0 <= q < order@.len() ==> #[trigger] order@[q] < cells.len(),
                        forall|q: int| 0 <= q < at ==> cells[#[trigger] before[q]].value >= value,
                    decreases order.len() - at,
                {
                    assert(before[at as int] == order@[at as int]);
                    at = at + 1;
                }
                proof {
                    if at < order.len() {
                        assert(before[at as int] == order@[at as int]);
                    }
                }
                order.insert(at, n);
                proof {
                    let after = Seq::new(order@.len(), |i: int| order@[i] as int);
                    assert(after =~= before.insert(at as int, n as int));
                    assert forall|i: int| 0 <= i < after.len() implies 0 <= #[trigger] after[i] < n
                        + 1 && type_key(cells[after[i]].score_type) == key by {
                        if i < at {
                            assert(after[i] == before[i]);
                        } else if i > at {
                            assert(after[i] == before[i - 1]);
                        }
                    }
                    assert forall|i: int, j: int| 0 <= i < j < after.len() implies ranks_before(
                        cells,
                        #[trigger] after[i],
                        #[trigger] after[j],
                    ) by {
                        if j < at {
                            assert(after[i] == before[i] && after[j] == before[j]);
                        } else if j == at {
                            assert(after[i] == before[i]);
                        } else if i < at {
                            assert(after[i] == before[i] && after[j] == before[j - 1]);
                        } else if i == at {
                            assert(after[j] == before[j - 1]);
                            if j - 1 > at {
                                assert(ranks_before(cells, before[at as int], before[j - 1]));
                            }
                        } else {
                            assert(after[i] == before[i - 1] && after[j] == before[j - 1]);
                        }
                    }
                    assert forall|c: int|
                        0 <= c < n + 1 && type_key(#[trigger] cells[c].score_type)
                            == key implies after.contains(c) by {
                        if c == n {
                            assert(after[at as int] == c);
                        } else {
                            assert(before.contains(c));
                            let m = choose|m: int| 0 <= m < before.len() && before[m] == c;
                            if m < at {
                                assert(after[m] == c);
                            } else {
                                assert(after[m + 1] == c);
                            }
                        }
                    }
                }
            } else {
                proof {
                    assert forall|c: int|
                        0 <= c < n + 1 && type_key(#[trigger] cells[c].score_type)
                            == key implies before.contains(c) by {}
                }
            }
            n = n + 1;
        }
        order
    }

    /// The leaderboard of a score type: every player who has a score in it,
    /// with that score, the highest first; players with the same score stand
    /// in the order in which they first scored.
    pub fn get_leaderboard(&self, score_type: &ScoreType) -> (board: Vec<(String, i64)>)
        requires
            self.wf(),
        ensures
            exists|order: Seq<int>|
                is_ranking(self.cells(), type_key(*score_type), self.cells().len() as int, order)
                    && rows_of(board@) == ranked_rows(self.cells(), order),
    {
        let order = self.rank(score_type);
        let ghost ranking = Seq::new(order@.len(), |i: int| order@[i] as int);
        let mut board: Vec<(String, i64)> = Vec::new();
        let mut i: usize = 0;
        while i < order.len()
            invariant
                0 <= i <= order.len(),
                ranking == Seq::new(order@.len(), |i: int| order@[i] as int),
                is_ranking(self.cells(), type_key(*score_type), self.cells().len() as int, ranking),
                board@.len() == i,
                forall|k: int|
                    0 <= k < i ==> (#[trigger] board@[k]).0@ == self.cells()[ranking[k]].player_id@
                        && board@[k].1 == self.cells()[ranking[k]].value,
            decreases order.len() - i,
        {
            assert(ranking[i as int] == order@[i as int]);
            let cell = &self.cells[order[i]];
            board.push((cell.player_id.clone(), cell.value));
            i = i + 1;
        }
        proof {
            assert(rows_of(board@) =~= ranked_rows(self.cells(), ranking));
        }
        board
    }
}

/// Whether `order` holds each member of `set` once, best first.
pub open spec fn ranks(cells: Seq<ScoreCell>, order: Seq<int>, set: Set<int>) -> bool {
    &&& forall|i: int| 0 <= i < order.len() ==> set.contains(#[trigger] order[i])
    &&& forall|i: int, j: int|
        0 <= i < j < order.len() ==> ranks_before(cells, #[trigger] order[i], #[trigger] order[j])
    &&& forall|c: int| set.contains(c) ==> order.contains(c)
}

/// A set of cells has one ranking.
pub proof fn lemma_ranks_once(cells: Seq<ScoreCell>, first: Seq<int>, second: Seq<int>, set: Set<int>)
    requires
        ranks(cells, first, set),
        ranks(cells, second, set),
    ensures
        first == second,
    decreases first.len(),
{
    if first.len() == 0 {
        if second.len() > 0 {
            assert(set.contains(second[0]));
            assert(first.contains(second[0]));
        }
        assert(first =~= second);
    } else if second.len() == 0 {
        assert(set.contains(first[0]));
        assert(second.contains(first[0]));
    } else {
        let x = first.last();
        let y = second.last();
        assert(set.contains(x));
        assert(set.contains(y));
        assert(second.contains(x));
        assert(first.contains(y));
        let j = choose|j: int| 0 <= j < second.len() && second[j] == x;
        let i = choose|i: int| 0 <= i < first.len() && first[i] == y;
        if j < second.len() - 1 {
            assert(ranks_before(cells, second[j], second[second.len() - 1]));
        }
        if i < first.len() - 1 {
            assert(ranks_before(cells, first[i], first[first.len() - 1]));
        }
        assert(x == y);
        let rest = set.remove(x);
        assert(ranks(cells, first.drop_last(), rest)) by {
            assert forall|k: int| 0 <= k < first.drop_last().len() implies rest.contains(
                #[trigger] first.drop_last()[k],
            ) by {
                assert(first.drop_last()[k] == first[k]);
                assert(ranks_before(cells, first[k], first[first.len() - 1]));
            }
            assert forall|c: int| rest.contains(c) implies first.drop_last().contains(c) by {
                assert(first.contains(c));
                let n = choose|n: int| 0 <= n < first.len() && first[n] == c;
                assert(first.drop_last()[n] == c);
            }
        }
        assert(ranks(cells, second.drop_last(), rest)) by {
            assert forall|k: int| 0 <= k < second.drop_last().len() implies rest.contains(
                #[trigger] second.drop_last()[k],
            ) by {
                assert(second.drop_last()[k] == second[k]);
                assert(ranks_before(cells, second[k], second[second.len() - 1]));
            }
            assert forall|c: int| rest.contains(c) implies second.drop_last().contains(c) by {
                assert(second.contains(c));
                let n = choose|n: int| 0 <= n < second.len() && second[n] == c;
                assert(second.drop_last()[n] == c);
            }
        }
        lemma_ranks_once(cells, first.drop_last(), second.drop_last(), rest);
        assert(first =~= first.drop_last().push(x));
        assert(second =~= second.drop_last().push(y));
    }
}

/// A score type has one leaderboard: two rankings of the same cells are the
/// same ranking.
pub proof fn lemma_ranking_is_unique(
    cells: Seq<ScoreCell>,
    key: TypeKey,
    first: Seq<int>,
    second: Seq<int>,
)
    requires
        is_ranking(cells, key, cells.len() as int, first),
        is_ranking(cells, key, cells.len() as int, second),
    ensures
        first == second,
{
    let set = Set::new(|c: int| 0 <= c < cells.len() && type_key(cells[c].score_type) == key);
    lemma_ranks_once(cells, first, second, set);
}

/// The text that says that a score was reached: what
/// `format!("Reached {} {}", target, name)` gives.
pub uninterp spec fn reached_text(target: i64, name: Seq<char>) -> Seq<char>;

/// The text that says that a time was survived: what
/// `format!("Survived for {:?}", duration)` gives.
pub uninterp spec fn survived_text(duration: Duration) -> Seq<char>;

/// Formats `"Reached {} {}"` with the target and the name of the score type.
#[verifier::external_body]
fn reached_reason(target: i64, name: &str) -> (reason: String)
    ensures
        reason@ == reached_text(target, name@),
{
    format!("Reached {} {}", target, name)
}

/// Formats `"Survived for {:?}"` with the duration.
#[verifier::external_body]
fn survived_reason(duration: &Duration) -> (reason: String)
    ensures
        reason@ == survived_text(*duration),
{
    format!("Survived for {:?}", duration)
}

/// Whether the cell at `at` is the first of type `key` that has reached
/// `target`.
pub open spec fn first_to_reach(cells: Seq<ScoreCell>, key: TypeKey, target: int, at: int) -> bool {
    &&& 0 <= at < cells.len()
    &&& type_key(cells[at].score_type) == key
    &&& cells[at].value >= target
    &&& forall|k: int|
        0 <= k < at ==> !(type_key((#[trigger] cells[k]).score_type) == key && cells[k].value
            >= target)
}

/// Who wins under a condition, and why, if somebody does: under a score
/// threshold the player who first scored among those who have reached it,
/// under a survival time the player once that time has been played.
pub open spec fn win_under(condition: WinCondition, cells: Seq<ScoreCell>, played: Duration) -> Option<
    (Seq<char>, Seq<char>),
> {
    match condition {
        WinCondition::ScoreThreshold { target_score, score_type } => {
            if exists|at: int| first_to_reach(cells, type_key(score_type), target_score as int, at) {
                let at = choose|at: int|
                    first_to_reach(cells, type_key(score_type), target_score as int, at);
                Some((cells[at].player_id@, reached_text(target_score, score_type_name(score_type))))
            } else {
                None
            }
        },
        WinCondition::TimeSurvival { duration } => {
            if duration_nanos(played) >= duration_nanos(duration) {
                Some(("Player"@, survived_text(duration)))
            } else {
                None
            }
        },
        _ => None,
    }
}

/// The win under the first condition that is met, if one is.
pub open spec fn first_win(conditions: Seq<WinCondition>, cells: Seq<ScoreCell>, played: Duration) -> Option<
    (Seq<char>, Seq<char>),
>
    decreases conditions.len(),
{
    if conditions.len() == 0 {
        None
    } else if win_under(conditions[0], cells, played) is Some {
        win_under(conditions[0], cells, played)
    } else {
        first_win(conditions.subrange(1, conditions.len() as int), cells, played)
    }
}

/// The result that a win, or none, amounts to.
pub open spec fn says(result: GameResult, win: Option<(Seq<char>, Seq<char>)>) -> bool {
    match win {
        Some((who, why)) => match result {
            GameResult::Win { winner, reason } => winner@ == who && reason@ == why,
            _ => false,
        },
        None => result is Ongoing,
    }
}

/// The scores of `player`, each with the key of its type, in the order in
/// which the player first scored in them.
pub open spec fn scores_of(cells: Seq<ScoreCell>, player: Seq<char>) -> Seq<(TypeKey, int)>
    decreases cells.len(),
{
    if cells.len() == 0 {
        Seq::empty()
    } else if cells.last().player_id@ == player {
        scores_of(cells.drop_last(), player).push(
            (type_key(cells.last().score_type), cells.last().value as int),
        )
    } else {
        scores_of(cells.drop_last(), player)
    }
}

/// The achievements that are unlocked, in the order in which they were
/// added.
pub open spec fn unlocked_of(achievements: Seq<Achievement>) -> Seq<Achievement>
    decreases achievements.len(),
{
    if achievements.len() == 0 {
        Seq::empty()
    } else if achievements.last().unlocked {
        unlocked_of(achievements.drop_last()).push(achievements.last())
    } else {
        unlocked_of(achievements.drop_last())
    }
}

/// How many players have a score.
pub open spec fn players_in(cells: Seq<ScoreCell>) -> int
    decreases cells.len(),
{
    if cells.len() == 0 {
        0
    } else if exists|k: int| 0 <= k < cells.len() - 1 && cells[k].player_id@ == cells.last().player_id@ {
        players_in(cells.drop_last())
    } else {
        players_in(cells.drop_last()) + 1
    }
}

impl ScoringSystem {
    /// The place of the first cell of `score_type` that has reached `target`.
    fn find_winner(&self, score_type: &ScoreType, target: i64) -> (found: Option<usize>)
        ensures
            match found {
                Some(at) => first_to_reach(
                    self.cells(),
                    type_key(*score_type),
                    target as int,
                    at as int,
                ) && at == (choose|at: int|
                    first_to_reach(self.cells(), type_key(*score_type), target as int, at)),
                None => forall|at: int|
                    !first_to_reach(self.cells(), type_key(*score_type), target as int, at),
            },
    {
        let ghost key = type_key(*score_type);
        let mut i: usize = 0;
        while i < self.cells.len()
            invariant
                0 <= i <= self.cells.len(),
                key == type_key(*score_type),
                forall|k: int|
                    0 <= k < i ==> !(type_key((#[trigger] self.cells()[k]).score_type) == key
                        && self.cells()[k].value >= target),
            decreases self.cells.len() - i,
        {
            if same_score_type(&self.cells[i].score_type, score_type) && self.cells[i].value
                >= target {
                proof {
                    assert(first_to_reach(self.cells(), key, target as int, i as int));
                    let at = choose|at: int| first_to_reach(self.cells(), key, target as int, at);
                    if at < i {
                        assert(!(type_key(self.cells()[at].score_type) == key
                            && self.cells()[at].value >= target));
                    } else if at > i {
                        assert(!(type_key(self.cells()[i as int].score_type) == key
                            && self.cells()[i as int].value >= target));
                    }
                }
                return Some(i);
            }
            i = i + 1;
        }
        proof {
            assert forall|at: int| !first_to_reach(self.cells(), key, target as int, at) by {
                if 0 <= at < self.cells().len() {
                    assert(!(type_key(self.cells()[at].score_type) == key && self.cells()[at].value
                        >= target));
                }
            }
        }
        None
    }

    /// Says how the game stands: won under the first win condition that is
    /// met, ongoing where none is. A score threshold is met by a player who
    /// has reached it, the one who first scored among several; a survival
    /// time is met once it has been played.
    pub fn check_win_conditions(&self) -> (result: GameResult)
        requires
            self.wf(),
        ensures
            says(result, first_win(self.conditions(), self.cells(), self.played())),
    {
        let mut i: usize = 0;
        proof {
            assert(self.conditions().subrange(0, self.conditions().len() as int)
                =~= self.conditions());
        }
        while i < self.win_conditions.len()
            invariant
                0 <= i <= self.win_conditions.len(),
                first_win(self.conditions(), self.cells(), self.played()) == first_win(
                    self.conditions().subrange(i as int, self.conditions().len() as int),
                    self.cells(),
                    self.played(),
                ),
            decreases self.win_conditions.len() - i,
        {
            let ghost rest = self.conditions().subrange(i as int, self.conditions().len() as int);
            proof {
                assert(rest[0] == self.conditions()[i as int]);
                assert(rest.subrange(1, rest.len() as int) =~= self.conditions().subrange(
                    i + 1,
                    self.conditions().len() as int,
                ));
            }
            match &self.win_conditions[i] {
                WinCondition::ScoreThreshold { target_score, score_type } => {
                    match self.find_winner(score_type, *target_score) {
                        Some(at) => {
                            let name = format_score_type(score_type);
                            return GameResult::Win {
                                winner: self.cells[at].player_id.clone(),
                                reason: reached_reason(*target_score, name.as_str()),
                            };
                        },
                        None => {},
                    }
                },
                WinCondition::TimeSurvival { duration } => {
                    if nanos_of(&self.game_duration) >= nanos_of(duration) {
                        return GameResult::Win {
                            winner: "Player".to_owned(),
                            reason: survived_reason(duration),
                        };
                    }
                },
                WinCondition::Elimination => {},
                WinCondition::Location => {},
                WinCondition::Custom { condition_id } => {},
            }
            i = i + 1;
        }
        GameResult::Ongoing
    }

    /// The scores of `player_id`, each with its type, in the order in which
    /// the player first scored in them.
    pub fn get_player_scores(&self, player_id: &str) -> (scores: Vec<(ScoreType, i64)>)
        ensures
            Seq::new(scores@.len(), |i: int| (type_key(scores@[i].0), scores@[i].1 as int))
                == scores_of(self.cells(), player_id@),
    {
        let wanted: String = player_id.to_owned();
        let mut scores: Vec<(ScoreType, i64)> = Vec::new();
        let mut i: usize = 0;
        while i < self.cells.len()
            invariant
                0 <= i <= self.cells.len(),
                wanted@ == player_id@,
                Seq::new(scores@.len(), |k: int| (type_key(scores@[k].0), scores@[k].1 as int))
                    == scores_of(self.cells().subrange(0, i as int), player_id@),
            decreases self.cells.len() - i,
        {
            let ghost before = Seq::new(
                scores@.len(),
                |k: int| (type_key(scores@[k].0), scores@[k].1 as int),
            );
            proof {
                let next = self.cells().subrange(0, i + 1);
                assert(next.drop_last() =~= self.cells().subrange(0, i as int));
                assert(next.last() == self.cells()[i as int]);
            }
            if self.cells[i].player_id == wanted {
                scores.push((copy_score_type(&self.cells[i].score_type), self.cells[i].value));
                proof {
                    let after = Seq::new(
                        scores@.len(),
                        |k: int| (type_key(scores@[k].0), scores@[k].1 as int),
                    );
                    assert(after =~= before.push(
                        (
                            type_key(self.cells()[i as int].score_type),
                            self.cells()[i as int].value as int,
                        ),
                    ));
                }
            }
            i = i + 1;
        }
        proof {
            assert(self.cells().subrange(0, self.cells().len() as int) =~= self.cells());
        }
        scores
    }

    /// The achievements that are unlocked, in the order in which they were
    /// added. They are the game's, not one player's: `_player_id` does not
    /// narrow them.
    pub fn get_unlocked_achievements(&self, _player_id: &str) -> (unlocked: Vec<&Achievement>)
        ensures
            Seq::new(unlocked@.len(), |i: int| *unlocked@[i]) == unlocked_of(
                self.known_achievements(),
            ),
    {
        let mut unlocked: Vec<&Achievement> = Vec::new();
        let mut i: usize = 0;
        while i < self.achievements.len()
            invariant
                0 <= i <= self.achievements.len(),
                Seq::new(unlocked@.len(), |k: int| *unlocked@[k]) == unlocked_of(
                    self.known_achievements().subrange(0, i as int),
                ),
            decreases self.achievements.len() - i,
        {
            let ghost before = Seq::new(unlocked@.len(), |k: int| *unlocked@[k]);
            proof {
                let next = self.known_achievements().subrange(0, i + 1);
                assert(next.drop_last() =~= self.known_achievements().subrange(0, i as int));
                assert(next.last() == self.known_achievements()[i as int]);
            }
            if self.achievements[i].unlocked {
                unlocked.push(&self.achievements[i]);
                proof {
                    let after = Seq::new(unlocked@.len(), |k: int| *unlocked@[k]);
                    assert(after =~= before.push(self.known_achievements()[i as int]));
                }
            }
            i = i + 1;
        }
        proof {
            assert(self.known_achievements().subrange(0, self.known_achievements().len() as int)
                =~= self.known_achievements());
        }
        unlocked
    }

    /// The win conditions, in the order in which they were added.
    pub fn win_conditions(&self) -> (conditions: &Vec<WinCondition>)
        ensures
            conditions@ == self.conditions(),
    {
        &self.win_conditions
    }

    /// The achievements, in the order in which they were added.
    pub fn achievements(&self) -> (achievements: &Vec<Achievement>)
        ensures
            achievements@ == self.known_achievements(),
    {
        &self.achievements
    }

    /// The history of scoring, oldest first.
    pub fn score_history(&self) -> (history: &Vec<ScoreEntry>)
        ensures
            history@ == self.history(),
    {
        &self.score_history
    }

    /// How long the game has been played, as of the last `update_time`.
    pub fn game_duration(&self) -> (played: Duration)
        ensures
            played == self.played(),
    {
        self.game_duration
    }

    /// Starts over: scores and history are emptied, the clock starts now,
    /// and every achievement is locked again. Win conditions and the
    /// achievements themselves stay.
    pub fn reset(&mut self)
        requires
            old(self).wf(),
        ensures
            final(self).wf(),
            final(self).cells().len() == 0,
            final(self).history().len() == 0,
            duration_nanos(final(self).played()) == 0,
            final(self).conditions() == old(self).conditions(),
            final(self).known_achievements().len() == old(self).known_achievements().len(),
            forall|i: int|
                0 <= i < old(self).known_achievements().len() ==> (
                #[trigger] final(self).known_achievements()[i]) == (Achievement {
                    unlocked: false,
                    unlocked_at: None,
                    ..old(self).known_achievements()[i]
                }),
    {
        self.cells.clear();
        self.score_history.clear();
        self.game_start_time = clock_now();
        self.game_duration = seconds(0);
        let mut i: usize = 0;
        while i < self.achievements.len()
            invariant
                0 <= i <= self.achievements.len(),
                self.cells().len() == 0,
                self.history().len() == 0,
                duration_nanos(self.played()) == 0,
                self.history_limit() == 1000,
                self.conditions() == old(self).conditions(),
                self.known_achievements().len() == old(self).known_achievements().len(),
                forall|k: int|
                    0 <= k < i ==> (#[trigger] self.known_achievements()[k]) == (Achievement {
                        unlocked: false,
                        unlocked_at: None,
                        ..old(self).known_achievements()[k]
                    }),
                forall|k: int|
                    i <= k < self.known_achievements().len() ==> self.known_achievements()[k] == old(
                        self,
                    ).known_achievements()[k],
            decreases self.achievements.len() - i,
        {
            let entry = &mut self.achievements[i];
            entry.unlocked = false;
            entry.unlocked_at = None;
            i = i + 1;
        }
    }

    /// Whether the values in the history add up within the range of the
    /// total.
    pub fn can_total(&self) -> (ok: bool)
        requires
            self.wf(),
        ensures
            ok == (i64::MIN <= total_value(self.history()) <= i64::MAX),
    {
        let total = self.sum_history();
        -9_223_372_036_854_775_808i128 <= total && total <= 9_223_372_036_854_775_807i128
    }

    /// The sum of the values in the history.
    fn sum_history(&self) -> (total: i128)
        requires
            self.wf(),
        ensures
            total == total_value(self.history()),
    {
        let mut total: i128 = 0;
        let mut i: usize = 0;
        while i < self.score_history.len()
            invariant
                0 <= i <= self.score_history.len(),
                self.score_history.len() <= 1000,
                total == total_value(self.history().subrange(0, i as int)),
                -(i as int) * 0x8000_0000_0000_0000 <= total <= (i as int) * 0x8000_0000_0000_0000,
            decreases self.score_history.len() - i,
        {
            proof {
                let next = self.history().subrange(0, i + 1);
                assert(next.drop_last() =~= self.history().subrange(0, i as int));
                assert(next.last() == self.history()[i as int]);
            }
            total = total + self.score_history[i].value as i128;
            i = i + 1;
        }
        proof {
            assert(self.history().subrange(0, self.history().len() as int) =~= self.history());
        }
        total
    }

    /// How many players have a score.
    fn count_players(&self) -> (count: usize)
        ensures
            count == players_in(self.cells()),
    {
        let mut count: usize = 0;
        let mut i: usize = 0;
        while i < self.cells.len()
            invariant
                0 <= i <= self.cells.len(),
                count <= i,
                count == players_in(self.cells().subrange(0, i as int)),
            decreases self.cells.len() - i,
        {
            let ghost next = self.cells().subrange(0, i + 1);
            proof {
                assert(next.drop_last() =~= self.cells().subrange(0, i as int));
                assert(next.last() == self.cells()[i as int]);
            }
            let mut seen = false;
            let mut k: usize = 0;
            while k < i
                invariant
                    0 <= k <= i < self.cells.len(),
                    next == self.cells().subrange(0, i + 1),
                    seen == exists|m: int| 0 <= m < k && next[m].player_id@ == next.last().player_id@,
                decreases i - k,
            {
                if self.cells[k].player_id == self.cells[i].player_id {
                    assert(next[k as int].player_id@ == next.last().player_id@);
                    seen = true;
                }
                k = k + 1;
            }
            if !seen {
                count = count + 1;
            }
            i = i + 1;
        }
        proof {
            assert(self.cells().subrange(0, self.cells().len() as int) =~= self.cells());
        }
        count
    }

    /// How many achievements are unlocked.
    fn count_unlocked(&self) -> (count: usize)
        ensures
            count == unlocked_of(self.known_achievements()).len(),
    {
        let mut count: usize = 0;
        let mut i: usize = 0;
        while i < self.achievements.len()
            invariant
                0 <= i <= self.achievements.len(),
                count <= i,
                count == unlocked_of(self.known_achievements().subrange(0, i as int)).len(),
            decreases self.achievements.len() - i,
        {
            proof {
                let next = self.known_achievements().subrange(0, i + 1);
                assert(next.drop_last() =~= self.known_achievements().subrange(0, i as int));
                assert(next.last() == self.known_achievements()[i as int]);
            }
            if self.achievements[i].unlocked {
                count = count + 1;
            }
            i = i + 1;
        }
        proof {
            assert(self.known_achievements().subrange(0, self.known_achievements().len() as int)
                =~= self.known_achievements());
        }
        count
    }

    /// The totals of the game: the sum and the number of the entries in the
    /// history, the time played, the number of players who have a score,
    /// and the number of achievements that are unlocked.
    pub fn get_stats(&self) -> (stats: GameStats)
        requires
            self.wf(),
            i64::MIN <= total_value(self.history()) <= i64::MAX,
        ensures
            stats.total_scores == total_value(self.history()),
            stats.total_actions == self.history().len(),
            stats.game_duration == self.played(),
            stats.active_players == players_in(self.cells()),
            stats.unlocked_achievements == unlocked_of(self.known_achievements()).len(),
    {
        let total = self.sum_history();
        GameStats {
            total_scores: total as i64,
            total_actions: self.score_history.len(),
            game_duration: self.game_duration,
            active_players: self.count_players(),
            unlocked_achievements: self.count_unlocked(),
        }
    }
}

} // verus!
