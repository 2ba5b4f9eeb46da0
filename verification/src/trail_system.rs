//! Trails: the fading path that a moving thing leaves behind.
//!
//! A trail is a short list of segments, the newest first. Each update ages
//! the segments, drops those whose life has run out, and lays a new one
//! where the thing has moved far enough since the last.

use vstd::prelude::*;
use crate::collision::{distance, speed_of};
use crate::num::Scalar;
use crate::physics::Vector;
use crate::str_map::StrMap;

pub mod presets;

verus! {

/// One piece of a trail.
#[derive(Debug, Clone, Copy, PartialEq)]
pub struct TrailSegment<T> {
    pub position: Vector<T>,
    pub color: [T; 4],
    pub size: T,
    pub life: T,
    pub max_life: T,
}

/// How a trail lays and ages its segments.
#[derive(Debug, Clone, Copy, PartialEq)]
pub struct TrailConfig<T> {
    /// The most segments the trail holds.
    pub max_segments: usize,
    /// The time between two new segments.
    pub segment_interval: T,
    /// How long a segment lives.
    pub segment_life: T,
    /// The colour of a new segment: red, green, blue, alpha.
    pub base_color: [T; 4],
    /// The size of a new segment.
    pub base_size: T,
    /// Whether segments fade with age.
    pub fade_enabled: bool,
    /// Whether segments shrink with age.
    pub shrink_enabled: bool,
    /// The least alpha of a faded segment.
    pub min_alpha: T,
    /// How fast segments fade.
    pub fade_speed: T,
    /// Whether a faster thing leaves stronger and larger segments.
    pub velocity_based: bool,
    /// The least distance between two segments.
    pub min_distance: T,
}

/// A trail.
#[derive(Debug, Clone)]
pub struct Trail<T> {
    pub config: TrailConfig<T>,
    /// The segments, the newest first.
    pub segments: Vec<TrailSegment<T>>,
    pub last_position: Vector<T>,
    pub last_velocity: Vector<T>,
    pub time_since_last_segment: T,
    pub enabled: bool,
}

/// What a trail holds, with its segments as a sequence.
pub struct TrailState<T> {
    pub config: TrailConfig<T>,
    pub segments: Seq<TrailSegment<T>>,
    pub last_position: Vector<T>,
    pub last_velocity: Vector<T>,
    pub time_since_last_segment: T,
    pub enabled: bool,
}

impl<T> View for Trail<T> {
    type V = TrailState<T>;

    open spec fn view(&self) -> TrailState<T> {
        TrailState {
            config: self.config,
            segments: self.segments@,
            last_position: self.last_position,
            last_velocity: self.last_velocity,
            time_since_last_segment: self.time_since_last_segment,
            enabled: self.enabled,
        }
    }
}

/// The number nought.
pub open spec fn nought<T: Scalar>() -> T {
    T::ratio(0, 1)
}

/// A segment that has just been laid.
pub open spec fn laid<T: Scalar>(position: Vector<T>, color: [T; 4], size: T, life: T) -> TrailSegment<
    T,
> {
    TrailSegment { position, color, size, life, max_life: life }
}

/// A segment after `delta_time` more of its life.
pub open spec fn aged<T: Scalar>(segment: TrailSegment<T>, delta_time: T) -> TrailSegment<T> {
    TrailSegment { life: segment.life.difference(delta_time), ..segment }
}

/// Whether a segment has life left.
pub open spec fn lives<T: Scalar>(segment: TrailSegment<T>) -> bool {
    nought::<T>().below(segment.life)
}

/// The segments that still live after `delta_time`, aged, in their order.
pub open spec fn survivors<T: Scalar>(segments: Seq<TrailSegment<T>>, delta_time: T) -> Seq<
    TrailSegment<T>,
>
    decreases segments.len(),
{
    if segments.len() == 0 {
        Seq::empty()
    } else if lives(aged(segments.last(), delta_time)) {
        survivors(segments.drop_last(), delta_time).push(aged(segments.last(), delta_time))
    } else {
        survivors(segments.drop_last(), delta_time)
    }
}

/// At most the first `limit` items of a sequence.
pub open spec fn trimmed<A>(items: Seq<A>, limit: nat) -> Seq<A> {
    if items.len() > limit {
        items.take(limit as int)
    } else {
        items
    }
}

/// How fast a thing is, as a part of five hundred units a second and at
/// most one.
pub open spec fn speed_factor<T: Scalar>(velocity: Vector<T>) -> T {
    speed_of(velocity).quotient(T::ratio(500, 1)).smaller(T::ratio(1, 1))
}

/// The colour of a new segment: the base colour, and where the speed
/// counts, its alpha at half strength for a thing at rest and at full
/// strength for a fast one, never above one.
pub open spec fn fresh_color<T: Scalar>(config: TrailConfig<T>, velocity: Vector<T>) -> [T; 4] {
    if config.velocity_based {
        [
            config.base_color[0],
            config.base_color[1],
            config.base_color[2],
            config.base_color[3].product(
                T::ratio(1, 2).sum(speed_factor(velocity).product(T::ratio(1, 2))),
            ).smaller(T::ratio(1, 1)),
        ]
    } else {
        config.base_color
    }
}

/// The size of a new segment: the base size, and where the speed counts,
/// between four fifths and six fifths of it.
pub open spec fn fresh_size<T: Scalar>(config: TrailConfig<T>, velocity: Vector<T>) -> T {
    if config.velocity_based {
        config.base_size.product(T::ratio(4, 5).sum(speed_factor(velocity).product(T::ratio(2, 5))))
    } else {
        config.base_size
    }
}

/// The segment that a trail lays at `position` for a thing moving at
/// `velocity`.
pub open spec fn fresh_segment<T: Scalar>(
    config: TrailConfig<T>,
    position: Vector<T>,
    velocity: Vector<T>,
) -> TrailSegment<T> {
    laid(position, fresh_color(config, velocity), fresh_size(config, velocity), config.segment_life)
}

/// A trail after a new segment: it comes first, and the oldest leave where
/// there are too many.
pub open spec fn after_add<T: Scalar>(
    trail: TrailState<T>,
    position: Vector<T>,
    velocity: Vector<T>,
) -> TrailState<T> {
    TrailState {
        segments: trimmed(
            seq![fresh_segment(trail.config, position, velocity)] + trail.segments,
            trail.config.max_segments as nat,
        ),
        ..trail
    }
}

/// Whether a trail whose last segment is `waited` old lays a new one at
/// `position`: the interval has passed and the thing has moved far enough.
pub open spec fn due<T: Scalar>(trail: TrailState<T>, waited: T, position: Vector<T>) -> bool {
    trail.config.segment_interval.within(waited) && trail.config.min_distance.within(
        distance(position, trail.last_position),
    )
}

/// A trail after an update. A disabled trail stays as it is.
pub open spec fn after_update<T: Scalar>(
    trail: TrailState<T>,
    delta_time: T,
    position: Vector<T>,
    velocity: Vector<T>,
) -> TrailState<T> {
    let waited = trail.time_since_last_segment.sum(delta_time);
    let older = TrailState {
        segments: survivors(trail.segments, delta_time),
        time_since_last_segment: waited,
        ..trail
    };
    if !trail.enabled {
        trail
    } else if due(trail, waited, position) {
        TrailState {
            time_since_last_segment: nought(),
            last_position: position,
            last_velocity: velocity,
            ..after_add(older, position, velocity)
        }
    } else {
        older
    }
}

/// A trail switched on or off. One that is switched off loses its segments.
pub open spec fn after_switch<T>(trail: TrailState<T>, enabled: bool) -> TrailState<T> {
    TrailState {
        enabled,
        segments: if enabled {
            trail.segments
        } else {
            Seq::empty()
        },
        ..trail
    }
}

/// A trail that has laid nothing yet.
pub open spec fn unused<T: Scalar>(config: TrailConfig<T>) -> TrailState<T> {
    TrailState {
        config,
        segments: Seq::empty(),
        last_position: Vector { x: nought(), y: nought() },
        last_velocity: Vector { x: nought(), y: nought() },
        time_since_last_segment: nought(),
        enabled: true,
    }
}

/// The configuration of a trail that was given none.
pub open spec fn plain_config<T: Scalar>() -> TrailConfig<T> {
    TrailConfig {
        max_segments: 20,
        segment_interval: T::ratio(5, 100),
        segment_life: T::ratio(1, 1),
        base_color: [T::ratio(1, 1), T::ratio(1, 1), T::ratio(1, 1), T::ratio(1, 1)],
        base_size: T::ratio(3, 1),
        fade_enabled: true,
        shrink_enabled: true,
        min_alpha: T::ratio(1, 10),
        fade_speed: T::ratio(2, 1),
        velocity_based: false,
        min_distance: T::ratio(5, 1),
    }
}

impl<T: Scalar> TrailSegment<T> {
    /// A segment with its whole life before it.
    pub fn new(position: Vector<T>, color: [T; 4], size: T, life: T) -> (segment: Self)
        ensures
            segment == laid(position, color, size, life),
    {
        TrailSegment { position, color, size, life, max_life: life }
    }

    /// Ages the segment, and says whether it still lives.
    pub fn update(&mut self, delta_time: T) -> (alive: bool)
        ensures
            *final(self) == aged(*old(self), delta_time),
            alive == lives(aged(*old(self), delta_time)),
    {
        self.life = self.life.minus(delta_time);
        T::from_ratio(0, 1).less_than(self.life)
    }

    /// The part of its life that the segment has left.
    pub fn normalized_life(&self) -> (part: T)
        ensures
            part == self.life.quotient(self.max_life),
    {
        self.life.over(self.max_life)
    }

    /// The alpha of the segment: the part of its life that it has left.
    pub fn alpha(&self) -> (alpha: T)
        ensures
            alpha == self.life.quotient(self.max_life),
    {
        self.normalized_life()
    }
}

impl<T: Scalar> Default for TrailConfig<T> {
    fn default() -> (config: Self)
        ensures
            config == plain_config::<T>(),
    {
        TrailConfig {
            max_segments: 20,
            segment_interval: T::from_ratio(5, 100),
            segment_life: T::from_ratio(1, 1),
            base_color: [
                T::from_ratio(1, 1),
                T::from_ratio(1, 1),
                T::from_ratio(1, 1),
                T::from_ratio(1, 1),
            ],
            base_size: T::from_ratio(3, 1),
            fade_enabled: true,
            shrink_enabled: true,
            min_alpha: T::from_ratio(1, 10),
            fade_speed: T::from_ratio(2, 1),
            velocity_based: false,
            min_distance: T::from_ratio(5, 1),
        }
    }
}

impl<T: Scalar> Trail<T> {
    /// A trail with the plain configuration.
    pub fn new() -> (trail: Self)
        ensures
            trail@ == unused(plain_config::<T>()),
    {
        Trail::with_config(TrailConfig::default())
    }

    /// A trail with a configuration of its own.
    pub fn with_config(config: TrailConfig<T>) -> (trail: Self)
        ensures
            trail@ == unused(config),
    {
        let origin = Vector { x: T::from_ratio(0, 1), y: T::from_ratio(0, 1) };
        Trail {
            config,
            segments: Vec::new(),
            last_position: origin,
            last_velocity: origin,
            time_since_last_segment: T::from_ratio(0, 1),
            enabled: true,
        }
    }

    /// Ages the segments and drops the dead ones, in their order.
    fn age(&mut self, delta_time: T)
        ensures
            final(self)@ == (TrailState {
                segments: survivors(old(self)@.segments, delta_time),
                ..old(self)@
            }),
    {
        let ghost all = self.segments@;
        let mut kept: Vec<TrailSegment<T>> = Vec::new();
        let mut i: usize = 0;
        while i < self.segments.len()
            invariant
                i <= all.len(),
                self.segments@ == all,
                kept@ == survivors(all.take(i as int), delta_time),
            decreases all.len() - i,
        {
            let mut segment = self.segments[i];
            proof {
                assert(all.take(i + 1).drop_last() =~= all.take(i as int));
            }
            if segment.update(delta_time) {
                kept.push(segment);
            }
            i = i + 1;
        }
        proof {
            assert(all.take(all.len() as int) =~= all);
        }
        self.segments = kept;
    }

    /// Moves the trail on by `delta_time`, for a thing now at `position` and
    /// moving at `velocity`.
    pub fn update(&mut self, delta_time: T, position: Vector<T>, velocity: Vector<T>)
        ensures
            final(self)@ == after_update(old(self)@, delta_time, position, velocity),
    {
        if !self.enabled {
            return ;
        }
        self.age(delta_time);
        self.time_since_last_segment = self.time_since_last_segment.plus(delta_time);
        let dx = position.x.minus(self.last_position.x);
        let dy = position.y.minus(self.last_position.y);
        let moved = dx.times(dx).plus(dy.times(dy)).sqrt();
        if self.config.segment_interval.at_most(self.time_since_last_segment)
            && self.config.min_distance.at_most(moved) {
            self.add_segment(position, velocity);
            self.time_since_last_segment = T::from_ratio(0, 1);
            self.last_position = position;
            self.last_velocity = velocity;
        }
    }

    /// Lays a new segment at the head of the trail.
    pub fn add_segment(&mut self, position: Vector<T>, velocity: Vector<T>)
        ensures
            final(self)@ == after_add(old(self)@, position, velocity),
    {
        let base = self.config.base_color;
        let mut color = base;
        let mut size = self.config.base_size;
        if self.config.velocity_based {
            let speed = velocity.x.times(velocity.x).plus(velocity.y.times(velocity.y)).sqrt();
            let factor = speed.over(T::from_ratio(500, 1)).min_of(T::from_ratio(1, 1));
            let alpha = base[3].times(
                T::from_ratio(1, 2).plus(factor.times(T::from_ratio(1, 2))),
            ).min_of(T::from_ratio(1, 1));
            color = [base[0], base[1], base[2], alpha];
            size = size.times(T::from_ratio(4, 5).plus(factor.times(T::from_ratio(2, 5))));
        }
        let segment = TrailSegment::new(position, color, size, self.config.segment_life);
        self.segments.insert(0, segment);
        let ghost full = self.segments@;
        proof {
            assert(full =~= seq![segment] + old(self).segments@);
        }
        while self.segments.len() > self.config.max_segments
            invariant
                self.config == old(self).config,
                self.last_position == old(self).last_position,
                self.last_velocity == old(self).last_velocity,
                self.time_since_last_segment == old(self).time_since_last_segment,
                self.enabled == old(self).enabled,
                self.segments@.len() <= full.len(),
                self.segments@ == full.take(self.segments@.len() as int),
                self.segments@.len() >= self.config.max_segments || self.segments@.len()
                    == full.len(),
            decreases self.segments@.len(),
        {
            let ghost before = self.segments@;
            self.segments.pop();
            proof {
                assert(self.segments@ =~= full.take(before.len() - 1));
            }
        }
        proof {
            assert(full.take(full.len() as int) =~= full);
        }
    }

    /// Takes every segment away.
    pub fn clear(&mut self)
        ensures
            final(self)@ == (TrailState { segments: Seq::empty(), ..old(self)@ }),
    {
        self.segments.clear();
    }

    /// Switches the trail on or off. One that is switched off loses its
    /// segments.
    pub fn set_enabled(&mut self, enabled: bool)
        ensures
            final(self)@ == after_switch(old(self)@, enabled),
    {
        self.enabled = enabled;
        if !enabled {
            self.clear();
        }
    }

    /// How many segments the trail has.
    pub fn segment_count(&self) -> (count: usize)
        ensures
            count == self@.segments.len(),
    {
        self.segments.len()
    }

    /// Whether the trail has a segment.
    pub fn has_segments(&self) -> (yes: bool)
        ensures
            yes == (self@.segments.len() > 0),
    {
        self.segments.len() > 0
    }

    /// The segments, the newest first.
    pub fn get_segments(&self) -> (segments: &Vec<TrailSegment<T>>)
        ensures
            segments@ == self@.segments,
    {
        &self.segments
    }
}

impl<T: Scalar> Default for Trail<T> {
    fn default() -> (trail: Self)
        ensures
            trail@ == unused(plain_config::<T>()),
    {
        Trail::new()
    }
}

/// How many segments the trails of `pairs` have together.
pub open spec fn segments_in<T>(pairs: Seq<(String, Trail<T>)>) -> nat
    decreases pairs.len(),
{
    if pairs.len() == 0 {
        0
    } else {
        segments_in(pairs.drop_last()) + pairs.last().1@.segments.len()
    }
}

/// The trails of a game, each under a name.
pub struct TrailSystem<T> {
    trails: StrMap<Trail<T>>,
}

impl<T> View for TrailSystem<T> {
    type V = Map<Seq<char>, Trail<T>>;

    closed spec fn view(&self) -> Map<Seq<char>, Trail<T>> {
        self.trails@
    }
}

impl<T: Scalar> TrailSystem<T> {
    /// No name holds two trails.
    pub closed spec fn wf(&self) -> bool {
        self.trails.wf()
    }

    /// The names and their trails, in the order in which the names were
    /// first used.
    pub closed spec fn pairs(&self) -> Seq<(String, Trail<T>)> {
        self.trails.pairs()
    }

    /// How many segments all the trails have together.
    pub open spec fn total(&self) -> nat {
        segments_in(self.pairs())
    }

    /// A system without trails.
    pub fn new() -> (system: Self)
        ensures
            system.wf(),
            system@ == Map::<Seq<char>, Trail<T>>::empty(),
            system.pairs().len() == 0,
    {
        TrailSystem { trails: StrMap::new() }
    }

    /// Puts a trail under a name, in place of the one that was there.
    pub fn add_trail(&mut self, id: &str, trail: Trail<T>)
        requires
            old(self).wf(),
        ensures
            final(self).wf(),
            final(self)@ == old(self)@.insert(id@, trail),
    {
        self.trails.insert(id, trail);
    }

    /// Puts a new trail with the plain configuration under a name, and
    /// hands it out to be changed.
    pub fn create_trail(&mut self, id: &str) -> (trail: &mut Trail<T>)
        requires
            old(self).wf(),
        ensures
            trail@ == unused(plain_config::<T>()),
            final(self).wf(),
            final(self)@ == old(self)@.insert(id@, *final(trail)),
    {
        self.create_trail_with_config(id, TrailConfig::default())
    }

    /// Puts a new trail with a configuration of its own under a name, and
    /// hands it out to be changed.
    pub fn create_trail_with_config(&mut self, id: &str, config: TrailConfig<T>) -> (trail: &mut Trail<
        T,
    >)
        requires
            old(self).wf(),
        ensures
            trail@ == unused(config),
            final(self).wf(),
            final(self)@ == old(self)@.insert(id@, *final(trail)),
    {
        self.trails.insert(id, Trail::with_config(config));
        let ghost held = self.trails@;
        let place = self.trails.position(id);
        let trail = self.trails.value_at_mut(place.unwrap());
        proof {
            assert(held.insert(id@, *final(trail)) =~= old(self)@.insert(id@, *final(trail)));
        }
        trail
    }

    /// The trail under a name.
    pub fn get_trail(&self, id: &str) -> (trail: Option<&Trail<T>>)
        requires
            self.wf(),
        ensures
            match trail {
                Some(t) => self@.dom().contains(id@) && self@[id@] == *t,
                None => !self@.dom().contains(id@),
            },
    {
        self.trails.get(id)
    }

    /// The trail under a name, to be changed.
    pub fn get_trail_mut(&mut self, id: &str) -> (trail: Option<&mut Trail<T>>)
        requires
            old(self).wf(),
        ensures
            final(self).wf(),
            match trail {
                Some(t) => old(self)@.dom().contains(id@) && *t == old(self)@[id@] && final(self)@
                    == old(self)@.insert(id@, *final(t)),
                None => !old(self)@.dom().contains(id@) && final(self)@ == old(self)@,
            },
    {
        match self.trails.position(id) {
            Some(place) => Some(self.trails.value_at_mut(place)),
            None => None,
        }
    }

    /// Moves the trail under a name on. Without such a trail nothing
    /// changes.
    pub fn update_trail(&mut self, id: &str, delta_time: T, position: Vector<T>, velocity: Vector<T>)
        requires
            old(self).wf(),
        ensures
            final(self).wf(),
            final(self)@.dom() == old(self)@.dom(),
            forall|name: Seq<char>|
                old(self)@.dom().contains(name) && name != id@ ==> #[trigger] final(self)@[name]
                    == old(self)@[name],
            old(self)@.dom().contains(id@) ==> final(self)@[id@]@ == after_update(
                old(self)@[id@]@,
                delta_time,
                position,
                velocity,
            ),
    {
        match self.trails.position(id) {
            Some(place) => {
                let trail = self.trails.value_at_mut(place);
                trail.update(delta_time, position, velocity);
                proof {
                    assert(final(self)@.dom() =~= old(self)@.dom());
                }
            },
            None => {},
        }
    }

    /// Does nothing: a trail moves on only when it is told where its thing
    /// is.
    pub fn update_all(&mut self, delta_time: T)
        ensures
            *final(self) == *old(self),
    {
    }

    /// Takes the trail under a name away.
    pub fn remove_trail(&mut self, id: &str)
        requires
            old(self).wf(),
        ensures
            final(self).wf(),
            final(self)@ == old(self)@.remove(id@),
    {
        self.trails.remove(id);
    }

    /// Takes every trail away.
    pub fn clear_all(&mut self)
        ensures
            final(self).wf(),
            final(self)@ == Map::<Seq<char>, Trail<T>>::empty(),
            final(self).pairs().len() == 0,
    {
        self.trails.clear();
    }

    /// The names of the trails, in the order in which they were first used.
    pub fn get_trail_ids(&self) -> (ids: Vec<String>)
        ensures
            ids@.len() == self.pairs().len(),
            forall|i: int| 0 <= i < ids@.len() ==> (#[trigger] ids@[i])@ == self.pairs()[i].0@,
    {
        let ids = self.trails.keys();
        proof {
            let names = Seq::new(ids@.len(), |i: int| ids@[i]@);
            assert(names.len() == self.pairs().len());
            assert forall|i: int| 0 <= i < ids@.len() implies (#[trigger] ids@[i])@
                == self.pairs()[i].0@ by {
                assert(names[i] == ids@[i]@);
            }
        }
        ids
    }

    /// Switches the trail under a name on or off. Without such a trail
    /// nothing changes.
    pub fn set_trail_enabled(&mut self, id: &str, enabled: bool)
        requires
            old(self).wf(),
        ensures
            final(self).wf(),
            final(self)@.dom() == old(self)@.dom(),
            forall|name: Seq<char>|
                old(self)@.dom().contains(name) && name != id@ ==> #[trigger] final(self)@[name]
                    == old(self)@[name],
            old(self)@.dom().contains(id@) ==> final(self)@[id@]@ == after_switch(
                old(self)@[id@]@,
                enabled,
            ),
    {
        match self.trails.position(id) {
            Some(place) => {
                let trail = self.trails.value_at_mut(place);
                trail.set_enabled(enabled);
                proof {
                    assert(final(self)@.dom() =~= old(self)@.dom());
                }
            },
            None => {},
        }
    }

    /// Whether the segments of all the trails can be counted in a `usize`.
    pub fn can_total(&self) -> (yes: bool)
        ensures
            yes == (self.total() <= usize::MAX),
    {
        let entries = self.trails.entries();
        let mut sum: usize = 0;
        let mut i: usize = 0;
        while i < entries.len()
            invariant
                i <= entries@.len(),
                entries@ == self.pairs(),
                sum == segments_in(entries@.take(i as int)),
            decreases entries@.len() - i,
        {
            let count = entries[i].1.segment_count();
            proof {
                assert(entries@.take(i + 1).drop_last() =~= entries@.take(i as int));
                lemma_segments_grow(entries@, i + 1);
            }
            if count > usize::MAX - sum {
                return false;
            }
            sum = sum + count;
            i = i + 1;
        }
        proof {
            assert(entries@.take(entries@.len() as int) =~= entries@);
        }
        true
    }

    /// How many segments all the trails have together.
    pub fn total_segments(&self) -> (count: usize)
        requires
            self.total() <= usize::MAX,
        ensures
            count == self.total(),
    {
        let entries = self.trails.entries();
        let mut sum: usize = 0;
        let mut i: usize = 0;
        while i < entries.len()
            invariant
                i <= entries@.len(),
                entries@ == self.pairs(),
                segments_in(entries@) <= usize::MAX,
                sum == segments_in(entries@.take(i as int)),
            decreases entries@.len() - i,
        {
            let count = entries[i].1.segment_count();
            proof {
                assert(entries@.take(i + 1).drop_last() =~= entries@.take(i as int));
                lemma_segments_grow(entries@, i + 1);
            }
            sum = sum + count;
            i = i + 1;
        }
        proof {
            assert(entries@.take(entries@.len() as int) =~= entries@);
        }
        sum
    }
}

impl<T: Scalar> Default for TrailSystem<T> {
    fn default() -> (system: Self)
        ensures
            system.wf(),
            system@ == Map::<Seq<char>, Trail<T>>::empty(),
    {
        TrailSystem::new()
    }
}

/// The first `n` trails have no more segments than all of them.
proof fn lemma_segments_grow<T>(pairs: Seq<(String, Trail<T>)>, n: int)
    requires
        0 <= n <= pairs.len(),
    ensures
        segments_in(pairs.take(n)) <= segments_in(pairs),
    decreases pairs.len(),
{
    if n == pairs.len() {
        assert(pairs.take(n) =~= pairs);
    } else {
        lemma_segments_grow(pairs.drop_last(), n);
        assert(pairs.drop_last().take(n) =~= pairs.take(n));
    }
}

/// Laying a segment never leaves a trail with more segments than its
/// configuration allows, and an update never adds more than one.
pub proof fn lemma_trail_is_bounded<T: Scalar>(
    trail: TrailState<T>,
    position: Vector<T>,
    velocity: Vector<T>,
)
    ensures
        after_add(trail, position, velocity).segments.len() <= trail.config.max_segments,
        after_add(trail, position, velocity).segments.len() <= trail.segments.len() + 1,
{
}

/// The segments that survive are no more than there were, and each of them
/// has life left.
pub proof fn lemma_survivors_live<T: Scalar>(segments: Seq<TrailSegment<T>>, delta_time: T)
    ensures
        survivors(segments, delta_time).len() <= segments.len(),
        forall|i: int|
            0 <= i < survivors(segments, delta_time).len() ==> lives(
                #[trigger] survivors(segments, delta_time)[i],
            ),
    decreases segments.len(),
{
    if segments.len() > 0 {
        lemma_survivors_live(segments.drop_last(), delta_time);
    }
}

} // verus!
