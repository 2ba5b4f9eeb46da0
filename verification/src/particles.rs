//! Particles: small things that fly, fade and shrink until their life has
//! run out, and the emitters that make them.
//!
//! How a new particle looks is the caller's: an emitter asks a maker for
//! each particle and decides when to ask and how often.

use vstd::prelude::*;
use crate::num::Scalar;
use crate::physics::{advance, advanced, Vector};

verus! {

/// A particle.
#[derive(Debug, Clone, Copy, PartialEq)]
pub struct Particle<T> {
    pub position: Vector<T>,
    pub velocity: Vector<T>,
    /// What gravity, wind and the like do to the velocity.
    pub acceleration: Vector<T>,
    /// The life that is left.
    pub life: T,
    /// The life that the particle began with.
    pub max_life: T,
    pub size: T,
    pub initial_size: T,
    /// Red, green, blue, alpha.
    pub color: [T; 4],
    pub initial_color: [T; 4],
    /// The angle of the particle, in radians.
    pub rotation: T,
    /// By how many radians a second the particle turns.
    pub rotation_speed: T,
    /// Which of the game's textures the particle shows.
    pub texture_index: usize,
    /// A number of the game's own.
    pub user_data: T,
}

/// How an emitter makes its particles.
#[derive(Debug, Clone, Copy, PartialEq)]
pub struct ParticleEmitterConfig<T> {
    /// Where the particles begin.
    pub position: Vector<T>,
    /// The direction in which they fly.
    pub direction: Vector<T>,
    /// The angle, in radians, over which the directions spread.
    pub spread: T,
    /// How many particles a second.
    pub rate: T,
    pub speed: T,
    pub speed_variation: T,
    pub size: T,
    pub size_variation: T,
    pub life: T,
    pub life_variation: T,
    pub color: [T; 4],
    pub color_variation: [T; 4],
    pub gravity: Vector<T>,
    pub rotation_speed: T,
    pub rotation_variation: T,
    pub texture_index: usize,
    /// Whether the emitter makes particles.
    pub active: bool,
    /// The most particles the emitter holds.
    pub max_particles: usize,
}

/// The number nought.
pub open spec fn nought<T: Scalar>() -> T {
    T::ratio(0, 1)
}

/// The number one.
pub open spec fn one<T: Scalar>() -> T {
    T::ratio(1, 1)
}

/// Half a turn in radians, as near as single precision has it.
pub open spec fn half_turn<T: Scalar>() -> T {
    T::ratio(13176795, 4194304)
}

/// A particle as it is made: at rest at the origin, white, of size one,
/// with a life of one.
pub open spec fn plain_particle<T: Scalar>() -> Particle<T> {
    Particle {
        position: Vector { x: nought(), y: nought() },
        velocity: Vector { x: nought(), y: nought() },
        acceleration: Vector { x: nought(), y: nought() },
        life: one(),
        max_life: one(),
        size: one(),
        initial_size: one(),
        color: [one(), one(), one(), one()],
        initial_color: [one(), one(), one(), one()],
        rotation: nought(),
        rotation_speed: nought(),
        texture_index: 0,
        user_data: nought(),
    }
}

/// The life that is left of `life` after `delta_time`: never less than
/// nought.
pub open spec fn life_after<T: Scalar>(life: T, delta_time: T) -> T {
    if life.difference(delta_time).below(nought()) {
        nought()
    } else {
        life.difference(delta_time)
    }
}

/// A particle after `delta_time`: the velocity gains what the acceleration
/// gives it, the position moves by the new velocity, the particle turns,
/// and its size and alpha shrink with the part of its life that is left.
pub open spec fn particle_after<T: Scalar>(particle: Particle<T>, delta_time: T) -> Particle<T> {
    let velocity = advanced(particle.velocity, particle.acceleration, delta_time);
    let life = life_after(particle.life, delta_time);
    let left = life.quotient(particle.max_life);
    Particle {
        position: advanced(particle.position, velocity, delta_time),
        velocity,
        rotation: particle.rotation.sum(particle.rotation_speed.product(delta_time)),
        life,
        size: particle.initial_size.product(left),
        color: [
            particle.color[0],
            particle.color[1],
            particle.color[2],
            particle.initial_color[3].product(left),
        ],
        ..particle
    }
}

/// The configuration of an emitter that was given none: upwards over an
/// eighth of a turn, ten white particles a second that fall.
pub open spec fn plain_emitter<T: Scalar>() -> ParticleEmitterConfig<T> {
    ParticleEmitterConfig {
        position: Vector { x: nought(), y: nought() },
        direction: Vector { x: nought(), y: T::ratio(-1i32, 1) },
        spread: half_turn::<T>().quotient(T::ratio(4, 1)),
        rate: T::ratio(10, 1),
        speed: T::ratio(100, 1),
        speed_variation: T::ratio(20, 1),
        size: T::ratio(5, 1),
        size_variation: T::ratio(2, 1),
        life: T::ratio(2, 1),
        life_variation: T::ratio(1, 2),
        color: [one(), one(), one(), one()],
        color_variation: [T::ratio(1, 10), T::ratio(1, 10), T::ratio(1, 10), nought()],
        gravity: Vector { x: nought(), y: T::ratio(100, 1) },
        rotation_speed: nought(),
        rotation_variation: nought(),
        texture_index: 0,
        active: true,
        max_particles: 100,
    }
}

/// Half a turn in radians.
pub fn pi<T: Scalar>() -> (angle: T)
    ensures
        angle == half_turn::<T>(),
{
    T::from_ratio(13176795, 4194304)
}

impl<T: Scalar> Particle<T> {
    /// A particle at rest at the origin, white, of size one, with a life of
    /// one.
    pub fn new() -> (particle: Self)
        ensures
            particle == plain_particle::<T>(),
    {
        let zero = T::from_ratio(0, 1);
        let unit = T::from_ratio(1, 1);
        Particle {
            position: Vector { x: zero, y: zero },
            velocity: Vector { x: zero, y: zero },
            acceleration: Vector { x: zero, y: zero },
            life: unit,
            max_life: unit,
            size: unit,
            initial_size: unit,
            color: [unit, unit, unit, unit],
            initial_color: [unit, unit, unit, unit],
            rotation: zero,
            rotation_speed: zero,
            texture_index: 0,
            user_data: zero,
        }
    }

    /// Whether the particle has life left.
    pub fn is_alive(&self) -> (alive: bool)
        ensures
            alive == nought::<T>().below(self.life),
    {
        T::from_ratio(0, 1).less_than(self.life)
    }

    /// The part of its life that the particle has left.
    pub fn normalized_life(&self) -> (part: T)
        ensures
            part == self.life.quotient(self.max_life),
    {
        self.life.over(self.max_life)
    }

    /// Moves the particle on by `delta_time`.
    pub fn update(&mut self, delta_time: T)
        ensures
            *final(self) == particle_after(*old(self), delta_time),
    {
        let acceleration = self.acceleration;
        advance(&mut self.velocity, &acceleration, delta_time);
        let velocity = self.velocity;
        advance(&mut self.position, &velocity, delta_time);
        self.rotation = self.rotation.plus(self.rotation_speed.times(delta_time));
        self.life = self.life.minus(delta_time);
        if self.life.less_than(T::from_ratio(0, 1)) {
            self.life = T::from_ratio(0, 1);
        }
        let left = self.normalized_life();
        self.size = self.initial_size.times(left);
        let color = self.color;
        self.color = [color[0], color[1], color[2], self.initial_color[3].times(left)];
    }
}

impl<T: Scalar> Default for ParticleEmitterConfig<T> {
    fn default() -> (config: Self)
        ensures
            config == plain_emitter::<T>(),
    {
        let zero = T::from_ratio(0, 1);
        let unit = T::from_ratio(1, 1);
        let tenth = T::from_ratio(1, 10);
        ParticleEmitterConfig {
            position: Vector { x: zero, y: zero },
            direction: Vector { x: zero, y: T::from_ratio(-1, 1) },
            spread: pi::<T>().over(T::from_ratio(4, 1)),
            rate: T::from_ratio(10, 1),
            speed: T::from_ratio(100, 1),
            speed_variation: T::from_ratio(20, 1),
            size: T::from_ratio(5, 1),
            size_variation: T::from_ratio(2, 1),
            life: T::from_ratio(2, 1),
            life_variation: T::from_ratio(1, 2),
            color: [unit, unit, unit, unit],
            color_variation: [tenth, tenth, tenth, zero],
            gravity: Vector { x: zero, y: T::from_ratio(100, 1) },
            rotation_speed: zero,
            rotation_variation: zero,
            texture_index: 0,
            active: true,
            max_particles: 100,
        }
    }
}

/// A particle never has less than no life left, whatever the time that
/// passes, where the numbers are ordered as numbers are.
pub proof fn lemma_life_is_not_negative<T: Scalar>(particle: Particle<T>, delta_time: T)
    requires
        !nought::<T>().below(nought::<T>()),
    ensures
        !particle_after(particle, delta_time).life.below(nought()),
{
}

/// An emitter: it ages its particles and makes new ones at its rate.
#[derive(Debug, Clone)]
pub struct ParticleEmitter<T> {
    pub config: ParticleEmitterConfig<T>,
    /// The time since the last particle was made.
    pub emission_timer: T,
    pub particles: Vec<Particle<T>>,
}

/// What an emitter holds, with its particles as a sequence.
pub struct EmitterState<T> {
    pub config: ParticleEmitterConfig<T>,
    pub emission_timer: T,
    pub particles: Seq<Particle<T>>,
}

impl<T> View for ParticleEmitter<T> {
    type V = EmitterState<T>;

    open spec fn view(&self) -> EmitterState<T> {
        EmitterState {
            config: self.config,
            emission_timer: self.emission_timer,
            particles: self.particles@,
        }
    }
}

/// An emitter that has made nothing yet.
pub open spec fn unused_emitter<T: Scalar>(config: ParticleEmitterConfig<T>) -> EmitterState<T> {
    EmitterState { config, emission_timer: nought(), particles: Seq::empty() }
}

/// The particles that still live after `delta_time`, moved on, in their
/// order.
pub open spec fn moved_on<T: Scalar>(particles: Seq<Particle<T>>, delta_time: T) -> Seq<Particle<T>>
    decreases particles.len(),
{
    if particles.len() == 0 {
        Seq::empty()
    } else if nought::<T>().below(particle_after(particles.last(), delta_time).life) {
        moved_on(particles.drop_last(), delta_time).push(particle_after(particles.last(), delta_time))
    } else {
        moved_on(particles.drop_last(), delta_time)
    }
}

/// How many particles an emitter makes that has waited for `timer`, makes
/// one in every `interval`, and has room for `room` more.
pub open spec fn emissions<T: Scalar>(timer: T, interval: T, room: nat) -> nat
    decreases room,
{
    if room > 0 && interval.within(timer) {
        1 + emissions(timer.difference(interval), interval, (room - 1) as nat)
    } else {
        0
    }
}

/// What is left of the time that an emitter has waited once it has made its
/// particles.
pub open spec fn timer_after<T: Scalar>(timer: T, interval: T, room: nat) -> T
    decreases room,
{
    if room > 0 && interval.within(timer) {
        timer_after(timer.difference(interval), interval, (room - 1) as nat)
    } else {
        timer
    }
}

/// For how many more particles there is room beside `held` where `most`
/// are allowed.
pub open spec fn room_for(held: nat, most: nat) -> nat {
    if held < most {
        (most - held) as nat
    } else {
        0
    }
}

/// Whether each of `made` is a particle that the maker makes for `config`.
pub open spec fn made_by<T, F: Fn(ParticleEmitterConfig<T>) -> Particle<T>>(
    make: &F,
    config: ParticleEmitterConfig<T>,
    made: Seq<Particle<T>>,
) -> bool {
    forall|i: int| 0 <= i < made.len() ==> make.ensures((config,), #[trigger] made[i])
}

/// Whether `after` holds the particles of `before` and then `count` more
/// that the maker made, and is the same emitter otherwise but for its
/// timer.
pub open spec fn grown_by<T, F: Fn(ParticleEmitterConfig<T>) -> Particle<T>>(
    before: Seq<Particle<T>>,
    after: EmitterState<T>,
    count: nat,
    make: &F,
) -> bool {
    &&& after.particles.len() == before.len() + count
    &&& after.particles.take(before.len() as int) == before
    &&& made_by(make, after.config, after.particles.skip(before.len() as int))
}

/// Whether `after` is the emitter `before` after `delta_time`: its
/// particles have moved on, the dead have left, and where it is active it
/// has made a particle for each interval that has passed, as far as it has
/// room.
pub open spec fn emitter_step<T: Scalar, F: Fn(ParticleEmitterConfig<T>) -> Particle<T>>(
    before: EmitterState<T>,
    after: EmitterState<T>,
    delta_time: T,
    make: &F,
) -> bool {
    let kept = moved_on(before.particles, delta_time);
    let waited = before.emission_timer.sum(delta_time);
    let interval = one::<T>().quotient(before.config.rate);
    let room = room_for(kept.len(), before.config.max_particles as nat);
    &&& after.config == before.config
    &&& if before.config.active {
        &&& grown_by(kept, after, emissions(waited, interval, room), make)
        &&& after.emission_timer == timer_after(waited, interval, room)
    } else {
        &&& after.particles == kept
        &&& after.emission_timer == before.emission_timer
    }
}

/// Whether `after` is the emitter `before` after a burst of `count`
/// particles: as many of them as it has room for.
pub open spec fn emitter_burst<T: Scalar, F: Fn(ParticleEmitterConfig<T>) -> Particle<T>>(
    before: EmitterState<T>,
    after: EmitterState<T>,
    count: nat,
    make: &F,
) -> bool {
    let room = room_for(before.particles.len(), before.config.max_particles as nat);
    &&& after.config == before.config
    &&& after.emission_timer == before.emission_timer
    &&& grown_by(
        before.particles,
        after,
        if count < room {
            count
        } else {
            room
        },
        make,
    )
}

impl<T: Scalar> ParticleEmitter<T> {
    /// An emitter with the plain configuration.
    pub fn new() -> (emitter: Self)
        ensures
            emitter@ == unused_emitter(plain_emitter::<T>()),
    {
        ParticleEmitter::with_config(ParticleEmitterConfig::default())
    }

    /// An emitter with a configuration of its own.
    pub fn with_config(config: ParticleEmitterConfig<T>) -> (emitter: Self)
        ensures
            emitter@ == unused_emitter(config),
    {
        ParticleEmitter { config, emission_timer: T::from_ratio(0, 1), particles: Vec::new() }
    }

    /// Moves the particles on and drops the dead ones, in their order.
    fn age(&mut self, delta_time: T)
        ensures
            final(self).particles@ == moved_on(old(self).particles@, delta_time),
            final(self).config == old(self).config,
            final(self).emission_timer == old(self).emission_timer,
    {
        let ghost all = self.particles@;
        let mut kept: Vec<Particle<T>> = Vec::new();
        let mut i: usize = 0;
        while i < self.particles.len()
            invariant
                i <= all.len(),
                self.particles@ == all,
                self.config == old(self).config,
                self.emission_timer == old(self).emission_timer,
                kept@ == moved_on(all.take(i as int), delta_time),
            decreases all.len() - i,
        {
            let mut particle = self.particles[i];
            proof {
                assert(all.take(i + 1).drop_last() =~= all.take(i as int));
            }
            particle.update(delta_time);
            if particle.is_alive() {
                kept.push(particle);
            }
            i = i + 1;
        }
        proof {
            assert(all.take(all.len() as int) =~= all);
        }
        self.particles = kept;
    }

    /// Moves the emitter on by `delta_time`: the particles age, and an
    /// active emitter asks the maker for a particle for each interval that
    /// has passed, as far as it has room.
    pub fn update<F: Fn(ParticleEmitterConfig<T>) -> Particle<T>>(&mut self, delta_time: T, make: &F)
        requires
            forall|config: ParticleEmitterConfig<T>| make.requires((config,)),
        ensures
            emitter_step(old(self)@, final(self)@, delta_time, make),
    {
        self.age(delta_time);
        if self.config.active {
            let ghost kept = self.particles@;
            let ghost room = room_for(kept.len(), self.config.max_particles as nat);
            self.emission_timer = self.emission_timer.plus(delta_time);
            let ghost waited = self.emission_timer;
            let interval = T::from_ratio(1, 1).over(self.config.rate);
            let ghost mut made: nat = 0;
            while interval.at_most(self.emission_timer) && self.particles.len()
                < self.config.max_particles
                invariant
                    forall|config: ParticleEmitterConfig<T>| make.requires((config,)),
                    self.config == old(self).config,
                    made <= room,
                    self.particles@.len() == kept.len() + made,
                    self.particles@.take(kept.len() as int) == kept,
                    made_by(make, self.config, self.particles@.skip(kept.len() as int)),
                    room == room_for(kept.len(), self.config.max_particles as nat),
                    emissions(waited, interval, room) == made + emissions(
                        self.emission_timer,
                        interval,
                        (room - made) as nat,
                    ),
                    timer_after(waited, interval, room) == timer_after(
                        self.emission_timer,
                        interval,
                        (room - made) as nat,
                    ),
                decreases self.config.max_particles - self.particles@.len(),
            {
                let ghost held = self.particles@;
                self.emit_particle(make);
                self.emission_timer = self.emission_timer.minus(interval);
                proof {
                    made = made + 1;
                    assert(self.particles@.take(kept.len() as int) =~= held.take(kept.len() as int));
                    assert forall|i: int|
                        0 <= i < self.particles@.skip(kept.len() as int).len() implies make.ensures(
                        (self.config,),
                        #[trigger] self.particles@.skip(kept.len() as int)[i],
                    ) by {
                        if i < held.len() - kept.len() {
                            assert(self.particles@.skip(kept.len() as int)[i] == held.skip(
                                kept.len() as int,
                            )[i]);
                        }
                    }
                }
            }
        }
    }

    /// Asks the maker for one particle and takes it in.
    pub fn emit_particle<F: Fn(ParticleEmitterConfig<T>) -> Particle<T>>(&mut self, make: &F)
        requires
            make.requires((old(self).config,)),
        ensures
            final(self).config == old(self).config,
            final(self).emission_timer == old(self).emission_timer,
            final(self).particles@.len() == old(self).particles@.len() + 1,
            final(self).particles@.drop_last() == old(self).particles@,
            make.ensures((old(self).config,), final(self).particles@.last()),
    {
        let particle = make(self.config);
        self.particles.push(particle);
        proof {
            assert(self.particles@.drop_last() =~= old(self).particles@);
        }
    }

    /// Makes up to `count` particles at once, as far as there is room.
    pub fn burst<F: Fn(ParticleEmitterConfig<T>) -> Particle<T>>(&mut self, count: usize, make: &F)
        requires
            forall|config: ParticleEmitterConfig<T>| make.requires((config,)),
        ensures
            emitter_burst(old(self)@, final(self)@, count as nat, make),
    {
        let ghost before = self.particles@;
        let ghost room = room_for(before.len(), self.config.max_particles as nat);
        let mut n: usize = 0;
        while n < count
            invariant
                n <= count,
                forall|config: ParticleEmitterConfig<T>| make.requires((config,)),
                self.config == old(self).config,
                self.emission_timer == old(self).emission_timer,
                room == room_for(before.len(), self.config.max_particles as nat),
                self.particles@.len() == before.len() + (if n < room {
                    n as nat
                } else {
                    room
                }),
                self.particles@.take(before.len() as int) == before,
                made_by(make, self.config, self.particles@.skip(before.len() as int)),
            decreases count - n,
        {
            if self.particles.len() < self.config.max_particles {
                let ghost held = self.particles@;
                self.emit_particle(make);
                proof {
                    assert(self.particles@.take(before.len() as int) =~= held.take(
                        before.len() as int,
                    ));
                    assert forall|i: int|
                        0 <= i < self.particles@.skip(before.len() as int).len() implies make.ensures(
                        (self.config,),
                        #[trigger] self.particles@.skip(before.len() as int)[i],
                    ) by {
                        if i < held.len() - before.len() {
                            assert(self.particles@.skip(before.len() as int)[i] == held.skip(
                                before.len() as int,
                            )[i]);
                        }
                    }
                }
            }
            n = n + 1;
        }
    }

    /// Takes every particle away.
    pub fn clear(&mut self)
        ensures
            final(self).particles@.len() == 0,
            final(self).config == old(self).config,
            final(self).emission_timer == old(self).emission_timer,
    {
        self.particles.clear();
    }

    /// How many particles the emitter holds.
    pub fn particle_count(&self) -> (count: usize)
        ensures
            count == self.particles@.len(),
    {
        self.particles.len()
    }

    /// Whether the emitter holds a particle.
    pub fn has_particles(&self) -> (yes: bool)
        ensures
            yes == (self.particles@.len() > 0),
    {
        self.particles.len() > 0
    }
}

/// The emitters of a game.
pub struct ParticleSystem<T> {
    emitters: Vec<ParticleEmitter<T>>,
    /// The gravity of the emitters that have none of their own.
    global_gravity: Vector<T>,
    /// How fast time passes for the particles.
    time_scale: T,
}

/// Whether a number is nought.
pub open spec fn is_nought<T: Scalar>(x: T) -> bool {
    x.within(nought()) && nought::<T>().within(x)
}

/// An emitter with the gravity of the system where it has none of its
/// own.
pub open spec fn readied<T: Scalar>(emitter: EmitterState<T>, gravity: Vector<T>) -> EmitterState<T> {
    if is_nought(emitter.config.gravity.x) && is_nought(emitter.config.gravity.y) {
        EmitterState { config: ParticleEmitterConfig { gravity, ..emitter.config }, ..emitter }
    } else {
        emitter
    }
}

/// Whether an emitter stays in the system: it is active or holds a
/// particle.
pub open spec fn lasts<T>(emitter: ParticleEmitter<T>) -> bool {
    emitter.config.active || emitter.particles@.len() > 0
}

/// The emitters that stay, in their order.
pub open spec fn lasting<T>(emitters: Seq<ParticleEmitter<T>>) -> Seq<ParticleEmitter<T>>
    decreases emitters.len(),
{
    if emitters.len() == 0 {
        Seq::empty()
    } else if lasts(emitters.last()) {
        lasting(emitters.drop_last()).push(emitters.last())
    } else {
        lasting(emitters.drop_last())
    }
}

/// Whether each of `stepped` is the emitter at its place in `before`
/// after `delta_time`, with the gravity of the system where it had none.
pub open spec fn stepped_by<T: Scalar, F: Fn(ParticleEmitterConfig<T>) -> Particle<T>>(
    before: Seq<ParticleEmitter<T>>,
    stepped: Seq<ParticleEmitter<T>>,
    gravity: Vector<T>,
    delta_time: T,
    make: &F,
) -> bool {
    &&& stepped.len() == before.len()
    &&& forall|i: int|
        0 <= i < before.len() ==> emitter_step(
            readied(before[i]@, gravity),
            (#[trigger] stepped[i])@,
            delta_time,
            make,
        )
}

/// Whether `after` are the emitters `before` after `delta_time`: each has
/// moved on, and those that are neither active nor hold a particle have
/// left.
pub open spec fn system_step<T: Scalar, F: Fn(ParticleEmitterConfig<T>) -> Particle<T>>(
    before: Seq<ParticleEmitter<T>>,
    after: Seq<ParticleEmitter<T>>,
    gravity: Vector<T>,
    delta_time: T,
    make: &F,
) -> bool {
    exists|stepped: Seq<ParticleEmitter<T>>|
        stepped_by(before, stepped, gravity, delta_time, make) && after == lasting(stepped)
}

/// How many particles the emitters hold together.
pub open spec fn particles_in<T>(emitters: Seq<ParticleEmitter<T>>) -> nat
    decreases emitters.len(),
{
    if emitters.len() == 0 {
        0
    } else {
        particles_in(emitters.drop_last()) + emitters.last().particles@.len()
    }
}

/// The emitter of an explosion of an intensity: all round, in orange, at
/// once and then no more.
pub open spec fn explosion_config<T: Scalar>(position: Vector<T>, intensity: T) -> ParticleEmitterConfig<
    T,
> {
    ParticleEmitterConfig {
        position,
        direction: Vector { x: nought(), y: nought() },
        spread: half_turn::<T>().product(T::ratio(2, 1)),
        rate: nought(),
        speed: T::ratio(50, 1).product(intensity),
        speed_variation: T::ratio(20, 1).product(intensity),
        size: T::ratio(3, 1).product(intensity),
        size_variation: one(),
        life: one::<T>().product(intensity),
        life_variation: T::ratio(3, 10),
        color: [one(), T::ratio(1, 2), nought(), one()],
        color_variation: [T::ratio(1, 5), T::ratio(1, 5), nought(), nought()],
        gravity: Vector { x: nought(), y: T::ratio(50, 1) },
        rotation_speed: T::ratio(5, 1),
        rotation_variation: T::ratio(2, 1),
        texture_index: 0,
        active: false,
        max_particles: 50,
    }
}

/// How many particles an explosion of an intensity begins with: twenty
/// times the intensity.
pub open spec fn explosion_size<T: Scalar>(intensity: T) -> nat {
    T::ratio(20, 1).product(intensity).whole() as nat
}

/// The speed of a velocity.
pub open spec fn speed<T: Scalar>(velocity: Vector<T>) -> T {
    velocity.x.product(velocity.x).sum(velocity.y.product(velocity.y)).root()
}

/// The emitter of a trail behind a thing: light blue, narrow, against the
/// way the thing moves, without gravity.
pub open spec fn trail_config<T: Scalar>(position: Vector<T>, velocity: Vector<T>) -> ParticleEmitterConfig<
    T,
> {
    ParticleEmitterConfig {
        position,
        direction: Vector {
            x: velocity.x.quotient(speed(velocity)).product(T::ratio(-1i32, 1)),
            y: velocity.y.quotient(speed(velocity)).product(T::ratio(-1i32, 1)),
        },
        spread: half_turn::<T>().quotient(T::ratio(6, 1)),
        rate: T::ratio(20, 1),
        speed: speed(velocity).product(T::ratio(1, 2)),
        speed_variation: T::ratio(10, 1),
        size: T::ratio(2, 1),
        size_variation: one(),
        life: T::ratio(1, 2),
        life_variation: T::ratio(1, 5),
        color: [T::ratio(1, 2), T::ratio(1, 2), one(), T::ratio(4, 5)],
        color_variation: [T::ratio(1, 10), T::ratio(1, 10), T::ratio(1, 10), nought()],
        gravity: Vector { x: nought(), y: nought() },
        rotation_speed: nought(),
        rotation_variation: nought(),
        texture_index: 0,
        active: true,
        max_particles: 20,
    }
}

/// The emitter of sparks: yellow, fast, and quick to fall.
pub open spec fn sparks_config<T: Scalar>(position: Vector<T>, direction: Vector<T>) -> ParticleEmitterConfig<
    T,
> {
    ParticleEmitterConfig {
        position,
        direction,
        spread: half_turn::<T>().quotient(T::ratio(3, 1)),
        rate: T::ratio(30, 1),
        speed: T::ratio(80, 1),
        speed_variation: T::ratio(30, 1),
        size: T::ratio(3, 2),
        size_variation: T::ratio(1, 2),
        life: T::ratio(4, 5),
        life_variation: T::ratio(3, 10),
        color: [one(), one(), nought(), one()],
        color_variation: [nought(), nought(), nought(), nought()],
        gravity: Vector { x: nought(), y: T::ratio(200, 1) },
        rotation_speed: T::ratio(10, 1),
        rotation_variation: T::ratio(5, 1),
        texture_index: 0,
        active: true,
        max_particles: 30,
    }
}

/// Whether a number is nought.
fn is_zero<T: Scalar>(x: T) -> (yes: bool)
    ensures
        yes == is_nought(x),
{
    x.at_most(T::from_ratio(0, 1)) && T::from_ratio(0, 1).at_most(x)
}

impl<T: Scalar> ParticleSystem<T> {
    /// The emitters, in the order in which they came.
    pub closed spec fn emitters(&self) -> Seq<ParticleEmitter<T>> {
        self.emitters@
    }

    /// The gravity of the emitters that have none of their own.
    pub closed spec fn gravity(&self) -> Vector<T> {
        self.global_gravity
    }

    /// How fast time passes for the particles.
    pub closed spec fn scale(&self) -> T {
        self.time_scale
    }

    /// How many particles all the emitters hold together.
    pub open spec fn total(&self) -> nat {
        particles_in(self.emitters())
    }

    /// A system without emitters, where things fall at a hundred and time
    /// passes as it does.
    pub fn new() -> (system: Self)
        ensures
            system.emitters().len() == 0,
            system.gravity() == (Vector { x: nought::<T>(), y: T::ratio(100, 1) }),
            system.scale() == one::<T>(),
    {
        ParticleSystem {
            emitters: Vec::new(),
            global_gravity: Vector { x: T::from_ratio(0, 1), y: T::from_ratio(100, 1) },
            time_scale: T::from_ratio(1, 1),
        }
    }

    /// Takes an emitter in and says at which place it stands.
    pub fn add_emitter(&mut self, emitter: ParticleEmitter<T>) -> (index: usize)
        ensures
            index == old(self).emitters().len(),
            final(self).emitters() == old(self).emitters().push(emitter),
            final(self).gravity() == old(self).gravity(),
            final(self).scale() == old(self).scale(),
    {
        self.emitters.push(emitter);
        self.emitters.len() - 1
    }

    /// Takes the emitter at a place out, where there is one.
    pub fn remove_emitter(&mut self, index: usize)
        ensures
            final(self).emitters() == (if index < old(self).emitters().len() {
                old(self).emitters().remove(index as int)
            } else {
                old(self).emitters()
            }),
            final(self).gravity() == old(self).gravity(),
            final(self).scale() == old(self).scale(),
    {
        if index < self.emitters.len() {
            self.emitters.remove(index);
        }
    }

    /// The emitter at a place, to be changed.
    pub fn get_emitter_mut(&mut self, index: usize) -> (emitter: Option<&mut ParticleEmitter<T>>)
        ensures
            final(self).gravity() == old(self).gravity(),
            final(self).scale() == old(self).scale(),
            match emitter {
                Some(found) => index < old(self).emitters().len() && *found == old(
                    self,
                ).emitters()[index as int] && final(self).emitters() == old(self).emitters().update(
                    index as int,
                    *final(found),
                ),
                None => index >= old(self).emitters().len() && final(self).emitters() == old(
                    self,
                ).emitters(),
            },
    {
        if index < self.emitters.len() {
            Some(&mut self.emitters[index])
        } else {
            None
        }
    }

    /// The emitter at a place.
    pub fn get_emitter(&self, index: usize) -> (emitter: Option<&ParticleEmitter<T>>)
        ensures
            match emitter {
                Some(found) => index < self.emitters().len() && *found == self.emitters()[index as int],
                None => index >= self.emitters().len(),
            },
    {
        if index < self.emitters.len() {
            Some(&self.emitters[index])
        } else {
            None
        }
    }

    /// Moves every emitter on by `delta_time` at the time scale of the
    /// system, gives the gravity of the system to those that have none,
    /// and drops the emitters that are neither active nor hold a particle.
    pub fn update<F: Fn(ParticleEmitterConfig<T>) -> Particle<T>>(&mut self, delta_time: T, make: &F)
        requires
            forall|config: ParticleEmitterConfig<T>| make.requires((config,)),
        ensures
            system_step(
                old(self).emitters(),
                final(self).emitters(),
                old(self).gravity(),
                delta_time.product(old(self).scale()),
                make,
            ),
            final(self).gravity() == old(self).gravity(),
            final(self).scale() == old(self).scale(),
    {
        let scaled = delta_time.times(self.time_scale);
        let gravity = self.global_gravity;
        let ghost all = self.emitters@;
        let mut i: usize = 0;
        while i < self.emitters.len()
            invariant
                forall|config: ParticleEmitterConfig<T>| make.requires((config,)),
                self.global_gravity == old(self).global_gravity,
                self.time_scale == old(self).time_scale,
                i <= all.len(),
                self.emitters@.len() == all.len(),
                forall|k: int|
                    0 <= k < i ==> emitter_step(
                        readied(all[k]@, gravity),
                        (#[trigger] self.emitters@[k])@,
                        scaled,
                        make,
                    ),
                forall|k: int| i <= k < all.len() ==> #[trigger] self.emitters@[k] == all[k],
            decreases all.len() - i,
        {
            let emitter = &mut self.emitters[i];
            if is_zero(emitter.config.gravity.x) && is_zero(emitter.config.gravity.y) {
                emitter.config.gravity = gravity;
            }
            emitter.update(scaled, make);
            i = i + 1;
        }
        let ghost stepped = self.emitters@;
        proof {
            assert(stepped_by(all, stepped, gravity, scaled, make));
        }
        let ghost mut seen: int = 0;
        let mut j: usize = 0;
        while j < self.emitters.len()
            invariant
                self.global_gravity == old(self).global_gravity,
                self.time_scale == old(self).time_scale,
                0 <= seen <= stepped.len(),
                j == lasting(stepped.take(seen)).len(),
                self.emitters@ == lasting(stepped.take(seen)) + stepped.skip(seen),
            decreases stepped.len() - seen,
        {
            proof {
                assert(stepped.take(seen + 1).drop_last() =~= stepped.take(seen));
                assert(self.emitters@[j as int] == stepped[seen]);
            }
            if self.emitters[j].config.active || self.emitters[j].has_particles() {
                j = j + 1;
                proof {
                    assert(self.emitters@ =~= lasting(stepped.take(seen + 1)) + stepped.skip(seen + 1));
                }
            } else {
                self.emitters.remove(j);
                proof {
                    assert(self.emitters@ =~= lasting(stepped.take(seen + 1)) + stepped.skip(seen + 1));
                }
            }
            proof {
                seen = seen + 1;
            }
        }
        proof {
            assert(stepped.skip(seen).len() == 0);
            assert(stepped.take(seen) =~= stepped);
            assert(self.emitters@ =~= lasting(stepped));
        }
    }

    /// Begins an explosion at a position: an emitter that makes twenty
    /// particles times the intensity at once, as far as it has room, and
    /// then no more. Says at which place the emitter stands.
    pub fn create_explosion<F: Fn(ParticleEmitterConfig<T>) -> Particle<T>>(
        &mut self,
        position: Vector<T>,
        intensity: T,
        make: &F,
    ) -> (index: usize)
        requires
            forall|config: ParticleEmitterConfig<T>| make.requires((config,)),
        ensures
            index == old(self).emitters().len(),
            final(self).emitters().len() == old(self).emitters().len() + 1,
            final(self).emitters().drop_last() == old(self).emitters(),
            emitter_burst(
                unused_emitter(explosion_config(position, intensity)),
                final(self).emitters().last()@,
                explosion_size(intensity),
                make,
            ),
            final(self).gravity() == old(self).gravity(),
            final(self).scale() == old(self).scale(),
    {
        let zero = T::from_ratio(0, 1);
        let unit = T::from_ratio(1, 1);
        let fifth = T::from_ratio(1, 5);
        let config = ParticleEmitterConfig {
            position,
            direction: Vector { x: zero, y: zero },
            spread: pi::<T>().times(T::from_ratio(2, 1)),
            rate: zero,
            speed: T::from_ratio(50, 1).times(intensity),
            speed_variation: T::from_ratio(20, 1).times(intensity),
            size: T::from_ratio(3, 1).times(intensity),
            size_variation: unit,
            life: unit.times(intensity),
            life_variation: T::from_ratio(3, 10),
            color: [unit, T::from_ratio(1, 2), zero, unit],
            color_variation: [fifth, fifth, zero, zero],
            gravity: Vector { x: zero, y: T::from_ratio(50, 1) },
            rotation_speed: T::from_ratio(5, 1),
            rotation_variation: T::from_ratio(2, 1),
            texture_index: 0,
            active: false,
            max_particles: 50,
        };
        let mut emitter = ParticleEmitter::with_config(config);
        emitter.burst(T::from_ratio(20, 1).times(intensity).to_whole(), make);
        let index = self.add_emitter(emitter);
        proof {
            assert(self.emitters@.drop_last() =~= old(self).emitters@);
        }
        index
    }

    /// Begins a trail behind a thing at a position that moves at a
    /// velocity. Says at which place the emitter stands.
    pub fn create_trail(&mut self, position: Vector<T>, velocity: Vector<T>) -> (index: usize)
        ensures
            index == old(self).emitters().len(),
            final(self).emitters().len() == old(self).emitters().len() + 1,
            final(self).emitters().drop_last() == old(self).emitters(),
            final(self).emitters().last()@ == unused_emitter(trail_config(position, velocity)),
            final(self).gravity() == old(self).gravity(),
            final(self).scale() == old(self).scale(),
    {
        let zero = T::from_ratio(0, 1);
        let unit = T::from_ratio(1, 1);
        let tenth = T::from_ratio(1, 10);
        let half = T::from_ratio(1, 2);
        let length = velocity.x.times(velocity.x).plus(velocity.y.times(velocity.y)).sqrt();
        let config = ParticleEmitterConfig {
            position,
            direction: Vector {
                x: velocity.x.over(length).times(T::from_ratio(-1, 1)),
                y: velocity.y.over(length).times(T::from_ratio(-1, 1)),
            },
            spread: pi::<T>().over(T::from_ratio(6, 1)),
            rate: T::from_ratio(20, 1),
            speed: length.times(half),
            speed_variation: T::from_ratio(10, 1),
            size: T::from_ratio(2, 1),
            size_variation: unit,
            life: half,
            life_variation: T::from_ratio(1, 5),
            color: [half, half, unit, T::from_ratio(4, 5)],
            color_variation: [tenth, tenth, tenth, zero],
            gravity: Vector { x: zero, y: zero },
            rotation_speed: zero,
            rotation_variation: zero,
            texture_index: 0,
            active: true,
            max_particles: 20,
        };
        let index = self.add_emitter(ParticleEmitter::with_config(config));
        proof {
            assert(self.emitters@.drop_last() =~= old(self).emitters@);
        }
        index
    }

    /// Begins sparks at a position in a direction. Says at which place
    /// the emitter stands.
    pub fn create_sparks(&mut self, position: Vector<T>, direction: Vector<T>) -> (index: usize)
        ensures
            index == old(self).emitters().len(),
            final(self).emitters().len() == old(self).emitters().len() + 1,
            final(self).emitters().drop_last() == old(self).emitters(),
            final(self).emitters().last()@ == unused_emitter(sparks_config(position, direction)),
            final(self).gravity() == old(self).gravity(),
            final(self).scale() == old(self).scale(),
    {
        let zero = T::from_ratio(0, 1);
        let unit = T::from_ratio(1, 1);
        let config = ParticleEmitterConfig {
            position,
            direction,
            spread: pi::<T>().over(T::from_ratio(3, 1)),
            rate: T::from_ratio(30, 1),
            speed: T::from_ratio(80, 1),
            speed_variation: T::from_ratio(30, 1),
            size: T::from_ratio(3, 2),
            size_variation: T::from_ratio(1, 2),
            life: T::from_ratio(4, 5),
            life_variation: T::from_ratio(3, 10),
            color: [unit, unit, zero, unit],
            color_variation: [zero, zero, zero, zero],
            gravity: Vector { x: zero, y: T::from_ratio(200, 1) },
            rotation_speed: T::from_ratio(10, 1),
            rotation_variation: T::from_ratio(5, 1),
            texture_index: 0,
            active: true,
            max_particles: 30,
        };
        let index = self.add_emitter(ParticleEmitter::with_config(config));
        proof {
            assert(self.emitters@.drop_last() =~= old(self).emitters@);
        }
        index
    }

    /// Sets the gravity of the emitters that have none of their own.
    pub fn set_global_gravity(&mut self, gravity: Vector<T>)
        ensures
            final(self).gravity() == gravity,
            final(self).emitters() == old(self).emitters(),
            final(self).scale() == old(self).scale(),
    {
        self.global_gravity = gravity;
    }

    /// Sets how fast time passes for the particles.
    pub fn set_time_scale(&mut self, scale: T)
        ensures
            final(self).scale() == scale,
            final(self).emitters() == old(self).emitters(),
            final(self).gravity() == old(self).gravity(),
    {
        self.time_scale = scale;
    }

    /// Whether the particles of all the emitters can be counted in a
    /// `usize`.
    pub fn can_total(&self) -> (yes: bool)
        ensures
            yes == (self.total() <= usize::MAX),
    {
        let mut sum: usize = 0;
        let mut i: usize = 0;
        while i < self.emitters.len()
            invariant
                i <= self.emitters@.len(),
                sum == particles_in(self.emitters@.take(i as int)),
            decreases self.emitters@.len() - i,
        {
            let count = self.emitters[i].particle_count();
            proof {
                assert(self.emitters@.take(i + 1).drop_last() =~= self.emitters@.take(i as int));
                lemma_particles_grow(self.emitters@, i + 1);
            }
            if count > usize::MAX - sum {
                return false;
            }
            sum = sum + count;
            i = i + 1;
        }
        proof {
            assert(self.emitters@.take(self.emitters@.len() as int) =~= self.emitters@);
        }
        true
    }

    /// How many particles all the emitters hold together.
    pub fn total_particle_count(&self) -> (count: usize)
        requires
            self.total() <= usize::MAX,
        ensures
            count == self.total(),
    {
        let mut sum: usize = 0;
        let mut i: usize = 0;
        while i < self.emitters.len()
            invariant
                i <= self.emitters@.len(),
                particles_in(self.emitters@) <= usize::MAX,
                sum == particles_in(self.emitters@.take(i as int)),
            decreases self.emitters@.len() - i,
        {
            let count = self.emitters[i].particle_count();
            proof {
                assert(self.emitters@.take(i + 1).drop_last() =~= self.emitters@.take(i as int));
                lemma_particles_grow(self.emitters@, i + 1);
            }
            sum = sum + count;
            i = i + 1;
        }
        proof {
            assert(self.emitters@.take(self.emitters@.len() as int) =~= self.emitters@);
        }
        sum
    }

    /// Takes every emitter away, with its particles.
    pub fn clear(&mut self)
        ensures
            final(self).emitters().len() == 0,
            final(self).gravity() == old(self).gravity(),
            final(self).scale() == old(self).scale(),
    {
        self.emitters.clear();
    }
}

impl<T: Scalar> Default for ParticleSystem<T> {
    fn default() -> (system: Self)
        ensures
            system.emitters().len() == 0,
            system.gravity() == (Vector { x: nought::<T>(), y: T::ratio(100, 1) }),
            system.scale() == one::<T>(),
    {
        ParticleSystem::new()
    }
}

/// The first `n` emitters hold no more particles than all of them.
proof fn lemma_particles_grow<T>(emitters: Seq<ParticleEmitter<T>>, n: int)
    requires
        0 <= n <= emitters.len(),
    ensures
        particles_in(emitters.take(n)) <= particles_in(emitters),
    decreases emitters.len(),
{
    if n == emitters.len() {
        assert(emitters.take(n) =~= emitters);
    } else {
        lemma_particles_grow(emitters.drop_last(), n);
        assert(emitters.drop_last().take(n) =~= emitters.take(n));
    }
}

/// An emitter never holds more particles after a step than its
/// configuration allows, unless it held more before.
pub proof fn lemma_emitter_is_bounded<T: Scalar, F: Fn(ParticleEmitterConfig<T>) -> Particle<T>>(
    before: EmitterState<T>,
    after: EmitterState<T>,
    delta_time: T,
    make: &F,
)
    requires
        emitter_step(before, after, delta_time, make),
        before.particles.len() <= before.config.max_particles,
    ensures
        after.particles.len() <= before.config.max_particles,
{
    let kept = moved_on(before.particles, delta_time);
    lemma_moved_on_is_shorter(before.particles, delta_time);
    if before.config.active {
        let room = room_for(kept.len(), before.config.max_particles as nat);
        lemma_emissions_fit(
            before.emission_timer.sum(delta_time),
            one::<T>().quotient(before.config.rate),
            room,
        );
    }
}

/// No more particles live on than there were.
proof fn lemma_moved_on_is_shorter<T: Scalar>(particles: Seq<Particle<T>>, delta_time: T)
    ensures
        moved_on(particles, delta_time).len() <= particles.len(),
    decreases particles.len(),
{
    if particles.len() > 0 {
        lemma_moved_on_is_shorter(particles.drop_last(), delta_time);
    }
}

/// An emitter makes no more particles than it has room for.
proof fn lemma_emissions_fit<T: Scalar>(timer: T, interval: T, room: nat)
    ensures
        emissions(timer, interval, room) <= room,
    decreases room,
{
    if room > 0 && interval.within(timer) {
        lemma_emissions_fit(timer.difference(interval), interval, (room - 1) as nat);
    }
}

} // verus!
