use modular_game_engine::enhanced_ai::{
    create_chaser_ai, create_guard_ai, create_pong_ai, AIBehavior, AIContext, AIDecision,
    AIDifficulty, AIState, AISystem, AITarget, Agent, ChaseAI, PatrolAI, PongPaddleAI,
};
use modular_game_engine::num::{Fixed, Scalar};
use modular_game_engine::particles::{
    pi, Particle, ParticleEmitter, ParticleEmitterConfig, ParticleSystem,
};
use modular_game_engine::physics::Vector;
use modular_game_engine::visual_effects::effects::{
    breathing_pulse, rainbow_transition, slow_glow, warning_flash,
};
use modular_game_engine::visual_effects::{
    ColorTransition, GlowEffect, PulseEffect, TrailEffect, TrailPoint,
};

/// Single precision as a number of the library.
#[derive(Debug, Clone, Copy, PartialEq, PartialOrd)]
struct Real(f32);

impl Scalar for Real {
    fn finite(self) -> bool {
        self.0.is_finite()
    }
    fn sum(self, rhs: Real) -> Real {
        Real(self.0 + rhs.0)
    }
    fn difference(self, rhs: Real) -> Real {
        Real(self.0 - rhs.0)
    }
    fn product(self, rhs: Real) -> Real {
        Real(self.0 * rhs.0)
    }
    fn quotient(self, rhs: Real) -> Real {
        Real(self.0 / rhs.0)
    }
    fn negated(self) -> Real {
        Real(-self.0)
    }
    fn root(self) -> Real {
        Real(self.0.sqrt())
    }
    fn below(self, rhs: Real) -> bool {
        self.0 < rhs.0
    }
    fn within(self, rhs: Real) -> bool {
        self.0 <= rhs.0
    }
    fn larger(self, rhs: Real) -> Real {
        Real(self.0.max(rhs.0))
    }
    fn smaller(self, rhs: Real) -> Real {
        Real(self.0.min(rhs.0))
    }
    fn ratio(num: i32, den: i32) -> Real {
        Real(num as f32 / den as f32)
    }
    fn whole(self) -> usize {
        self.0 as usize
    }
    fn fraction(self) -> Real {
        Real(self.0.fract())
    }
    fn sine(self) -> Real {
        Real(self.0.sin())
    }
    fn cosine(self) -> Real {
        Real(self.0.cos())
    }
    fn is_finite(self) -> bool {
        self.finite()
    }
    fn plus(self, rhs: Real) -> Real {
        self.sum(rhs)
    }
    fn minus(self, rhs: Real) -> Real {
        self.difference(rhs)
    }
    fn times(self, rhs: Real) -> Real {
        self.product(rhs)
    }
    fn over(self, rhs: Real) -> Real {
        self.quotient(rhs)
    }
    fn neg(self) -> Real {
        self.negated()
    }
    fn sqrt(self) -> Real {
        self.root()
    }
    fn less_than(self, rhs: Real) -> bool {
        self.below(rhs)
    }
    fn at_most(self, rhs: Real) -> bool {
        self.within(rhs)
    }
    fn max_of(self, rhs: Real) -> Real {
        self.larger(rhs)
    }
    fn min_of(self, rhs: Real) -> Real {
        self.smaller(rhs)
    }
    fn from_ratio(num: i32, den: i32) -> Real {
        Real::ratio(num, den)
    }
    fn to_whole(self) -> usize {
        self.whole()
    }
    fn fract(self) -> Real {
        self.fraction()
    }
    fn sin(self) -> Real {
        self.sine()
    }
    fn cos(self) -> Real {
        self.cosine()
    }
}

fn at(x: f32, y: f32) -> Vector<Real> {
    Vector { x: Real(x), y: Real(y) }
}

fn units(n: i64) -> Fixed {
    Fixed { raw: n * 1_000_000 }
}

fn spot(x: i64, y: i64) -> Vector<Fixed> {
    Vector { x: units(x), y: units(y) }
}

#[test]
fn test_ai_difficulty() {
    let easy = AIDifficulty::Easy;
    let hard = AIDifficulty::Hard;

    assert!(easy.reaction_multiplier::<Real>() > hard.reaction_multiplier::<Real>());
    assert!(easy.accuracy_multiplier::<Real>() < hard.accuracy_multiplier::<Real>());
}

#[test]
fn test_chase_ai_decision() {
    let ai = ChaseAI::new(Real(100.0), Real(50.0));
    let mut context = AIContext::new(at(0.0, 0.0), at(0.0, 0.0), AIDifficulty::Normal);

    let target = AITarget::new(at(100.0, 0.0), at(0.0, 0.0), context.position);
    context.target = Some(target);

    let decision = ai.decide(&context);
    assert!(decision.desired_velocity.x > Real(0.0)); // Should move right towards target
}

#[test]
fn test_particle_creation() {
    let particle = Particle::<Real>::new();
    assert!(particle.is_alive());
    assert_eq!(particle.normalized_life(), Real(1.0));
}

#[test]
fn test_particle_update() {
    let mut particle = Particle::<Real>::new();
    particle.velocity = at(10.0, 0.0);
    particle.max_life = Real(2.0);
    particle.life = Real(2.0);

    particle.update(Real(1.0));

    assert_eq!(particle.position.x, Real(10.0));
    assert_eq!(particle.life, Real(1.0));
    assert!(particle.is_alive());
}

#[test]
fn test_trail_effect() {
    let mut trail = TrailEffect::new(10);
    trail.add_point(at(0.0, 0.0), [Real(1.0), Real(1.0), Real(1.0), Real(1.0)], Real(5.0), Real(1.0));
    assert_eq!(trail.points.len(), 1);

    trail.update(Real(0.5));
    assert_eq!(trail.points.len(), 1);
    assert_eq!(trail.points[0].life, Real(0.5));
}

#[test]
fn each_level_has_its_measures() {
    let levels = [
        (AIDifficulty::VeryEasy, 2.0, 0.3, 0.0),
        (AIDifficulty::Easy, 1.5, 0.5, 0.2),
        (AIDifficulty::Normal, 1.0, 0.7, 0.5),
        (AIDifficulty::Hard, 0.7, 0.9, 0.8),
        (AIDifficulty::VeryHard, 0.5, 0.95, 1.0),
    ];
    for (level, reaction, accuracy, prediction) in levels {
        assert_eq!(level.reaction_multiplier::<Real>(), Real(reaction));
        assert_eq!(level.accuracy_multiplier::<Real>(), Real(accuracy));
        assert_eq!(level.prediction_ability::<Real>(), Real(prediction));
    }
    assert_eq!(AIDifficulty::VeryHard.accuracy_multiplier::<Fixed>(), Fixed { raw: 950_000 });
}

#[test]
fn a_multiplier_names_its_level() {
    assert_eq!(AIDifficulty::from_multiplier(Real(0.3)), AIDifficulty::VeryEasy);
    assert_eq!(AIDifficulty::from_multiplier(Real(0.31)), AIDifficulty::Easy);
    assert_eq!(AIDifficulty::from_multiplier(Real(0.5)), AIDifficulty::Easy);
    assert_eq!(AIDifficulty::from_multiplier(Real(0.8)), AIDifficulty::Normal);
    assert_eq!(AIDifficulty::from_multiplier(Real(1.2)), AIDifficulty::Hard);
    assert_eq!(AIDifficulty::from_multiplier(Real(1.21)), AIDifficulty::VeryHard);
    assert_eq!(AIDifficulty::from_multiplier(Real(f32::NAN)), AIDifficulty::VeryHard);
    assert_eq!(AIDifficulty::from_multiplier(Fixed { raw: -5 }), AIDifficulty::VeryEasy);
    assert_eq!(AIDifficulty::from_multiplier(Fixed { raw: 800_001 }), AIDifficulty::Hard);
}

#[test]
fn a_target_knows_its_distance_and_where_it_will_be() {
    let target = AITarget::new(spot(3, 4), spot(2, -1), spot(0, 0));
    assert_eq!(target.distance, units(5));
    assert!(target.is_visible);
    assert_eq!(target.threat_level, units(1));
    assert_eq!(target.predict_position(Fixed { raw: 500_000 }), Vector { x: units(4), y: Fixed { raw: 3_500_000 } });
}

#[test]
fn a_context_keeps_numbers_by_name() {
    let mut context = AIContext::new(spot(1, 2), spot(3, 4), AIDifficulty::Hard);
    assert_eq!(context.position, spot(1, 2));
    assert_eq!(context.velocity, spot(3, 4));
    assert!(context.target.is_none());
    assert_eq!(context.time, units(0));
    assert_eq!(context.delta_time, units(0));
    assert_eq!(context.difficulty, AIDifficulty::Hard);
    assert_eq!(context.state, AIState::Idle);
    assert_eq!(context.get_custom_data("anger"), units(0));
    context.set_custom_data("anger", units(7));
    context.set_custom_data("anger", units(8));
    assert_eq!(context.get_custom_data("anger"), units(8));
    let context = context.with_target(AITarget::new(spot(0, 0), spot(0, 0), spot(1, 2)));
    assert!(context.target.is_some());
}

#[test]
fn a_plain_decision_idles() {
    let decision = AIDecision::<Fixed>::new();
    assert_eq!(decision.desired_velocity, spot(0, 0));
    assert_eq!(decision.desired_state, AIState::Idle);
    assert!(!decision.should_attack);
    assert_eq!(decision.priority, Fixed { raw: 500_000 });
    assert_eq!(decision.confidence, units(1));
    let decision = decision.with_velocity(spot(1, 2)).with_state(AIState::Fleeing).with_attack(true);
    assert_eq!(decision.desired_velocity, spot(1, 2));
    assert_eq!(decision.desired_state, AIState::Fleeing);
    assert!(decision.should_attack);
}

#[test]
fn a_chaser_attacks_from_near_and_heads_for_where_the_target_will_be() {
    let chaser = ChaseAI::new(units(10), units(5));
    assert_eq!(chaser.prediction_time, Fixed { raw: 500_000 });
    assert!(matches!(chaser.get_behavior_type(), AIBehavior::Chase));
    let mut context = AIContext::new(spot(0, 0), spot(0, 0), AIDifficulty::Normal);
    // Without a target the chaser idles.
    let decision = chaser.decide(&context);
    assert_eq!(decision.desired_state, AIState::Idle);
    assert_eq!(decision.desired_velocity, spot(0, 0));
    // At exactly its range it attacks and stands.
    context.target = Some(AITarget::new(spot(3, 4), spot(100, 100), spot(0, 0)));
    let decision = chaser.decide(&context);
    assert_eq!(decision.desired_state, AIState::Attacking);
    assert!(decision.should_attack);
    assert_eq!(decision.desired_velocity, spot(0, 0));
    // Beyond it, it heads for where the target will be in half a second:
    // from (6, 0) at (0, 16) a second to (6, 8), which lies at (0.6, 0.8).
    context.target = Some(AITarget::new(spot(6, 0), spot(0, 16), spot(0, 0)));
    let decision = chaser.decide(&context);
    assert_eq!(decision.desired_state, AIState::Chasing);
    assert!(!decision.should_attack);
    assert_eq!(decision.desired_velocity, spot(6, 8));
}

#[test]
fn a_chaser_at_a_level_looks_ahead_by_half_of_what_the_level_can() {
    let chaser = create_chaser_ai::<Fixed>(AIDifficulty::Hard);
    assert_eq!(chaser.move_speed, units(100));
    assert_eq!(chaser.attack_range, units(50));
    assert_eq!(chaser.prediction_time, Fixed { raw: 400_000 });
    assert_eq!(create_chaser_ai::<Fixed>(AIDifficulty::VeryEasy).prediction_time, units(0));
}

#[test]
fn a_patrol_heads_for_its_waypoint_and_for_the_next_when_it_is_there() {
    let mut patrol = PatrolAI::new(vec![spot(30, 40), spot(30, 100)], units(5));
    assert!(patrol.is_valid());
    assert_eq!(patrol.waypoint_threshold, units(10));
    assert!(matches!(patrol.get_behavior_type(), AIBehavior::Patrol));
    // Far from the waypoint: straight to it, (0.6, 0.8) times five.
    let context = AIContext::new(spot(0, 0), spot(0, 0), AIDifficulty::Normal);
    let decision = patrol.decide(&context);
    assert_eq!(decision.desired_state, AIState::Patrolling);
    assert_eq!(decision.desired_velocity, spot(3, 4));
    // At the waypoint: on to the next one, straight down.
    let context = AIContext::new(spot(30, 40), spot(0, 0), AIDifficulty::Normal);
    assert_eq!(patrol.decide(&context).desired_velocity, spot(0, 5));
    // From the last waypoint on to the first.
    patrol.current_waypoint = 1;
    let context = AIContext::new(spot(30, 90), spot(0, 0), AIDifficulty::Normal);
    assert_eq!(patrol.decide(&context).desired_velocity, Vector { x: units(0), y: units(-5) });
}

#[test]
fn a_patrol_without_waypoints_idles() {
    let patrol = PatrolAI::new(Vec::new(), units(5));
    assert!(patrol.is_valid());
    let context = AIContext::new(spot(0, 0), spot(0, 0), AIDifficulty::Normal);
    let decision = patrol.decide(&context);
    assert_eq!(decision.desired_state, AIState::Idle);
    assert_eq!(decision.desired_velocity, spot(0, 0));
    let mut lost = PatrolAI::new(vec![spot(1, 1)], units(5));
    lost.current_waypoint = 1;
    assert!(!lost.is_valid());
}

#[test]
fn a_guard_is_slower_to_turn_at_an_easy_level() {
    let guard = create_guard_ai(vec![spot(0, 0)], AIDifficulty::VeryEasy);
    assert_eq!(guard.move_speed, units(75));
    assert_eq!(guard.waypoint_threshold, units(20));
    assert_eq!(guard.current_waypoint, 0);
    let guard = create_guard_ai(vec![spot(0, 0)], AIDifficulty::Hard);
    assert_eq!(guard.waypoint_threshold, units(7));
}

#[test]
fn a_new_particle_is_white_and_at_rest() {
    let particle = Particle::<Fixed>::new();
    assert_eq!(particle.position, spot(0, 0));
    assert_eq!(particle.velocity, spot(0, 0));
    assert_eq!(particle.acceleration, spot(0, 0));
    assert_eq!(particle.life, units(1));
    assert_eq!(particle.max_life, units(1));
    assert_eq!(particle.size, units(1));
    assert_eq!(particle.initial_size, units(1));
    assert_eq!(particle.color, [units(1); 4]);
    assert_eq!(particle.initial_color, [units(1); 4]);
    assert_eq!(particle.rotation, units(0));
    assert_eq!(particle.rotation_speed, units(0));
    assert_eq!(particle.texture_index, 0);
    assert_eq!(particle.user_data, units(0));
}

#[test]
fn a_particle_flies_turns_fades_and_shrinks() {
    let mut particle = Particle::<Fixed>::new();
    particle.velocity = spot(10, 0);
    particle.acceleration = spot(0, 4);
    particle.rotation_speed = units(2);
    particle.max_life = units(2);
    particle.life = units(2);
    particle.initial_size = units(6);
    particle.initial_color = [units(1), units(1), units(1), Fixed { raw: 800_000 }];
    particle.color[0] = Fixed { raw: 250_000 };
    particle.update(Fixed { raw: 500_000 });
    // The velocity first, then the position by the new velocity.
    assert_eq!(particle.velocity, spot(10, 2));
    assert_eq!(particle.position, spot(5, 1));
    assert_eq!(particle.rotation, units(1));
    assert_eq!(particle.life, Fixed { raw: 1_500_000 });
    assert_eq!(particle.normalized_life(), Fixed { raw: 750_000 });
    assert_eq!(particle.size, Fixed { raw: 4_500_000 });
    assert_eq!(particle.color, [Fixed { raw: 250_000 }, units(1), units(1), Fixed { raw: 600_000 }]);
    // Its life never falls below nought.
    particle.update(units(5));
    assert_eq!(particle.life, units(0));
    assert!(!particle.is_alive());
    assert_eq!(particle.size, units(0));
    assert_eq!(particle.color[3], units(0));
}

#[test]
fn the_plain_emitter_has_its_documented_values() {
    let config = ParticleEmitterConfig::<Real>::default();
    assert_eq!(config.position, at(0.0, 0.0));
    assert_eq!(config.direction, at(0.0, -1.0));
    assert_eq!(config.spread, Real(std::f32::consts::PI / 4.0));
    assert_eq!(config.rate, Real(10.0));
    assert_eq!(config.speed, Real(100.0));
    assert_eq!(config.speed_variation, Real(20.0));
    assert_eq!(config.size, Real(5.0));
    assert_eq!(config.size_variation, Real(2.0));
    assert_eq!(config.life, Real(2.0));
    assert_eq!(config.life_variation, Real(0.5));
    assert_eq!(config.color, [Real(1.0); 4]);
    assert_eq!(config.color_variation, [Real(0.1), Real(0.1), Real(0.1), Real(0.0)]);
    assert_eq!(config.gravity, at(0.0, 100.0));
    assert_eq!(config.rotation_speed, Real(0.0));
    assert_eq!(config.rotation_variation, Real(0.0));
    assert_eq!(config.texture_index, 0);
    assert!(config.active);
    assert_eq!(config.max_particles, 100);
    assert_eq!(pi::<Real>(), Real(std::f32::consts::PI));
    assert_eq!(pi::<Fixed>(), Fixed { raw: 3_141_592 });
}

#[test]
fn a_plain_glow_is_white_in_three_layers() {
    let glow = GlowEffect::<Real>::default();
    assert_eq!(glow.color, [Real(1.0); 4]);
    assert_eq!(glow.intensity, Real(1.0));
    assert_eq!(glow.size, Real(2.0));
    assert_eq!(glow.layers, 3);
}

#[test]
fn a_trail_of_points_keeps_the_newest_and_drops_the_dead() {
    let mut trail = TrailEffect::<Fixed>::new(2);
    assert_eq!(trail.max_points, 2);
    assert_eq!(trail.fade_speed, units(2));
    assert_eq!(trail.min_alpha, units(0));
    trail.add_point(spot(1, 0), [units(1); 4], units(3), units(1));
    trail.add_point(spot(2, 0), [units(1); 4], units(3), units(2));
    trail.add_point(spot(3, 0), [units(1); 4], units(3), units(4));
    assert_eq!(trail.points.len(), 2);
    assert_eq!(trail.points[0].position, spot(3, 0));
    assert_eq!(trail.points[1].position, spot(2, 0));
    assert_eq!(trail.points[0].max_life, units(4));
    trail.update(units(2));
    assert_eq!(trail.points.len(), 1);
    assert_eq!(trail.points[0].life, units(2));
    assert_eq!(trail.points[0].alpha(), Fixed { raw: 500_000 });
    trail.clear();
    assert!(trail.points.is_empty());
    let mut none = TrailEffect::<Fixed>::new(0);
    none.add_point(spot(1, 0), [units(1); 4], units(3), units(1));
    assert!(none.points.is_empty());
}

#[test]
fn a_point_ages_like_a_segment() {
    let mut point = TrailPoint::new(spot(0, 0), [units(1); 4], units(5), units(1));
    assert!(point.update(Fixed { raw: 400_000 }));
    assert_eq!(point.life, Fixed { raw: 600_000 });
    assert_eq!(point.max_life, units(1));
    assert!(!point.update(Fixed { raw: 600_000 }));
}

/// A particle as an emitter's configuration asks for it, at an angle and
/// with measures drawn by chance.
fn sparkle(config: ParticleEmitterConfig<Real>) -> Particle<Real> {
    let more_or_less = |base: Real, variation: Real| {
        base.0 + (rand::random::<f32>() - 0.5) * 2.0 * variation.0
    };
    let mut particle = Particle::new();
    particle.position = config.position;
    let angle = config.direction.y.0.atan2(config.direction.x.0)
        + (rand::random::<f32>() - 0.5) * config.spread.0;
    let speed = more_or_less(config.speed, config.speed_variation);
    particle.velocity = at(angle.cos() * speed, angle.sin() * speed);
    particle.acceleration = config.gravity;
    particle.max_life = Real(more_or_less(config.life, config.life_variation));
    particle.life = particle.max_life;
    particle.initial_size = Real(more_or_less(config.size, config.size_variation));
    particle.size = particle.initial_size;
    for i in 0..4 {
        particle.color[i] =
            Real(more_or_less(config.color[i], config.color_variation[i]).clamp(0.0, 1.0));
    }
    particle.initial_color = particle.color;
    particle.rotation_speed = Real(more_or_less(config.rotation_speed, config.rotation_variation));
    particle.texture_index = config.texture_index;
    particle
}

/// A particle that stands where its emitter is, with the emitter's life.
fn plain(config: ParticleEmitterConfig<Fixed>) -> Particle<Fixed> {
    let mut particle = Particle::new();
    particle.position = config.position;
    particle.acceleration = config.gravity;
    particle.life = config.life;
    particle.max_life = config.life;
    particle
}

#[test]
fn test_emitter_burst() {
    let mut emitter = ParticleEmitter::new();
    emitter.config.max_particles = 10;

    emitter.burst(5, &sparkle);
    assert_eq!(emitter.particle_count(), 5);

    emitter.burst(8, &sparkle); // Should be limited to max_particles
    assert_eq!(emitter.particle_count(), 10);
}

#[test]
fn test_particle_system() {
    let mut system = ParticleSystem::new();

    let _emitter_idx = system.create_explosion(at(0.0, 0.0), Real(1.0), &sparkle);
    assert_eq!(system.total_particle_count(), 20);

    system.update(Real(0.1), &sparkle);
    assert!(system.total_particle_count() > 0); // Particles should still exist

    system.clear();
    assert_eq!(system.total_particle_count(), 0);
}

#[test]
fn an_emitter_makes_a_particle_for_each_interval_that_has_passed() {
    let mut config = ParticleEmitterConfig::<Fixed>::default();
    config.rate = units(4);
    config.life = units(1);
    config.max_particles = 5;
    let mut emitter = ParticleEmitter::with_config(config);
    assert_eq!(emitter.emission_timer, units(0));
    assert!(!emitter.has_particles());
    // Less than a quarter of a second: nothing yet, the time is kept.
    emitter.update(Fixed { raw: 200_000 }, &plain);
    assert_eq!(emitter.particle_count(), 0);
    assert_eq!(emitter.emission_timer, Fixed { raw: 200_000 });
    // 0.2 + 0.6 seconds make three quarters and a rest of 0.05.
    emitter.update(Fixed { raw: 600_000 }, &plain);
    assert_eq!(emitter.particle_count(), 3);
    assert_eq!(emitter.emission_timer, Fixed { raw: 50_000 });
    // The old ones age before the new ones come, and the room runs out:
    // 0.05 + 0.95 seconds would make four, two have room.
    emitter.update(Fixed { raw: 950_000 }, &plain);
    assert_eq!(emitter.particle_count(), 5);
    assert_eq!(emitter.particles[0].life, Fixed { raw: 50_000 });
    assert_eq!(emitter.particles[4].life, units(1));
    assert_eq!(emitter.emission_timer, Fixed { raw: 500_000 });
    // The three old ones die; an emitter that is not active makes none.
    emitter.config.active = false;
    emitter.update(Fixed { raw: 100_000 }, &plain);
    assert_eq!(emitter.particle_count(), 2);
    assert_eq!(emitter.emission_timer, Fixed { raw: 500_000 });
    emitter.emit_particle(&plain);
    assert_eq!(emitter.particle_count(), 3);
    emitter.clear();
    assert_eq!(emitter.particle_count(), 0);
}

#[test]
fn a_burst_stops_where_the_room_ends() {
    let mut emitter = ParticleEmitter::<Fixed>::new();
    emitter.config.max_particles = 3;
    emitter.burst(0, &plain);
    assert_eq!(emitter.particle_count(), 0);
    emitter.burst(2, &plain);
    assert_eq!(emitter.particle_count(), 2);
    emitter.burst(2, &plain);
    assert_eq!(emitter.particle_count(), 3);
    emitter.config.max_particles = 1;
    emitter.burst(2, &plain);
    assert_eq!(emitter.particle_count(), 3);
}

#[test]
fn a_system_drops_the_emitters_that_are_spent() {
    let mut system = ParticleSystem::<Fixed>::new();
    // An explosion of intensity one half: ten particles of half a second.
    let explosion = system.create_explosion(spot(1, 2), Fixed { raw: 500_000 }, &plain);
    let sparks = system.create_sparks(spot(0, 0), spot(0, -1));
    let mut weightless = ParticleEmitter::with_config(ParticleEmitterConfig::default());
    weightless.config.gravity = spot(0, 0);
    weightless.config.rate = units(1);
    let third = system.add_emitter(weightless);
    assert_eq!((explosion, sparks, third), (0, 1, 2));
    assert!(system.can_total());
    assert_eq!(system.total_particle_count(), 10);
    let config = system.get_emitter(0).unwrap().config;
    assert!(!config.active);
    assert_eq!(config.max_particles, 50);
    assert_eq!(config.speed, units(25));
    assert_eq!(config.spread, Fixed { raw: 6_283_184 });
    assert_eq!(config.color, [units(1), Fixed { raw: 500_000 }, units(0), units(1)]);
    assert_eq!(system.get_emitter(1).unwrap().config.gravity, spot(0, 200));

    // Time at half speed: a second passes as half a second, the explosion
    // is spent and leaves, the others stay.
    system.set_time_scale(Fixed { raw: 500_000 });
    system.set_global_gravity(spot(0, 7));
    system.update(units(1), &plain);
    assert!(system.get_emitter(2).is_none());
    assert_eq!(system.get_emitter(0).unwrap().config.rate, units(30));
    // The sparks came fifteen times in half a second.
    assert_eq!(system.get_emitter(0).unwrap().particle_count(), 15);
    // The emitter without gravity took the gravity of the system.
    assert_eq!(system.get_emitter(1).unwrap().config.gravity, spot(0, 7));
    assert_eq!(system.get_emitter(1).unwrap().particle_count(), 0);
    assert_eq!(system.total_particle_count(), 15);

    system.get_emitter_mut(1).unwrap().config.active = false;
    assert!(system.get_emitter_mut(5).is_none());
    system.remove_emitter(7);
    system.remove_emitter(0);
    assert_eq!(system.total_particle_count(), 0);
    system.update(units(1), &plain);
    assert!(system.get_emitter(0).is_none());
}

#[test]
fn a_trail_of_particles_flies_against_the_way_of_the_thing() {
    let mut system = ParticleSystem::<Fixed>::default();
    let index = system.create_trail(spot(5, 5), spot(3, 4));
    let config = system.get_emitter(index).unwrap().config;
    assert_eq!(config.position, spot(5, 5));
    assert_eq!(config.direction, Vector { x: Fixed { raw: -600_000 }, y: Fixed { raw: -800_000 } });
    assert_eq!(config.speed, Fixed { raw: 2_500_000 });
    assert_eq!(config.rate, units(20));
    assert_eq!(config.gravity, spot(0, 0));
    assert!(config.active);
    assert_eq!(config.max_particles, 20);
    assert_eq!(system.total_particle_count(), 0);
}

#[test]
fn test_pong_ai_decision() {
    let ai = PongPaddleAI::new(Real(100.0));
    let mut context = AIContext::new(
        at(400.0, 300.0), // AI position
        at(0.0, 0.0),     // AI velocity
        AIDifficulty::Normal,
    );

    // Ball above AI
    let target = AITarget::new(
        at(350.0, 250.0), // Ball position
        at(0.0, 0.0),     // Ball velocity
        context.position,
    );
    context.target = Some(target);

    let decision = ai.decide(&context);
    assert!(decision.desired_velocity.y < Real(0.0)); // Should move up
}

#[test]
fn test_ai_system() {
    let mut system = AISystem::new();

    system.register_pong_ai("paddle1", Real(100.0), AIDifficulty::Normal);
    assert!(system.has_agent("paddle1"));

    system.update_context("paddle1", at(400.0, 300.0), at(0.0, 0.0), None);

    let decision = system.get_decision("paddle1");
    assert!(decision.is_some());
}

#[test]
fn test_color_transition() {
    let mut transition = ColorTransition::new(
        [Real(0.0), Real(0.0), Real(0.0), Real(1.0)],
        [Real(1.0), Real(1.0), Real(1.0), Real(1.0)],
        Real(1.0),
    );
    transition.start();

    let color = transition.update(Real(0.5));
    assert!(color[0] > Real(0.0) && color[0] < Real(1.0)); // Should be interpolated
}

#[test]
fn test_pulse_effect() {
    let mut pulse = PulseEffect::new(Real(1.0), Real(0.2), Real(1.0));
    let scale = pulse.update(Real(0.1));
    assert!(scale >= Real(0.8) && scale <= Real(1.2)); // Should vary around base scale
}

#[test]
fn the_sine_of_a_fixed_number_goes_between_minus_one_and_one() {
    let sine = |raw: i64| Fixed { raw }.sin().raw;
    let cosine = |raw: i64| Fixed { raw }.cos().raw;
    assert_eq!(sine(0), 0);
    assert_eq!(sine(1_570_796), 1_000_000);
    assert_eq!(sine(3_141_592), 0);
    assert_eq!(sine(-1_570_796), -1_000_000);
    assert_eq!(sine(3_141_592 + 1_570_796), -1_000_000);
    assert_eq!(sine(6_283_184), 0);
    assert_eq!(sine(6_283_184 + 1_570_796), 1_000_000);
    assert_eq!(cosine(0), 1_000_000);
    assert_eq!(cosine(1_570_796), 0);
    assert_eq!(cosine(-1_570_796), 0);
    assert_eq!(cosine(3_141_592), -1_000_000);
    // A sixth of a half turn: a half, within two thousandths.
    assert!((sine(523_598) - 500_000).abs() < 2_000);
    assert!((cosine(1_047_197) - 500_000).abs() < 2_000);
    for raw in [i64::MIN, -7_000_000, -1, 1, 2_000_000, 123_456_789_012, i64::MAX] {
        assert!((-1_000_000..=1_000_000).contains(&sine(raw)));
        assert!((-1_000_000..=1_000_000).contains(&cosine(raw)));
        if raw != i64::MIN {
            assert_eq!(sine(raw), -sine(-raw));
        }
    }
}

#[test]
fn what_is_left_of_a_fixed_number_without_its_whole_part() {
    assert_eq!(Fixed { raw: 2_750_000 }.fract(), Fixed { raw: 750_000 });
    assert_eq!(Fixed { raw: -2_750_000 }.fract(), Fixed { raw: -750_000 });
    assert_eq!(units(3).fract(), units(0));
    assert_eq!(Fixed { raw: 2_750_000 }.to_whole(), 2);
    assert_eq!(Fixed { raw: 999_999 }.to_whole(), 0);
    assert_eq!(units(-4).to_whole(), 0);
}

#[test]
fn a_transition_goes_from_one_colour_to_the_other_and_ends() {
    let black = [units(0); 4];
    let tint = [units(1), units(2), units(4), units(8)];
    let mut transition = ColorTransition::new(black, tint, units(2));
    assert!(!transition.active);
    assert!(!transition.loop_effect);
    // Not begun: the end colour, and no time passes.
    assert_eq!(transition.update(units(1)), tint);
    assert_eq!(transition.time, units(0));
    transition.start();
    assert!(transition.active);
    assert_eq!(
        transition.update(Fixed { raw: 500_000 }),
        [Fixed { raw: 250_000 }, Fixed { raw: 500_000 }, units(1), units(2)]
    );
    assert_eq!(transition.update(units(1)), [Fixed { raw: 750_000 }, Fixed { raw: 1_500_000 }, units(3), units(6)]);
    // At its end it shows the end colour and is no longer active.
    assert_eq!(transition.update(Fixed { raw: 500_000 }), tint);
    assert!(!transition.active);
    assert_eq!(transition.time, units(2));
}

#[test]
fn a_transition_that_begins_again_never_ends() {
    let mut transition = rainbow_transition(units(2));
    assert!(transition.loop_effect);
    assert_eq!(transition.start_color, [units(1), units(0), units(0), units(1)]);
    assert_eq!(transition.end_color, [units(1), units(0), units(1), units(1)]);
    transition.start();
    // Two and a half durations: half way through the third.
    let color = transition.update(units(5));
    assert!(transition.active);
    assert_eq!(color, [units(1), units(0), Fixed { raw: 500_000 }, units(1)]);
    transition.set_loop(false);
    assert_eq!(transition.update(units(0)), [units(1), units(0), units(1), units(1)]);
    assert!(!transition.active);
    let flash = warning_flash::<Fixed>();
    assert_eq!(flash.end_color, [units(1), units(1), units(0), Fixed { raw: 500_000 }]);
    assert_eq!(flash.duration, Fixed { raw: 500_000 });
    assert!(!flash.loop_effect);
}

#[test]
fn a_pulse_swings_about_its_base() {
    let mut pulse = PulseEffect::new(units(10), units(2), units(1));
    assert!(pulse.active);
    // A quarter of a turn of time: the base and the whole amplitude.
    assert_eq!(pulse.update(Fixed { raw: 1_570_796 }), units(12));
    assert_eq!(pulse.time, Fixed { raw: 1_570_796 });
    assert_eq!(pulse.update(Fixed { raw: 1_570_796 }), units(10));
    assert_eq!(pulse.update(Fixed { raw: 1_570_796 }), units(8));
    pulse.set_active(false);
    assert_eq!(pulse.update(units(1)), units(10));
    assert_eq!(pulse.time, Fixed { raw: 4_712_388 });
    let breath = breathing_pulse(units(1));
    assert_eq!(breath.amplitude, Fixed { raw: 50_000 });
    assert_eq!(breath.frequency, units(2));
    let glow = slow_glow(units(3));
    assert_eq!(glow.intensity, units(3));
    assert_eq!(glow.size, Fixed { raw: 1_500_000 });
    assert_eq!(glow.layers, 2);
    assert_eq!(glow.color[3], Fixed { raw: 800_000 });
}

#[test]
fn the_paddle_agent_follows_the_ball_late_and_off_the_mark() {
    let agent = create_pong_ai::<Fixed>(AIDifficulty::Easy);
    assert_eq!(agent.paddle_speed, units(350));
    assert_eq!(agent.reaction_delay, Fixed { raw: 150_000 });
    assert_eq!(agent.last_decision_time, units(0));
    assert!(matches!(agent.get_behavior_type(), AIBehavior::Follow));
    let mut context = AIContext::new(spot(0, 100), spot(7, 7), AIDifficulty::Easy);
    // Without a target it moves as it is.
    let decision = agent.decide(&context);
    assert_eq!(decision.desired_state, AIState::Moving);
    assert_eq!(decision.desired_velocity, spot(0, 0));
    // Before its reaction delay has passed it keeps its velocity.
    context.target = Some(AITarget::new(spot(0, 300), spot(0, 0), context.position));
    context.time = Fixed { raw: 100_000 };
    assert_eq!(agent.decide(&context).desired_velocity, spot(7, 7));
    // Then it moves towards the ball, at its speed times one and a half.
    context.time = units(1);
    assert_eq!(agent.decide(&context).desired_velocity, spot(0, 525));
    context.target = Some(AITarget::new(spot(0, -300), spot(0, 0), context.position));
    assert_eq!(agent.decide(&context).desired_velocity, spot(0, -525));
    // Within five of the ball it stands still.
    context.target = Some(AITarget::new(spot(50, 105), spot(0, 0), context.position));
    assert_eq!(agent.decide(&context).desired_velocity, spot(0, 0));
    // Just beyond five the error decides: at a quarter of a turn of twice
    // the time the easy agent sees the ball ten higher than it is.
    context.target = Some(AITarget::new(spot(0, 94), spot(0, 0), context.position));
    context.time = Fixed { raw: 785_398 };
    assert_eq!(agent.decide(&context).desired_velocity, spot(0, 525));
}

#[test]
fn a_system_keeps_agents_and_what_they_see_by_name() {
    let mut system = AISystem::<Fixed>::default();
    system.register_chase_ai("hunter", units(10), units(5), AIDifficulty::Hard);
    system.register_patrol_ai("guard", vec![spot(30, 40)], units(5), AIDifficulty::Normal);
    system.register_agent("ball", Agent::Pong(PongPaddleAI::new(units(1))));
    assert_eq!(system.get_agent_ids(), vec!["hunter".to_string(), "guard".to_string(), "ball".to_string()]);
    assert!(system.has_agent("guard"));
    assert!(!system.has_agent("ghost"));
    // An agent that has not been told what it sees decides nothing.
    assert!(system.get_decision("hunter").is_none());
    assert!(system.get_decision("ghost").is_none());
    system.update_context("ghost", spot(0, 0), spot(0, 0), None);
    assert!(system.get_decision("ghost").is_none());

    system.update_context("guard", spot(0, 0), spot(0, 0), None);
    let decision = system.get_decision("guard").unwrap();
    assert_eq!(decision.desired_state, AIState::Patrolling);
    assert_eq!(decision.desired_velocity, spot(3, 4));

    let prey = AITarget::new(spot(6, 0), spot(0, 20), spot(0, 0));
    system.update_context("hunter", spot(0, 0), spot(0, 0), Some(prey));
    // The hard hunter looks four tenths of a second ahead: to (6, 8).
    assert_eq!(system.get_decision("hunter").unwrap().desired_velocity, spot(6, 8));
    system.update_context("hunter", spot(6, 0), spot(0, 0), Some(prey));
    assert!(system.get_decision("hunter").unwrap().should_attack);

    system.set_agent_difficulty("hunter", AIDifficulty::Easy);
    system.set_agent_difficulty("nobody", AIDifficulty::Easy);
    system.update_all(units(1));
    system.remove_agent("guard");
    assert!(!system.has_agent("guard"));
    assert!(system.get_decision("guard").is_none());
    assert_eq!(system.get_agent_ids().len(), 2);
}
