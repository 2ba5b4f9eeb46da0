//! Computer-steered behaviour: how strong an opponent is, what an agent
//! sees, and what a chasing or a patrolling agent decides.

use vstd::prelude::*;
use crate::collision::distance;
use crate::num::Scalar;
use crate::physics::{advanced, Vector};
use crate::str_map::{place_in, StrMap};

verus! {

/// What a computer-steered entity does.
#[derive(Debug, Clone)]
pub enum AIBehavior {
    /// Follow a target, as a paddle follows the ball.
    Follow,
    /// Walk between waypoints.
    Patrol,
    /// Chase and attack a target.
    Chase,
    /// Flee from a target.
    Flee,
    /// Guard a position.
    Guard,
    /// Wander about.
    Wander,
    /// A behaviour of the game's own, by name.
    Custom(String),
}

/// How strong a computer opponent is.
#[derive(Debug, Clone, Copy, PartialEq, Eq, Structural)]
pub enum AIDifficulty {
    VeryEasy,
    Easy,
    Normal,
    Hard,
    VeryHard,
}

impl AIDifficulty {
    /// The level's place in the order from weakest to strongest, from 0.
    pub open spec fn spec_rank(self) -> int {
        match self {
            AIDifficulty::VeryEasy => 0,
            AIDifficulty::Easy => 1,
            AIDifficulty::Normal => 2,
            AIDifficulty::Hard => 3,
            AIDifficulty::VeryHard => 4,
        }
    }

    /// The level's place in the order from weakest to strongest, from 0.
    pub fn rank(self) -> (rank: u8)
        ensures
            rank == self.spec_rank(),
    {
        match self {
            AIDifficulty::VeryEasy => 0,
            AIDifficulty::Easy => 1,
            AIDifficulty::Normal => 2,
            AIDifficulty::Hard => 3,
            AIDifficulty::VeryHard => 4,
        }
    }

    /// The level at a place in the order; the strongest for a place past the
    /// end.
    pub fn from_rank(rank: u8) -> (level: AIDifficulty)
        ensures
            rank <= 4 ==> level.spec_rank() == rank,
            rank > 4 ==> level == AIDifficulty::VeryHard,
    {
        if rank == 0 {
            AIDifficulty::VeryEasy
        } else if rank == 1 {
            AIDifficulty::Easy
        } else if rank == 2 {
            AIDifficulty::Normal
        } else if rank == 3 {
            AIDifficulty::Hard
        } else {
            AIDifficulty::VeryHard
        }
    }

    /// Whether this level is weaker than `other`.
    pub fn weaker_than(self, other: AIDifficulty) -> (yes: bool)
        ensures
            yes == (self.spec_rank() < other.spec_rank()),
    {
        self.rank() < other.rank()
    }
}

/// The level for a difficulty multiplier: very easy up to three tenths,
/// easy up to a half, normal up to four fifths, hard up to six fifths, and
/// very hard beyond.
pub open spec fn level_for<T: Scalar>(multiplier: T) -> AIDifficulty {
    if multiplier.within(T::ratio(3, 10)) {
        AIDifficulty::VeryEasy
    } else if multiplier.within(T::ratio(1, 2)) {
        AIDifficulty::Easy
    } else if multiplier.within(T::ratio(4, 5)) {
        AIDifficulty::Normal
    } else if multiplier.within(T::ratio(6, 5)) {
        AIDifficulty::Hard
    } else {
        AIDifficulty::VeryHard
    }
}

/// How much slower than normal an agent of a level reacts.
pub open spec fn reaction_of<T: Scalar>(level: AIDifficulty) -> T {
    match level {
        AIDifficulty::VeryEasy => T::ratio(2, 1),
        AIDifficulty::Easy => T::ratio(3, 2),
        AIDifficulty::Normal => T::ratio(1, 1),
        AIDifficulty::Hard => T::ratio(7, 10),
        AIDifficulty::VeryHard => T::ratio(1, 2),
    }
}

/// How well an agent of a level aims.
pub open spec fn accuracy_of<T: Scalar>(level: AIDifficulty) -> T {
    match level {
        AIDifficulty::VeryEasy => T::ratio(3, 10),
        AIDifficulty::Easy => T::ratio(1, 2),
        AIDifficulty::Normal => T::ratio(7, 10),
        AIDifficulty::Hard => T::ratio(9, 10),
        AIDifficulty::VeryHard => T::ratio(95, 100),
    }
}

/// How far an agent of a level looks ahead.
pub open spec fn prediction_of<T: Scalar>(level: AIDifficulty) -> T {
    match level {
        AIDifficulty::VeryEasy => T::ratio(0, 1),
        AIDifficulty::Easy => T::ratio(1, 5),
        AIDifficulty::Normal => T::ratio(1, 2),
        AIDifficulty::Hard => T::ratio(4, 5),
        AIDifficulty::VeryHard => T::ratio(1, 1),
    }
}

impl AIDifficulty {
    /// The level for a difficulty multiplier.
    pub fn from_multiplier<T: Scalar>(multiplier: T) -> (level: AIDifficulty)
        ensures
            level == level_for(multiplier),
    {
        if multiplier.at_most(T::from_ratio(3, 10)) {
            AIDifficulty::VeryEasy
        } else if multiplier.at_most(T::from_ratio(1, 2)) {
            AIDifficulty::Easy
        } else if multiplier.at_most(T::from_ratio(4, 5)) {
            AIDifficulty::Normal
        } else if multiplier.at_most(T::from_ratio(6, 5)) {
            AIDifficulty::Hard
        } else {
            AIDifficulty::VeryHard
        }
    }

    /// How much slower than normal the agent reacts.
    pub fn reaction_multiplier<T: Scalar>(&self) -> (factor: T)
        ensures
            factor == reaction_of::<T>(*self),
    {
        match self {
            AIDifficulty::VeryEasy => T::from_ratio(2, 1),
            AIDifficulty::Easy => T::from_ratio(3, 2),
            AIDifficulty::Normal => T::from_ratio(1, 1),
            AIDifficulty::Hard => T::from_ratio(7, 10),
            AIDifficulty::VeryHard => T::from_ratio(1, 2),
        }
    }

    /// How well the agent aims.
    pub fn accuracy_multiplier<T: Scalar>(&self) -> (factor: T)
        ensures
            factor == accuracy_of::<T>(*self),
    {
        match self {
            AIDifficulty::VeryEasy => T::from_ratio(3, 10),
            AIDifficulty::Easy => T::from_ratio(1, 2),
            AIDifficulty::Normal => T::from_ratio(7, 10),
            AIDifficulty::Hard => T::from_ratio(9, 10),
            AIDifficulty::VeryHard => T::from_ratio(95, 100),
        }
    }

    /// How far the agent looks ahead.
    pub fn prediction_ability<T: Scalar>(&self) -> (part: T)
        ensures
            part == prediction_of::<T>(*self),
    {
        match self {
            AIDifficulty::VeryEasy => T::from_ratio(0, 1),
            AIDifficulty::Easy => T::from_ratio(1, 5),
            AIDifficulty::Normal => T::from_ratio(1, 2),
            AIDifficulty::Hard => T::from_ratio(4, 5),
            AIDifficulty::VeryHard => T::from_ratio(1, 1),
        }
    }
}

/// What an agent is doing.
#[derive(Debug, Clone, PartialEq)]
pub enum AIState {
    Idle,
    Moving,
    Attacking,
    Defending,
    Patrolling,
    Chasing,
    Fleeing,
    /// A state of the game's own, by name.
    Custom(String),
}

/// What an agent knows of its target.
#[derive(Debug, Clone, Copy)]
pub struct AITarget<T> {
    pub position: Vector<T>,
    pub velocity: Vector<T>,
    pub distance: T,
    pub is_visible: bool,
    pub threat_level: T,
}

/// What an agent decides on.
#[derive(Debug, Clone)]
pub struct AIContext<T> {
    pub position: Vector<T>,
    pub velocity: Vector<T>,
    pub target: Option<AITarget<T>>,
    pub time: T,
    pub delta_time: T,
    pub difficulty: AIDifficulty,
    pub state: AIState,
    pub custom_data: StrMap<T>,
}

/// What an agent has decided.
#[derive(Debug, Clone)]
pub struct AIDecision<T> {
    pub desired_velocity: Vector<T>,
    pub desired_state: AIState,
    pub should_attack: bool,
    /// From nought to one; the higher the more important.
    pub priority: T,
    /// From nought to one: how sure the agent is.
    pub confidence: T,
}

/// An agent that chases its target and attacks it from near.
#[derive(Debug, Clone, Copy)]
pub struct ChaseAI<T> {
    pub move_speed: T,
    pub attack_range: T,
    pub prediction_time: T,
}

/// An agent that walks from waypoint to waypoint.
#[derive(Debug, Clone)]
pub struct PatrolAI<T> {
    pub waypoints: Vec<Vector<T>>,
    pub current_waypoint: usize,
    pub move_speed: T,
    pub waypoint_threshold: T,
}

/// The point where no coordinate is.
pub open spec fn origin<T: Scalar>() -> Vector<T> {
    Vector { x: T::ratio(0, 1), y: T::ratio(0, 1) }
}

/// The velocity of the given speed that leads from one point straight to
/// another.
pub open spec fn toward<T: Scalar>(from: Vector<T>, to: Vector<T>, speed: T) -> Vector<T> {
    Vector {
        x: to.x.difference(from.x).quotient(distance(to, from)).product(speed),
        y: to.y.difference(from.y).quotient(distance(to, from)).product(speed),
    }
}

/// A decision to do nothing in particular, in a state.
pub open spec fn plain_decision<T: Scalar>(state: AIState) -> AIDecision<T> {
    AIDecision {
        desired_velocity: origin(),
        desired_state: state,
        should_attack: false,
        priority: T::ratio(1, 2),
        confidence: T::ratio(1, 1),
    }
}

/// What a chasing agent decides: without a target it idles; within its
/// range of the target it stands and attacks; else it heads for where the
/// target will be after its prediction time.
pub open spec fn chase_decision<T: Scalar>(
    agent: ChaseAI<T>,
    position: Vector<T>,
    target: Option<AITarget<T>>,
) -> AIDecision<T> {
    match target {
        None => plain_decision(AIState::Idle),
        Some(target) => if distance(target.position, position).within(agent.attack_range) {
            AIDecision { should_attack: true, ..plain_decision(AIState::Attacking) }
        } else {
            AIDecision {
                desired_velocity: toward(
                    position,
                    advanced(target.position, target.velocity, agent.prediction_time),
                    agent.move_speed,
                ),
                ..plain_decision(AIState::Chasing)
            }
        },
    }
}

/// What a patrolling agent decides: without waypoints it idles; within its
/// threshold of its waypoint it heads for the next one, round the list;
/// else it heads for its waypoint.
pub open spec fn patrol_decision<T: Scalar>(
    waypoints: Seq<Vector<T>>,
    current: int,
    speed: T,
    threshold: T,
    position: Vector<T>,
) -> AIDecision<T> {
    if waypoints.len() == 0 {
        plain_decision(AIState::Idle)
    } else if distance(waypoints[current], position).within(threshold) {
        AIDecision {
            desired_velocity: toward(position, waypoints[(current + 1) % (waypoints.len() as int)], speed),
            ..plain_decision(AIState::Patrolling)
        }
    } else {
        AIDecision {
            desired_velocity: toward(position, waypoints[current], speed),
            ..plain_decision(AIState::Patrolling)
        }
    }
}

/// The distance between two points.
fn distance_between<T: Scalar>(a: Vector<T>, b: Vector<T>) -> (d: T)
    ensures
        d == distance(a, b),
{
    let dx = a.x.minus(b.x);
    let dy = a.y.minus(b.y);
    dx.times(dx).plus(dy.times(dy)).sqrt()
}

/// The velocity of the given speed that leads from one point straight to
/// another.
fn head_for<T: Scalar>(from: Vector<T>, to: Vector<T>, speed: T) -> (velocity: Vector<T>)
    ensures
        velocity == toward(from, to, speed),
{
    let length = distance_between(to, from);
    Vector { x: to.x.minus(from.x).over(length).times(speed), y: to.y.minus(from.y).over(length).times(speed) }
}

impl<T: Scalar> AITarget<T> {
    /// A visible target of threat one, seen from `ai_position`.
    pub fn new(position: Vector<T>, velocity: Vector<T>, ai_position: Vector<T>) -> (target: Self)
        ensures
            target == (AITarget {
                position,
                velocity,
                distance: distance(position, ai_position),
                is_visible: true,
                threat_level: T::ratio(1, 1),
            }),
    {
        AITarget {
            position,
            velocity,
            distance: distance_between(position, ai_position),
            is_visible: true,
            threat_level: T::from_ratio(1, 1),
        }
    }

    /// Where the target will be after `time_ahead` at its velocity.
    pub fn predict_position(&self, time_ahead: T) -> (position: Vector<T>)
        ensures
            position == advanced(self.position, self.velocity, time_ahead),
    {
        Vector {
            x: self.position.x.plus(self.velocity.x.times(time_ahead)),
            y: self.position.y.plus(self.velocity.y.times(time_ahead)),
        }
    }
}

impl<T: Scalar> AIContext<T> {
    /// The context of an idle agent without a target, at time nought.
    pub fn new(position: Vector<T>, velocity: Vector<T>, difficulty: AIDifficulty) -> (context: Self)
        ensures
            context.position == position,
            context.velocity == velocity,
            context.target is None,
            context.time == T::ratio(0, 1),
            context.delta_time == T::ratio(0, 1),
            context.difficulty == difficulty,
            context.state == AIState::Idle,
            context.custom_data.wf(),
            context.custom_data@ == Map::<Seq<char>, T>::empty(),
    {
        AIContext {
            position,
            velocity,
            target: None,
            time: T::from_ratio(0, 1),
            delta_time: T::from_ratio(0, 1),
            difficulty,
            state: AIState::Idle,
            custom_data: StrMap::new(),
        }
    }

    /// The context with a target.
    pub fn with_target(self, target: AITarget<T>) -> (context: Self)
        ensures
            context == (AIContext { target: Some(target), ..self }),
    {
        let mut context = self;
        context.target = Some(target);
        context
    }

    /// Keeps a number of the game's own under a name.
    pub fn set_custom_data(&mut self, key: &str, value: T)
        requires
            old(self).custom_data.wf(),
        ensures
            final(self).custom_data.wf(),
            final(self).custom_data@ == old(self).custom_data@.insert(key@, value),
            final(self).position == old(self).position,
            final(self).velocity == old(self).velocity,
            final(self).target == old(self).target,
            final(self).time == old(self).time,
            final(self).delta_time == old(self).delta_time,
            final(self).difficulty == old(self).difficulty,
            final(self).state == old(self).state,
    {
        self.custom_data.insert(key, value);
    }

    /// The number under a name; nought where there is none.
    pub fn get_custom_data(&self, key: &str) -> (value: T)
        requires
            self.custom_data.wf(),
        ensures
            value == (if self.custom_data@.dom().contains(key@) {
                self.custom_data@[key@]
            } else {
                T::ratio(0, 1)
            }),
    {
        match self.custom_data.get(key) {
            Some(value) => *value,
            None => T::from_ratio(0, 1),
        }
    }
}

impl<T: Scalar> AIDecision<T> {
    /// The decision to idle.
    pub fn new() -> (decision: Self)
        ensures
            decision == plain_decision::<T>(AIState::Idle),
    {
        AIDecision {
            desired_velocity: Vector { x: T::from_ratio(0, 1), y: T::from_ratio(0, 1) },
            desired_state: AIState::Idle,
            should_attack: false,
            priority: T::from_ratio(1, 2),
            confidence: T::from_ratio(1, 1),
        }
    }

    /// The decision with another velocity.
    pub fn with_velocity(self, velocity: Vector<T>) -> (decision: Self)
        ensures
            decision == (AIDecision { desired_velocity: velocity, ..self }),
    {
        let mut decision = self;
        decision.desired_velocity = velocity;
        decision
    }

    /// The decision with another state.
    pub fn with_state(self, state: AIState) -> (decision: Self)
        ensures
            decision == (AIDecision { desired_state: state, ..self }),
    {
        let mut decision = self;
        decision.desired_state = state;
        decision
    }

    /// The decision to attack or not.
    pub fn with_attack(self, attack: bool) -> (decision: Self)
        ensures
            decision == (AIDecision { should_attack: attack, ..self }),
    {
        let mut decision = self;
        decision.should_attack = attack;
        decision
    }
}

impl<T: Scalar> ChaseAI<T> {
    /// A chasing agent that looks half a second ahead.
    pub fn new(move_speed: T, attack_range: T) -> (agent: Self)
        ensures
            agent == (ChaseAI { move_speed, attack_range, prediction_time: T::ratio(1, 2) }),
    {
        ChaseAI { move_speed, attack_range, prediction_time: T::from_ratio(1, 2) }
    }

    /// The agent at a level: it looks ahead by half of what the level can.
    pub fn with_difficulty(self, difficulty: AIDifficulty) -> (agent: Self)
        ensures
            agent == (ChaseAI {
                prediction_time: prediction_of::<T>(difficulty).product(T::ratio(1, 2)),
                ..self
            }),
    {
        let mut agent = self;
        agent.prediction_time = difficulty.prediction_ability::<T>().times(T::from_ratio(1, 2));
        agent
    }

    /// What the agent decides.
    pub fn decide(&self, context: &AIContext<T>) -> (decision: AIDecision<T>)
        ensures
            decision == chase_decision(*self, context.position, context.target),
    {
        match &context.target {
            Some(target) => {
                if distance_between(target.position, context.position).at_most(self.attack_range) {
                    AIDecision::new().with_state(AIState::Attacking).with_attack(true)
                } else {
                    let predicted = target.predict_position(self.prediction_time);
                    AIDecision::new().with_state(AIState::Chasing).with_velocity(
                        head_for(context.position, predicted, self.move_speed),
                    )
                }
            },
            None => AIDecision::new(),
        }
    }

    /// The kind of behaviour.
    pub fn get_behavior_type(&self) -> (kind: AIBehavior)
        ensures
            kind == AIBehavior::Chase,
    {
        AIBehavior::Chase
    }
}

impl<T: Scalar> PatrolAI<T> {
    /// Whether the waypoint that the agent walks to is one of its
    /// waypoints.
    pub open spec fn wf(&self) -> bool {
        self.waypoints@.len() > 0 ==> self.current_waypoint < self.waypoints@.len()
    }

    /// A patrolling agent at its first waypoint, with a threshold of ten.
    pub fn new(waypoints: Vec<Vector<T>>, move_speed: T) -> (agent: Self)
        ensures
            agent.wf(),
            agent.waypoints == waypoints,
            agent.current_waypoint == 0,
            agent.move_speed == move_speed,
            agent.waypoint_threshold == T::ratio(10, 1),
    {
        PatrolAI {
            waypoints,
            current_waypoint: 0,
            move_speed,
            waypoint_threshold: T::from_ratio(10, 1),
        }
    }

    /// The agent at a level: its threshold grows with the reaction
    /// multiplier of the level.
    pub fn with_difficulty(self, difficulty: AIDifficulty) -> (agent: Self)
        ensures
            agent == (PatrolAI {
                waypoint_threshold: self.waypoint_threshold.product(reaction_of::<T>(difficulty)),
                ..self
            }),
    {
        let mut agent = self;
        agent.waypoint_threshold = agent.waypoint_threshold.times(
            difficulty.reaction_multiplier::<T>(),
        );
        agent
    }

    /// Whether the waypoint that the agent walks to is one of its
    /// waypoints.
    pub fn is_valid(&self) -> (yes: bool)
        ensures
            yes == self.wf(),
    {
        self.waypoints.len() == 0 || self.current_waypoint < self.waypoints.len()
    }

    /// What the agent decides.
    pub fn decide(&self, context: &AIContext<T>) -> (decision: AIDecision<T>)
        requires
            self.wf(),
        ensures
            decision == patrol_decision(
                self.waypoints@,
                self.current_waypoint as int,
                self.move_speed,
                self.waypoint_threshold,
                context.position,
            ),
    {
        if self.waypoints.len() == 0 {
            return AIDecision::new();
        }
        let waypoint = self.waypoints[self.current_waypoint];
        let goal = if distance_between(waypoint, context.position).at_most(self.waypoint_threshold) {
            let next = (self.current_waypoint + 1) % self.waypoints.len();
            self.waypoints[next]
        } else {
            waypoint
        };
        AIDecision::new().with_state(AIState::Patrolling).with_velocity(
            head_for(context.position, goal, self.move_speed),
        )
    }

    /// The kind of behaviour.
    pub fn get_behavior_type(&self) -> (kind: AIBehavior)
        ensures
            kind == AIBehavior::Patrol,
    {
        AIBehavior::Patrol
    }
}

/// A chaser of speed one hundred and range fifty, at a level.
pub fn create_chaser_ai<T: Scalar>(difficulty: AIDifficulty) -> (agent: ChaseAI<T>)
    ensures
        agent == (ChaseAI {
            move_speed: T::ratio(100, 1),
            attack_range: T::ratio(50, 1),
            prediction_time: prediction_of::<T>(difficulty).product(T::ratio(1, 2)),
        }),
{
    ChaseAI::new(T::from_ratio(100, 1), T::from_ratio(50, 1)).with_difficulty(difficulty)
}

/// A guard of speed seventy-five that walks the waypoints, at a level.
pub fn create_guard_ai<T: Scalar>(waypoints: Vec<Vector<T>>, difficulty: AIDifficulty) -> (agent:
    PatrolAI<T>)
    ensures
        agent.wf(),
        agent.waypoints == waypoints,
        agent.current_waypoint == 0,
        agent.move_speed == T::ratio(75, 1),
        agent.waypoint_threshold == T::ratio(10, 1).product(reaction_of::<T>(difficulty)),
{
    PatrolAI::new(waypoints, T::from_ratio(75, 1)).with_difficulty(difficulty)
}

/// An agent that moves a paddle after the ball, late and off the mark as
/// its level has it.
#[derive(Debug, Clone, Copy)]
pub struct PongPaddleAI<T> {
    pub paddle_speed: T,
    pub reaction_delay: T,
    pub last_decision_time: T,
}

/// The size of a number without its sign.
pub open spec fn size_of<T: Scalar>(x: T) -> T {
    x.larger(x.negated())
}

/// By how much the paddle agent misses at a time and a level: the sine of
/// twice the time, times twenty for each part of one that its accuracy
/// lacks.
pub open spec fn aim_error<T: Scalar>(time: T, level: AIDifficulty) -> T {
    time.product(T::ratio(2, 1)).sine().product(T::ratio(1, 1).difference(accuracy_of::<T>(level))).product(
        T::ratio(20, 1),
    )
}

/// The velocity of the paddle agent for a ball at the height `ball`: still
/// within five of it; else up or down at its speed times the reaction
/// multiplier of its level, towards the ball as the agent sees it.
pub open spec fn paddle_velocity<T: Scalar>(
    agent: PongPaddleAI<T>,
    paddle: T,
    ball: T,
    time: T,
    level: AIDifficulty,
) -> Vector<T> {
    if T::ratio(5, 1).below(size_of(ball.difference(paddle))) {
        Vector {
            x: T::ratio(0, 1),
            y: (if paddle.below(ball.sum(aim_error(time, level))) {
                T::ratio(1, 1)
            } else {
                T::ratio(-1i32, 1)
            }).product(agent.paddle_speed.product(reaction_of::<T>(level))),
        }
    } else {
        origin()
    }
}

/// What the paddle agent decides: without a target it moves as it is; while
/// its reaction delay has not passed it keeps its velocity; else it follows
/// the ball.
pub open spec fn paddle_decision<T: Scalar>(
    agent: PongPaddleAI<T>,
    position: Vector<T>,
    velocity: Vector<T>,
    target: Option<AITarget<T>>,
    time: T,
    level: AIDifficulty,
) -> AIDecision<T> {
    match target {
        None => plain_decision(AIState::Moving),
        Some(target) => if time.difference(agent.last_decision_time).below(agent.reaction_delay) {
            AIDecision { desired_velocity: velocity, ..plain_decision(AIState::Moving) }
        } else {
            AIDecision {
                desired_velocity: paddle_velocity(agent, position.y, target.position.y, time, level),
                ..plain_decision(AIState::Moving)
            }
        },
    }
}

impl<T: Scalar> PongPaddleAI<T> {
    /// A paddle agent that reacts at once.
    pub fn new(paddle_speed: T) -> (agent: Self)
        ensures
            agent == (PongPaddleAI {
                paddle_speed,
                reaction_delay: T::ratio(0, 1),
                last_decision_time: T::ratio(0, 1),
            }),
    {
        PongPaddleAI {
            paddle_speed,
            reaction_delay: T::from_ratio(0, 1),
            last_decision_time: T::from_ratio(0, 1),
        }
    }

    /// The agent at a level: it reacts after a tenth of the reaction
    /// multiplier of the level.
    pub fn with_difficulty(self, difficulty: AIDifficulty) -> (agent: Self)
        ensures
            agent == (PongPaddleAI {
                reaction_delay: reaction_of::<T>(difficulty).product(T::ratio(1, 10)),
                ..self
            }),
    {
        let mut agent = self;
        agent.reaction_delay = difficulty.reaction_multiplier::<T>().times(T::from_ratio(1, 10));
        agent
    }

    /// What the agent decides.
    pub fn decide(&self, context: &AIContext<T>) -> (decision: AIDecision<T>)
        ensures
            decision == paddle_decision(
                *self,
                context.position,
                context.velocity,
                context.target,
                context.time,
                context.difficulty,
            ),
    {
        let decision = AIDecision::new().with_state(AIState::Moving);
        match &context.target {
            None => decision,
            Some(target) => {
                if context.time.minus(self.last_decision_time).less_than(self.reaction_delay) {
                    return decision.with_velocity(context.velocity);
                }
                let paddle = context.position.y;
                let ball = target.position.y;
                let apart = ball.minus(paddle);
                if T::from_ratio(5, 1).less_than(apart.max_of(apart.neg())) {
                    let speed = self.paddle_speed.times(context.difficulty.reaction_multiplier::<T>());
                    let accuracy = context.difficulty.accuracy_multiplier::<T>();
                    let error = context.time.times(T::from_ratio(2, 1)).sin().times(
                        T::from_ratio(1, 1).minus(accuracy),
                    ).times(T::from_ratio(20, 1));
                    let direction = if paddle.less_than(ball.plus(error)) {
                        T::from_ratio(1, 1)
                    } else {
                        T::from_ratio(-1, 1)
                    };
                    decision.with_velocity(Vector { x: T::from_ratio(0, 1), y: direction.times(speed) })
                } else {
                    decision
                }
            },
        }
    }

    /// The kind of behaviour.
    pub fn get_behavior_type(&self) -> (kind: AIBehavior)
        ensures
            kind == AIBehavior::Follow,
    {
        AIBehavior::Follow
    }
}

/// A standard paddle agent, of speed three hundred and fifty, at a level.
pub fn create_pong_ai<T: Scalar>(difficulty: AIDifficulty) -> (agent: PongPaddleAI<T>)
    ensures
        agent == (PongPaddleAI {
            paddle_speed: T::ratio(350, 1),
            reaction_delay: reaction_of::<T>(difficulty).product(T::ratio(1, 10)),
            last_decision_time: T::ratio(0, 1),
        }),
{
    PongPaddleAI::new(T::from_ratio(350, 1)).with_difficulty(difficulty)
}

/// An agent of one of the kinds that the engine knows.
#[derive(Debug, Clone)]
pub enum Agent<T> {
    Pong(PongPaddleAI<T>),
    Chase(ChaseAI<T>),
    Patrol(PatrolAI<T>),
}

/// What an agent decides in a context.
pub open spec fn agent_decision<T: Scalar>(agent: Agent<T>, context: AIContext<T>) -> AIDecision<T> {
    match agent {
        Agent::Pong(paddle) => paddle_decision(
            paddle,
            context.position,
            context.velocity,
            context.target,
            context.time,
            context.difficulty,
        ),
        Agent::Chase(chaser) => chase_decision(chaser, context.position, context.target),
        Agent::Patrol(patrol) => patrol_decision(
            patrol.waypoints@,
            patrol.current_waypoint as int,
            patrol.move_speed,
            patrol.waypoint_threshold,
            context.position,
        ),
    }
}

impl<T: Scalar> Agent<T> {
    /// Whether the agent can decide: a patrol walks to one of its
    /// waypoints.
    pub open spec fn wf(&self) -> bool {
        match self {
            Agent::Patrol(patrol) => patrol.wf(),
            _ => true,
        }
    }

    /// Whether the agent can decide.
    pub fn is_valid(&self) -> (yes: bool)
        ensures
            yes == self.wf(),
    {
        match self {
            Agent::Patrol(patrol) => patrol.is_valid(),
            _ => true,
        }
    }

    /// What the agent decides.
    pub fn decide(&self, context: &AIContext<T>) -> (decision: AIDecision<T>)
        requires
            self.wf(),
        ensures
            decision == agent_decision(*self, *context),
    {
        match self {
            Agent::Pong(paddle) => paddle.decide(context),
            Agent::Chase(chaser) => chaser.decide(context),
            Agent::Patrol(patrol) => patrol.decide(context),
        }
    }

    /// The kind of behaviour.
    pub fn get_behavior_type(&self) -> (kind: AIBehavior)
        ensures
            kind == (match self {
                Agent::Pong(_) => AIBehavior::Follow,
                Agent::Chase(_) => AIBehavior::Chase,
                Agent::Patrol(_) => AIBehavior::Patrol,
            }),
    {
        match self {
            Agent::Pong(paddle) => paddle.get_behavior_type(),
            Agent::Chase(chaser) => chaser.get_behavior_type(),
            Agent::Patrol(patrol) => patrol.get_behavior_type(),
        }
    }
}

/// The length of the tick that an agent is told of with its context: a
/// sixtieth of a second, near enough.
pub open spec fn told_tick<T: Scalar>() -> T {
    T::ratio(16, 1000)
}

/// A context once its agent has been told where it is and what it sees: a
/// tick later.
pub open spec fn told<T: Scalar>(
    context: AIContext<T>,
    position: Vector<T>,
    velocity: Vector<T>,
    target: Option<AITarget<T>>,
) -> AIContext<T> {
    AIContext {
        position,
        velocity,
        target,
        delta_time: told_tick(),
        time: context.time.sum(told_tick()),
        ..context
    }
}

/// A context after `delta_time`.
pub open spec fn ticked<T: Scalar>(context: AIContext<T>, delta_time: T) -> AIContext<T> {
    AIContext { delta_time, time: context.time.sum(delta_time), ..context }
}

/// Whether a context is that of an agent which is told for the first time
/// where it is and what it sees.
pub open spec fn first_told<T: Scalar>(
    context: AIContext<T>,
    position: Vector<T>,
    velocity: Vector<T>,
    target: Option<AITarget<T>>,
) -> bool {
    &&& context.position == position
    &&& context.velocity == velocity
    &&& context.target == target
    &&& context.delta_time == told_tick::<T>()
    &&& context.time == T::ratio(0, 1).sum(told_tick())
    &&& context.difficulty == AIDifficulty::Normal
    &&& context.state == AIState::Idle
    &&& context.custom_data.wf()
    &&& context.custom_data@ == Map::<Seq<char>, T>::empty()
}

/// The agents of a game and what each of them sees, by name.
pub struct AISystem<T> {
    agents: StrMap<Agent<T>>,
    contexts: StrMap<AIContext<T>>,
}

impl<T: Scalar> AISystem<T> {
    /// The agents, by name.
    pub closed spec fn agents(&self) -> Map<Seq<char>, Agent<T>> {
        self.agents@
    }

    /// What the agents see, by name.
    pub closed spec fn contexts(&self) -> Map<Seq<char>, AIContext<T>> {
        self.contexts@
    }

    /// The names of the agents, in the order in which they were first
    /// used.
    pub closed spec fn names(&self) -> Seq<Seq<char>> {
        crate::str_map::names_of(self.agents.pairs())
    }

    /// No name holds two agents or two contexts, and every agent can
    /// decide.
    pub closed spec fn wf(&self) -> bool {
        &&& self.agents.wf()
        &&& self.contexts.wf()
        &&& forall|i: int| 0 <= i < self.agents.pairs().len() ==> (#[trigger] self.agents.pairs()[i]).1.wf()
    }

    /// In a well-formed system every agent can decide.
    pub proof fn lemma_agents_can_decide(&self)
        requires
            self.wf(),
        ensures
            forall|name: Seq<char>| self.agents().dom().contains(name) ==> (#[trigger] self.agents()[name]).wf(),
    {
        self.agents.lemma_view();
        assert forall|name: Seq<char>| self.agents().dom().contains(name) implies (#[trigger] self.agents()[name]).wf() by {
            self.agents.lemma_place(name);
            let i = place_in(self.agents.pairs(), name);
            assert(self.agents.pairs()[i].1.wf());
        }
    }

    /// A system without agents.
    pub fn new() -> (system: Self)
        ensures
            system.wf(),
            system.agents() == Map::<Seq<char>, Agent<T>>::empty(),
            system.contexts() == Map::<Seq<char>, AIContext<T>>::empty(),
    {
        AISystem { agents: StrMap::new(), contexts: StrMap::new() }
    }

    /// Puts an agent under a name, in place of the one that was there.
    pub fn register_agent(&mut self, id: &str, agent: Agent<T>)
        requires
            old(self).wf(),
            agent.wf(),
        ensures
            final(self).wf(),
            final(self).agents() == old(self).agents().insert(id@, agent),
            final(self).contexts() == old(self).contexts(),
    {
        proof {
            self.agents.lemma_view();
        }
        self.agents.insert(id, agent);
        proof {
            self.agents.lemma_view();
            assert forall|i: int| 0 <= i < self.agents.pairs().len() implies (#[trigger] self.agents.pairs()[i]).1.wf() by {
                let name = self.agents.pairs()[i].0@;
                assert(self.agents@.dom().contains(name));
                assert(self.agents@[name] == self.agents.pairs()[i].1);
                if name != id@ {
                    assert(old(self).agents@.dom().contains(name));
                    old(self).agents.lemma_place(name);
                    let k = place_in(old(self).agents.pairs(), name);
                    assert(old(self).agents.pairs()[k].1.wf());
                }
            }
        }
    }

    /// Puts a paddle agent of a speed and a level under a name.
    pub fn register_pong_ai(&mut self, id: &str, paddle_speed: T, difficulty: AIDifficulty)
        requires
            old(self).wf(),
        ensures
            final(self).wf(),
            final(self).agents() == old(self).agents().insert(
                id@,
                Agent::Pong(
                    PongPaddleAI {
                        paddle_speed,
                        reaction_delay: reaction_of::<T>(difficulty).product(T::ratio(1, 10)),
                        last_decision_time: T::ratio(0, 1),
                    },
                ),
            ),
            final(self).contexts() == old(self).contexts(),
    {
        self.register_agent(id, Agent::Pong(PongPaddleAI::new(paddle_speed).with_difficulty(difficulty)));
    }

    /// Puts a chasing agent of a speed, a range and a level under a name.
    pub fn register_chase_ai(&mut self, id: &str, move_speed: T, attack_range: T, difficulty: AIDifficulty)
        requires
            old(self).wf(),
        ensures
            final(self).wf(),
            final(self).agents() == old(self).agents().insert(
                id@,
                Agent::Chase(
                    ChaseAI {
                        move_speed,
                        attack_range,
                        prediction_time: prediction_of::<T>(difficulty).product(T::ratio(1, 2)),
                    },
                ),
            ),
            final(self).contexts() == old(self).contexts(),
    {
        self.register_agent(
            id,
            Agent::Chase(ChaseAI::new(move_speed, attack_range).with_difficulty(difficulty)),
        );
    }

    /// Puts a patrolling agent of a speed and a level under a name, at
    /// the first of its waypoints.
    pub fn register_patrol_ai(
        &mut self,
        id: &str,
        waypoints: Vec<Vector<T>>,
        move_speed: T,
        difficulty: AIDifficulty,
    )
        requires
            old(self).wf(),
        ensures
            final(self).wf(),
            final(self).agents().dom() == old(self).agents().dom().insert(id@),
            final(self).agents()[id@] matches Agent::Patrol(patrol) && patrol.waypoints == waypoints
                && patrol.current_waypoint == 0 && patrol.move_speed == move_speed
                && patrol.waypoint_threshold == T::ratio(10, 1).product(reaction_of::<T>(difficulty)),
            forall|name: Seq<char>|
                old(self).agents().dom().contains(name) && name != id@ ==> #[trigger] final(self).agents()[name] == old(self).agents()[name],
            final(self).contexts() == old(self).contexts(),
    {
        self.register_agent(
            id,
            Agent::Patrol(PatrolAI::new(waypoints, move_speed).with_difficulty(difficulty)),
        );
    }

    /// Tells the agent under a name where it is and what it sees, a tick
    /// after it was told last. An agent that is told for the first time
    /// begins at the normal level.
    pub fn update_context(
        &mut self,
        id: &str,
        position: Vector<T>,
        velocity: Vector<T>,
        target: Option<AITarget<T>>,
    )
        requires
            old(self).wf(),
        ensures
            final(self).wf(),
            final(self).agents() == old(self).agents(),
            final(self).contexts().dom() == old(self).contexts().dom().insert(id@),
            forall|name: Seq<char>|
                old(self).contexts().dom().contains(name) && name != id@ ==> #[trigger] final(self).contexts()[name] == old(self).contexts()[name],
            if old(self).contexts().dom().contains(id@) {
                final(self).contexts()[id@] == told(old(self).contexts()[id@], position, velocity, target)
            } else {
                first_told(final(self).contexts()[id@], position, velocity, target)
            },
    {
        if !self.contexts.contains_key(id) {
            self.contexts.insert(id, AIContext::new(position, velocity, AIDifficulty::Normal));
        }
        let ghost held = self.contexts@;
        let place = self.contexts.position(id);
        let context = self.contexts.value_at_mut(place.unwrap());
        context.position = position;
        context.velocity = velocity;
        context.target = target;
        context.delta_time = T::from_ratio(16, 1000);
        context.time = context.time.plus(context.delta_time);
        proof {
            assert(final(self).contexts@.dom() =~= old(self).contexts@.dom().insert(id@));
        }
    }

    /// Sets the level of the agent under a name, where it has been told
    /// what it sees.
    pub fn set_agent_difficulty(&mut self, id: &str, difficulty: AIDifficulty)
        requires
            old(self).wf(),
        ensures
            final(self).wf(),
            final(self).agents() == old(self).agents(),
            final(self).contexts().dom() == old(self).contexts().dom(),
            forall|name: Seq<char>|
                old(self).contexts().dom().contains(name) && name != id@ ==> #[trigger] final(self).contexts()[name] == old(self).contexts()[name],
            old(self).contexts().dom().contains(id@) ==> final(self).contexts()[id@] == (AIContext {
                difficulty,
                ..old(self).contexts()[id@]
            }),
    {
        match self.contexts.position(id) {
            Some(place) => {
                let context = self.contexts.value_at_mut(place);
                context.difficulty = difficulty;
                proof {
                    assert(final(self).contexts@.dom() =~= old(self).contexts@.dom());
                }
            },
            None => {},
        }
    }

    /// What the agent under a name decides, where there is one and it has
    /// been told what it sees.
    pub fn get_decision(&self, id: &str) -> (decision: Option<AIDecision<T>>)
        requires
            self.wf(),
        ensures
            decision == (if self.agents().dom().contains(id@) && self.contexts().dom().contains(id@) {
                Some(agent_decision(self.agents()[id@], self.contexts()[id@]))
            } else {
                None
            }),
    {
        proof {
            self.lemma_agents_can_decide();
        }
        match self.agents.get(id) {
            None => None,
            Some(agent) => match self.contexts.get(id) {
                None => None,
                Some(context) => Some(agent.decide(context)),
            },
        }
    }

    /// Lets `delta_time` pass for every agent that has been told what it
    /// sees.
    pub fn update_all(&mut self, delta_time: T)
        requires
            old(self).wf(),
        ensures
            final(self).wf(),
            final(self).agents() == old(self).agents(),
            final(self).contexts().dom() == old(self).contexts().dom(),
            forall|name: Seq<char>|
                old(self).contexts().dom().contains(name) ==> #[trigger] final(self).contexts()[name]
                    == ticked(old(self).contexts()[name], delta_time),
    {
        let ghost all = self.contexts.pairs();
        proof {
            self.contexts.lemma_view();
        }
        let mut i: usize = 0;
        while i < self.contexts.len()
            invariant
                self.agents == old(self).agents,
                self.contexts.wf(),
                all == old(self).contexts.pairs(),
                self.contexts.pairs().len() == all.len(),
                i <= all.len(),
                forall|k: int| 0 <= k < all.len() ==> (#[trigger] self.contexts.pairs()[k]).0 == all[k].0,
                forall|k: int|
                    0 <= k < i ==> (#[trigger] self.contexts.pairs()[k]).1 == ticked(all[k].1, delta_time),
                forall|k: int| i <= k < all.len() ==> (#[trigger] self.contexts.pairs()[k]).1 == all[k].1,
            decreases all.len() - i,
        {
            let context = self.contexts.value_at_mut(i);
            context.delta_time = delta_time;
            context.time = context.time.plus(delta_time);
            i = i + 1;
        }
        proof {
            self.contexts.lemma_view();
            old(self).contexts.lemma_view();
            assert forall|name: Seq<char>| final(self).contexts@.dom().contains(name) == old(self).contexts@.dom().contains(name) by {
                if final(self).contexts@.dom().contains(name) {
                    self.contexts.lemma_place(name);
                    let k = place_in(self.contexts.pairs(), name);
                    assert(all[k].0@ == name);
                    assert(old(self).contexts@.dom().contains(all[k].0@));
                }
                if old(self).contexts@.dom().contains(name) {
                    old(self).contexts.lemma_place(name);
                    let k = place_in(all, name);
                    assert(self.contexts.pairs()[k].0@ == name);
                    assert(self.contexts@.dom().contains(self.contexts.pairs()[k].0@));
                }
            }
            assert(final(self).contexts@.dom() =~= old(self).contexts@.dom());
            assert forall|name: Seq<char>| old(self).contexts@.dom().contains(name) implies #[trigger] final(self).contexts@[name] == ticked(old(self).contexts@[name], delta_time) by {
                old(self).contexts.lemma_place(name);
                let k = place_in(all, name);
                assert(self.contexts.pairs()[k].0@ == name);
                assert(self.contexts.pairs()[k].1 == ticked(all[k].1, delta_time));
                assert(self.contexts@[self.contexts.pairs()[k].0@] == self.contexts.pairs()[k].1);
            }
        }
    }

    /// Takes the agent under a name away, with what it sees.
    pub fn remove_agent(&mut self, id: &str)
        requires
            old(self).wf(),
        ensures
            final(self).wf(),
            final(self).agents() == old(self).agents().remove(id@),
            final(self).contexts() == old(self).contexts().remove(id@),
    {
        proof {
            self.lemma_agents_can_decide();
        }
        self.agents.remove(id);
        self.contexts.remove(id);
        proof {
            self.agents.lemma_view();
            assert forall|i: int| 0 <= i < self.agents.pairs().len() implies (#[trigger] self.agents.pairs()[i]).1.wf() by {
                let name = self.agents.pairs()[i].0@;
                assert(self.agents@.dom().contains(name));
                assert(old(self).agents@.dom().contains(name));
                assert(self.agents@[name] == self.agents.pairs()[i].1);
                assert(old(self).agents()[name].wf());
            }
        }
    }

    /// The names of the agents, in the order in which they were first
    /// used.
    pub fn get_agent_ids(&self) -> (ids: Vec<String>)
        ensures
            ids@.len() == self.names().len(),
            forall|i: int| 0 <= i < ids@.len() ==> (#[trigger] ids@[i])@ == self.names()[i],
    {
        let ids = self.agents.keys();
        proof {
            let names = Seq::new(ids@.len(), |i: int| ids@[i]@);
            assert(names.len() == self.names().len());
            assert forall|i: int| 0 <= i < ids@.len() implies (#[trigger] ids@[i])@ == self.names()[i] by {
                assert(names[i] == ids@[i]@);
            }
        }
        ids
    }

    /// Whether a name holds an agent.
    pub fn has_agent(&self, id: &str) -> (yes: bool)
        requires
            self.wf(),
        ensures
            yes == self.agents().dom().contains(id@),
    {
        self.agents.contains_key(id)
    }
}

impl<T: Scalar> Default for AISystem<T> {
    fn default() -> (system: Self)
        ensures
            system.wf(),
            system.agents() == Map::<Seq<char>, Agent<T>>::empty(),
            system.contexts() == Map::<Seq<char>, AIContext<T>>::empty(),
    {
        AISystem::new()
    }
}

} // verus!
