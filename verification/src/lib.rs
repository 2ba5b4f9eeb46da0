//! A small 2D game engine core: a fixed-timestep driver, the life of
//! entities on a `specs` world, the ordering of systems, a physics and a
//! collision step over any number type, and the rules, menus, scores and
//! effects of the ball games, each with a machine-checked contract.

pub mod bitmap_font;
pub mod breakout;
pub mod collision;
pub mod components;
pub mod difficulty;
pub mod ecs;
pub mod enhanced_ai;
pub mod events;
pub mod font;
pub mod game;
pub mod game_loop;
pub mod game_state;
pub mod input;
pub mod input_window;
pub mod menu;
pub mod num;
pub mod particles;
pub mod physics;
pub mod pipeline;
pub mod pong;
pub mod renderer_2d;
pub mod resources;
pub mod scoring;
pub mod str_map;
pub mod systems;
pub mod trail_system;
pub mod ui;
pub mod visual_effects;
pub mod window;

pub use components::Ball;
pub use components::Brick;
pub use components::EnemyType;
pub use components::MarkedForRemoval;
pub use components::Paddle;
pub use components::Score;
pub use components::Side;
pub use ecs::init;
pub use game::Game;
pub use game_loop::Time;
pub use specs::Entity;
pub use specs::World;
pub use systems::AISystem;
pub use systems::CleanupSystem;
pub use systems::DebugSystem;
pub use systems::HealthSystem;
pub use systems::InputSystem;
pub use systems::PhysicsSystem;
pub use systems::RenderingSystem;
