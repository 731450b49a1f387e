//! Entity simulation and mode controller for a two-ship gravity-well arcade game.
//!
//! All quantities are integers. Positions are measured in sub-units, where one
//! pixel is `SUBUNITS_PER_PIXEL` sub-units, and velocities in thousandths of a
//! pixel per nominal 33 ms frame; with these units a velocity step over
//! `elapsed` milliseconds moves a position by exactly `velocity * elapsed`.

pub mod physics;
pub mod collision;
pub mod particles;
pub mod trig;
pub mod mode;
pub mod timer;
pub mod random;
pub mod text;
pub mod world;
pub mod passes;
pub mod gameplay;
pub mod game;

pub use physics::{Transform, Velocity, Attractor};
pub use collision::{BoundingBox2D, find_one_collision};
pub use particles::{Color, ParticleLifetime, ParticleColorLerp};
pub use mode::{GameMode, ModeEvent, Transition};
pub use timer::Timer;
pub use random::RandomNumbers;
pub use world::{Entity, World, Player, Sprite, remove_matching_elements};
pub use passes::{apply_velocity, velocity_attractor_2d, particle_lifetimes, particle_color_lerp, clamp_positions};
pub use gameplay::{
    Scores, PlayerControl, player_control, emit_trails, bounce, black_hole, spawn_salvage_at,
    collect_salvage, spawn_particle_burst,
};
pub use game::{
    Game, Session, GameOverResource, setup_play_game, setup_loading, setup_main_menu, setup_game_over,
    exit_loading, exit_main_menu, exit_play_game, exit_game_over,
};
