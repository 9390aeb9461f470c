//! Game rules of a vertically scrolling shooter: enemy waves, box collision,
//! damage, path following and linear motion, on integer coordinates.

pub mod animation;
pub mod collision;
pub mod components;
pub mod enemy;
pub mod enemy_wave_spawner;
pub mod event_system;
pub mod geometry;
pub mod input_actions;
pub mod load_config;
pub mod moveable;
pub mod path_movement;
pub mod player;
mod random;
pub mod shoot;
