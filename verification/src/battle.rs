//! The deterministic battle domain: participants, statuses, rules, resolution, enemy behavior,
//! and rewards.

pub mod ability;
pub mod badge;
pub mod action;
pub mod enemy_ai;
pub mod fx;
pub mod input;
pub mod item;
pub mod model;
pub mod panel;
pub mod resolver;
pub mod rewards;
pub mod rules;
pub mod status;
