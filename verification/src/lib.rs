//! Verified rules of a turn-based role-playing game: scenario content records and their
//! validation, and the deterministic battle engine.

pub mod action_input;
pub mod app_state;
pub mod battle;
pub mod cli;
pub mod credits;
pub mod debug_launch;
pub mod encounter;
pub mod engine_config;
pub mod gameplay_rng;
pub mod runtime_repository;
pub mod scenario_balance;
pub mod scenario_class;
pub mod scenario_condition;
pub mod scenario_duplicate_id;
pub mod scenario_encounter;
pub mod scenario_enemy;
pub mod scenario_item;
pub mod scenario_path;
pub mod scenario_recipe;
pub mod scenario_root;
pub mod scenario_transport;
pub mod scenario_validation_baseline;
pub mod text;
