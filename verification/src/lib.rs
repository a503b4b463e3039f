//! Hearth Engine core logic: data-oriented engine state and the pure
//! operations that transform it, with their contracts.

pub mod binding_manager;
pub mod collision;
pub mod config;
pub mod coordinator;
pub mod disconnect;
pub mod engine_buffers;
pub mod error;
pub mod game;
pub mod gateway;
pub mod gpu_errors;
pub mod greedy_mesh;
pub mod instance;
pub mod memory;
pub mod mesh_buffers;
pub mod persistence;
pub mod pools;
pub mod process;
pub mod render_stats;
pub mod soa;
pub mod system_schedule;
pub mod terrain_mesh;
pub mod text;
pub mod unified_system;
pub mod texture_atlas;
pub mod thread_pool;
pub mod world_types;
