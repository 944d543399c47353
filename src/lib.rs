//! Simulation core of a turn-based tactical roguelike: agents, items, the map,
//! per-team flow-field pathfinding, the rule table of special skills, and the
//! turn scheduler that interleaves them.
//!
//! Static data comes in through [`catalog::Catalog`]; terminal rendering, key
//! input and file reading stay outside the library.
pub mod constants;
pub mod text;
pub mod catalog;
pub mod rng;
pub mod item;
pub mod item_effects;
pub mod effects;
pub mod world;
pub mod actor;
pub mod flood;
pub mod plan;
pub mod skills;
pub mod skills_registry;
pub mod behavior;
pub mod state;
pub mod scenario;
