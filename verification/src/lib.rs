//! Orchestration logic for end-to-end synchronisation tests of a directory
//! sync server and client: sandbox path confinement, fixture plans, directory
//! comparison and process supervision decisions.

pub mod order;
pub mod platform;
pub mod text;
pub mod entries;
pub mod verification;
pub mod listing;
pub mod path;
pub mod sandbox;
pub mod walk_model;
pub mod tree_check;
pub mod tree_copy;
pub mod case;
pub mod log;
pub mod process;
pub mod supervise;
pub mod runner;
pub mod prepare;
