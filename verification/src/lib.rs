//! A small extensible game runtime: a registry of entity archetypes and live
//! entity instances, driven each tick by independently-authored modules
//! (built-in and dynamically loaded) that propose world-state mutations.
//!
//! The crate holds the module/state reconciliation engine: the module
//! abstraction, the authoritative world state, and the per-tick algorithm
//! that collects mutation requests from every module and folds them into the
//! world state in order. Rendering, asset loading and the actual dynamic
//! loading of user modules are collaborators that live outside this crate;
//! they exchange plain values (texture handles, scalar bit patterns,
//! `Change` lists) with the engine.

pub mod entity;
pub mod laws;
pub mod module;
pub mod scalar;
pub mod state;
pub mod woe_core;
