//! Edit and render coordination for an interactive iterated-function-system
//! editor: transform collections, keyframes kept in lockstep, per-tick dirty
//! state, configuration loading, and the per-tick controller.

pub mod transforms;
pub mod collection;
pub mod keyframes;
pub mod dirty;
pub mod config;
pub mod settings;
pub mod controller;
