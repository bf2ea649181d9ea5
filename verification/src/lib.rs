//! Convergence of declared service units: what a run would change, whether
//! the installed files drifted since the last run, and what applying a change
//! records.
//!
//! The library never touches the filesystem or the service manager. Callers
//! hand it what they read and carry out what it decides.

pub mod apply;
pub mod change;
pub mod error;
pub mod fingerprint;
pub mod laws;
pub mod planner;
pub mod preview;
pub mod render;
pub mod run;
pub mod state;
pub mod string_map;
pub mod text;
