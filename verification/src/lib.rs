//! Configuration manager for project "setups" and their environment files.
//!
//! A project keeps a local configuration (named setups, provider
//! descriptors, shared env directories) committed inside the project, and a
//! global configuration (per-machine overrides, the current selection)
//! outside of it. This crate holds the verified core: the ordered,
//! comment-preserving env-file model, the two configuration stores, and the
//! engine that keeps them in sync.

use vstd::prelude::*;

mod errors;
pub mod env_file;
pub mod exec;
pub mod global;
pub mod local;
pub mod paths;
pub mod project;
pub mod settings;

pub use errors::Error;

verus! {

/// Name of the executable that fronts this library.
pub const BIN_NAME: &'static str = "sht";

} // verus!
