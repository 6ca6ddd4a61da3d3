//! A dynamically typed, named-argument container.
//!
//! An [`Args`] map carries a variable set of arguments, each stored under a
//! string name at one of a closed set of types ([`ArgKind`]), through a fixed
//! function signature. A consumer retrieves values by name and expected type;
//! a mismatch is a reported error, never a coercion. Each entry carries a
//! `used` flag so a producer can tell afterwards which arguments a consumer
//! actually read.

pub mod arg;
pub mod args;
pub mod error;
pub mod laws;
pub mod model;
mod store;

pub use arg::{Arg, ArgData, ArgKind};
pub use args::Args;
pub use error::DynArgError;
