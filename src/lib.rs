//! Bounded-concurrency crawling of a directory tree: every directory that holds a
//! qualifying configuration file is validated exactly once, and every failure is folded
//! into one outcome.
use vstd::prelude::*;

pub mod cli;
pub mod crawl;
pub mod entry;
pub mod errors;

pub use cli::{Cli, Command, Validate};
pub use errors::join;

verus! {

} // verus!
