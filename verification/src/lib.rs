//! A fuzzy command dispatcher.
//!
//! A caller registers its commands with a [`CommandMatcher`] and hands it what
//! the user typed. The registry answers with a [`MatchResult`]: the token
//! invokes a command directly, or it is close enough to one command's name to
//! suggest it, or it matches nothing.
//!
//! - [`distance`]: the edit distance between two texts, and what holds of it.
//! - [`edits`]: the edits that the distance counts, and why it is the least.
//! - [`scan`]: classification over plain observations, one per command.
//! - [`matcher`]: the commands, the registry and its results.
//! - [`text`]: the text form of a result.

pub mod distance;
pub mod edits;
pub mod matcher;
pub mod scan;
pub mod text;

pub use distance::levenshtein;
pub use matcher::{Command, CommandMatcher, MatchResult};
