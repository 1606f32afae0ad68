//! A verified analyzer for a small devotional script language.
//!
//! The library classifies raw script text into statement records, evaluates
//! an ordered catalog of style and safety rules over those statements in a
//! fail-fast and a fail-safe mode, produces speculative risk notes, rewrites
//! secular code by a fixed replacement table, and looks verses up in a fixed
//! scripture table. All reading of files, console rendering and command-line
//! handling live outside the library; it consumes plain text and returns
//! in-memory records.

pub mod classifier;
pub mod prophecy;
pub mod rules;
pub mod scripture;
pub mod text;
pub mod transform;

pub use classifier::classify;
pub use prophecy::{prophesy, prophesy_with_picks};
pub use rules::{check, check_covenants, confess};
pub use text::extract_between;
pub use transform::transform_secular;
