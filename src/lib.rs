//! A small line-oriented text search library.
//!
//! Text is modelled as a sequence of `char`s. Contents are cut into lines,
//! and the lines that contain a query are returned in their original order,
//! either comparing characters exactly or after lowercasing both sides.
pub mod config;
pub mod fold;
pub mod laws;
pub mod lines;
pub mod search;
pub mod text;

pub use crate::config::Config;
pub use crate::search::{search, search_case_insensitive, search_case_sensitive};
