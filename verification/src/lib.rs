//! A small blog engine: post files with a `+++` metadata block are split,
//! resolved, rendered to HTML and kept, newest first, in a post store.
//!
//! Every function states its result over sequences of characters; the calls
//! into the markdown, TOML and calendar crates stand behind small wrappers
//! whose contracts are the only unproved statements.

pub mod text;
pub mod callout;
pub mod markdown;
pub mod frontmatter;
pub mod metadata;
pub mod post;
pub mod store;
pub mod feed;
pub mod version;
