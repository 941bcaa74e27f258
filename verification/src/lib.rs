//! Hallouminate: a local markdown grounding engine.

pub mod cli;
pub mod config;
pub mod corpus;
pub mod daemon;
pub mod error;
pub mod footnotes;
pub mod globs;
pub mod hook;
pub mod index;
pub mod layers;
pub mod logs;
pub mod markdown;
pub mod mcp;
pub mod models;
pub mod path;
pub mod rerank;
pub mod store;
pub mod text;
pub mod tilde;
pub mod union;
pub mod xdg;
