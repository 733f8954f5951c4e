//! Parser for e-reader clipping exports, with the small pieces of
//! configuration and upload logic that surround it.

pub mod auth;
pub mod command;
pub mod config;
pub mod graphql;
pub mod http;
pub mod parser;
pub mod pattern;
pub mod text;
pub mod time;
