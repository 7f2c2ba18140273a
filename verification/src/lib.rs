//! The logic of an MCP server for Memos.
//!
//! The library decides; the program around it sends and serves. What a tool sends
//! to the Memos API, what a reply means, which tools a request sees, who the
//! request speaks for and where it may come from are all functions from plain
//! values to plain values, each with a contract over mathematical views.

pub mod calls;
pub mod catalog;
pub mod config;
pub mod filter;
pub mod headers;
pub mod json;
pub mod memos;
pub mod origin;
pub mod outcome;
pub mod paging;
pub mod params;
pub mod pattern;
pub mod prompts;
pub mod rename;
pub mod resources;
pub mod server;
pub mod tags;
pub mod text;
