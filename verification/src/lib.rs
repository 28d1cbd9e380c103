//! Builds relay subscription requests and decides how their answers are consumed.

pub mod collector;
pub mod colon_split;
pub mod config;
pub mod display;
pub mod error;
pub mod extract;
pub mod filter;
pub mod handoff;
pub mod json;
pub mod relay;
pub mod request;
pub mod text;
