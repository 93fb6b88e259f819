//! Runtime core of a plugin SDK: typed command specifications and their
//! parser, the per-event response protocol, and the dispatch decisions
//! that route each inbound event to exactly one response.

pub mod text;
pub mod param;
pub mod coerce;
pub mod types;
pub mod command;
pub mod shape;
pub mod parser;
pub mod event;
pub mod dispatch;
pub mod plugin;
pub mod outbound;
