//! The agent side: slash commands, reply routing, the reasoning loop's decisions.

pub mod cmd;
pub mod consolidation;
pub mod hook;
pub mod message_tool;
pub mod utils;
pub mod react;
pub mod registration;
pub mod routing;
