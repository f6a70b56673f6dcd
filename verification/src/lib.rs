//! Message-routing and command logic of the nanobot agent and its chat channels.

pub mod agent;
pub mod channels;
pub mod pattern;
pub mod text;
