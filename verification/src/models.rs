//! Plain data carried between the parts of the agent.

pub mod config;
pub mod logs;
pub mod positions;
