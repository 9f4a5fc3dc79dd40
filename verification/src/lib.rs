//! Verified core of the `tracedecay` session and tool-dispatch logic.

pub mod daemon;
pub mod decimal;
pub mod json;
pub mod json_io;
pub mod migrate;
pub mod order;
pub mod sessions;
pub mod table;
pub mod text;
pub mod tool_command;
