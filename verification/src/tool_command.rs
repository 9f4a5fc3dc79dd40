//! `tracedecay tool <name> [args...]`: from a tool's JSON Schema and command
//! line words to the arguments object that the tool is called with.

pub mod coerce;
pub mod dispatch;
pub mod inputs;
pub mod laws;
pub mod listing;
pub mod names;
pub mod parse;
pub mod run;
pub mod schema;
pub mod suggest;
pub mod validate;
