//! The background daemon.

pub mod git_watch;
