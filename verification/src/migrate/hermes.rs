//! The one-time migration of session stores that were kept inside Hermes
//! profiles. Sources are opened read-only and are never deleted.

pub mod candidates;
pub mod copy;
pub mod fingerprint;
pub mod marker;
pub mod merge;
pub mod paths;
pub mod payload;
pub mod report;
pub mod scan;
pub mod snapshot;
pub mod source;
pub mod sql;
