//! Session transcripts: workflow runs and unfinished work.

pub mod workflow_index;
pub mod workflow_ingest;
pub mod workflow_state;
