//! Decision logic of a desktop tool that extracts invoice data from PDF
//! files: the worker-pool setting, the activity log, the progress and
//! result bookkeeping of a processing run, and the summary counts shown
//! to the user.

pub mod config;
pub mod progress;
pub mod session;
pub mod stats;
pub mod text;
