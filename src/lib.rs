//! Coordination logic for verifying that build outputs are reproducible:
//! store path helpers, the task dispatcher and the two-phase rebuild protocol.

pub mod store_path;
pub mod task;
pub mod dispatcher;
pub mod rebuild;
pub mod narinfo;
