//! Verified core of a desktop utility that manages a single plugin's
//! installation inside a content-creation application's addon directory.
//!
//! The library holds the decision logic of every operation: path resolution,
//! status reporting, branch-list parsing, the backup/restore/switch state
//! machine, and the settings codec. The surrounding binary performs the
//! filesystem and child-process work and hands the outcomes to these
//! functions as plain values.

pub mod branches;
pub mod model;
pub mod ops;
pub mod paths;
pub mod settings;
pub mod status;
pub mod text;
