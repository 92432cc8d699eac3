//! Inspecting the sources of resolved dependencies: package identifiers,
//! snapshots of a resolved dependency set, their differences, and the guard
//! that puts a project's lock file back after an update.
pub mod version;
pub mod package_id;
pub mod snapshot;
pub mod lock;
pub mod commands;
pub mod workflow;
