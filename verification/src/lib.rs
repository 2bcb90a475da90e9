//! Verified core of the blindspot package manager: format inference, the
//! install/backup/revert plans of a package, the package registry with its
//! bulk-update merge, and the terminal output actor's state and rendering.

pub mod download;
pub mod installer;
pub mod package;
pub mod path;
pub mod registry;
pub mod term;
pub mod text;
pub mod ui;
