//! An engine that manages several installations of the R runtime side by side
//! on one Windows host: which versions are installed, which one is the default,
//! how a version is added or removed, and how each installation is wired to
//! Rtools, the toolchain that builds native extensions for it.
//!
//! The library decides and computes; it never touches the host. Callers scan
//! directories, read and write files and run processes, hand what they found
//! to the functions here as plain values, and carry out what comes back.

use vstd::prelude::*;

pub mod command;
pub mod epoch;
pub mod error;
pub mod install;
pub mod launcher;
pub mod library;
pub mod registry;
pub mod remove;
pub mod renviron;
pub mod rtools;
pub mod text;

pub use crate::command::Command;
pub use crate::epoch::Epoch;
pub use crate::error::Error;
pub use crate::install::{installer_command, installer_outcome, sc_add, InstallAction, InstallEvent};
pub use crate::launcher::{
    default_link, sc_get_default, sc_set_default, sc_system_make_links, Script,
};
pub use crate::library::{
    library_action, library_dir, library_query, system_create_lib, LibraryEvent, LibraryStep,
};
pub use crate::registry::{install_dir, is_installed, sc_get_list, R_ROOT};
pub use crate::remove::{sc_rm, RemovalEvent, RemovalStep};
pub use crate::renviron::{has_marker, patch_for_rtools, renviron_path, rtools_stanza};
pub use crate::rtools::{
    add_rtools, get_rtools_needed, rtools_installer, rtools_request, version_query, Download,
    RtoolsEvent, RtoolsRequest, RtoolsStep,
};

verus! {

/// Forgets what the host recorded about the installations. A Windows host
/// records nothing that this engine would have to take back, so there is
/// nothing to do.
pub fn sc_system_forget() {
}

/// Makes the installations independent of each other. On Windows every
/// version lives in a directory of its own already, so there is nothing to
/// do.
pub fn sc_system_make_orthogonal() {
}

/// Restores the permissions of the installations. On Windows none are
/// changed, so there is nothing to do.
pub fn sc_system_fix_permissions() {
}

} // verus!
