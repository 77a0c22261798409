//! Shell-integration lifecycle manager for a Node.js version auto-switcher.
//!
//! The crate idempotently injects and removes a marker-delimited shell
//! snippet in a user's shell startup file, backs user files up before any
//! mutation, and edits PATH-export lines out of text configuration files
//! without touching unrelated content.

use vstd::prelude::*;

pub mod binary;
pub mod codec;
pub mod config;
pub mod install;
pub mod nvm;
pub mod nvmrc;
pub mod path_scan;
pub mod shell;
pub mod text;
pub mod uninstall;

verus! {

/// Errors of the lifecycle manager's own logic.  I/O errors belong to the
/// unverified outer layer that reads and writes the actual files.
#[derive(Debug, Clone, Copy, PartialEq, Eq, Structural)]
pub enum AutoNvmError {
    /// The user's home directory could not be resolved.
    HomeDirUnavailable,
    /// A begin marker occurs without a matching marker-line pair.
    CorruptMarkers,
    /// A version specification is empty or blank.
    EmptyVersion,
    /// A version specification fits no accepted format.
    InvalidVersion,
}

} // verus!
