//! Build pipeline for assembling a game mod's addons from declarative input.
//!
//! The library models the build state and performs every decision and
//! computation of the pipeline: config-tree transforms, addon staging,
//! plugin selection, packaging and signing plans.  Filesystem work, template
//! rendering and the external packaging tool are driven by an unverified
//! shell around the library.

use vstd::prelude::*;

pub use compiler::InitSettings;
pub use compiler::LaatCompiler;
pub use compiler::ReleaseSettings;

pub mod compiler;
pub mod config;
pub mod context;
pub mod plugins;
pub mod strutil;
pub mod tree;

verus! {

/// Errors produced by the library's own logic.
///
/// Filesystem and collaborator failures are reported by the unverified shell
/// with its own error values; these variants cover the decisions the library
/// itself makes.
#[derive(Debug)]
pub enum LaatError {
    /// A source path handed to asset staging has no file-name component.
    MissingFileName,
    /// A config tree lacks a field that a transform requires.
    FieldNotFound,
    /// No key pair was found in the keys directory.
    KeysNotFound,
    /// A plugin name in the build configuration matches no known plugin.
    UnknownPlugin,
}

impl LaatError {
    /// A human-readable description, for the shell to print.
    pub fn message(&self) -> (r: &'static str)
        ensures
            r@ == self.spec_message(),
    {
        match self {
            LaatError::MissingFileName => "failed to get file name for asset path",
            LaatError::FieldNotFound => "failed to get field from config tree",
            LaatError::KeysNotFound => "keys not found",
            LaatError::UnknownPlugin => "unknown plugin",
        }
    }

    pub open spec fn spec_message(&self) -> Seq<char> {
        match self {
            LaatError::MissingFileName => "failed to get file name for asset path"@,
            LaatError::FieldNotFound => "failed to get field from config tree"@,
            LaatError::KeysNotFound => "keys not found"@,
            LaatError::UnknownPlugin => "unknown plugin"@,
        }
    }
}

} // verus!
