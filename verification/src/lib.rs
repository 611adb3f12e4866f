//! Plugin packages for SSMT: manifests and their rules, the registry of
//! installed packages, launch planning and the launch phase machine, launcher
//! command lines built from templates, marketplace catalogs, package archive
//! checks, and the decisions around file-lock recovery.
use vstd::prelude::*;

pub mod text;
pub mod manifest;
pub mod versions;
pub mod registry;
pub mod launch;
pub mod forwarder;
pub mod hoyoshade;
pub mod external_manager;
pub mod marketplace;
pub mod commands;
pub mod logging;
pub mod settings;
pub mod launch_events;
pub mod package;
pub mod file_locks;
pub mod launch_barrier;
pub mod cami;

verus! {

/// `std::io::Error` carried through the library's error types (opaque here).
#[verifier::external_type_specification]
#[verifier::external_body]
pub struct ExIoError(std::io::Error);

} // verus!
