//! A verified core for a repository mirroring agent.
//!
//! The library models a local working copy of a remote repository and the
//! engine that keeps it synchronized with a stream of file mutations:
//! resolving a repository to a working copy (cloning on demand), applying an
//! ordered batch of create / rename / remove / download steps, and recovering
//! by a full wipe-and-reclone whenever a step fails.  All decision logic is
//! verified here; the surrounding process (HTTP transport, real filesystem,
//! subprocess and network calls) lives outside the library and consumes the
//! plain values these functions produce.

pub mod apply;
pub mod auth;
pub mod batch;
pub mod filesystem;
pub mod helper;
pub mod intro;
pub mod locator;
pub mod mirror;
pub mod outcome;
pub mod paths;
pub mod settings;
pub mod startup;
pub mod sync;
pub mod text;
