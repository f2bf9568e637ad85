//! Rewrites the version constraints in a package manifest: wildcard
//! constraints (`"*"`) are replaced with the latest version the registry
//! reports, and, in upgrade mode, so is every other constraint.
//!
//! The library holds the whole of the tool's logic: interpreting the
//! command line, deciding which dependencies to query, interpreting the
//! registry's textual answer, rewriting the manifest's dependency entries,
//! and composing every status line the tool prints. The surrounding
//! binary only performs the file reads and writes, the registry
//! invocation itself, and the conversion between the manifest format's
//! document tree and the plain model defined here.

pub mod args;
pub mod laws;
pub mod manifest;
pub mod record;
pub mod registry;
pub mod rewrite;
pub mod text;

use vstd::prelude::*;

verus! {

} // verus!
