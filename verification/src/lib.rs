//! Host-side management layer for an embedded Ruby virtual machine.
//!
//! The virtual machine itself is a foreign collaborator. Everything the host
//! decides — which file a `require` resolves to, in which order a native
//! loader and a source text run, when a garbage-collector savepoint is
//! opened and released, how a raised exception becomes an error value — is
//! kept here as verified code over plain values. Work that only the virtual
//! machine can do is described by a [`vm::VmCall`], and its outcome comes
//! back as a [`vm::Reply`].

pub mod def;
pub mod error;
pub mod eval;
pub mod exception;
pub mod extn;
pub mod gc;
pub mod interpreter;
pub mod load;
pub mod nemesis;
pub mod source;
pub mod state;
pub mod text;
pub mod value;
pub mod vfs;
pub mod vm;

use vstd::prelude::*;

verus! {

/// Root of the virtual filesystem below which relative names are resolved.
pub const RUBY_LOAD_PATH: &'static str = "/src/lib";

} // verus!
