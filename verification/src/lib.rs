//! Virtual networking subsystem of a sandboxed WebAssembly runtime.
//!
//! The crate has four layers. The wire codec (`wire`) defines the byte
//! layouts in which a guest passes addresses, CIDRs and optional timestamps
//! across the trust boundary, and decodes and encodes them. The guest memory
//! view (`memory`) is the one place that reads or writes the guest's linear
//! memory, with a bounds check on every access. The virtual network stack
//! (`stack`) owns a per-process routing table and gives routes their
//! semantics: longest-prefix resolution, insertion-order tie-breaks and
//! time-bounded validity. The syscall shim (`shim`) glues the three together
//! for each exposed operation and maps every failure onto a status code, so
//! that no malformed guest input ever reaches the stack or causes a panic.
//!
//! The `config` module holds the data model and the pure decision logic of
//! the user-level configuration command that ships with the runtime; the
//! file and terminal handling around it lives outside this crate.

pub mod config;
pub mod iface;
pub mod memory;
pub mod shim;
pub mod stack;
pub mod wire;

use vstd::prelude::*;

verus! {

/// Result code of one syscall, as the guest sees it: the closed set of
/// outcomes that crosses the trust boundary in place of any exception.
#[derive(Clone, Copy, Debug, PartialEq, Eq, Structural)]
pub enum StatusCode {
    /// The operation completed.
    Success,
    /// A pointer argument did not lie within the guest's linear memory.
    MemoryFault,
    /// A guest-supplied structure was malformed (bad tag, wrong length,
    /// impossible prefix).
    InvalidInput,
    /// The stack rejected the route itself as inconsistent.
    InvalidRoute,
    /// No entry with the given key exists.
    NotFound,
    /// An entry with the given key already exists.
    AlreadyExists,
}

} // verus!
