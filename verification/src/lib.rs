use vstd::prelude::*;

pub mod events;
pub mod imap;
pub mod laws;
pub mod page;
pub mod vdiff;
pub mod velement;

verus! {

/// Handle to a live page node. The engine only allocates and compares these;
/// the host maps each id to a real rendered node.
pub type NodeId = u64;

/// A lifecycle-invariant violation: a programmer error. The offending
/// operation aborts without touching the page; recovery is the caller's
/// responsibility.
#[derive(Debug, Clone, Copy, PartialEq, Eq, Structural)]
pub enum LifecycleError {
    /// `attach` on a listener that already holds a registration handle.
    AlreadyAttached,
    /// `detach` on a listener that holds no registration handle.
    NotAttached,
    /// `remove` or a reorder on a node that holds no live reference.
    NotMounted,
}

} // verus!
