//! The unmount guard: a scope-bound wrapper for the ephemeral root mount.
//! While armed, it owes the mount a safe unmount — propagation made private
//! first, then a lazy detach; defusing it, or taking the path out, makes it
//! inert so the caller can tear the mount down deliberately at an address
//! of its own choosing.  The unverified shell holds one and performs the
//! owed actions on every early exit.

use vstd::prelude::*;
use crate::action::{plan_view, Action};
use crate::plan::safe_unmount_plan_spec;
use crate::planner::safe_unmount_actions;

verus! {

/// The guard: the guarded mount point's path and whether cleanup is still
/// owed.
pub struct UnmountGuard {
    path: Vec<u8>,
    defused: bool,
}

impl UnmountGuard {
    /// The guarded path.
    pub closed spec fn path_spec(&self) -> Seq<u8> {
        self.path@
    }

    /// Whether the guard has been made inert.
    pub closed spec fn is_defused(&self) -> bool {
        self.defused
    }

    /// Arms a guard over the mount at `path`.
    pub fn new(path: Vec<u8>) -> (g: Self)
        ensures
            g.path_spec() == path@,
            !g.is_defused(),
    {
        UnmountGuard { path, defused: false }
    }

    /// Makes the guard inert: the cleanup is no longer owed.
    pub fn defuse(&mut self)
        ensures
            final(self).path_spec() == old(self).path_spec(),
            final(self).is_defused(),
    {
        self.defused = true;
    }

    /// Takes the guarded path out, leaving the guard inert, so the caller
    /// can unmount and remove it deliberately.
    pub fn take(self) -> (p: Vec<u8>)
        ensures
            p@ == self.path_spec(),
    {
        self.path
    }

    /// The actions the guard owes at scope exit: a safe unmount of the
    /// guarded path while armed, nothing once defused.
    pub fn cleanup_actions(&self) -> (r: Vec<Action>)
        ensures
            !self.is_defused() ==> plan_view(r@) == safe_unmount_plan_spec(self.path_spec()),
            self.is_defused() ==> r@.len() == 0,
    {
        if self.defused {
            Vec::new()
        } else {
            safe_unmount_actions(&self.path)
        }
    }
}

} // verus!
