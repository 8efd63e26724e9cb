//! Planning core for an ephemeral, isolated filesystem root.
//!
//! The library decides everything: which namespaces to enter, which mounts
//! to establish and in what order, how two store layers merge, and which
//! host entries are replicated into the new root.  Each decision is a pure
//! function from directory listings and identity data to an ordered list of
//! [`action::Action`] values; an unverified shell executes those actions
//! with the real system calls and aborts on the first failure.
//!
//! The laws of the scheme — override precedence and union completeness of
//! the store merge, symlink fidelity, idempotent target clearing, full
//! reconstruction, the private-before-detach discipline, and the gating of
//! the handoff — are stated and proved in [`laws`] over the model in
//! [`model`].

pub mod action;
pub mod bytes;
pub mod entry;
pub mod guard;
pub mod identity;
pub mod laws;
pub mod model;
pub mod paths;
pub mod plan;
pub mod planner;
