//! The fixed paths and names of the scheme: the hidden old-root mount point,
//! the store container and the store itself, and the identity-map control
//! files.

use vstd::prelude::*;
use crate::bytes::{join, join_path, B_D, B_E, B_I, B_L, B_N, B_O, B_R, B_S, B_T, B_X, B_DOT};

verus! {

/// The name of the hidden old-root mount point: `.oldroot`.
pub open spec fn old_root_name_spec() -> Seq<u8> {
    seq![B_DOT, B_O, B_L, B_D, B_R, B_O, B_O, B_T]
}

/// The name of the store container at the root: `nix`.
pub open spec fn store_container_name_spec() -> Seq<u8> {
    seq![B_N, B_I, B_X]
}

/// The name of the store inside its container: `store`.
pub open spec fn store_name_spec() -> Seq<u8> {
    seq![B_S, B_T, B_O, B_R, B_E]
}

/// The new root itself, as the base that entry names are joined to: joining
/// a name to the empty base yields an absolute path.
pub open spec fn root_base_spec() -> Seq<u8> {
    Seq::empty()
}

/// The hidden old-root mount point at the new root: `/.oldroot`.
pub open spec fn old_root_spec() -> Seq<u8> {
    join(root_base_spec(), old_root_name_spec())
}

/// The store container at the new root: `/nix`.
pub open spec fn container_spec() -> Seq<u8> {
    join(root_base_spec(), store_container_name_spec())
}

/// The synthesized store: `/nix/store`.
pub open spec fn store_spec() -> Seq<u8> {
    join(container_spec(), store_name_spec())
}

/// The host's store container, read through the hidden mount point:
/// `/.oldroot/nix`.
pub open spec fn old_container_spec() -> Seq<u8> {
    join(old_root_spec(), store_container_name_spec())
}

/// The host's store, read through the hidden mount point:
/// `/.oldroot/nix/store`.
pub open spec fn old_store_spec() -> Seq<u8> {
    join(old_container_spec(), store_name_spec())
}

/// The name of the hidden old-root mount point as a value.
pub fn old_root_name() -> (r: Vec<u8>)
    ensures
        r@ == old_root_name_spec(),
{
    let mut r: Vec<u8> = Vec::new();
    r.push(B_DOT);
    r.push(B_O);
    r.push(B_L);
    r.push(B_D);
    r.push(B_R);
    r.push(B_O);
    r.push(B_O);
    r.push(B_T);
    proof {
        assert(r@ =~= old_root_name_spec());
    }
    r
}

/// The name of the store container as a value.
pub fn store_container_name() -> (r: Vec<u8>)
    ensures
        r@ == store_container_name_spec(),
{
    let mut r: Vec<u8> = Vec::new();
    r.push(B_N);
    r.push(B_I);
    r.push(B_X);
    proof {
        assert(r@ =~= store_container_name_spec());
    }
    r
}

/// The name of the store inside its container as a value.
pub fn store_name() -> (r: Vec<u8>)
    ensures
        r@ == store_name_spec(),
{
    let mut r: Vec<u8> = Vec::new();
    r.push(B_S);
    r.push(B_T);
    r.push(B_O);
    r.push(B_R);
    r.push(B_E);
    proof {
        assert(r@ =~= store_name_spec());
    }
    r
}

/// The empty base path denoting the new root.
pub fn root_base() -> (r: Vec<u8>)
    ensures
        r@ == root_base_spec(),
{
    let r: Vec<u8> = Vec::new();
    proof {
        assert(r@ =~= root_base_spec());
    }
    r
}

/// `/.oldroot` as a value.
pub fn old_root_path() -> (r: Vec<u8>)
    ensures
        r@ == old_root_spec(),
{
    let base = root_base();
    let name = old_root_name();
    join_path(&base, &name)
}

/// `/nix` as a value.
pub fn container_path() -> (r: Vec<u8>)
    ensures
        r@ == container_spec(),
{
    let base = root_base();
    let name = store_container_name();
    join_path(&base, &name)
}

/// `/nix/store` as a value.
pub fn store_path() -> (r: Vec<u8>)
    ensures
        r@ == store_spec(),
{
    let base = container_path();
    let name = store_name();
    join_path(&base, &name)
}

/// `/.oldroot/nix` as a value.
pub fn old_container_path() -> (r: Vec<u8>)
    ensures
        r@ == old_container_spec(),
{
    let base = old_root_path();
    let name = store_container_name();
    join_path(&base, &name)
}

/// `/.oldroot/nix/store` as a value.
pub fn old_store_path() -> (r: Vec<u8>)
    ensures
        r@ == old_store_spec(),
{
    let base = old_container_path();
    let name = store_name();
    join_path(&base, &name)
}

} // verus!
