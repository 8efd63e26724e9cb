//! Identity remapping: the single-entry UID and GID map lines and the
//! control files they are written to, together with the namespace-entry
//! plan.  An unprivileged caller maps its own numeric identity onto itself
//! inside the new user namespace and denies supplementary groups.

use vstd::prelude::*;
use crate::action::ActionV;
use crate::bytes::{B_0, B_1, B_A, B_C, B_D, B_E, B_F, B_G, B_I, B_L, B_M, B_N, B_O, B_P, B_R,
    B_S, B_SPACE, B_T, B_U, B_UNDER, B_Y, SLASH};

verus! {

/// Decimal rendering of a number, most significant digit first.
pub open spec fn dec_spec(n: nat) -> Seq<u8>
    decreases n,
{
    if n < 10 {
        seq![(B_0 as nat + n) as u8]
    } else {
        dec_spec(n / 10) + seq![(B_0 as nat + n % 10) as u8]
    }
}

/// Renders a number in decimal.
pub fn decimal(n: u64) -> (r: Vec<u8>)
    ensures
        r@ == dec_spec(n as nat),
    decreases n,
{
    if n < 10 {
        let mut r: Vec<u8> = Vec::new();
        r.push(B_0 + (n as u8));
        proof {
            assert(r@ =~= dec_spec(n as nat));
        }
        r
    } else {
        let mut r = decimal(n / 10);
        r.push(B_0 + ((n % 10) as u8));
        proof {
            assert(r@ =~= dec_spec(n as nat));
        }
        r
    }
}

/// The one-line identity map: the caller's id mapped onto itself, with a
/// range of one — `<id> <id> 1`.
pub open spec fn id_map_line_spec(id: nat) -> Seq<u8> {
    dec_spec(id) + seq![B_SPACE] + dec_spec(id) + seq![B_SPACE, B_1]
}

/// Renders the one-line identity map for `id`.
pub fn id_map_line(id: u64) -> (r: Vec<u8>)
    ensures
        r@ == id_map_line_spec(id as nat),
{
    let mut r = decimal(id);
    r.push(B_SPACE);
    let second = decimal(id);
    let mut i: usize = 0;
    while i < second.len()
        invariant
            i <= second.len(),
            r@ == dec_spec(id as nat) + seq![B_SPACE] + second@.subrange(0, i as int),
            second@ == dec_spec(id as nat),
        decreases second.len() - i,
    {
        r.push(second[i]);
        i = i + 1;
    }
    r.push(B_SPACE);
    r.push(B_1);
    proof {
        assert(r@ =~= id_map_line_spec(id as nat));
    }
    r
}

/// The content written to the setgroups control file: `deny`.
pub open spec fn deny_spec() -> Seq<u8> {
    seq![B_D, B_E, B_N, B_Y]
}

/// `deny` as a value.
pub fn deny_content() -> (r: Vec<u8>)
    ensures
        r@ == deny_spec(),
{
    let mut r: Vec<u8> = Vec::new();
    r.push(B_D);
    r.push(B_E);
    r.push(B_N);
    r.push(B_Y);
    proof {
        assert(r@ =~= deny_spec());
    }
    r
}

/// `/proc/self/` as a prefix.
pub open spec fn proc_self_spec() -> Seq<u8> {
    seq![SLASH, B_P, B_R, B_O, B_C, SLASH, B_S, B_E, B_L, B_F, SLASH]
}

/// The process's own group-list control file: `/proc/self/setgroups`.
pub open spec fn setgroups_path_spec() -> Seq<u8> {
    proc_self_spec() + seq![B_S, B_E, B_T, B_G, B_R, B_O, B_U, B_P, B_S]
}

/// The process's own UID map: `/proc/self/uid_map`.
pub open spec fn uid_map_path_spec() -> Seq<u8> {
    proc_self_spec() + seq![B_U, B_I, B_D, B_UNDER, B_M, B_A, B_P]
}

/// The process's own GID map: `/proc/self/gid_map`.
pub open spec fn gid_map_path_spec() -> Seq<u8> {
    proc_self_spec() + seq![B_G, B_I, B_D, B_UNDER, B_M, B_A, B_P]
}

/// `/proc/self/` as a value.
fn proc_self() -> (r: Vec<u8>)
    ensures
        r@ == proc_self_spec(),
{
    let mut r: Vec<u8> = Vec::new();
    r.push(SLASH);
    r.push(B_P);
    r.push(B_R);
    r.push(B_O);
    r.push(B_C);
    r.push(SLASH);
    r.push(B_S);
    r.push(B_E);
    r.push(B_L);
    r.push(B_F);
    r.push(SLASH);
    proof {
        assert(r@ =~= proc_self_spec());
    }
    r
}

/// `/proc/self/setgroups` as a value.
pub fn setgroups_path() -> (r: Vec<u8>)
    ensures
        r@ == setgroups_path_spec(),
{
    let mut r = proc_self();
    r.push(B_S);
    r.push(B_E);
    r.push(B_T);
    r.push(B_G);
    r.push(B_R);
    r.push(B_O);
    r.push(B_U);
    r.push(B_P);
    r.push(B_S);
    proof {
        assert(r@ =~= setgroups_path_spec());
    }
    r
}

/// `/proc/self/uid_map` as a value.
pub fn uid_map_path() -> (r: Vec<u8>)
    ensures
        r@ == uid_map_path_spec(),
{
    let mut r = proc_self();
    r.push(B_U);
    r.push(B_I);
    r.push(B_D);
    r.push(B_UNDER);
    r.push(B_M);
    r.push(B_A);
    r.push(B_P);
    proof {
        assert(r@ =~= uid_map_path_spec());
    }
    r
}

/// `/proc/self/gid_map` as a value.
pub fn gid_map_path() -> (r: Vec<u8>)
    ensures
        r@ == gid_map_path_spec(),
{
    let mut r = proc_self();
    r.push(B_G);
    r.push(B_I);
    r.push(B_D);
    r.push(B_UNDER);
    r.push(B_M);
    r.push(B_A);
    r.push(B_P);
    proof {
        assert(r@ =~= gid_map_path_spec());
    }
    r
}

/// The namespace-entry steps.  A privileged caller only enters a new mount
/// namespace; an unprivileged one enters a mount and user namespace in one
/// step, then denies supplementary groups — before the GID map, as the
/// kernel demands — and writes the single-entry UID and GID maps.
pub open spec fn identity_plan_spec(privileged: bool, uid: nat, gid: nat) -> Seq<ActionV> {
    if privileged {
        seq![ActionV::Unshare { user_ns: false }]
    } else {
        seq![
            ActionV::Unshare { user_ns: true },
            ActionV::WriteFile { path: setgroups_path_spec(), content: deny_spec() },
            ActionV::WriteFile { path: uid_map_path_spec(), content: id_map_line_spec(uid) },
            ActionV::WriteFile { path: gid_map_path_spec(), content: id_map_line_spec(gid) },
        ]
    }
}

} // verus!
