//! Byte-string helpers: paths and names are byte sequences, as the operating
//! system sees them.

use vstd::prelude::*;

verus! {

/// The path separator.
pub const SLASH: u8 = 47;

/// ASCII bytes used in the fixed names and file contents of the scheme.
pub const B_SPACE: u8 = 32;

pub const B_DOT: u8 = 46;

pub const B_0: u8 = 48;

pub const B_1: u8 = 49;

pub const B_UNDER: u8 = 95;

pub const B_A: u8 = 97;

pub const B_C: u8 = 99;

pub const B_D: u8 = 100;

pub const B_E: u8 = 101;

pub const B_F: u8 = 102;

pub const B_G: u8 = 103;

pub const B_I: u8 = 105;

pub const B_L: u8 = 108;

pub const B_M: u8 = 109;

pub const B_N: u8 = 110;

pub const B_O: u8 = 111;

pub const B_P: u8 = 112;

pub const B_R: u8 = 114;

pub const B_S: u8 = 115;

pub const B_T: u8 = 116;

pub const B_U: u8 = 117;

pub const B_X: u8 = 120;

pub const B_Y: u8 = 121;

/// Copy of a byte vector, element for element.
pub fn copy_bytes(v: &Vec<u8>) -> (r: Vec<u8>)
    ensures
        r@ == v@,
{
    let mut r: Vec<u8> = Vec::new();
    let mut i: usize = 0;
    while i < v.len()
        invariant
            i <= v.len(),
            r@ == v@.subrange(0, i as int),
        decreases v.len() - i,
    {
        r.push(v[i]);
        i = i + 1;
    }
    proof {
        assert(r@ =~= v@);
    }
    r
}

/// Concatenation of two byte vectors.
pub fn concat_bytes(a: &Vec<u8>, b: &Vec<u8>) -> (r: Vec<u8>)
    ensures
        r@ == a@ + b@,
{
    let mut r = copy_bytes(a);
    let mut i: usize = 0;
    while i < b.len()
        invariant
            i <= b.len(),
            r@ == a@ + b@.subrange(0, i as int),
        decreases b.len() - i,
    {
        r.push(b[i]);
        i = i + 1;
    }
    proof {
        assert(r@ =~= a@ + b@);
    }
    r
}

/// What joining a base path with a child name means: `base`, a separator,
/// then the name.
pub open spec fn join(base: Seq<u8>, name: Seq<u8>) -> Seq<u8> {
    base + seq![SLASH] + name
}

/// Joins a base path with a child name.
pub fn join_path(base: &Vec<u8>, name: &Vec<u8>) -> (r: Vec<u8>)
    ensures
        r@ == join(base@, name@),
{
    let mut r = copy_bytes(base);
    r.push(SLASH);
    let mut i: usize = 0;
    while i < name.len()
        invariant
            i <= name.len(),
            r@ == base@ + seq![SLASH] + name@.subrange(0, i as int),
        decreases name.len() - i,
    {
        r.push(name[i]);
        i = i + 1;
    }
    proof {
        assert(r@ =~= join(base@, name@));
    }
    r
}

/// Two distinct names joined to one base give two distinct paths.
pub proof fn lemma_join_injective(base: Seq<u8>, n1: Seq<u8>, n2: Seq<u8>)
    requires
        n1 != n2,
    ensures
        join(base, n1) != join(base, n2),
{
    if join(base, n1) == join(base, n2) {
        assert(join(base, n1).skip(base.len() + 1 as int) =~= n1);
        assert(join(base, n2).skip(base.len() + 1 as int) =~= n2);
    }
}

/// A path `k` lies under a directory `p`: it extends `p` past a separator.
pub open spec fn under(p: Seq<u8>, k: Seq<u8>) -> bool {
    &&& k.len() > p.len() + 1
    &&& k.take(p.len() as int) == p
    &&& k[p.len() as int] == SLASH
}

} // verus!
