use vstd::prelude::*;

use crate::cur::{Cursor, RefMut};
use crate::error::Error;
use crate::lense::{AlignedLense, FixedLense, Lense, SizedLense};
use crate::slice::Slice;
use crate::prim::Primitive;
use crate::tag::{bit_set, larger_size};
use crate::vec::Iter;

verus! {

/// A record of mixed-width fields whose natural alignment holds by
/// position: `a: u8`, `bc: (u8, u16)`, `d: u32`, `e: u64`, 16 bytes.
#[derive(Debug)]
pub struct Alice {
    pub a: RefMut<u8>,
    pub bc: (RefMut<u8>, RefMut<u16>),
    pub d: RefMut<u32>,
    pub e: RefMut<u64>,
}

impl Lense for Alice {
    type Ret = Alice;

    /// The fields, decoded in declaration order.
    open spec fn spec_lense(c: Cursor, b: Seq<u8>) -> (Result<Alice, Error>, Cursor) {
        let (r, c1) = <(u8, (u8, u16), u32, u64)>::spec_lense(c, b);
        match r {
            Ok((a, bc, d, e)) => (Ok(Alice { a, bc, d, e }), c1),
            Err(e) => (Err(e), c1),
        }
    }

    fn lense(c: &mut Cursor, b: &[u8]) -> (r: Result<Alice, Error>) {
        match <(u8, (u8, u16), u32, u64)>::lense(c, b) {
            Ok((a, bc, d, e)) => Ok(Alice { a, bc, d, e }),
            Err(e) => Err(e),
        }
    }
}

impl FixedLense for Alice {
    proof fn lemma_content_free(c: Cursor, b1: Seq<u8>, b2: Seq<u8>) {
        <(u8, (u8, u16), u32, u64)>::lemma_content_free(c, b1, b2);
    }
}

impl SizedLense for Alice {
    open spec fn spec_size() -> nat {
        <(u8, (u8, u16), u32, u64)>::spec_size()
    }

    fn size() -> (r: usize) {
        <(u8, (u8, u16), u32, u64)>::size()
    }
}

/// Aligned to its widest field, `e: u64`; every field then meets its own
/// alignment by position.
impl AlignedLense for Alice {
    open spec fn spec_alignment() -> nat {
        8
    }

    fn alignment() -> (r: usize) {
        <u64 as Primitive>::size()
    }

    proof fn lemma_shape() {
    }

    #[verifier::rlimit(50)]
    proof fn lemma_tiles(c: Cursor, b: Seq<u8>) {
    }
}


/// A record that ends in two length-prefixed fields:
/// `a: u8`, `b: (u8, u16)`, `c: [u32]`, `d: Vec<u64>`.
#[derive(Debug)]
pub struct Trailing {
    pub a: RefMut<u8>,
    pub b: (RefMut<u8>, RefMut<u16>),
    pub c: Slice<u32>,
    pub d: Iter<u64>,
}

impl Lense for Trailing {
    type Ret = Trailing;

    /// The fields, decoded in declaration order.
    open spec fn spec_lense(c: Cursor, b: Seq<u8>) -> (Result<Trailing, Error>, Cursor) {
        let (r1, c1) = <(u8, (u8, u16))>::spec_lense(c, b);
        match r1 {
            Err(e) => (Err(e), c1),
            Ok((a, bb)) => {
                let (r2, c2) = <[u32]>::spec_lense(c1, b);
                match r2 {
                    Err(e) => (Err(e), c2),
                    Ok(cc) => {
                        let (r3, c3) = <Vec<u64>>::spec_lense(c2, b);
                        match r3 {
                            Err(e) => (Err(e), c3),
                            Ok(d) => (Ok(Trailing { a, b: bb, c: cc, d }), c3),
                        }
                    },
                }
            },
        }
    }

    fn lense(c: &mut Cursor, b: &[u8]) -> (r: Result<Trailing, Error>) {
        let (a, bb) = match <(u8, (u8, u16))>::lense(c, b) {
            Ok(v) => v,
            Err(e) => {
                return Err(e);
            },
        };
        let cc = match <[u32]>::lense(c, b) {
            Ok(v) => v,
            Err(e) => {
                return Err(e);
            },
        };
        match <Vec<u64>>::lense(c, b) {
            Ok(d) => Ok(Trailing { a, b: bb, c: cc, d }),
            Err(e) => Err(e),
        }
    }
}

/// A union in a fixed 3-byte region: a clear tag bit selects `A(u8)`, a set
/// one `B(u8, u16)`.
#[derive(Debug)]
pub enum Bob {
    A(RefMut<u8>),
    B(RefMut<u8>, RefMut<u16>),
}

impl Lense for Bob {
    type Ret = Bob;

    open spec fn spec_lense(c: Cursor, b: Seq<u8>) -> (Result<Bob, Error>, Cursor) {
        let (r, c1) = c.spec_advance(larger_size::<u8, (u8, u16)>());
        match r {
            Err(e) => (Err(e), c1),
            Ok(sub) => {
                let (rg, s1) = sub.spec_tag_bit();
                match rg {
                    Err(e) => (Err(e), c1),
                    Ok(g) => if !bit_set(b[g.byte as int], g.bit) {
                        match <u8 as Lense>::spec_lense(s1, b).0 {
                            Ok(x) => (Ok(Bob::A(x)), c1),
                            Err(e) => (Err(e), c1),
                        }
                    } else {
                        match <(u8, u16)>::spec_lense(s1, b).0 {
                            Ok((x, y)) => (Ok(Bob::B(x, y)), c1),
                            Err(e) => (Err(e), c1),
                        }
                    },
                }
            },
        }
    }

    fn lense(c: &mut Cursor, b: &[u8]) -> (r: Result<Bob, Error>) {
        let mut sub = match c.advance(Self::size() as u64) {
            Ok(s) => s,
            Err(e) => {
                return Err(e);
            },
        };
        let g = match sub.tag_bit() {
            Ok(g) => g,
            Err(e) => {
                return Err(e);
            },
        };
        if !g.get(b) {
            match <u8 as Lense>::lense(&mut sub, b) {
                Ok(x) => Ok(Bob::A(x)),
                Err(e) => Err(e),
            }
        } else {
            match <(u8, u16)>::lense(&mut sub, b) {
                Ok((x, y)) => Ok(Bob::B(x, y)),
                Err(e) => Err(e),
            }
        }
    }
}

impl SizedLense for Bob {
    /// The larger variant.
    open spec fn spec_size() -> nat {
        larger_size::<u8, (u8, u16)>()
    }

    fn size() -> (r: usize) {
        let a = <u8 as SizedLense>::size();
        let b = <(u8, u16)>::size();
        if a >= b {
            a
        } else {
            b
        }
    }
}

/// A union selected by a tag bit: clear for [`Trailing`], set for [`Bob`].
#[derive(Debug)]
pub enum Carol {
    Alice(Trailing),
    Bob(Bob),
}

impl Lense for Carol {
    type Ret = Carol;

    open spec fn spec_lense(c: Cursor, b: Seq<u8>) -> (Result<Carol, Error>, Cursor) {
        let (rg, c1) = c.spec_tag_bit();
        match rg {
            Err(e) => (Err(e), c1),
            Ok(g) => if !bit_set(b[g.byte as int], g.bit) {
                let (r, c2) = Trailing::spec_lense(c1, b);
                match r {
                    Ok(v) => (Ok(Carol::Alice(v)), c2),
                    Err(e) => (Err(e), c2),
                }
            } else {
                let (r, c2) = Bob::spec_lense(c1, b);
                match r {
                    Ok(v) => (Ok(Carol::Bob(v)), c2),
                    Err(e) => (Err(e), c2),
                }
            },
        }
    }

    fn lense(c: &mut Cursor, b: &[u8]) -> (r: Result<Carol, Error>) {
        let g = match c.tag_bit() {
            Ok(g) => g,
            Err(e) => {
                return Err(e);
            },
        };
        if !g.get(b) {
            match Trailing::lense(c, b) {
                Ok(v) => Ok(Carol::Alice(v)),
                Err(e) => Err(e),
            }
        } else {
            match Bob::lense(c, b) {
                Ok(v) => Ok(Carol::Bob(v)),
                Err(e) => Err(e),
            }
        }
    }
}

} // verus!
