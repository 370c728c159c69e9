use vstd::prelude::*;

use crate::cur::{Cursor, RefMut};
use crate::error::Error;
use crate::prim::Primitive;

verus! {

/// `n` as a `usize`, or `usize::MAX` when it does not fit.
pub open spec fn sat(n: nat) -> usize {
    if n <= usize::MAX {
        n as usize
    } else {
        usize::MAX
    }
}

/// A type that can be decoded, as views, from a cursor over a buffer.
///
/// `spec_lense(c, b)` is the outcome of decoding from cursor state `c` over
/// buffer contents `b`: the views (or the error) and the cursor afterwards.
pub trait Lense {
    type Ret;

    spec fn spec_lense(c: Cursor, b: Seq<u8>) -> (Result<Self::Ret, Error>, Cursor);

    fn lense(c: &mut Cursor, b: &[u8]) -> (r: Result<Self::Ret, Error>)
        requires
            old(c).within(b@.len()),
        ensures
            (r, *final(c)) == Self::spec_lense(*old(c), b@),
            final(c).within(b@.len()),
    ;
}

/// A lense whose encoded size does not depend on the buffer's contents.
pub trait SizedLense: Lense {
    /// Encoded size in bytes.
    spec fn spec_size() -> nat;

    /// The encoded size, saturated at `usize::MAX`.
    fn size() -> (r: usize)
        ensures
            r == sat(Self::spec_size()),
    ;
}

/// A sized lense that tiles: at an offset that meets its alignment it takes
/// exactly its size, with no padding, so values of it can be stored back to
/// back from an aligned start.
pub trait AlignedLense: SizedLense {
    /// Alignment in bytes.
    spec fn spec_alignment() -> nat;

    fn alignment() -> (r: usize)
        ensures
            r == Self::spec_alignment(),
    ;

    proof fn lemma_shape()
        ensures
            1 <= Self::spec_alignment() <= 8,
            1 <= Self::spec_size() <= usize::MAX,
            Self::spec_size() % Self::spec_alignment() == 0,
    ;

    /// From an aligned offset a value takes exactly its size when that many
    /// bytes remain, and decoding fails when none remain.
    proof fn lemma_tiles(c: Cursor, b: Seq<u8>)
        requires
            c.within(b.len()),
        ensures
            (c.padded ==> (c.cur as nat) % Self::spec_alignment() == 0) && c.cur + Self::spec_size()
                <= c.end ==> Self::spec_lense(c, b).0 is Ok
                && Self::spec_lense(c, b).1 == (Cursor { cur: (c.cur + Self::spec_size()) as usize, ..c }),
            c.cur == c.end ==> Self::spec_lense(c, b).0 is Err,
    ;
}

/// A lense whose decoding never reads the buffer: primitives and tuples of
/// them. Positions, waste and success depend only on the cursor.
pub trait FixedLense: Lense {
    /// Decoding gives the same views and cursor over any two buffers, so
    /// writing through the views and decoding again finds the same views.
    proof fn lemma_content_free(c: Cursor, b1: Seq<u8>, b2: Seq<u8>)
        ensures
            Self::spec_lense(c, b1) == Self::spec_lense(c, b2),
    ;
}

impl Lense for u8 {
    type Ret = RefMut<u8>;

    open spec fn spec_lense(c: Cursor, b: Seq<u8>) -> (Result<RefMut<u8>, Error>, Cursor) {
        c.spec_dice::<u8>()
    }

    fn lense(c: &mut Cursor, b: &[u8]) -> (r: Result<RefMut<u8>, Error>) {
        c.dice::<u8>()
    }
}

impl SizedLense for u8 {
    open spec fn spec_size() -> nat {
        <u8 as Primitive>::width()
    }

    fn size() -> (r: usize) {
        <u8 as Primitive>::size()
    }
}

impl FixedLense for u8 {
    proof fn lemma_content_free(c: Cursor, b1: Seq<u8>, b2: Seq<u8>) {
    }
}

impl AlignedLense for u8 {
    open spec fn spec_alignment() -> nat {
        <u8 as Primitive>::width()
    }

    fn alignment() -> (r: usize) {
        <u8 as Primitive>::size()
    }

    proof fn lemma_shape() {
    }

    proof fn lemma_tiles(c: Cursor, b: Seq<u8>) {
    }
}

impl Lense for u16 {
    type Ret = RefMut<u16>;

    open spec fn spec_lense(c: Cursor, b: Seq<u8>) -> (Result<RefMut<u16>, Error>, Cursor) {
        c.spec_dice::<u16>()
    }

    fn lense(c: &mut Cursor, b: &[u8]) -> (r: Result<RefMut<u16>, Error>) {
        c.dice::<u16>()
    }
}

impl SizedLense for u16 {
    open spec fn spec_size() -> nat {
        <u16 as Primitive>::width()
    }

    fn size() -> (r: usize) {
        <u16 as Primitive>::size()
    }
}

impl FixedLense for u16 {
    proof fn lemma_content_free(c: Cursor, b1: Seq<u8>, b2: Seq<u8>) {
    }
}

impl AlignedLense for u16 {
    open spec fn spec_alignment() -> nat {
        <u16 as Primitive>::width()
    }

    fn alignment() -> (r: usize) {
        <u16 as Primitive>::size()
    }

    proof fn lemma_shape() {
    }

    proof fn lemma_tiles(c: Cursor, b: Seq<u8>) {
    }
}

impl Lense for u32 {
    type Ret = RefMut<u32>;

    open spec fn spec_lense(c: Cursor, b: Seq<u8>) -> (Result<RefMut<u32>, Error>, Cursor) {
        c.spec_dice::<u32>()
    }

    fn lense(c: &mut Cursor, b: &[u8]) -> (r: Result<RefMut<u32>, Error>) {
        c.dice::<u32>()
    }
}

impl SizedLense for u32 {
    open spec fn spec_size() -> nat {
        <u32 as Primitive>::width()
    }

    fn size() -> (r: usize) {
        <u32 as Primitive>::size()
    }
}

impl FixedLense for u32 {
    proof fn lemma_content_free(c: Cursor, b1: Seq<u8>, b2: Seq<u8>) {
    }
}

impl AlignedLense for u32 {
    open spec fn spec_alignment() -> nat {
        <u32 as Primitive>::width()
    }

    fn alignment() -> (r: usize) {
        <u32 as Primitive>::size()
    }

    proof fn lemma_shape() {
    }

    proof fn lemma_tiles(c: Cursor, b: Seq<u8>) {
    }
}

impl Lense for u64 {
    type Ret = RefMut<u64>;

    open spec fn spec_lense(c: Cursor, b: Seq<u8>) -> (Result<RefMut<u64>, Error>, Cursor) {
        c.spec_dice::<u64>()
    }

    fn lense(c: &mut Cursor, b: &[u8]) -> (r: Result<RefMut<u64>, Error>) {
        c.dice::<u64>()
    }
}

impl SizedLense for u64 {
    open spec fn spec_size() -> nat {
        <u64 as Primitive>::width()
    }

    fn size() -> (r: usize) {
        <u64 as Primitive>::size()
    }
}

impl FixedLense for u64 {
    proof fn lemma_content_free(c: Cursor, b1: Seq<u8>, b2: Seq<u8>) {
    }
}

impl AlignedLense for u64 {
    open spec fn spec_alignment() -> nat {
        <u64 as Primitive>::width()
    }

    fn alignment() -> (r: usize) {
        <u64 as Primitive>::size()
    }

    proof fn lemma_shape() {
    }

    proof fn lemma_tiles(c: Cursor, b: Seq<u8>) {
    }
}

impl Lense for i8 {
    type Ret = RefMut<i8>;

    open spec fn spec_lense(c: Cursor, b: Seq<u8>) -> (Result<RefMut<i8>, Error>, Cursor) {
        c.spec_dice::<i8>()
    }

    fn lense(c: &mut Cursor, b: &[u8]) -> (r: Result<RefMut<i8>, Error>) {
        c.dice::<i8>()
    }
}

impl SizedLense for i8 {
    open spec fn spec_size() -> nat {
        <i8 as Primitive>::width()
    }

    fn size() -> (r: usize) {
        <i8 as Primitive>::size()
    }
}

impl FixedLense for i8 {
    proof fn lemma_content_free(c: Cursor, b1: Seq<u8>, b2: Seq<u8>) {
    }
}

impl AlignedLense for i8 {
    open spec fn spec_alignment() -> nat {
        <i8 as Primitive>::width()
    }

    fn alignment() -> (r: usize) {
        <i8 as Primitive>::size()
    }

    proof fn lemma_shape() {
    }

    proof fn lemma_tiles(c: Cursor, b: Seq<u8>) {
    }
}

impl Lense for i16 {
    type Ret = RefMut<i16>;

    open spec fn spec_lense(c: Cursor, b: Seq<u8>) -> (Result<RefMut<i16>, Error>, Cursor) {
        c.spec_dice::<i16>()
    }

    fn lense(c: &mut Cursor, b: &[u8]) -> (r: Result<RefMut<i16>, Error>) {
        c.dice::<i16>()
    }
}

impl SizedLense for i16 {
    open spec fn spec_size() -> nat {
        <i16 as Primitive>::width()
    }

    fn size() -> (r: usize) {
        <i16 as Primitive>::size()
    }
}

impl FixedLense for i16 {
    proof fn lemma_content_free(c: Cursor, b1: Seq<u8>, b2: Seq<u8>) {
    }
}

impl AlignedLense for i16 {
    open spec fn spec_alignment() -> nat {
        <i16 as Primitive>::width()
    }

    fn alignment() -> (r: usize) {
        <i16 as Primitive>::size()
    }

    proof fn lemma_shape() {
    }

    proof fn lemma_tiles(c: Cursor, b: Seq<u8>) {
    }
}

impl Lense for i32 {
    type Ret = RefMut<i32>;

    open spec fn spec_lense(c: Cursor, b: Seq<u8>) -> (Result<RefMut<i32>, Error>, Cursor) {
        c.spec_dice::<i32>()
    }

    fn lense(c: &mut Cursor, b: &[u8]) -> (r: Result<RefMut<i32>, Error>) {
        c.dice::<i32>()
    }
}

impl SizedLense for i32 {
    open spec fn spec_size() -> nat {
        <i32 as Primitive>::width()
    }

    fn size() -> (r: usize) {
        <i32 as Primitive>::size()
    }
}

impl FixedLense for i32 {
    proof fn lemma_content_free(c: Cursor, b1: Seq<u8>, b2: Seq<u8>) {
    }
}

impl AlignedLense for i32 {
    open spec fn spec_alignment() -> nat {
        <i32 as Primitive>::width()
    }

    fn alignment() -> (r: usize) {
        <i32 as Primitive>::size()
    }

    proof fn lemma_shape() {
    }

    proof fn lemma_tiles(c: Cursor, b: Seq<u8>) {
    }
}

impl Lense for i64 {
    type Ret = RefMut<i64>;

    open spec fn spec_lense(c: Cursor, b: Seq<u8>) -> (Result<RefMut<i64>, Error>, Cursor) {
        c.spec_dice::<i64>()
    }

    fn lense(c: &mut Cursor, b: &[u8]) -> (r: Result<RefMut<i64>, Error>) {
        c.dice::<i64>()
    }
}

impl SizedLense for i64 {
    open spec fn spec_size() -> nat {
        <i64 as Primitive>::width()
    }

    fn size() -> (r: usize) {
        <i64 as Primitive>::size()
    }
}

impl FixedLense for i64 {
    proof fn lemma_content_free(c: Cursor, b1: Seq<u8>, b2: Seq<u8>) {
    }
}

impl AlignedLense for i64 {
    open spec fn spec_alignment() -> nat {
        <i64 as Primitive>::width()
    }

    fn alignment() -> (r: usize) {
        <i64 as Primitive>::size()
    }

    proof fn lemma_shape() {
    }

    proof fn lemma_tiles(c: Cursor, b: Seq<u8>) {
    }
}

impl<A: Lense, B: Lense> Lense for (A, B) {
    type Ret = (A::Ret, B::Ret);

    /// Fields are decoded left to right on the same cursor.
    open spec fn spec_lense(c: Cursor, b: Seq<u8>) -> (Result<(A::Ret, B::Ret), Error>, Cursor) {
        let (ra, c1) = A::spec_lense(c, b);
        match ra {
            Err(e) => (Err(e), c1),
            Ok(a) => {
                let (rt, c2) = B::spec_lense(c1, b);
                match rt {
                    Err(e) => (Err(e), c2),
                    Ok(t) => (Ok((a, t)), c2),
                }
            },
        }
    }

    fn lense(c: &mut Cursor, b: &[u8]) -> (r: Result<(A::Ret, B::Ret), Error>) {
        let a = match A::lense(c, b) {
            Ok(a) => a,
            Err(e) => {
                return Err(e);
            },
        };
        match B::lense(c, b) {
            Ok(t) => Ok((a, t)),
            Err(e) => Err(e),
        }
    }
}

impl<A: FixedLense, B: FixedLense> FixedLense for (A, B) {
    proof fn lemma_content_free(c: Cursor, b1: Seq<u8>, b2: Seq<u8>) {
        A::lemma_content_free(c, b1, b2);
        B::lemma_content_free(A::spec_lense(c, b1).1, b1, b2);
    }
}

impl<A: SizedLense, B: SizedLense> SizedLense for (A, B) {
    open spec fn spec_size() -> nat {
        A::spec_size() + B::spec_size()
    }

    fn size() -> (r: usize) {
        A::size().saturating_add(B::size())
    }
}


impl<A: Lense, B: Lense, C: Lense> Lense for (A, B, C) {
    type Ret = (A::Ret, B::Ret, C::Ret);

    /// Fields are decoded left to right on the same cursor.
    open spec fn spec_lense(c: Cursor, b: Seq<u8>) -> (Result<(A::Ret, B::Ret, C::Ret), Error>, Cursor) {
        let (ra, c1) = A::spec_lense(c, b);
        match ra {
            Err(e) => (Err(e), c1),
            Ok(a) => {
                let (rt, c2) = <(B, C)>::spec_lense(c1, b);
                match rt {
                    Err(e) => (Err(e), c2),
                    Ok(t) => (Ok((a, t.0, t.1)), c2),
                }
            },
        }
    }

    fn lense(c: &mut Cursor, b: &[u8]) -> (r: Result<(A::Ret, B::Ret, C::Ret), Error>) {
        let a = match A::lense(c, b) {
            Ok(a) => a,
            Err(e) => {
                return Err(e);
            },
        };
        match <(B, C)>::lense(c, b) {
            Ok((t0, t1)) => Ok((a, t0, t1)),
            Err(e) => Err(e),
        }
    }
}

impl<A: FixedLense, B: FixedLense, C: FixedLense> FixedLense for (A, B, C) {
    proof fn lemma_content_free(c: Cursor, b1: Seq<u8>, b2: Seq<u8>) {
        A::lemma_content_free(c, b1, b2);
        <(B, C)>::lemma_content_free(A::spec_lense(c, b1).1, b1, b2);
    }
}

impl<A: SizedLense, B: SizedLense, C: SizedLense> SizedLense for (A, B, C) {
    open spec fn spec_size() -> nat {
        A::spec_size() + <(B, C)>::spec_size()
    }

    fn size() -> (r: usize) {
        A::size().saturating_add(<(B, C)>::size())
    }
}


impl<A: Lense, B: Lense, C: Lense, D: Lense> Lense for (A, B, C, D) {
    type Ret = (A::Ret, B::Ret, C::Ret, D::Ret);

    /// Fields are decoded left to right on the same cursor.
    open spec fn spec_lense(c: Cursor, b: Seq<u8>) -> (Result<(A::Ret, B::Ret, C::Ret, D::Ret), Error>, Cursor) {
        let (ra, c1) = A::spec_lense(c, b);
        match ra {
            Err(e) => (Err(e), c1),
            Ok(a) => {
                let (rt, c2) = <(B, C, D)>::spec_lense(c1, b);
                match rt {
                    Err(e) => (Err(e), c2),
                    Ok(t) => (Ok((a, t.0, t.1, t.2)), c2),
                }
            },
        }
    }

    fn lense(c: &mut Cursor, b: &[u8]) -> (r: Result<(A::Ret, B::Ret, C::Ret, D::Ret), Error>) {
        let a = match A::lense(c, b) {
            Ok(a) => a,
            Err(e) => {
                return Err(e);
            },
        };
        match <(B, C, D)>::lense(c, b) {
            Ok((t0, t1, t2)) => Ok((a, t0, t1, t2)),
            Err(e) => Err(e),
        }
    }
}

impl<A: FixedLense, B: FixedLense, C: FixedLense, D: FixedLense> FixedLense for (A, B, C, D) {
    proof fn lemma_content_free(c: Cursor, b1: Seq<u8>, b2: Seq<u8>) {
        A::lemma_content_free(c, b1, b2);
        <(B, C, D)>::lemma_content_free(A::spec_lense(c, b1).1, b1, b2);
    }
}

impl<A: SizedLense, B: SizedLense, C: SizedLense, D: SizedLense> SizedLense for (A, B, C, D) {
    open spec fn spec_size() -> nat {
        A::spec_size() + <(B, C, D)>::spec_size()
    }

    fn size() -> (r: usize) {
        A::size().saturating_add(<(B, C, D)>::size())
    }
}


impl<A: Lense, B: Lense, C: Lense, D: Lense, E: Lense> Lense for (A, B, C, D, E) {
    type Ret = (A::Ret, B::Ret, C::Ret, D::Ret, E::Ret);

    /// Fields are decoded left to right on the same cursor.
    open spec fn spec_lense(c: Cursor, b: Seq<u8>) -> (Result<(A::Ret, B::Ret, C::Ret, D::Ret, E::Ret), Error>, Cursor) {
        let (ra, c1) = A::spec_lense(c, b);
        match ra {
            Err(e) => (Err(e), c1),
            Ok(a) => {
                let (rt, c2) = <(B, C, D, E)>::spec_lense(c1, b);
                match rt {
                    Err(e) => (Err(e), c2),
                    Ok(t) => (Ok((a, t.0, t.1, t.2, t.3)), c2),
                }
            },
        }
    }

    fn lense(c: &mut Cursor, b: &[u8]) -> (r: Result<(A::Ret, B::Ret, C::Ret, D::Ret, E::Ret), Error>) {
        let a = match A::lense(c, b) {
            Ok(a) => a,
            Err(e) => {
                return Err(e);
            },
        };
        match <(B, C, D, E)>::lense(c, b) {
            Ok((t0, t1, t2, t3)) => Ok((a, t0, t1, t2, t3)),
            Err(e) => Err(e),
        }
    }
}

impl<A: FixedLense, B: FixedLense, C: FixedLense, D: FixedLense, E: FixedLense> FixedLense for (A, B, C, D, E) {
    proof fn lemma_content_free(c: Cursor, b1: Seq<u8>, b2: Seq<u8>) {
        A::lemma_content_free(c, b1, b2);
        <(B, C, D, E)>::lemma_content_free(A::spec_lense(c, b1).1, b1, b2);
    }
}

impl<A: SizedLense, B: SizedLense, C: SizedLense, D: SizedLense, E: SizedLense> SizedLense for (A, B, C, D, E) {
    open spec fn spec_size() -> nat {
        A::spec_size() + <(B, C, D, E)>::spec_size()
    }

    fn size() -> (r: usize) {
        A::size().saturating_add(<(B, C, D, E)>::size())
    }
}


impl<A: Lense, B: Lense, C: Lense, D: Lense, E: Lense, F: Lense> Lense for (A, B, C, D, E, F) {
    type Ret = (A::Ret, B::Ret, C::Ret, D::Ret, E::Ret, F::Ret);

    /// Fields are decoded left to right on the same cursor.
    open spec fn spec_lense(c: Cursor, b: Seq<u8>) -> (Result<(A::Ret, B::Ret, C::Ret, D::Ret, E::Ret, F::Ret), Error>, Cursor) {
        let (ra, c1) = A::spec_lense(c, b);
        match ra {
            Err(e) => (Err(e), c1),
            Ok(a) => {
                let (rt, c2) = <(B, C, D, E, F)>::spec_lense(c1, b);
                match rt {
                    Err(e) => (Err(e), c2),
                    Ok(t) => (Ok((a, t.0, t.1, t.2, t.3, t.4)), c2),
                }
            },
        }
    }

    fn lense(c: &mut Cursor, b: &[u8]) -> (r: Result<(A::Ret, B::Ret, C::Ret, D::Ret, E::Ret, F::Ret), Error>) {
        let a = match A::lense(c, b) {
            Ok(a) => a,
            Err(e) => {
                return Err(e);
            },
        };
        match <(B, C, D, E, F)>::lense(c, b) {
            Ok((t0, t1, t2, t3, t4)) => Ok((a, t0, t1, t2, t3, t4)),
            Err(e) => Err(e),
        }
    }
}

impl<A: FixedLense, B: FixedLense, C: FixedLense, D: FixedLense, E: FixedLense, F: FixedLense> FixedLense for (A, B, C, D, E, F) {
    proof fn lemma_content_free(c: Cursor, b1: Seq<u8>, b2: Seq<u8>) {
        A::lemma_content_free(c, b1, b2);
        <(B, C, D, E, F)>::lemma_content_free(A::spec_lense(c, b1).1, b1, b2);
    }
}

impl<A: SizedLense, B: SizedLense, C: SizedLense, D: SizedLense, E: SizedLense, F: SizedLense> SizedLense for (A, B, C, D, E, F) {
    open spec fn spec_size() -> nat {
        A::spec_size() + <(B, C, D, E, F)>::spec_size()
    }

    fn size() -> (r: usize) {
        A::size().saturating_add(<(B, C, D, E, F)>::size())
    }
}


impl<A: Lense, B: Lense, C: Lense, D: Lense, E: Lense, F: Lense, G: Lense> Lense for (A, B, C, D, E, F, G) {
    type Ret = (A::Ret, B::Ret, C::Ret, D::Ret, E::Ret, F::Ret, G::Ret);

    /// Fields are decoded left to right on the same cursor.
    open spec fn spec_lense(c: Cursor, b: Seq<u8>) -> (Result<(A::Ret, B::Ret, C::Ret, D::Ret, E::Ret, F::Ret, G::Ret), Error>, Cursor) {
        let (ra, c1) = A::spec_lense(c, b);
        match ra {
            Err(e) => (Err(e), c1),
            Ok(a) => {
                let (rt, c2) = <(B, C, D, E, F, G)>::spec_lense(c1, b);
                match rt {
                    Err(e) => (Err(e), c2),
                    Ok(t) => (Ok((a, t.0, t.1, t.2, t.3, t.4, t.5)), c2),
                }
            },
        }
    }

    fn lense(c: &mut Cursor, b: &[u8]) -> (r: Result<(A::Ret, B::Ret, C::Ret, D::Ret, E::Ret, F::Ret, G::Ret), Error>) {
        let a = match A::lense(c, b) {
            Ok(a) => a,
            Err(e) => {
                return Err(e);
            },
        };
        match <(B, C, D, E, F, G)>::lense(c, b) {
            Ok((t0, t1, t2, t3, t4, t5)) => Ok((a, t0, t1, t2, t3, t4, t5)),
            Err(e) => Err(e),
        }
    }
}

impl<A: FixedLense, B: FixedLense, C: FixedLense, D: FixedLense, E: FixedLense, F: FixedLense, G: FixedLense> FixedLense for (A, B, C, D, E, F, G) {
    proof fn lemma_content_free(c: Cursor, b1: Seq<u8>, b2: Seq<u8>) {
        A::lemma_content_free(c, b1, b2);
        <(B, C, D, E, F, G)>::lemma_content_free(A::spec_lense(c, b1).1, b1, b2);
    }
}

impl<A: SizedLense, B: SizedLense, C: SizedLense, D: SizedLense, E: SizedLense, F: SizedLense, G: SizedLense> SizedLense for (A, B, C, D, E, F, G) {
    open spec fn spec_size() -> nat {
        A::spec_size() + <(B, C, D, E, F, G)>::spec_size()
    }

    fn size() -> (r: usize) {
        A::size().saturating_add(<(B, C, D, E, F, G)>::size())
    }
}


impl<A: Lense, B: Lense, C: Lense, D: Lense, E: Lense, F: Lense, G: Lense, H: Lense> Lense for (A, B, C, D, E, F, G, H) {
    type Ret = (A::Ret, B::Ret, C::Ret, D::Ret, E::Ret, F::Ret, G::Ret, H::Ret);

    /// Fields are decoded left to right on the same cursor.
    open spec fn spec_lense(c: Cursor, b: Seq<u8>) -> (Result<(A::Ret, B::Ret, C::Ret, D::Ret, E::Ret, F::Ret, G::Ret, H::Ret), Error>, Cursor) {
        let (ra, c1) = A::spec_lense(c, b);
        match ra {
            Err(e) => (Err(e), c1),
            Ok(a) => {
                let (rt, c2) = <(B, C, D, E, F, G, H)>::spec_lense(c1, b);
                match rt {
                    Err(e) => (Err(e), c2),
                    Ok(t) => (Ok((a, t.0, t.1, t.2, t.3, t.4, t.5, t.6)), c2),
                }
            },
        }
    }

    fn lense(c: &mut Cursor, b: &[u8]) -> (r: Result<(A::Ret, B::Ret, C::Ret, D::Ret, E::Ret, F::Ret, G::Ret, H::Ret), Error>) {
        let a = match A::lense(c, b) {
            Ok(a) => a,
            Err(e) => {
                return Err(e);
            },
        };
        match <(B, C, D, E, F, G, H)>::lense(c, b) {
            Ok((t0, t1, t2, t3, t4, t5, t6)) => Ok((a, t0, t1, t2, t3, t4, t5, t6)),
            Err(e) => Err(e),
        }
    }
}

impl<A: FixedLense, B: FixedLense, C: FixedLense, D: FixedLense, E: FixedLense, F: FixedLense, G: FixedLense, H: FixedLense> FixedLense for (A, B, C, D, E, F, G, H) {
    proof fn lemma_content_free(c: Cursor, b1: Seq<u8>, b2: Seq<u8>) {
        A::lemma_content_free(c, b1, b2);
        <(B, C, D, E, F, G, H)>::lemma_content_free(A::spec_lense(c, b1).1, b1, b2);
    }
}

impl<A: SizedLense, B: SizedLense, C: SizedLense, D: SizedLense, E: SizedLense, F: SizedLense, G: SizedLense, H: SizedLense> SizedLense for (A, B, C, D, E, F, G, H) {
    open spec fn spec_size() -> nat {
        A::spec_size() + <(B, C, D, E, F, G, H)>::spec_size()
    }

    fn size() -> (r: usize) {
        A::size().saturating_add(<(B, C, D, E, F, G, H)>::size())
    }
}



/// Outcome of decoding `n` values of `L` one after another.
pub open spec fn spec_lense_n<L: Lense>(c: Cursor, b: Seq<u8>, n: nat) -> (Result<Seq<L::Ret>, Error>, Cursor)
    decreases n,
{
    if n == 0 {
        (Ok(Seq::empty()), c)
    } else {
        let (r, c1) = spec_lense_n::<L>(c, b, (n - 1) as nat);
        match r {
            Err(e) => (Err(e), c1),
            Ok(s) => {
                let (rv, c2) = L::spec_lense(c1, b);
                match rv {
                    Ok(v) => (Ok(s.push(v)), c2),
                    Err(e) => (Err(e), c2),
                }
            },
        }
    }
}

/// Decode a fixed-length array of `n` values of `L`, in index order.
pub fn lense_array<L: Lense>(c: &mut Cursor, b: &[u8], n: usize) -> (r: Result<Vec<L::Ret>, Error>)
    requires
        old(c).within(b@.len()),
    ensures
        final(c).within(b@.len()),
        *final(c) == spec_lense_n::<L>(*old(c), b@, n as nat).1,
        match spec_lense_n::<L>(*old(c), b@, n as nat).0 {
            Ok(s) => r matches Ok(v) && v@ == s,
            Err(e) => r == Err::<Vec<L::Ret>, Error>(e),
        },
{
    let mut out: Vec<L::Ret> = Vec::new();
    let mut i: usize = 0;
    while i < n
        invariant
            i <= n,
            c.within(b@.len()),
            spec_lense_n::<L>(*old(c), b@, i as nat) == (Ok::<Seq<L::Ret>, Error>(out@), *c),
        decreases n - i,
    {
        match L::lense(c, b) {
            Ok(v) => {
                out.push(v);
            },
            Err(e) => {
                proof {
                    lemma_lense_n_stops::<L>(*old(c), b@, (i + 1) as nat, n as nat);
                }
                return Err(e);
            },
        }
        i = i + 1;
    }
    Ok(out)
}

/// Once decoding fails, decoding more elements fails the same way.
proof fn lemma_lense_n_stops<L: Lense>(c: Cursor, b: Seq<u8>, i: nat, n: nat)
    requires
        i <= n,
        spec_lense_n::<L>(c, b, i).0 is Err,
    ensures
        spec_lense_n::<L>(c, b, n) == spec_lense_n::<L>(c, b, i),
    decreases n - i,
{
    if i < n {
        lemma_lense_n_stops::<L>(c, b, i, (n - 1) as nat);
    }
}

} // verus!
