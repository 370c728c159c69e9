use core::marker::PhantomData;
use vstd::prelude::*;

use crate::cur::Cursor;
use crate::error::Error;
use crate::lense::{Lense, SizedLense, sat};
use crate::prim::Primitive;

verus! {

/// Whether bit `k` of `x` is set.
pub open spec fn bit_set(x: u8, k: u8) -> bool {
    x & (1u8 << k) != 0
}

/// `x` with bit `k` set to `v`.
pub open spec fn with_bit(x: u8, k: u8, v: bool) -> u8 {
    if v {
        x | (1u8 << k)
    } else {
        x & !(1u8 << k)
    }
}

/// `x` masked to the `n` bits that start at bit `k`, left in place.
pub open spec fn bit_field(x: u8, k: usize, n: usize) -> usize {
    (x as usize) & ((((1usize << n) - 1) as usize) << k)
}

/// Bit allocator over a reserved region of tag bytes `[cur, end)`.
///
/// `n` counts the bits already handed out from byte `cur`; once it reaches 8
/// the next request moves on to the following byte.
#[derive(Clone, Copy, Debug, PartialEq, Eq, Structural)]
pub struct LenseTag {
    pub cur: usize,
    pub end: usize,
    pub n: usize,
}

impl LenseTag {
    pub open spec fn wf(self) -> bool {
        &&& self.n <= 8
        &&& self.cur <= self.end
        &&& self.n > 0 ==> self.cur < self.end
    }

    /// The state after moving past a full byte, if the current one is full.
    pub open spec fn rolled(self) -> LenseTag {
        if self.n == 8 {
            LenseTag { cur: (self.cur + 1) as usize, end: self.end, n: 0 }
        } else {
            self
        }
    }

    /// Outcome of [`LenseTag::bit`]: the handle and the next state.
    pub open spec fn spec_bit(self) -> (Result<BoolGuard, Error>, LenseTag) {
        let t = self.rolled();
        if t.cur < t.end {
            (Ok(BoolGuard { byte: t.cur, bit: t.n as u8 }), LenseTag { n: (t.n + 1) as usize, ..t })
        } else {
            (Err(Error::ExpectedBits(1)), t)
        }
    }

    /// Outcome of [`LenseTag::bits`] on buffer `b`: the field and the next state.
    pub open spec fn spec_bits(self, b: Seq<u8>, n: usize) -> (Result<usize, Error>, LenseTag) {
        let t = self.rolled();
        if t.cur < t.end {
            (
                Ok(bit_field(b[t.cur as int], t.n, n)),
                LenseTag { n: (t.n + 1) as usize, ..t },
            )
        } else {
            (Err(Error::ExpectedBits(n)), t)
        }
    }

    /// A tag over the bytes that `c` spans, starting at its first bit.
    pub fn new(c: Cursor) -> (t: LenseTag)
        requires
            c.wf(),
        ensures
            t == (LenseTag { cur: c.cur, end: c.end, n: 0 }),
            t.wf(),
    {
        LenseTag { cur: c.cur, end: c.end, n: 0 }
    }

    fn roll(&mut self)
        requires
            old(self).wf(),
        ensures
            *final(self) == old(self).rolled(),
    {
        if self.n == 8 {
            self.n = 0;
            self.cur = self.cur + 1;
        }
    }

    /// Request the `n` bits at the current bit of the tag, masked in place
    /// (not shifted down); the tag moves on by one bit.
    pub fn bits(&mut self, b: &[u8], n: usize) -> (r: Result<usize, Error>)
        requires
            old(self).wf(),
            old(self).end <= b@.len(),
            1 <= n <= 8,
        ensures
            (r, *final(self)) == old(self).spec_bits(b@, n),
            final(self).wf(),
    {
        self.roll();
        if self.cur < self.end {
            let x = b[self.cur] as usize;
            let k = self.n;
            assert((1usize << n) >= 1) by (bit_vector)
                requires
                    n <= 8,
            ;
            let mask: usize = (1usize << n) - 1;
            let f = x & (mask << k);
            self.n = self.n + 1;
            Ok(f)
        } else {
            Err(Error::ExpectedBits(n))
        }
    }

    /// Request a single boolean from the tag.
    pub fn bit(&mut self) -> (r: Result<BoolGuard, Error>)
        requires
            old(self).wf(),
        ensures
            (r, *final(self)) == old(self).spec_bit(),
            final(self).wf(),
            r is Ok ==> r->Ok_0.wf(),
    {
        self.roll();
        if self.cur < self.end {
            let g = BoolGuard::new(self.cur, self.n as u8);
            self.n = self.n + 1;
            Ok(g)
        } else {
            Err(Error::ExpectedBits(1))
        }
    }
}

/// A boolean stored as one bit of a tag byte.
#[derive(Clone, Copy, Debug, PartialEq, Eq, Structural)]
pub struct BoolGuard {
    /// Offset of the tag byte.
    pub byte: usize,
    /// Index of the bit in that byte.
    pub bit: u8,
}

impl BoolGuard {
    pub open spec fn wf(self) -> bool {
        self.bit < 8
    }

    pub fn new(byte: usize, bit: u8) -> (g: BoolGuard)
        ensures
            g == (BoolGuard { byte, bit }),
    {
        BoolGuard { byte, bit }
    }

    /// The current value of the boolean.
    pub fn get(&self, b: &[u8]) -> (r: bool)
        requires
            self.wf(),
            self.byte < b@.len(),
        ensures
            r == bit_set(b@[self.byte as int], self.bit),
    {
        let mask = 1u8 << self.bit;
        b[self.byte] & mask != 0
    }

    /// Set the boolean in the shared tag byte, leaving its other bits alone.
    pub fn set(&self, b: &mut Vec<u8>, v: bool)
        requires
            self.wf(),
            self.byte < old(b)@.len(),
        ensures
            final(b)@ == old(b)@.update(self.byte as int, with_bit(old(b)@[self.byte as int], self.bit, v)),
    {
        let mask = 1u8 << self.bit;
        let x = b[self.byte];
        if v {
            b.set(self.byte, x | mask);
        } else {
            b.set(self.byte, x & !mask);
        }
    }
}


/// Reserves a tag region of `T`'s width at the cursor, for the booleans and
/// union discriminants that follow.
pub struct Tag<T: Primitive>(pub PhantomData<T>);

impl<T: Primitive> Lense for Tag<T> {
    type Ret = ();

    open spec fn spec_lense(c: Cursor, b: Seq<u8>) -> (Result<(), Error>, Cursor) {
        let (r, c1) = c.spec_advance(T::width());
        match r {
            Ok(sub) => (Ok(()), Cursor { tag: Some(LenseTag { cur: sub.cur, end: sub.end, n: 0 }), ..c1 }),
            Err(e) => (Err(e), c1),
        }
    }

    fn lense(c: &mut Cursor, b: &[u8]) -> (r: Result<(), Error>) {
        match c.advance(T::size() as u64) {
            Ok(sub) => {
                let t = LenseTag::new(sub);
                c.set_tag(t);
                Ok(())
            },
            Err(e) => Err(e),
        }
    }
}

impl<T: Primitive> SizedLense for Tag<T> {
    open spec fn spec_size() -> nat {
        T::width()
    }

    fn size() -> (r: usize) {
        T::size()
    }
}

/// A boolean takes no bytes of its own: its bit lives in the tag region.
impl SizedLense for bool {
    open spec fn spec_size() -> nat {
        0
    }

    fn size() -> (r: usize) {
        0
    }
}

/// A boolean is one bit of the cursor's tag region.
impl Lense for bool {
    type Ret = BoolGuard;

    open spec fn spec_lense(c: Cursor, b: Seq<u8>) -> (Result<BoolGuard, Error>, Cursor) {
        c.spec_tag_bit()
    }

    fn lense(c: &mut Cursor, b: &[u8]) -> (r: Result<BoolGuard, Error>) {
        c.tag_bit()
    }
}

/// An optional value: a tag bit says whether the payload follows.
impl<T: Lense> Lense for Option<T> {
    type Ret = Option<T::Ret>;

    open spec fn spec_lense(c: Cursor, b: Seq<u8>) -> (Result<Option<T::Ret>, Error>, Cursor) {
        let (rg, c1) = c.spec_tag_bit();
        match rg {
            Err(e) => (Err(e), c1),
            Ok(g) => if bit_set(b[g.byte as int], g.bit) {
                let (rv, c2) = T::spec_lense(c1, b);
                match rv {
                    Ok(v) => (Ok(Some(v)), c2),
                    Err(e) => (Err(e), c2),
                }
            } else {
                (Ok(None), c1)
            },
        }
    }

    fn lense(c: &mut Cursor, b: &[u8]) -> (r: Result<Option<T::Ret>, Error>) {
        let g = match c.tag_bit() {
            Ok(g) => g,
            Err(e) => {
                return Err(e);
            },
        };
        if g.get(b) {
            match T::lense(c, b) {
                Ok(v) => Ok(Some(v)),
                Err(e) => Err(e),
            }
        } else {
            Ok(None)
        }
    }
}

/// A two-way union: a set tag bit selects `L`, a clear one `R`.
impl<L: Lense, R: Lense> Lense for Result<L, R> {
    type Ret = Result<L::Ret, R::Ret>;

    open spec fn spec_lense(c: Cursor, b: Seq<u8>) -> (Result<Result<L::Ret, R::Ret>, Error>, Cursor) {
        let (rg, c1) = c.spec_tag_bit();
        match rg {
            Err(e) => (Err(e), c1),
            Ok(g) => if bit_set(b[g.byte as int], g.bit) {
                let (rv, c2) = L::spec_lense(c1, b);
                match rv {
                    Ok(v) => (Ok(Ok(v)), c2),
                    Err(e) => (Err(e), c2),
                }
            } else {
                let (rv, c2) = R::spec_lense(c1, b);
                match rv {
                    Ok(v) => (Ok(Err(v)), c2),
                    Err(e) => (Err(e), c2),
                }
            },
        }
    }

    fn lense(c: &mut Cursor, b: &[u8]) -> (r: Result<Result<L::Ret, R::Ret>, Error>) {
        let g = match c.tag_bit() {
            Ok(g) => g,
            Err(e) => {
                return Err(e);
            },
        };
        if g.get(b) {
            match L::lense(c, b) {
                Ok(v) => Ok(Ok(v)),
                Err(e) => Err(e),
            }
        } else {
            match R::lense(c, b) {
                Ok(v) => Ok(Err(v)),
                Err(e) => Err(e),
            }
        }
    }
}


/// An optional value stored in a fixed region of `T`'s size: the region
/// starts with its own tag bit (taken from the cursor's tag), then the payload.
pub struct PaddedOption<T>(pub PhantomData<T>);

/// A two-way union stored in a fixed region of the larger payload's size.
pub struct PaddedResult<L, R>(pub PhantomData<(L, R)>);

/// The size of the larger of two payloads.
pub open spec fn larger_size<L: SizedLense, R: SizedLense>() -> nat {
    if L::spec_size() >= R::spec_size() {
        L::spec_size()
    } else {
        R::spec_size()
    }
}

impl<T: SizedLense> Lense for PaddedOption<T> {
    type Ret = Option<T::Ret>;

    open spec fn spec_lense(c: Cursor, b: Seq<u8>) -> (Result<Option<T::Ret>, Error>, Cursor) {
        let (r, c1) = c.spec_advance(sat(T::spec_size()) as nat);
        match r {
            Err(e) => (Err(e), c1),
            Ok(sub) => {
                let (rg, s1) = sub.spec_tag_bit();
                match rg {
                    Err(e) => (Err(e), c1),
                    Ok(g) => if bit_set(b[g.byte as int], g.bit) {
                        match T::spec_lense(s1, b).0 {
                            Ok(v) => (Ok(Some(v)), c1),
                            Err(e) => (Err(e), c1),
                        }
                    } else {
                        (Ok(None), c1)
                    },
                }
            },
        }
    }

    fn lense(c: &mut Cursor, b: &[u8]) -> (r: Result<Option<T::Ret>, Error>) {
        let mut sub = match c.advance(T::size() as u64) {
            Ok(s) => s,
            Err(e) => {
                return Err(e);
            },
        };
        let g = match sub.tag_bit() {
            Ok(g) => g,
            Err(e) => {
                return Err(e);
            },
        };
        if g.get(b) {
            match T::lense(&mut sub, b) {
                Ok(v) => Ok(Some(v)),
                Err(e) => Err(e),
            }
        } else {
            Ok(None)
        }
    }
}

impl<L: SizedLense, R: SizedLense> Lense for PaddedResult<L, R> {
    type Ret = Result<L::Ret, R::Ret>;

    open spec fn spec_lense(c: Cursor, b: Seq<u8>) -> (Result<Result<L::Ret, R::Ret>, Error>, Cursor) {
        let (r, c1) = c.spec_advance(sat(larger_size::<L, R>()) as nat);
        match r {
            Err(e) => (Err(e), c1),
            Ok(sub) => {
                let (rg, s1) = sub.spec_tag_bit();
                match rg {
                    Err(e) => (Err(e), c1),
                    Ok(g) => if bit_set(b[g.byte as int], g.bit) {
                        match L::spec_lense(s1, b).0 {
                            Ok(v) => (Ok(Ok(v)), c1),
                            Err(e) => (Err(e), c1),
                        }
                    } else {
                        match R::spec_lense(s1, b).0 {
                            Ok(v) => (Ok(Err(v)), c1),
                            Err(e) => (Err(e), c1),
                        }
                    },
                }
            },
        }
    }

    fn lense(c: &mut Cursor, b: &[u8]) -> (r: Result<Result<L::Ret, R::Ret>, Error>) {
        let l = L::size();
        let r = R::size();
        let n = if l >= r {
            l
        } else {
            r
        };
        let mut sub = match c.advance(n as u64) {
            Ok(s) => s,
            Err(e) => {
                return Err(e);
            },
        };
        let g = match sub.tag_bit() {
            Ok(g) => g,
            Err(e) => {
                return Err(e);
            },
        };
        if g.get(b) {
            match L::lense(&mut sub, b) {
                Ok(v) => Ok(Ok(v)),
                Err(e) => Err(e),
            }
        } else {
            match R::lense(&mut sub, b) {
                Ok(v) => Ok(Err(v)),
                Err(e) => Err(e),
            }
        }
    }
}

impl<L: SizedLense, R: SizedLense> SizedLense for PaddedResult<L, R> {
    open spec fn spec_size() -> nat {
        larger_size::<L, R>()
    }

    fn size() -> (r: usize) {
        let l = L::size();
        let r = R::size();
        if l >= r {
            l
        } else {
            r
        }
    }
}


/// Outcome of [`discriminant`]: a `u8` discriminant, checked against the
/// number of variants.
pub open spec fn spec_discriminant(c: Cursor, b: Seq<u8>, variants: usize) -> (Result<usize, Error>, Cursor) {
    let (r, c1) = c.spec_dice::<u8>();
    match r {
        Err(e) => (Err(e), c1),
        Ok(v) => {
            let d = b[v.at as int] as usize;
            if d < variants {
                (Ok(d), c1)
            } else {
                (Err(Error::InvalidTag(d)), c1)
            }
        },
    }
}

/// Decode a leading one-byte discriminant of a union with `variants` variants.
pub fn discriminant(c: &mut Cursor, b: &[u8], variants: usize) -> (r: Result<usize, Error>)
    requires
        old(c).within(b@.len()),
    ensures
        (r, *final(c)) == spec_discriminant(*old(c), b@, variants),
        final(c).within(b@.len()),
{
    match c.dice::<u8>() {
        Ok(v) => {
            let d = v.get(b) as usize;
            if d < variants {
                Ok(d)
            } else {
                Err(Error::InvalidTag(d))
            }
        },
        Err(e) => Err(e),
    }
}

} // verus!
