use core::marker::PhantomData;
use vstd::prelude::*;

use crate::cur::{Cursor, RefMut};
use crate::error::Error;
use crate::ext::DstExt;
use crate::lense::Lense;
use crate::prim::{Primitive, splice};

verus! {

/// The `u16` count stored by the view `p` in `b`.
pub open spec fn count_at(b: Seq<u8>, p: RefMut<u16>) -> nat {
    <u16 as Primitive>::from_le(b.subrange(p.at as int, p.at + 2)) as nat
}

/// Outcome of reserving `l` elements of `P` at `c`: align, then carve out
/// `l * width` bytes.
pub open spec fn spec_reserve<P: Primitive>(c: Cursor, l: nat) -> (Result<Slice<P>, Error>, Cursor) {
    let (ra, c1) = c.spec_align(P::width());
    match ra {
        Err(e) => (Err(e), c1),
        Ok(_) => if c1.cur + l * P::width() <= c1.end {
            let (rs, c2) = c1.spec_advance(l * P::width());
            match rs {
                Ok(sub) => (Ok(Slice { cursor: sub, length: l as usize, marker: PhantomData }), c2),
                Err(e) => (Err(e), c2),
            }
        } else {
            (Err(Error::OutOfBounds((l * P::width()) as usize)), c1)
        },
    }
}

/// A flat view of `length` primitives stored back to back.
#[derive(Debug)]
pub struct Slice<P> {
    pub cursor: Cursor,
    pub length: usize,
    pub marker: PhantomData<P>,
}

impl<P: Primitive> Slice<P> {
    pub open spec fn wf(&self) -> bool {
        &&& self.cursor.wf()
        &&& self.cursor.end - self.cursor.cur == self.length * P::width()
    }

    /// The bytes of element `i`.
    pub open spec fn elem_at(&self, i: int) -> int {
        self.cursor.cur + i * P::width()
    }

    /// The elements as `b` holds them.
    pub open spec fn spec_items(&self, b: Seq<u8>) -> Seq<P> {
        Seq::new(
            self.length as nat,
            |i: int| P::from_le(b.subrange(self.elem_at(i), self.elem_at(i) + P::width())),
        )
    }

    pub fn new(c: Cursor, l: usize) -> (s: Slice<P>)
        ensures
            s == (Slice::<P> { cursor: c, length: l, marker: PhantomData }),
    {
        Slice { cursor: c, length: l, marker: PhantomData }
    }

    pub fn len(&self) -> (r: usize)
        ensures
            r == self.length,
    {
        self.length
    }

    /// Element `i`.
    pub fn get(&self, b: &[u8], i: usize) -> (v: P)
        requires
            self.wf(),
            self.cursor.end <= b@.len(),
            i < self.length,
        ensures
            v == self.spec_items(b@)[i as int],
    {
        proof {
            vstd::arithmetic::mul::lemma_mul_inequality(i as int + 1, self.length as int, P::width() as int);
            vstd::arithmetic::mul::lemma_mul_is_distributive_add_other_way(P::width() as int, i as int, 1);
        }
        let w = P::size();
        P::read(b, self.cursor.cur + i * w)
    }

    /// Store `v` as element `i`.
    pub fn set(&self, b: &mut Vec<u8>, i: usize, v: P)
        requires
            self.wf(),
            self.cursor.end <= old(b)@.len(),
            i < self.length,
        ensures
            final(b)@ == splice(old(b)@, self.elem_at(i as int), P::to_le(v)),
    {
        proof {
            vstd::arithmetic::mul::lemma_mul_inequality(i as int + 1, self.length as int, P::width() as int);
            vstd::arithmetic::mul::lemma_mul_is_distributive_add_other_way(P::width() as int, i as int, 1);
        }
        let w = P::size();
        P::write(b, self.cursor.cur + i * w, v)
    }

    /// All elements, in order.
    pub fn to_vec(&self, b: &[u8]) -> (r: Vec<P>)
        requires
            self.wf(),
            self.cursor.end <= b@.len(),
        ensures
            r@ == self.spec_items(b@),
    {
        let mut r: Vec<P> = Vec::new();
        let mut i: usize = 0;
        while i < self.length
            invariant
                self.wf(),
                self.cursor.end <= b@.len(),
                i <= self.length,
                r@ == self.spec_items(b@).subrange(0, i as int),
            decreases self.length - i,
        {
            let v = self.get(b, i);
            r.push(v);
            i = i + 1;
            assert(r@ =~= self.spec_items(b@).subrange(0, i as int));
        }
        assert(r@ =~= self.spec_items(b@));
        r
    }
}

fn reserve<P: Primitive>(c: &mut Cursor, l: u16) -> (r: Result<Slice<P>, Error>)
    requires
        old(c).wf(),
    ensures
        (r, *final(c)) == spec_reserve::<P>(*old(c), l as nat),
        final(c).wf(),
        r matches Ok(s) ==> s.wf() && s.cursor.end <= old(c).end,
{
    match c.align::<P>() {
        Ok(()) => {},
        Err(e) => {
            return Err(e);
        },
    }
    let n = l as usize * P::size();
    if n <= c.remaining() {
        match c.advance(n as u64) {
            Ok(sub) => Ok(Slice::new(sub, l as usize)),
            Err(e) => Err(e),
        }
    } else {
        Err(Error::OutOfBounds(n))
    }
}

/// A slice of primitives: a `u16` count, then the elements, aligned.
impl<P: Primitive> Lense for [P] {
    type Ret = Slice<P>;

    open spec fn spec_lense(c: Cursor, b: Seq<u8>) -> (Result<Slice<P>, Error>, Cursor) {
        let (rp, c1) = c.spec_dice::<u16>();
        match rp {
            Err(e) => (Err(e), c1),
            Ok(p) => spec_reserve::<P>(c1, count_at(b, p)),
        }
    }

    fn lense(c: &mut Cursor, b: &[u8]) -> (r: Result<Slice<P>, Error>) {
        let p = match c.dice::<u16>() {
            Ok(p) => p,
            Err(e) => {
                return Err(e);
            },
        };
        let l = p.get(b);
        reserve::<P>(c, l)
    }
}

impl<P: Primitive> DstExt for [P] {
    type Ret = Slice<P>;

    open spec fn spec_with_length(c: Cursor, l: u16) -> (Result<Slice<P>, Error>, Cursor) {
        spec_reserve::<P>(c, l as nat)
    }

    fn set_length(c: &mut Cursor, b: &mut Vec<u8>, l: u16) -> (r: Result<Slice<P>, Error>) {
        let p = match c.dice::<u16>() {
            Ok(p) => p,
            Err(e) => {
                return Err(e);
            },
        };
        proof {
            <u16 as Primitive>::lemma_le(l);
        }
        p.set(b, l);
        reserve::<P>(c, l)
    }

    fn with_length(c: &mut Cursor, l: u16) -> (r: Result<Slice<P>, Error>) {
        reserve::<P>(c, l)
    }
}

} // verus!
