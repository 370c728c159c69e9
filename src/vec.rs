use core::marker::PhantomData;
use vstd::prelude::*;

use crate::cur::Cursor;
use crate::error::Error;
use crate::ext::DstExt;
use crate::lense::{AlignedLense, Lense, SizedLense, sat};
use crate::prim::Primitive;
use crate::slice::count_at;

verus! {

/// Outcome of reserving `l` elements of `T` at `c`: align for `T` (unless
/// the region is empty), then carve out `l * size` bytes.
pub open spec fn spec_reserve_seq<T: AlignedLense>(c: Cursor, l: nat) -> (Result<Iter<T>, Error>, Cursor) {
    let (ra, c1) = if l == 0 {
        (Ok(()), c)
    } else {
        c.spec_align(T::spec_alignment())
    };
    match ra {
        Err(e) => (Err(e), c1),
        Ok(_) => {
            let n = l * T::spec_size();
            if c1.cur + n <= c1.end {
                let (rs, c2) = c1.spec_advance(n);
                match rs {
                    Ok(sub) => (Ok(Iter { cursor: sub, marker: PhantomData }), c2),
                    Err(e) => (Err(e), c2),
                }
            } else {
                (Err(Error::OutOfBounds(sat(n))), c1)
            }
        },
    }
}

/// A lazy, single-pass sequence of `T` views over a reserved region.
#[derive(Debug)]
pub struct Iter<T> {
    pub cursor: Cursor,
    pub marker: PhantomData<T>,
}

impl<T: Lense> Iter<T> {
    pub fn new(c: Cursor) -> (it: Iter<T>)
        ensures
            it == (Iter::<T> { cursor: c, marker: PhantomData }),
    {
        Iter { cursor: c, marker: PhantomData }
    }

    /// Outcome of [`Iter::next`]: the element, if one could still be decoded.
    pub open spec fn spec_next(self, b: Seq<u8>) -> (Option<T::Ret>, Iter<T>) {
        let (r, c) = T::spec_lense(self.cursor, b);
        (
            match r {
                Ok(v) => Some(v),
                Err(_) => None,
            },
            Iter { cursor: c, marker: PhantomData },
        )
    }
}

impl<T: AlignedLense> Iter<T> {
    /// The region holds a whole number of elements and, unless empty, starts
    /// aligned for `T`.
    pub open spec fn wf(&self) -> bool {
        &&& self.cursor.wf()
        &&& self.cursor.padded && self.cursor.cur < self.cursor.end ==> (self.cursor.cur as nat)
            % T::spec_alignment() == 0
        &&& ((self.cursor.end - self.cursor.cur) as nat) % T::spec_size() == 0
    }

    /// The number of elements left.
    pub open spec fn spec_len(&self) -> nat {
        ((self.cursor.end - self.cursor.cur) as nat) / T::spec_size()
    }

    /// Decode the next element; `None` once the region is exhausted.
    pub fn next(&mut self, b: &[u8]) -> (r: Option<T::Ret>)
        requires
            old(self).cursor.within(b@.len()),
            old(self).wf(),
        ensures
            (r, *final(self)) == old(self).spec_next(b@),
            final(self).cursor.within(b@.len()),
            r is Some ==> final(self).wf(),
            old(self).spec_len() > 0 ==> r is Some && final(self).spec_len() == old(self).spec_len() - 1,
            old(self).spec_len() == 0 ==> r is None,
    {
        proof {
            T::lemma_shape();
            T::lemma_tiles(self.cursor, b@);
            lemma_take_one(
                (self.cursor.end - self.cursor.cur) as int,
                T::spec_size() as int,
                self.cursor.cur as int,
                T::spec_alignment() as int,
            );
        }
        match T::lense(&mut self.cursor, b) {
            Ok(v) => Some(v),
            Err(_) => None,
        }
    }
}

/// Taking one element of size `s` from a region of `d` bytes that holds a
/// whole number of them, starting at an offset `x` aligned to `a`.
proof fn lemma_take_one(d: int, s: int, x: int, a: int)
    requires
        d >= 0,
        x >= 0,
        s >= 1,
        a >= 1,
        d % s == 0,
        s % a == 0,
    ensures
        d / s == 0 ==> d == 0,
        d / s > 0 ==> d >= s && (d - s) % s == 0 && (d - s) / s == d / s - 1,
        x % a == 0 ==> (x + s) % a == 0,
{
    vstd::arithmetic::div_mod::lemma_fundamental_div_mod(d, s);
    let k = d / s;
    if k > 0 {
        assert(s * k >= s) by (nonlinear_arith)
            requires
                k >= 1,
                s >= 1,
        ;
        assert(d - s == s * (k - 1)) by (nonlinear_arith)
            requires
                d == s * k,
        ;
        vstd::arithmetic::div_mod::lemma_mod_multiples_basic(k - 1, s);
        vstd::arithmetic::div_mod::lemma_div_multiples_vanish_fancy(k - 1, 0, s);
        assert(s * (k - 1) == (k - 1) * s) by (nonlinear_arith);
    }
    if x % a == 0 {
        vstd::arithmetic::div_mod::lemma_fundamental_div_mod(x, a);
        vstd::arithmetic::div_mod::lemma_fundamental_div_mod(s, a);
        assert(x + s == (x / a + s / a) * a) by (nonlinear_arith)
            requires
                x == a * (x / a),
                s == a * (s / a),
        ;
        vstd::arithmetic::div_mod::lemma_mod_multiples_basic(x / a + s / a, a);
    }
}

/// A sequence reserved for `l` elements holds exactly `l`: its iterator
/// yields `l` views, then `None`.
pub proof fn lemma_seq_holds_count<T: AlignedLense>(c: Cursor, l: nat)
    requires
        c.wf(),
    ensures
        spec_reserve_seq::<T>(c, l).0 matches Ok(it) ==> it.wf() && it.spec_len() == l,
{
    T::lemma_shape();
    let s = T::spec_size() as int;
    crate::cur::lemma_round_up(c.cur as int, T::spec_alignment() as int);
    vstd::arithmetic::div_mod::lemma_mod_multiples_basic(l as int, s);
    vstd::arithmetic::div_mod::lemma_div_multiples_vanish_fancy(l as int, 0, s);
    assert(s * l == l * s) by (nonlinear_arith);
}

fn reserve_seq<T: AlignedLense>(c: &mut Cursor, l: u16) -> (r: Result<Iter<T>, Error>)
    requires
        old(c).wf(),
    ensures
        (r, *final(c)) == spec_reserve_seq::<T>(*old(c), l as nat),
        final(c).wf(),
{
    proof {
        T::lemma_shape();
    }
    if l > 0 {
        match c.align_to(T::alignment()) {
            Ok(()) => {},
            Err(e) => {
                return Err(e);
            },
        }
    }
    let size = T::size();
    match (l as usize).checked_mul(size) {
        Some(n) => {
            if n <= c.remaining() {
                match c.advance(n as u64) {
                    Ok(sub) => Ok(Iter::new(sub)),
                    Err(e) => Err(e),
                }
            } else {
                Err(Error::OutOfBounds(n))
            }
        },
        None => {
            Err(Error::OutOfBounds(usize::MAX))
        },
    }
}

/// A sequence of sized elements: a `u16` count, then the elements.
impl<T: AlignedLense> Lense for Vec<T> {
    type Ret = Iter<T>;

    open spec fn spec_lense(c: Cursor, b: Seq<u8>) -> (Result<Iter<T>, Error>, Cursor) {
        let (rp, c1) = c.spec_dice::<u16>();
        match rp {
            Err(e) => (Err(e), c1),
            Ok(p) => spec_reserve_seq::<T>(c1, count_at(b, p)),
        }
    }

    fn lense(c: &mut Cursor, b: &[u8]) -> (r: Result<Iter<T>, Error>) {
        let p = match c.dice::<u16>() {
            Ok(p) => p,
            Err(e) => {
                return Err(e);
            },
        };
        let l = p.get(b);
        reserve_seq::<T>(c, l)
    }
}

impl<T: AlignedLense> DstExt for Vec<T> {
    type Ret = Iter<T>;

    open spec fn spec_with_length(c: Cursor, l: u16) -> (Result<Iter<T>, Error>, Cursor) {
        spec_reserve_seq::<T>(c, l as nat)
    }

    fn set_length(c: &mut Cursor, b: &mut Vec<u8>, l: u16) -> (r: Result<Iter<T>, Error>) {
        let p = match c.dice::<u16>() {
            Ok(p) => p,
            Err(e) => {
                return Err(e);
            },
        };
        proof {
            <u16 as Primitive>::lemma_le(l);
        }
        p.set(b, l);
        reserve_seq::<T>(c, l)
    }

    fn with_length(c: &mut Cursor, l: u16) -> (r: Result<Iter<T>, Error>) {
        reserve_seq::<T>(c, l)
    }
}

} // verus!
