use core::marker::PhantomData;
use vstd::prelude::*;

use crate::error::Error;
use crate::prim::{Primitive, splice};
use crate::tag::{BoolGuard, LenseTag};

verus! {

/// Walks a byte buffer by offsets.
///
/// The cursor spans `[cur, end)` of a buffer that is held elsewhere and is
/// handed to the operations that read or write it. `waste` counts the
/// misalignment met before each padded field (saturating at `usize::MAX`);
/// `padded` says whether alignment padding is inserted at all.
#[derive(Debug)]
pub struct Cursor {
    pub cur: usize,
    pub end: usize,
    pub waste: usize,
    pub tag: Option<LenseTag>,
    pub padded: bool,
}

impl Cursor {
    pub open spec fn wf(&self) -> bool {
        &&& self.cur <= self.end
        &&& self.tag matches Some(t) ==> t.wf()
    }

    /// The cursor fits in a buffer of `len` bytes.
    pub open spec fn within(&self, len: nat) -> bool {
        &&& self.wf()
        &&& self.end <= len
        &&& self.tag matches Some(t) ==> t.end <= len
    }

    /// Outcome of [`Cursor::advance`]: the carved sub-cursor and the parent after it.
    pub open spec fn spec_advance(self, n: nat) -> (Result<Cursor, Error>, Cursor) {
        if self.cur + n <= self.end {
            (
                Ok(Cursor { cur: self.cur, end: (self.cur + n) as usize, waste: 0, ..self }),
                Cursor { cur: (self.cur + n) as usize, ..self },
            )
        } else {
            (Err(Error::ExpectedBytes(n as usize)), self)
        }
    }

    /// Outcome of [`Cursor::align`] for alignment `a`.
    pub open spec fn spec_align(self, a: nat) -> (Result<(), Error>, Cursor) {
        let pad = (self.cur as nat) % a;
        if !self.padded || pad == 0 {
            (Ok(()), self)
        } else {
            let (r, c) = self.spec_advance((a - pad) as nat);
            match r {
                Ok(_) => (Ok(()), Cursor { waste: self.waste.saturating_add(pad as usize), ..c }),
                Err(e) => (Err(e), c),
            }
        }
    }

    /// Outcome of [`Cursor::dice`] for a primitive of type `T`.
    pub open spec fn spec_dice<T: Primitive>(self) -> (Result<RefMut<T>, Error>, Cursor) {
        let (r, c) = self.spec_align(T::width());
        match r {
            Err(e) => (Err(e), c),
            Ok(_) => {
                let (r2, c2) = c.spec_advance(T::width());
                match r2 {
                    Ok(sub) => (Ok(RefMut { at: sub.cur, marker: PhantomData }), c2),
                    Err(e) => (Err(e), c2),
                }
            },
        }
    }

    /// A cursor over all of `b`, inserting alignment padding.
    pub fn new(b: &[u8]) -> (c: Cursor)
        ensures
            c == (Cursor { cur: 0, end: b@.len() as usize, waste: 0, tag: None, padded: true }),
            c.within(b@.len()),
    {
        Cursor { cur: 0, end: b.len(), waste: 0, tag: None, padded: true }
    }

    /// A cursor over all of `b` that never inserts alignment padding.
    pub fn unpadded(b: &[u8]) -> (c: Cursor)
        ensures
            c == (Cursor { cur: 0, end: b@.len() as usize, waste: 0, tag: None, padded: false }),
            c.within(b@.len()),
    {
        Cursor { cur: 0, end: b.len(), waste: 0, tag: None, padded: false }
    }

    /// A padding cursor over the bytes `[start, end)` of a buffer.
    pub fn span(start: usize, end: usize) -> (c: Cursor)
        requires
            start <= end,
        ensures
            c == (Cursor { cur: start, end, waste: 0, tag: None, padded: true }),
            c.wf(),
    {
        Cursor { cur: start, end, waste: 0, tag: None, padded: true }
    }

    /// Advance the cursor `n` bytes, and return a new cursor over that segment.
    pub fn advance(&mut self, n: u64) -> (r: Result<Cursor, Error>)
        requires
            old(self).wf(),
        ensures
            (r, *final(self)) == old(self).spec_advance(n as nat),
            final(self).wf(),
            r matches Ok(s) ==> s.wf(),
    {
        let room = self.end - self.cur;
        if n <= room as u64 {
            let m = n as usize;
            let start = self.cur;
            self.cur = start + m;
            Ok(Cursor { cur: start, end: start + m, waste: 0, tag: self.tag, padded: self.padded })
        } else {
            Err(Error::ExpectedBytes(n as usize))
        }
    }

    /// Attach a tag region: later boolean and bit requests draw from it.
    pub fn set_tag(&mut self, t: LenseTag)
        requires
            old(self).wf(),
            t.wf(),
        ensures
            *final(self) == (Cursor { tag: Some(t), ..*old(self) }),
            final(self).wf(),
    {
        self.tag = Some(t);
    }

    /// Request an `n`-bit field from the tag, if one is attached.
    pub fn tag_bits(&mut self, b: &[u8], n: usize) -> (r: Result<usize, Error>)
        requires
            old(self).wf(),
            old(self).tag matches Some(t) ==> t.end <= b@.len(),
            1 <= n <= 8,
        ensures
            final(self).wf(),
            match old(self).tag {
                None => r == Err::<usize, Error>(Error::NoTagDefined) && *final(self) == *old(self),
                Some(t) => {
                    let (r2, t2) = t.spec_bits(b@, n);
                    r == r2 && *final(self) == (Cursor { tag: Some(t2), ..*old(self) })
                },
            },
    {
        match self.tag {
            Some(t) => {
                let mut t = t;
                let r = t.bits(b, n);
                self.tag = Some(t);
                r
            },
            None => Err(Error::NoTagDefined),
        }
    }

    /// Request a boolean bit from the tag, if one is attached.
    pub fn tag_bit(&mut self) -> (r: Result<BoolGuard, Error>)
        requires
            old(self).wf(),
        ensures
            (r, *final(self)) == old(self).spec_tag_bit(),
            final(self).wf(),
            r matches Ok(g) ==> g.wf(),
    {
        match self.tag {
            Some(t) => {
                let mut t = t;
                let r = t.bit();
                self.tag = Some(t);
                r
            },
            None => Err(Error::NoTagDefined),
        }
    }

    /// Outcome of [`Cursor::tag_bit`].
    pub open spec fn spec_tag_bit(self) -> (Result<BoolGuard, Error>, Cursor) {
        match self.tag {
            None => (Err(Error::NoTagDefined), self),
            Some(t) => {
                let (r, t2) = t.spec_bit();
                (r, Cursor { tag: Some(t2), ..self })
            },
        }
    }

    /// The number of bytes skipped for alignment so far.
    pub fn waste(&self) -> (r: usize)
        ensures
            r == self.waste,
    {
        self.waste
    }

    /// The number of bytes left.
    pub fn remaining(&self) -> (r: usize)
        requires
            self.wf(),
        ensures
            r == self.end - self.cur,
    {
        self.end - self.cur
    }

    /// Move to the next multiple of `T`'s alignment (when padding is on),
    /// adding the misalignment to `waste`.
    pub fn align<T: Primitive>(&mut self) -> (r: Result<(), Error>)
        requires
            old(self).wf(),
        ensures
            (r, *final(self)) == old(self).spec_align(T::width()),
            final(self).wf(),
    {
        self.align_to(T::size())
    }

    /// Move to the next multiple of `a` (when padding is on), adding the
    /// misalignment to `waste`.
    pub fn align_to(&mut self, a: usize) -> (r: Result<(), Error>)
        requires
            old(self).wf(),
            a >= 1,
        ensures
            (r, *final(self)) == old(self).spec_align(a as nat),
            final(self).wf(),
            r is Ok && final(self).padded ==> final(self).cur % a == 0,
    {
        proof {
            lemma_round_up(self.cur as int, a as int);
        }
        let pad = self.cur % a;
        if !self.padded || pad == 0 {
            Ok(())
        } else {
            let w = self.waste;
            match self.advance((a - pad) as u64) {
                Ok(_) => {
                    self.waste = w.saturating_add(pad);
                    Ok(())
                },
                Err(e) => Err(e),
            }
        }
    }

    /// Align for `T`, then carve out a view of `T`'s width.
    pub fn dice<T: Primitive>(&mut self) -> (r: Result<RefMut<T>, Error>)
        requires
            old(self).wf(),
        ensures
            (r, *final(self)) == old(self).spec_dice::<T>(),
            final(self).wf(),
            r matches Ok(v) ==> v.at + T::width() == final(self).cur,
    {
        match self.align::<T>() {
            Ok(()) => {},
            Err(e) => {
                return Err(e);
            },
        }
        match self.advance(T::size() as u64) {
            Ok(sub) => Ok(RefMut::new(sub)),
            Err(e) => Err(e),
        }
    }
}

/// The value that the view `r` reads from `b`.
pub open spec fn read_at<P: Primitive>(b: Seq<u8>, r: RefMut<P>) -> P {
    P::from_le(b.subrange(r.at as int, r.at + P::width()))
}

/// `b` after `v` is stored through the view `r`.
pub open spec fn write_at<P: Primitive>(b: Seq<u8>, r: RefMut<P>, v: P) -> Seq<u8> {
    splice(b, r.at as int, P::to_le(v))
}

/// Rounding `x` up to the next multiple of `a` gives a multiple of `a`.
pub proof fn lemma_round_up(x: int, a: int)
    requires
        x >= 0,
        a >= 1,
    ensures
        x % a != 0 ==> (x + (a - x % a)) % a == 0,
{
    vstd::arithmetic::div_mod::lemma_fundamental_div_mod(x, a);
    if x % a != 0 {
        assert(x + (a - x % a) == (x / a + 1) * a) by (nonlinear_arith)
            requires
                x == a * (x / a) + x % a,
        ;
        vstd::arithmetic::div_mod::lemma_mod_multiples_basic(x / a + 1, a);
    }
}

/// A typed view of one primitive at offset `at` of a buffer.
#[derive(Debug)]
pub struct RefMut<T> {
    pub at: usize,
    pub marker: PhantomData<T>,
}

impl<T: Primitive> RefMut<T> {
    /// A view of the bytes at the start of `c`.
    pub fn new(c: Cursor) -> (r: RefMut<T>)
        ensures
            r == (RefMut::<T> { at: c.cur, marker: PhantomData }),
    {
        RefMut { at: c.cur, marker: PhantomData }
    }

    /// The value that the viewed bytes hold.
    pub fn get(&self, b: &[u8]) -> (v: T)
        requires
            self.at + T::width() <= b@.len(),
        ensures
            v == read_at(b@, *self),
    {
        T::read(b, self.at)
    }

    /// Store `v` in the viewed bytes.
    pub fn set(&self, b: &mut Vec<u8>, v: T)
        requires
            self.at + T::width() <= old(b)@.len(),
        ensures
            final(b)@ == write_at(old(b)@, *self, v),
    {
        T::write(b, self.at, v)
    }
}

} // verus!
