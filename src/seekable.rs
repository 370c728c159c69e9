use core::marker::PhantomData;
use vstd::prelude::*;

use crate::aligned::{zeroed, zeros};
use crate::cur::{Cursor, RefMut};
use crate::error::Error;
use crate::lense::{Lense, SizedLense};
use crate::prim::{Primitive, splice};
use crate::tag::{BoolGuard, with_bit};

verus! {

/// `n / m`, rounded up.
pub open spec fn spec_div_up(n: nat, m: nat) -> nat
    recommends
        m > 0,
{
    ((n + m - 1) as nat / m) as nat
}

/// `n / m`, rounded up.
pub fn div_up(n: usize, m: usize) -> (r: usize)
    requires
        m > 0,
    ensures
        r == spec_div_up(n as nat, m as nat),
{
    proof {
        lemma_div_up(n as int, m as int);
    }
    if n % m == 0 {
        n / m
    } else {
        proof {
            vstd::arithmetic::div_mod::lemma_div_is_ordered_by_denominator(n as int, 2, m as int);
        }
        n / m + 1
    }
}

proof fn lemma_div_up(n: int, m: int)
    requires
        n >= 0,
        m > 0,
    ensures
        n % m == 0 ==> (n + m - 1) / m == n / m,
        n % m != 0 ==> (n + m - 1) / m == n / m + 1 && m > 1,
{
    vstd::arithmetic::div_mod::lemma_fundamental_div_mod(n, m);
    let q = n / m;
    let r = n % m;
    if r == 0 {
        assert(n + m - 1 == m * q + (m - 1));
        vstd::arithmetic::div_mod::lemma_div_multiples_vanish_fancy(q, m - 1, m);
    } else {
        assert(n + m - 1 == m * (q + 1) + (r - 1)) by (nonlinear_arith)
            requires
                n == m * q + r,
        ;
        vstd::arithmetic::div_mod::lemma_div_multiples_vanish_fancy(q + 1, r - 1, m);
    }
}

/// Bytes of storage for `cap` records of `size` bytes: rounded up to whole words.
pub open spec fn storage_len(cap: nat, size: nat) -> nat {
    spec_div_up(cap * size, 8) * 8
}

/// Outcome of asking for slot `pos` given the borrow flags: whether it is
/// granted, and the flags afterwards.
pub open spec fn borrow_locks(locks: Seq<bool>, pos: int) -> (bool, Seq<bool>) {
    if locks[pos] {
        (false, locks)
    } else {
        (true, locks.update(pos, true))
    }
}

/// The borrow flags after slot `pos` is released.
pub open spec fn release_locks(locks: Seq<bool>, pos: int) -> Seq<bool> {
    locks.update(pos, false)
}

/// The first slot at or after `from` whose flag is clear, or `locks.len()`.
pub open spec fn next_free(locks: Seq<bool>, from: int) -> int
    decreases locks.len() - from,
{
    if from >= locks.len() {
        locks.len() as int
    } else if !locks[from] {
        from
    } else {
        next_free(locks, from + 1)
    }
}

/// A fixed-capacity store of `cap` records of type `L`, one after another,
/// with a borrow flag per slot so that no two live views share a slot.
pub struct SeekablePool<L> {
    pool: Vec<u8>,
    state: Vec<bool>,
    marker: PhantomData<L>,
}

/// A view of one slot, holding that slot's borrow until it is released
/// with [`SeekablePool::release`].
#[derive(Debug)]
pub struct Guard<T> {
    slot: usize,
    value: T,
}

impl<T> Guard<T> {
    /// The slot this guard holds.
    pub closed spec fn slot(&self) -> nat {
        self.slot as nat
    }

    /// The decoded view.
    pub closed spec fn val(&self) -> T {
        self.value
    }

    pub fn index(&self) -> (r: usize)
        ensures
            r == self.slot(),
    {
        self.slot
    }

    pub fn value(&self) -> (r: &T)
        ensures
            *r == self.val(),
    {
        &self.value
    }
}

impl<L: SizedLense> SeekablePool<L> {
    /// The backing bytes.
    pub closed spec fn storage(&self) -> Seq<u8> {
        self.pool@
    }

    /// The borrow flag of each slot.
    pub closed spec fn locks(&self) -> Seq<bool> {
        self.state@
    }

    pub open spec fn capacity(&self) -> nat {
        self.locks().len()
    }

    pub open spec fn wf(&self) -> bool {
        &&& self.capacity() * L::spec_size() + 8 <= usize::MAX
        &&& self.storage().len() == storage_len(self.capacity(), L::spec_size())
    }

    /// The cursor over slot `pos`.
    pub open spec fn slot_cursor(pos: nat) -> Cursor {
        Cursor {
            cur: (pos * L::spec_size()) as usize,
            end: ((pos + 1) * L::spec_size()) as usize,
            waste: 0,
            tag: None,
            padded: true,
        }
    }

    /// The bytes `[lo, hi)` lie inside one slot that is currently borrowed.
    pub open spec fn in_borrowed_slot(&self, lo: int, hi: int) -> bool {
        exists|k: int|
            0 <= k < self.capacity() && #[trigger] self.locks()[k] && k * L::spec_size() <= lo && hi
                <= (k + 1) * L::spec_size()
    }

    /// What decoding slot `pos` yields over the current bytes.
    pub open spec fn decoded(&self, pos: nat) -> Result<L::Ret, Error> {
        L::spec_lense(Self::slot_cursor(pos), self.storage()).0
    }

    /// Prepare a pool that stores `cap` records of type `L`, zeroed, none borrowed.
    pub fn with_capacity(cap: usize) -> (p: Self)
        requires
            cap * L::spec_size() + 8 <= usize::MAX,
        ensures
            p.wf(),
            p.capacity() == cap,
            p.storage() == zeros(storage_len(cap as nat, L::spec_size())),
            forall|i: int| 0 <= i < cap ==> !#[trigger] p.locks()[i],
    {
        let size = L::size();
        proof {
            lemma_size_fits(cap as nat, L::spec_size());
            lemma_storage_fits(cap as nat, L::spec_size());
        }
        let words = div_up(cap * size, 8);
        let pool = zeroed(words * 8);
        let mut state: Vec<bool> = Vec::new();
        let mut i: usize = 0;
        while i < cap
            invariant
                i <= cap,
                state@.len() == i,
                forall|k: int| 0 <= k < i ==> !#[trigger] state@[k],
            decreases cap - i,
        {
            state.push(false);
            i = i + 1;
        }
        SeekablePool { pool, state, marker: PhantomData }
    }

    pub fn slots(&self) -> (r: usize)
        ensures
            r == self.capacity(),
    {
        self.state.len()
    }

    /// Whether slot `pos` is currently borrowed.
    pub fn is_locked(&self, pos: usize) -> (r: bool)
        requires
            pos < self.capacity(),
        ensures
            r == self.locks()[pos as int],
    {
        self.state[pos]
    }

    /// The backing bytes, for reading through views.
    pub fn bytes(&self) -> (r: &[u8])
        ensures
            r@ == self.storage(),
    {
        self.pool.as_slice()
    }

    /// Borrow slot `pos`: `None` at once if it is already borrowed, else the
    /// slot decoded as `L`, holding the borrow.
    pub fn lense(&mut self, pos: usize) -> (r: Option<Guard<Result<L::Ret, Error>>>)
        requires
            old(self).wf(),
            pos < old(self).capacity(),
        ensures
            final(self).wf(),
            final(self).storage() == old(self).storage(),
            (r is Some, final(self).locks()) == borrow_locks(old(self).locks(), pos as int),
            r matches Some(g) ==> g.slot() == pos && g.val() == old(self).decoded(pos as nat),
    {
        if self.state[pos] {
            return None;
        }
        proof {
            lemma_size_fits(self.capacity(), L::spec_size());
            lemma_slot_fits(pos as nat, self.capacity(), L::spec_size());
        }
        let size = L::size();
        let n = self.state.len();
        let next = pos + 1;
        assert(next * size <= self.capacity() * L::spec_size());
        let mut c = Cursor::span(pos * size, next * size);
        let value = L::lense(&mut c, self.pool.as_slice());
        self.state.set(pos, true);
        Some(Guard { slot: pos, value })
    }

    /// Give back the borrow that `g` holds; its slot must still be borrowed.
    pub fn release<T>(&mut self, g: Guard<T>)
        requires
            old(self).wf(),
            g.slot() < old(self).capacity(),
            old(self).locks()[g.slot() as int],
        ensures
            final(self).wf(),
            final(self).storage() == old(self).storage(),
            final(self).locks() == release_locks(old(self).locks(), g.slot() as int),
    {
        self.state.set(g.slot, false);
    }

    /// Store `v` through the view `r`, which lies in a borrowed slot.
    pub fn write<P: Primitive>(&mut self, r: &RefMut<P>, v: P)
        requires
            old(self).wf(),
            r.at + P::width() <= old(self).storage().len(),
            old(self).in_borrowed_slot(r.at as int, r.at + P::width()),
        ensures
            final(self).wf(),
            final(self).locks() == old(self).locks(),
            final(self).storage() == splice(old(self).storage(), r.at as int, P::to_le(v)),
    {
        proof {
            P::lemma_le(v);
        }
        r.set(&mut self.pool, v);
    }

    /// Set the boolean `g`, which lies in a borrowed slot, to `v`.
    pub fn write_bool(&mut self, g: &BoolGuard, v: bool)
        requires
            old(self).wf(),
            g.wf(),
            g.byte < old(self).storage().len(),
            old(self).in_borrowed_slot(g.byte as int, g.byte + 1),
        ensures
            final(self).wf(),
            final(self).locks() == old(self).locks(),
            final(self).storage() == old(self).storage().update(
                g.byte as int,
                with_bit(old(self).storage()[g.byte as int], g.bit, v),
            ),
    {
        g.set(&mut self.pool, v);
    }

    /// Copy `data` into the start of the storage, as much of it as fits, and
    /// return the number of bytes copied.
    pub fn fill(&mut self, data: &[u8]) -> (n: usize)
        requires
            old(self).wf(),
        ensures
            final(self).wf(),
            final(self).locks() == old(self).locks(),
            n == if data@.len() <= old(self).storage().len() {
                data@.len()
            } else {
                old(self).storage().len()
            },
            final(self).storage() == data@.subrange(0, n as int) + old(self).storage().subrange(
                n as int,
                old(self).storage().len() as int,
            ),
    {
        let n = if data.len() <= self.pool.len() {
            data.len()
        } else {
            self.pool.len()
        };
        let ghost s0 = self.pool@;
        let mut i: usize = 0;
        while i < n
            invariant
                i <= n,
                n <= data@.len(),
                n <= s0.len(),
                self.pool@.len() == s0.len(),
                self.state@ == old(self).state@,
                s0 == old(self).pool@,
                forall|k: int| 0 <= k < i ==> self.pool@[k] == data@[k],
                forall|k: int| i <= k < s0.len() ==> self.pool@[k] == s0[k],
            decreases n - i,
        {
            self.pool.set(i, data[i]);
            i = i + 1;
        }
        assert(self.pool@ =~= data@.subrange(0, n as int) + s0.subrange(n as int, s0.len() as int));
        n
    }

    /// Iterate over the slots in order.
    pub fn iter(&self) -> (it: IterRef<L>)
        ensures
            it.cur == 0,
    {
        IterRef { cur: 0, marker: PhantomData }
    }
}

proof fn lemma_size_fits(cap: nat, size: nat)
    requires
        cap * size + 8 <= usize::MAX,
    ensures
        cap > 0 ==> size <= usize::MAX,
        cap > 0 || cap * size == 0,
{
    if cap > 0 {
        vstd::arithmetic::mul::lemma_mul_inequality(1, cap as int, size as int);
    }
}

proof fn lemma_storage_fits(cap: nat, size: nat)
    requires
        cap * size + 8 <= usize::MAX,
    ensures
        spec_div_up(cap * size, 8) * 8 <= usize::MAX,
        spec_div_up(cap * size, 8) * 8 >= cap * size,
{
    let n = cap * size;
    vstd::arithmetic::div_mod::lemma_fundamental_div_mod((n + 7) as int, 8);
}

proof fn lemma_slot_fits(pos: nat, cap: nat, size: nat)
    requires
        pos < cap,
        cap * size + 8 <= usize::MAX,
    ensures
        (pos + 1) * size <= cap * size,
        spec_div_up(cap * size, 8) * 8 >= cap * size,
        pos * size <= (pos + 1) * size,
{
    vstd::arithmetic::mul::lemma_mul_inequality((pos + 1) as int, cap as int, size as int);
    vstd::arithmetic::mul::lemma_mul_inequality(pos as int, (pos + 1) as int, size as int);
    lemma_storage_fits(cap, size);
}

/// Walks the slots of a pool in order, borrowing each free one; slots that
/// are borrowed elsewhere are skipped.
pub struct IterRef<L> {
    pub cur: usize,
    pub marker: PhantomData<L>,
}

impl<L: SizedLense> IterRef<L> {
    /// The number of slots in the pool.
    pub fn len(&self, pool: &SeekablePool<L>) -> (r: usize)
        ensures
            r == pool.capacity(),
    {
        pool.slots()
    }

    /// Borrow the next free slot at or after the current position.
    pub fn next(&mut self, pool: &mut SeekablePool<L>) -> (r: Option<Guard<Result<L::Ret, Error>>>)
        requires
            old(pool).wf(),
        ensures
            final(pool).wf(),
            final(pool).storage() == old(pool).storage(),
            ({
                let k = next_free(old(pool).locks(), old(self).cur as int);
                if k < old(pool).capacity() {
                    &&& r matches Some(g) && g.slot() == k && g.val() == old(pool).decoded(k as nat)
                    &&& final(pool).locks() == old(pool).locks().update(k, true)
                    &&& final(self).cur == k + 1
                } else {
                    &&& r is None
                    &&& final(pool).locks() == old(pool).locks()
                }
            }),
    {
        let n = pool.slots();
        while self.cur < n
            invariant
                n == pool.capacity(),
                pool.wf(),
                pool.locks() == old(pool).locks(),
                pool.storage() == old(pool).storage(),
                old(self).cur <= self.cur,
                next_free(pool.locks(), old(self).cur as int) == next_free(pool.locks(), self.cur as int),
            decreases n - self.cur,
        {
            let k = self.cur;
            self.cur = k + 1;
            if !pool.is_locked(k) {
                return pool.lense(k);
            }
        }
        None
    }
}

/// Borrowing is exclusive: once slot `pos` is granted, asking again is
/// refused until it is released, after which it is granted again.
pub proof fn lemma_exclusive_borrow(locks: Seq<bool>, pos: int)
    requires
        0 <= pos < locks.len(),
    ensures
        ({
            let (granted, after) = borrow_locks(locks, pos);
            &&& granted == !locks[pos]
            &&& !borrow_locks(after, pos).0
            &&& borrow_locks(release_locks(after, pos), pos).0
            &&& forall|j: int| 0 <= j < locks.len() && j != pos ==> after[j] == locks[j]
        }),
{
}

/// The storage holds every record: at least `cap * size` bytes, a multiple
/// of 8, and less than one word more.
pub proof fn lemma_storage_len(cap: nat, size: nat)
    ensures
        storage_len(cap, size) >= cap * size,
        storage_len(cap, size) % 8 == 0,
        storage_len(cap, size) < cap * size + 8,
{
    let n = cap * size;
    vstd::arithmetic::div_mod::lemma_fundamental_div_mod((n + 7) as int, 8);
    vstd::arithmetic::div_mod::lemma_mod_multiples_basic(spec_div_up(n, 8) as int, 8);
}

} // verus!
