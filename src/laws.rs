use vstd::prelude::*;

use crate::cur::{Cursor, RefMut, read_at, write_at};
use crate::error::Error;
use crate::lense::{FixedLense, Lense};
use crate::prim::{Primitive, splice};
use crate::record::Alice;

verus! {

/// Where a field of width `w` lands when the cursor stands at `pos`: the
/// next multiple of `w`.
pub open spec fn placed(pos: nat, w: nat) -> nat {
    if pos % w == 0 {
        pos
    } else {
        (pos + (w - pos % w)) as nat
    }
}

/// Laying out fields of widths `ws` back to back from `pos`, each at its
/// natural alignment: the end position and the total waste, where each field
/// adds the misalignment `pos % w` it met.
pub open spec fn layout(pos: nat, ws: Seq<nat>) -> (nat, nat)
    decreases ws.len(),
{
    if ws.len() == 0 {
        (pos, 0)
    } else {
        let w = ws[0];
        let (end, waste) = layout(placed(pos, w) + w, ws.drop_first());
        (end, pos % w + waste)
    }
}

/// The cursor after taking fields of widths `ws` one by one: each is aligned
/// for, then carved out.
pub open spec fn take_fields(c: Cursor, ws: Seq<nat>) -> (Result<(), Error>, Cursor)
    decreases ws.len(),
{
    if ws.len() == 0 {
        (Ok(()), c)
    } else {
        let (r, c1) = c.spec_align(ws[0]);
        match r {
            Err(e) => (Err(e), c1),
            Ok(_) => {
                let (r2, c2) = c1.spec_advance(ws[0]);
                match r2 {
                    Err(e) => (Err(e), c2),
                    Ok(_) => take_fields(c2, ws.drop_first()),
                }
            },
        }
    }
}

/// Sum of the widths.
pub open spec fn total(ws: Seq<nat>) -> nat
    decreases ws.len(),
{
    if ws.len() == 0 {
        0
    } else {
        ws[0] + total(ws.drop_first())
    }
}

proof fn lemma_layout_grows(pos: nat, ws: Seq<nat>)
    requires
        forall|i: int| 0 <= i < ws.len() ==> #[trigger] ws[i] >= 1,
    ensures
        layout(pos, ws).0 >= pos,
    decreases ws.len(),
{
    if ws.len() > 0 {
        let w = ws[0];
        assert forall|i: int| 0 <= i < ws.drop_first().len() implies #[trigger] ws.drop_first()[i] >= 1 by {
            assert(ws.drop_first()[i] == ws[i + 1]);
        }
        lemma_layout_grows(placed(pos, w) + w, ws.drop_first());
    }
}

/// Alignment waste depends only on the start position and the field widths:
/// with padding on, taking fields of widths `ws` succeeds when the layout fits,
/// ends where [`layout`] says and adds exactly its waste.
pub proof fn lemma_waste_determinism(c: Cursor, ws: Seq<nat>)
    requires
        c.wf(),
        c.padded,
        forall|i: int| 0 <= i < ws.len() ==> #[trigger] ws[i] >= 1,
        layout(c.cur as nat, ws).0 <= c.end,
        c.waste + layout(c.cur as nat, ws).1 <= usize::MAX,
    ensures
        take_fields(c, ws) == (
        Ok::<(), Error>(()),
        Cursor {
            cur: layout(c.cur as nat, ws).0 as usize,
            waste: (c.waste + layout(c.cur as nat, ws).1) as usize,
            ..c
        },
    ),
    decreases ws.len(),
{
    if ws.len() > 0 {
        let w = ws[0];
        let rest = ws.drop_first();
        assert forall|i: int| 0 <= i < rest.len() implies #[trigger] rest[i] >= 1 by {
            assert(rest[i] == ws[i + 1]);
        }
        let next = placed(c.cur as nat, w) + w;
        lemma_layout_grows(next, rest);
        let (r1, c1) = c.spec_align(w);
        assert(r1 is Ok);
        assert(c1.cur == placed(c.cur as nat, w));
        assert(c1.waste == c.waste + (c.cur as nat) % w);
        let (r2, c2) = c1.spec_advance(w);
        assert(c2.cur == next);
        lemma_waste_determinism(c2, rest);
    }
}

/// With padding off, fields are taken back to back and nothing is wasted.
pub proof fn lemma_no_padding_no_waste(c: Cursor, ws: Seq<nat>)
    requires
        c.wf(),
        !c.padded,
        c.cur + total(ws) <= c.end,
    ensures
        take_fields(c, ws) == (Ok::<(), Error>(()), Cursor { cur: (c.cur + total(ws)) as usize, ..c }),
    decreases ws.len(),
{
    if ws.len() > 0 {
        let (r2, c2) = c.spec_advance(ws[0]);
        lemma_no_padding_no_waste(c2, ws.drop_first());
    }
}

/// Decoding a primitive is taking one field of its width.
pub proof fn lemma_dice_takes_one_field<P: Primitive>(c: Cursor)
    requires
        c.wf(),
    ensures
        c.spec_dice::<P>().1 == take_fields(c, seq![P::width()]).1,
        c.spec_dice::<P>().0 is Ok <==> take_fields(c, seq![P::width()]).0 is Ok,
{
    reveal_with_fuel(take_fields, 2);
    assert(seq![P::width()].drop_first() =~= Seq::<nat>::empty());
}

/// Decoding two primitives back to back is taking two fields of their widths.
pub proof fn lemma_two_dice_take_two_fields<A: Primitive, B: Primitive>(c: Cursor)
    requires
        c.wf(),
    ensures
        c.spec_dice::<A>().0 is Ok && c.spec_dice::<A>().1.spec_dice::<B>().0 is Ok
            ==> c.spec_dice::<A>().1.spec_dice::<B>().1 == take_fields(c, seq![A::width(), B::width()]).1,
{
    reveal_with_fuel(take_fields, 3);
    let ws = seq![A::width(), B::width()];
    assert(ws.drop_first() =~= seq![B::width()]);
    assert(ws.drop_first().drop_first() =~= Seq::<nat>::empty());
}

/// A primitive at an offset that already meets its alignment is decoded in
/// place, with no waste.
pub proof fn lemma_aligned_dice_no_waste<P: Primitive>(c: Cursor)
    requires
        c.wf(),
        (c.cur as nat) % P::width() == 0,
        c.cur + P::width() <= c.end,
    ensures
        c.spec_dice::<P>().0 matches Ok(v) && v.at == c.cur,
        c.spec_dice::<P>().1 == (Cursor { cur: (c.cur + P::width()) as usize, ..c }),
{
}

proof fn lemma_splice_facts(s: Seq<u8>, at: int, w: Seq<u8>)
    requires
        0 <= at,
        at + w.len() <= s.len(),
    ensures
        splice(s, at, w).len() == s.len(),
        splice(s, at, w).subrange(at, at + w.len()) =~= w,
        forall|k: int|
            0 <= k < s.len() && !(at <= k < at + w.len()) ==> #[trigger] splice(s, at, w)[k] == s[k],
{
}

/// Writing a primitive through the write path and reading it back yields
/// the value written, and no byte outside the field changes.
pub proof fn lemma_prim_round_trip<P: Primitive>(b: Seq<u8>, at: int, v: P)
    requires
        0 <= at,
        at + P::width() <= b.len(),
    ensures
        splice(b, at, P::to_le(v)).len() == b.len(),
        P::from_le(splice(b, at, P::to_le(v)).subrange(at, at + P::width())) == v,
        forall|k: int|
            0 <= k < b.len() && !(at <= k < at + P::width()) ==> #[trigger] splice(b, at, P::to_le(v))[k]
                == b[k],
{
    P::lemma_le(v);
    lemma_splice_facts(b, at, P::to_le(v));
}

/// A later write to disjoint bytes leaves an earlier field's bytes alone.
proof fn lemma_read_after_other_write<P: Primitive, Q: Primitive>(b: Seq<u8>, at: int, v: P, other: int, u: Q)
    requires
        0 <= at,
        0 <= other,
        at + P::width() <= b.len(),
        other + Q::width() <= b.len(),
        at + P::width() <= other || other + Q::width() <= at,
    ensures
        splice(b, other, Q::to_le(u)).len() == b.len(),
        splice(b, other, Q::to_le(u)).subrange(at, at + P::width()) == b.subrange(at, at + P::width()),
{
    Q::lemma_le(u);
    lemma_splice_facts(b, other, Q::to_le(u));
    assert(splice(b, other, Q::to_le(u)).subrange(at, at + P::width()) =~= b.subrange(at, at + P::width()));
}

/// Round trip of a two-field record `(A, B)`: decode it, write `x` and `y`
/// through its views, decode again over the new bytes: the views are the
/// same and read back `x` and `y`.
pub proof fn lemma_pair_round_trip<A: Primitive, B: Primitive>(c: Cursor, b: Seq<u8>, x: A, y: B)
    requires
        c.within(b.len()),
        c.spec_dice::<A>().0 is Ok,
        c.spec_dice::<A>().1.spec_dice::<B>().0 is Ok,
    ensures
        ({
            let va = c.spec_dice::<A>().0->Ok_0;
            let c1 = c.spec_dice::<A>().1;
            let vb = c1.spec_dice::<B>().0->Ok_0;
            let b1 = splice(b, va.at as int, A::to_le(x));
            let b2 = splice(b1, vb.at as int, B::to_le(y));
            &&& b2.len() == b.len()
            &&& va.at + A::width() <= vb.at
            &&& A::from_le(b2.subrange(va.at as int, va.at + A::width())) == x
            &&& B::from_le(b2.subrange(vb.at as int, vb.at + B::width())) == y
        }),
{
    let va = c.spec_dice::<A>().0->Ok_0;
    let c1 = c.spec_dice::<A>().1;
    let vb = c1.spec_dice::<B>().0->Ok_0;
    let b1 = splice(b, va.at as int, A::to_le(x));
    lemma_prim_round_trip::<A>(b, va.at as int, x);
    lemma_prim_round_trip::<B>(b1, vb.at as int, y);
    lemma_read_after_other_write::<A, B>(b1, va.at as int, x, vb.at as int, y);
}


/// Round trip for any fixed layout: after a value is stored through a view,
/// decoding the layout again over the new bytes finds the same views and
/// cursor, and the view reads back the value stored.
pub proof fn lemma_fixed_round_trip<T: FixedLense, P: Primitive>(c: Cursor, b: Seq<u8>, r: RefMut<P>, v: P)
    requires
        r.at + P::width() <= b.len(),
    ensures
        write_at(b, r, v).len() == b.len(),
        T::spec_lense(c, write_at(b, r, v)) == T::spec_lense(c, b),
        read_at(write_at(b, r, v), r) == v,
{
    T::lemma_content_free(c, b, write_at(b, r, v));
    lemma_prim_round_trip::<P>(b, r.at as int, v);
}

/// Round trip of the [`Alice`] record: decode it, store a value through each
/// field's view, decode again over the new bytes: the views are the same and
/// each reads back what was stored.
pub proof fn lemma_alice_round_trip(c: Cursor, b: Seq<u8>, a: u8, b0: u8, b1: u16, d: u32, e: u64)
    requires
        c.within(b.len()),
        Alice::spec_lense(c, b).0 is Ok,
    ensures
        ({
            let v = Alice::spec_lense(c, b).0->Ok_0;
            let w = write_at(
                write_at(write_at(write_at(write_at(b, v.a, a), v.bc.0, b0), v.bc.1, b1), v.d, d),
                v.e,
                e,
            );
            &&& w.len() == b.len()
            &&& Alice::spec_lense(c, w) == Alice::spec_lense(c, b)
            &&& read_at(w, v.a) == a
            &&& read_at(w, v.bc.0) == b0
            &&& read_at(w, v.bc.1) == b1
            &&& read_at(w, v.d) == d
            &&& read_at(w, v.e) == e
        }),
{
    let v = Alice::spec_lense(c, b).0->Ok_0;
    let w1 = write_at(b, v.a, a);
    let w2 = write_at(w1, v.bc.0, b0);
    let w3 = write_at(w2, v.bc.1, b1);
    let w4 = write_at(w3, v.d, d);
    let w5 = write_at(w4, v.e, e);
    assert(v.a.at + 1 <= v.bc.0.at);
    assert(v.bc.0.at + 1 <= v.bc.1.at);
    assert(v.bc.1.at + 2 <= v.d.at);
    assert(v.d.at + 4 <= v.e.at);
    assert(v.e.at + 8 <= b.len());
    lemma_prim_round_trip::<u8>(b, v.a.at as int, a);
    lemma_prim_round_trip::<u8>(w1, v.bc.0.at as int, b0);
    lemma_prim_round_trip::<u16>(w2, v.bc.1.at as int, b1);
    lemma_prim_round_trip::<u32>(w3, v.d.at as int, d);
    lemma_prim_round_trip::<u64>(w4, v.e.at as int, e);
    lemma_read_after_other_write::<u8, u8>(w1, v.a.at as int, a, v.bc.0.at as int, b0);
    lemma_read_after_other_write::<u8, u16>(w2, v.a.at as int, a, v.bc.1.at as int, b1);
    lemma_read_after_other_write::<u8, u32>(w3, v.a.at as int, a, v.d.at as int, d);
    lemma_read_after_other_write::<u8, u64>(w4, v.a.at as int, a, v.e.at as int, e);
    lemma_read_after_other_write::<u8, u16>(w2, v.bc.0.at as int, b0, v.bc.1.at as int, b1);
    lemma_read_after_other_write::<u8, u32>(w3, v.bc.0.at as int, b0, v.d.at as int, d);
    lemma_read_after_other_write::<u8, u64>(w4, v.bc.0.at as int, b0, v.e.at as int, e);
    lemma_read_after_other_write::<u16, u32>(w3, v.bc.1.at as int, b1, v.d.at as int, d);
    lemma_read_after_other_write::<u16, u64>(w4, v.bc.1.at as int, b1, v.e.at as int, e);
    lemma_read_after_other_write::<u32, u64>(w4, v.d.at as int, d, v.e.at as int, e);
}

} // verus!
