use vstd::bytes::*;
use vstd::prelude::*;
use vstd::slice::slice_subrange;

verus! {

/// `s` with the bytes at `at .. at + w.len()` replaced by `w`.
pub open spec fn splice(s: Seq<u8>, at: int, w: Seq<u8>) -> Seq<u8> {
    s.subrange(0, at) + w + s.subrange(at + w.len(), s.len() as int)
}

/// A fixed-width integer that can be stored in a buffer as raw bytes.
///
/// Values are stored little-endian. A primitive's alignment is its width.
pub trait Primitive: Sized + Copy {
    /// Width in bytes.
    spec fn width() -> nat;

    /// The value that `s` (of `width()` bytes) encodes.
    spec fn from_le(s: Seq<u8>) -> Self;

    /// The bytes that encode `v`.
    spec fn to_le(v: Self) -> Seq<u8>;

    fn size() -> (r: usize)
        ensures
            r as nat == Self::width(),
            r == 1 || r == 2 || r == 4 || r == 8,
    ;

    /// Read the value stored at `b[at ..]`.
    fn read(b: &[u8], at: usize) -> (v: Self)
        requires
            at + Self::width() <= b@.len(),
        ensures
            v == Self::from_le(b@.subrange(at as int, at + Self::width())),
    ;

    /// Store `v` at `b[at ..]`.
    fn write(b: &mut Vec<u8>, at: usize, v: Self)
        requires
            at + Self::width() <= old(b)@.len(),
        ensures
            final(b)@ == splice(old(b)@, at as int, Self::to_le(v)),
    ;

    proof fn lemma_le(v: Self)
        ensures
            Self::to_le(v).len() == Self::width(),
            Self::from_le(Self::to_le(v)) == v,
    ;
}

/// Copy `w` into `b` at `at`.
fn put_bytes(b: &mut Vec<u8>, at: usize, w: &Vec<u8>)
    requires
        at + w@.len() <= old(b)@.len(),
    ensures
        final(b)@ == splice(old(b)@, at as int, w@),
{
    let ghost b0 = b@;
    let n = b.len();
    let mut i: usize = 0;
    while i < w.len()
        invariant
            0 <= i <= w@.len(),
            at + w@.len() <= b0.len(),
            n == b0.len(),
            b@.len() == b0.len(),
            forall|k: int| 0 <= k < at ==> b@[k] == b0[k],
            forall|k: int| at + i <= k < b0.len() ==> b@[k] == b0[k],
            forall|k: int| at <= k < at + i ==> b@[k] == w@[k - at],
        decreases w@.len() - i,
    {
        b.set(at + i, w[i]);
        i = i + 1;
    }
    assert(b@ =~= splice(b0, at as int, w@));
}

impl Primitive for u8 {
    open spec fn width() -> nat {
        1
    }

    open spec fn from_le(s: Seq<u8>) -> u8 {
        s[0]
    }

    open spec fn to_le(v: u8) -> Seq<u8> {
        seq![v]
    }

    fn size() -> (r: usize) {
        1
    }

    fn read(b: &[u8], at: usize) -> (v: u8) {
        b[at]
    }

    fn write(b: &mut Vec<u8>, at: usize, v: u8) {
        b.set(at, v);
        assert(b@ =~= splice(old(b)@, at as int, seq![v]));
    }

    proof fn lemma_le(v: u8) {
    }
}

impl Primitive for i8 {
    open spec fn width() -> nat {
        1
    }

    open spec fn from_le(s: Seq<u8>) -> i8 {
        s[0] as i8
    }

    open spec fn to_le(v: i8) -> Seq<u8> {
        seq![v as u8]
    }

    fn size() -> (r: usize) {
        1
    }

    fn read(b: &[u8], at: usize) -> (v: i8) {
        b[at] as i8
    }

    fn write(b: &mut Vec<u8>, at: usize, v: i8) {
        b.set(at, v as u8);
        assert(b@ =~= splice(old(b)@, at as int, seq![v as u8]));
    }

    proof fn lemma_le(v: i8) {
        assert(((v as u8) as i8) == v) by (bit_vector);
    }
}

impl Primitive for u16 {
    open spec fn width() -> nat {
        2
    }

    open spec fn from_le(s: Seq<u8>) -> u16 {
        spec_u16_from_le_bytes(s)
    }

    open spec fn to_le(v: u16) -> Seq<u8> {
        spec_u16_to_le_bytes(v)
    }

    fn size() -> (r: usize) {
        2
    }

    fn read(b: &[u8], at: usize) -> (v: u16) {
        let n = b.len();
        u16_from_le_bytes(slice_subrange(b, at, at + 2))
    }

    fn write(b: &mut Vec<u8>, at: usize, v: u16) {
        let w = u16_to_le_bytes(v);
        put_bytes(b, at, &w);
    }

    proof fn lemma_le(v: u16) {
        lemma_auto_spec_u16_to_from_le_bytes();
        assert(spec_u16_to_le_bytes(v).len() == 2);
    }
}

impl Primitive for i16 {
    open spec fn width() -> nat {
        2
    }

    open spec fn from_le(s: Seq<u8>) -> i16 {
        spec_u16_from_le_bytes(s) as i16
    }

    open spec fn to_le(v: i16) -> Seq<u8> {
        spec_u16_to_le_bytes(v as u16)
    }

    fn size() -> (r: usize) {
        2
    }

    fn read(b: &[u8], at: usize) -> (v: i16) {
        let n = b.len();
        u16_from_le_bytes(slice_subrange(b, at, at + 2)) as i16
    }

    fn write(b: &mut Vec<u8>, at: usize, v: i16) {
        let w = u16_to_le_bytes(v as u16);
        put_bytes(b, at, &w);
    }

    proof fn lemma_le(v: i16) {
        lemma_auto_spec_u16_to_from_le_bytes();
        assert(spec_u16_to_le_bytes(v as u16).len() == 2);
        assert(((v as u16) as i16) == v) by (bit_vector);
    }
}

impl Primitive for u32 {
    open spec fn width() -> nat {
        4
    }

    open spec fn from_le(s: Seq<u8>) -> u32 {
        spec_u32_from_le_bytes(s)
    }

    open spec fn to_le(v: u32) -> Seq<u8> {
        spec_u32_to_le_bytes(v)
    }

    fn size() -> (r: usize) {
        4
    }

    fn read(b: &[u8], at: usize) -> (v: u32) {
        let n = b.len();
        u32_from_le_bytes(slice_subrange(b, at, at + 4))
    }

    fn write(b: &mut Vec<u8>, at: usize, v: u32) {
        let w = u32_to_le_bytes(v);
        put_bytes(b, at, &w);
    }

    proof fn lemma_le(v: u32) {
        lemma_auto_spec_u32_to_from_le_bytes();
        assert(spec_u32_to_le_bytes(v).len() == 4);
    }
}

impl Primitive for i32 {
    open spec fn width() -> nat {
        4
    }

    open spec fn from_le(s: Seq<u8>) -> i32 {
        spec_u32_from_le_bytes(s) as i32
    }

    open spec fn to_le(v: i32) -> Seq<u8> {
        spec_u32_to_le_bytes(v as u32)
    }

    fn size() -> (r: usize) {
        4
    }

    fn read(b: &[u8], at: usize) -> (v: i32) {
        let n = b.len();
        u32_from_le_bytes(slice_subrange(b, at, at + 4)) as i32
    }

    fn write(b: &mut Vec<u8>, at: usize, v: i32) {
        let w = u32_to_le_bytes(v as u32);
        put_bytes(b, at, &w);
    }

    proof fn lemma_le(v: i32) {
        lemma_auto_spec_u32_to_from_le_bytes();
        assert(spec_u32_to_le_bytes(v as u32).len() == 4);
        assert(((v as u32) as i32) == v) by (bit_vector);
    }
}

impl Primitive for u64 {
    open spec fn width() -> nat {
        8
    }

    open spec fn from_le(s: Seq<u8>) -> u64 {
        spec_u64_from_le_bytes(s)
    }

    open spec fn to_le(v: u64) -> Seq<u8> {
        spec_u64_to_le_bytes(v)
    }

    fn size() -> (r: usize) {
        8
    }

    fn read(b: &[u8], at: usize) -> (v: u64) {
        let n = b.len();
        u64_from_le_bytes(slice_subrange(b, at, at + 8))
    }

    fn write(b: &mut Vec<u8>, at: usize, v: u64) {
        let w = u64_to_le_bytes(v);
        put_bytes(b, at, &w);
    }

    proof fn lemma_le(v: u64) {
        lemma_auto_spec_u64_to_from_le_bytes();
        assert(spec_u64_to_le_bytes(v).len() == 8);
    }
}

impl Primitive for i64 {
    open spec fn width() -> nat {
        8
    }

    open spec fn from_le(s: Seq<u8>) -> i64 {
        spec_u64_from_le_bytes(s) as i64
    }

    open spec fn to_le(v: i64) -> Seq<u8> {
        spec_u64_to_le_bytes(v as u64)
    }

    fn size() -> (r: usize) {
        8
    }

    fn read(b: &[u8], at: usize) -> (v: i64) {
        let n = b.len();
        u64_from_le_bytes(slice_subrange(b, at, at + 8)) as i64
    }

    fn write(b: &mut Vec<u8>, at: usize, v: i64) {
        let w = u64_to_le_bytes(v as u64);
        put_bytes(b, at, &w);
    }

    proof fn lemma_le(v: i64) {
        lemma_auto_spec_u64_to_from_le_bytes();
        assert(spec_u64_to_le_bytes(v as u64).len() == 8);
        assert(((v as u64) as i64) == v) by (bit_vector);
    }
}

} // verus!
