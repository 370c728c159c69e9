use vstd::prelude::*;

use crate::cur::Cursor;
use crate::error::Error;

verus! {

/// Writing side of the length-prefixed (dynamically sized) lenses.
///
/// On the wire such a value is a little-endian `u16` count followed by the
/// elements.
pub trait DstExt {
    type Ret;

    /// Outcome of [`DstExt::with_length`].
    spec fn spec_with_length(c: Cursor, l: u16) -> (Result<Self::Ret, Error>, Cursor);

    /// Write the count `l` at the cursor, then reserve room for `l` elements.
    fn set_length(c: &mut Cursor, b: &mut Vec<u8>, l: u16) -> (r: Result<Self::Ret, Error>)
        requires
            old(c).within(old(b)@.len()),
        ensures
            final(b)@.len() == old(b)@.len(),
            final(c).within(final(b)@.len()),
            ({
                let (rp, c1) = old(c).spec_dice::<u16>();
                match rp {
                    Err(e) => r == Err::<Self::Ret, Error>(e) && *final(c) == c1 && final(b)@
                        == old(b)@,
                    Ok(p) => final(b)@ == crate::prim::splice(
                        old(b)@,
                        p.at as int,
                        <u16 as crate::prim::Primitive>::to_le(l),
                    ) && (r, *final(c)) == Self::spec_with_length(c1, l),
                }
            }),
    ;

    /// Reserve room for `l` elements at the cursor (the count is already there).
    fn with_length(c: &mut Cursor, l: u16) -> (r: Result<Self::Ret, Error>)
        requires
            old(c).wf(),
        ensures
            (r, *final(c)) == Self::spec_with_length(*old(c), l),
            final(c).wf(),
    ;
}

} // verus!
