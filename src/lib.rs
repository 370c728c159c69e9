//! Zero-copy typed views over byte buffers.
//!
//! A [`Cursor`] walks a buffer by byte offsets, inserting alignment padding
//! and handing out typed views ([`RefMut`], [`BoolGuard`], [`Slice`], ...).
//! Composite types are decoded field by field through the [`Lense`] trait,
//! and a [`SeekablePool`] multiplexes fixed-size records over one buffer
//! with a per-slot borrow flag.
//!
//! Offsets are measured from the start of the buffer, which the library
//! treats as 8-byte aligned. Views hold offsets, not references: reading or
//! writing through one takes the buffer as an argument.

mod aligned;
mod cur;
mod error;
mod ext;
mod laws;
mod lense;
mod prim;
mod record;
mod seekable;
mod slice;
mod tag;
mod vec;

pub use aligned::{Aligned, zeroed, zeros};
pub use cur::{Cursor, RefMut, lemma_round_up, read_at, write_at};
pub use error::Error;
pub use ext::DstExt;
pub use laws::{
    layout, lemma_aligned_dice_no_waste, lemma_alice_round_trip, lemma_dice_takes_one_field,
    lemma_fixed_round_trip, lemma_no_padding_no_waste, lemma_pair_round_trip, lemma_prim_round_trip,
    lemma_two_dice_take_two_fields, lemma_waste_determinism, placed, take_fields, total,
};
pub use lense::{AlignedLense, FixedLense, Lense, SizedLense, lense_array, sat, spec_lense_n};
pub use prim::{Primitive, splice};
pub use record::{Alice, Bob, Carol, Trailing};
pub use seekable::{
    Guard, IterRef, SeekablePool, borrow_locks, div_up, lemma_exclusive_borrow, lemma_storage_len,
    next_free, release_locks, spec_div_up, storage_len,
};
pub use slice::{Slice, count_at, spec_reserve};
pub use tag::{
    BoolGuard, LenseTag, PaddedOption, PaddedResult, Tag, bit_field, bit_set, discriminant, larger_size,
    spec_discriminant, with_bit,
};
pub use vec::{Iter, lemma_seq_holds_count, spec_reserve_seq};
