use lense::{
    lense_array, Aligned, Bob, Cursor, Error, Lense, PaddedOption, PaddedResult, SeekablePool,
    SizedLense, Tag,
};

#[test]
fn pool_fill_copies_what_fits() {
    let mut pool = SeekablePool::<u32>::with_capacity(2);
    let n = pool.fill(&[1, 2, 3, 4, 5]);
    assert_eq!(n, 5);
    assert_eq!(pool.bytes(), &[1, 2, 3, 4, 5, 0, 0, 0]);
    let n = pool.fill(&[9; 12]);
    assert_eq!(n, 8);
    assert_eq!(pool.bytes(), &[9; 8]);
    let g = pool.lense(1).unwrap();
    let x = g.value().as_ref().unwrap();
    assert_eq!(x.get(pool.bytes()), 0x0909_0909);
    pool.release(g);
}

#[test]
fn pool_write_bool_through_a_tagged_slot() {
    let mut pool = SeekablePool::<(Tag<u8>, bool, bool)>::with_capacity(2);
    assert_eq!(<(Tag<u8>, bool, bool)>::size(), 1);
    let g = pool.lense(1).unwrap();
    let (_, x, y) = g.value().as_ref().unwrap();
    assert_eq!((x.byte, x.bit, y.byte, y.bit), (1, 0, 1, 1));
    pool.write_bool(y, true);
    assert!(!x.get(pool.bytes()));
    assert!(y.get(pool.bytes()));
    assert_eq!(pool.bytes()[1], 0b10);
    pool.release(g);
}

#[test]
fn pool_borrow_of_misaligned_record_reports_error() {
    // (u16, u8) is 3 bytes; slot 1 starts at offset 3, so the u16 is padded
    // to offset 4 and the u8 no longer fits in the slot.
    let mut pool = SeekablePool::<(u16, u8)>::with_capacity(2);
    let g = pool.lense(1).unwrap();
    assert_eq!(g.value().as_ref().err(), Some(&Error::ExpectedBytes(1)));
    assert!(pool.is_locked(1));
    pool.release(g);
    assert!(!pool.is_locked(1));
}

#[test]
fn ends_stream_separates_exhaustion_from_corruption() {
    assert!(Error::ExpectedBytes(3).ends_stream());
    assert!(Error::OutOfBounds(3).ends_stream());
    assert!(!Error::ExpectedBits(1).ends_stream());
    assert!(!Error::InvalidTag(9).ends_stream());
    assert!(!Error::NoTagDefined.ends_stream());
}

#[test]
fn record_stream_stops_at_the_end() {
    let mut v = Aligned::new(11);
    for (i, x) in v.as_mut_vec().iter_mut().enumerate() {
        *x = i as u8;
    }
    let b = v.as_slice();
    let mut c = Cursor::new(b);
    let mut got = Vec::new();
    loop {
        match <(u8, u8)>::lense(&mut c, b) {
            Ok((x, y)) => got.push((x.get(b), y.get(b))),
            Err(e) => {
                assert!(e.ends_stream());
                break;
            }
        }
    }
    assert_eq!(got, vec![(0, 1), (2, 3), (4, 5), (6, 7), (8, 9)]);
}

#[test]
fn padded_option_takes_its_whole_region() {
    let mut v = Aligned::new(6);
    v.as_mut_vec()[0] = 0b1;
    v.as_mut_vec()[1] = 0xaa;
    v.as_mut_vec()[2] = 0xbb;
    v.as_mut_vec()[3] = 0xcc;
    let b = v.as_slice();
    let c = &mut Cursor::new(b);
    Tag::<u8>::lense(c, b).unwrap();
    let first = <PaddedOption<(u8, u8)>>::lense(c, b).unwrap().unwrap();
    assert_eq!((first.0.get(b), first.1.get(b)), (0xaa, 0xbb));
    assert_eq!(c.cur, 3);
    // The region's own tag bit came from a copy of the tag: the next region
    // reads the same bit.
    let second = <PaddedOption<u8>>::lense(c, b).unwrap().unwrap();
    assert_eq!(second.get(b), 0xcc);
    assert_eq!(c.cur, 4);
}

#[test]
fn padded_result_uses_the_larger_payload() {
    assert_eq!(<PaddedResult<u8, u32>>::size(), 4);
    let v = Aligned::new(9);
    let b = v.as_slice();
    let c = &mut Cursor::new(b);
    Tag::<u8>::lense(c, b).unwrap();
    match <PaddedResult<u32, u8>>::lense(c, b).unwrap() {
        Err(x) => assert_eq!(x.at, 1),
        Ok(_) => unreachable!(),
    }
    assert_eq!(c.cur, 5);
    assert_eq!(c.waste(), 0);
}

#[test]
fn bob_in_a_fixed_region() {
    assert_eq!(<Bob as SizedLense>::size(), 3);
    let mut v = Aligned::new(5);
    v.as_mut_vec()[0] = 0b1;
    v.as_mut_vec()[1] = 7;
    v.as_mut_vec()[2] = 0x02;
    v.as_mut_vec()[3] = 0x01;
    let b = v.as_slice();
    let c = &mut Cursor::new(b);
    Tag::<u8>::lense(c, b).unwrap();
    match Bob::lense(c, b).unwrap() {
        Bob::B(x, y) => {
            assert_eq!(x.get(b), 7);
            assert_eq!(y.get(b), 0x0102);
        }
        Bob::A(_) => unreachable!(),
    }
    assert_eq!(c.remaining(), 1);
}

#[test]
fn array_decode_stops_at_first_failure() {
    let v = Aligned::new(7);
    let b = v.as_slice();
    let mut c = Cursor::new(b);
    assert_eq!(lense_array::<u16>(&mut c, b, 4).err(), Some(Error::ExpectedBytes(2)));
    assert_eq!(c.cur, 6);
    let mut c = Cursor::new(b);
    let xs = lense_array::<u16>(&mut c, b, 3).unwrap();
    let at: Vec<usize> = xs.iter().map(|x| x.at).collect();
    assert_eq!(at, vec![0, 2, 4]);
    let mut c = Cursor::new(b);
    assert_eq!(lense_array::<u64>(&mut c, b, 0).unwrap().len(), 0);
    assert_eq!(c.cur, 0);
}

#[test]
fn pair_round_trip_through_views() {
    let mut v = Aligned::new(8);
    let mut c = Cursor::new(v.as_slice());
    let (x, y) = <(i8, u32)>::lense(&mut c, v.as_slice()).unwrap();
    x.set(v.as_mut_vec(), -5);
    y.set(v.as_mut_vec(), 0xdead_beef);
    let b = v.as_slice();
    let mut c2 = Cursor::new(b);
    let (x2, y2) = <(i8, u32)>::lense(&mut c2, b).unwrap();
    assert_eq!((x2.at, y2.at), (x.at, y.at));
    assert_eq!(x2.get(b), -5);
    assert_eq!(y2.get(b), 0xdead_beef);
    assert_eq!(c2.waste(), 1);
    assert_eq!(&b[4..8], &[0xef, 0xbe, 0xad, 0xde]);
}

#[test]
fn aligned_fields_waste_nothing() {
    let v = Aligned::new(16);
    let b = v.as_slice();
    let mut c = Cursor::new(b);
    <(u64, u32, u16, u8, u8)>::lense(&mut c, b).unwrap();
    assert_eq!(c.waste(), 0);
    assert_eq!(c.remaining(), 0);
}
