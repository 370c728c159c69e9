use lense::{
    discriminant, Aligned, Bob, BoolGuard, Carol, Cursor, Error, Lense, LenseTag, Tag,
    Trailing as Alice,
};

#[test]
fn union_alice() {
    let v = Aligned::new(10);
    let b = v.as_slice();
    let c = &mut Cursor::new(b);

    Tag::<u8>::lense(c, b).unwrap();

    match Carol::lense(c, b).unwrap() {
        Carol::Alice(Alice { a, b: (b1, b2), c: cc, mut d }) => {
            assert_eq!(a.get(b), 0);
            assert_eq!(b1.get(b), 0u8);
            assert_eq!(b2.get(b), 0u16);
            assert_eq!(&cc.to_vec(b)[..], &[] as &[u32]);
            let mut count = 0;
            while d.next(b).is_some() {
                count += 1;
            }
            assert_eq!(count, 0);
        }
        _ => unreachable!(),
    }

    assert_eq!(c.waste(), 1);
    assert_eq!(c.remaining(), 0);
}

#[test]
fn union_alice_unpadded() {
    let v = Aligned::new(10);
    let b = v.as_slice();
    let c = &mut Cursor::unpadded(b);
    Tag::<u8>::lense(c, b).unwrap();
    assert!(matches!(Carol::lense(c, b).unwrap(), Carol::Alice(_)));
    assert_eq!(c.waste(), 0);
    assert_eq!(c.remaining(), 1);
}

#[test]
fn union_bob() {
    let mut v = Aligned::new(4);

    {
        // Set union tag to Bob!
        let c = &mut Cursor::new(v.as_slice());
        // set tag, return nothing
        Tag::<u8>::lense(c, v.as_slice()).unwrap();

        // boolean from the tag
        let g = <bool>::lense(c, v.as_slice()).unwrap();
        g.set(v.as_mut_vec(), true);
    }

    let b = v.as_slice();
    let c = &mut Cursor::new(b);

    Tag::<u8>::lense(c, b).unwrap();

    match Carol::lense(c, b).unwrap() {
        Carol::Bob(Bob::A(a)) => assert_eq!(a.get(b), 0),
        _ => unreachable!(),
    }

    assert_eq!(c.waste(), 0);
    assert_eq!(c.remaining(), 0);
}

#[test]
fn bool_without_tag_is_an_error() {
    let v = Aligned::new(4);
    let b = v.as_slice();
    let c = &mut Cursor::new(b);
    assert_eq!(<bool>::lense(c, b).err(), Some(Error::NoTagDefined));
    assert_eq!(c.tag_bits(b, 1).err(), Some(Error::NoTagDefined));
}

#[test]
fn tag_bits_roll_over_and_run_out() {
    let mut v = Aligned::new(2);
    v.as_mut_vec()[0] = 0b1010_0101;
    v.as_mut_vec()[1] = 0b0000_0001;
    let b = v.as_slice();
    let c = &mut Cursor::new(b);
    Tag::<u16>::lense(c, b).unwrap();
    let mut bits = Vec::new();
    for _ in 0..9 {
        bits.push(c.tag_bit().unwrap().get(b));
    }
    assert_eq!(bits, vec![true, false, true, false, false, true, false, true, true]);
    for _ in 0..7 {
        c.tag_bit().unwrap();
    }
    assert_eq!(c.tag_bit().err(), Some(Error::ExpectedBits(1)));
    assert_eq!(c.tag_bits(b, 2).err(), Some(Error::ExpectedBits(2)));
}

#[test]
fn tag_bits_reads_a_field() {
    let mut v = Aligned::new(1);
    v.as_mut_vec()[0] = 0b0110_1100;
    let b = v.as_slice();
    let c = &mut Cursor::new(b);
    Tag::<u8>::lense(c, b).unwrap();
    assert_eq!(c.tag_bits(b, 3).unwrap(), 0b100);
    assert_eq!(c.tag_bits(b, 3).unwrap(), 0b1100);
    assert_eq!(c.tag_bits(b, 1).unwrap(), 0b100);
    assert_eq!(c.tag_bits(b, 1).unwrap(), 0b1000);
    assert_eq!(c.tag_bits(b, 1).unwrap(), 0);
    let mut t = LenseTag { cur: 0, end: 1, n: 2 };
    assert_eq!(t.bits(b, 4).unwrap(), 0b0010_1100);
    assert_eq!(t.n, 3);
}

#[test]
fn bool_guard_set_keeps_other_bits() {
    let mut v = Aligned::new(1);
    v.as_mut_vec()[0] = 0b1000_0001;
    let g = BoolGuard::new(0, 3);
    g.set(v.as_mut_vec(), true);
    assert_eq!(v.as_slice()[0], 0b1000_1001);
    assert!(g.get(v.as_slice()));
    BoolGuard::new(0, 7).set(v.as_mut_vec(), false);
    assert_eq!(v.as_slice()[0], 0b0000_1001);
}

#[test]
fn option_and_result_follow_the_tag_bit() {
    let mut v = Aligned::new(4);
    v.as_mut_vec()[0] = 0b0000_0010;
    v.as_mut_vec()[2] = 0x34;
    v.as_mut_vec()[3] = 0x12;
    let b = v.as_slice();
    let c = &mut Cursor::new(b);
    Tag::<u8>::lense(c, b).unwrap();
    assert!(<Option<u8>>::lense(c, b).unwrap().is_none());
    match <Result<u16, u8>>::lense(c, b).unwrap() {
        Ok(x) => assert_eq!(x.get(b), 0x1234),
        Err(_) => unreachable!(),
    }
    assert_eq!(c.waste(), 1);
}

#[test]
fn invalid_discriminant() {
    let mut v = Aligned::new(3);
    v.as_mut_vec()[1] = 1;
    v.as_mut_vec()[2] = 7;
    let b = v.as_slice();
    let c = &mut Cursor::new(b);
    assert_eq!(discriminant(c, b, 2), Ok(0));
    assert_eq!(discriminant(c, b, 2), Ok(1));
    assert_eq!(discriminant(c, b, 2), Err(Error::InvalidTag(7)));
    assert_eq!(discriminant(c, b, 2), Err(Error::ExpectedBytes(1)));
}

#[test]
fn one_bit_field_is_masked_in_place() {
    let mut v = Aligned::new(1);
    v.as_mut_vec()[0] = 0b10;
    let b = v.as_slice();
    let c = &mut Cursor::new(b);
    Tag::<u8>::lense(c, b).unwrap();
    assert_eq!(c.tag_bits(b, 1).unwrap(), 0);
    assert_eq!(c.tag_bits(b, 1).unwrap(), 2);
}
