use lense::{lense_array, Aligned, Cursor, Error, Lense, RefMut};

fn pairs(v: Vec<(RefMut<u8>, RefMut<u32>)>, b: &[u8]) -> Vec<(u8, u32)> {
    v.iter().map(|(a, x)| (a.get(b), x.get(b))).collect()
}

fn check_alignment(mut c: Cursor, b: &[u8], padded: bool) {
    let pick = |l: usize, r: usize| if padded { l } else { r };

    assert_eq!(<u8>::lense(&mut c, b).unwrap().get(b), 0);
    // Padding: 0
    assert_eq!(c.waste(), pick(0, 0));

    assert_eq!(<u16>::lense(&mut c, b).unwrap().get(b), 0);
    // Padding: 1
    assert_eq!(c.waste(), pick(1, 0));

    assert_eq!(
        <(u8, u16)>::lense(&mut c, b).map(|(a, x)| (a.get(b), x.get(b))).unwrap(),
        (0, 0)
    );
    // Padding: 1
    assert_eq!(c.waste(), pick(2, 0));

    assert_eq!(
        pairs(lense_array::<(u8, u32)>(&mut c, b, 4).unwrap(), b),
        vec![(0, 0), (0, 0), (0, 0), (0, 0)]
    );
    // Padding: 4
    assert_eq!(c.waste(), pick(6, 0));

    assert_eq!(
        <(u8, u8, u8, u8, u32, u32, u32, u32)>::lense(&mut c, b)
            .map(|(a, bb, cc, d, e, f, g, h)| [
                (a.get(b), e.get(b)),
                (bb.get(b), f.get(b)),
                (cc.get(b), g.get(b)),
                (d.get(b), h.get(b)),
            ])
            .unwrap(),
        [(0, 0), (0, 0), (0, 0), (0, 0)]
    );
    // Padding: 0
    assert_eq!(c.waste(), pick(6, 0));
}

#[test]
fn alignment_correction() {
    let v = Aligned::new(64);
    let b = v.as_slice();
    check_alignment(Cursor::new(b), b, true);
}

#[test]
fn alignment_correction_unpadded() {
    let v = Aligned::new(64);
    let b = v.as_slice();
    check_alignment(Cursor::unpadded(b), b, false);
}

#[test]
fn alignment_positions_after_each_field() {
    let v = Aligned::new(64);
    let b = v.as_slice();
    let mut c = Cursor::new(b);
    <u8>::lense(&mut c, b).unwrap();
    assert_eq!(c.cur, 1);
    let x = <u16>::lense(&mut c, b).unwrap();
    assert_eq!(x.at, 2);
    assert_eq!(c.cur, 4);
    let y = <u64>::lense(&mut c, b).unwrap();
    assert_eq!(y.at, 8);
    assert_eq!(c.waste(), 1 + 4);
    assert_eq!(c.remaining(), 48);
}

#[test]
fn advance_past_end_fails() {
    let v = Aligned::new(4);
    let b = v.as_slice();
    let mut c = Cursor::new(b);
    assert_eq!(c.advance(5).err(), Some(Error::ExpectedBytes(5)));
    assert_eq!(c.remaining(), 4);
    let sub = c.advance(3).unwrap();
    assert_eq!((sub.cur, sub.end), (0, 3));
    assert_eq!(c.remaining(), 1);
    assert_eq!(<u32>::lense(&mut c, b).err(), Some(Error::ExpectedBytes(4)));
}

#[test]
fn dice_then_set_round_trips() {
    let mut v = Aligned::new(16);
    let mut c = Cursor::new(v.as_slice());
    let a = c.dice::<i16>().unwrap();
    let d = c.dice::<i64>().unwrap();
    a.set(v.as_mut_vec(), -2);
    d.set(v.as_mut_vec(), -77);
    assert_eq!(c.waste(), 2);
    assert_eq!(&v.as_slice()[0..2], &[0xfe, 0xff]);
    assert_eq!(a.get(v.as_slice()), -2);
    assert_eq!(d.get(v.as_slice()), -77);
}
