use lense::{Aligned, Cursor, DstExt, Error, Lense};

#[test]
fn write_then_read_slice() {
    let mut v = Aligned::new(8);

    {
        // writer
        let mut c = Cursor::new(v.as_slice());
        let slice = <[u8]>::set_length(&mut c, v.as_mut_vec(), 4).unwrap();
        let tail = <u16>::lense(&mut c, v.as_slice()).unwrap();
        for n in 0..slice.len() {
            slice.set(v.as_mut_vec(), n, n as u8);
        }
        tail.set(v.as_mut_vec(), 0x0605);
    }

    // reader
    let b = v.as_slice();
    let mut c = Cursor::new(b);
    // Vector of length 4, containing [0, 1, 2, 3]
    let s = <[u8]>::lense(&mut c, b);
    // Number 0x0605
    let t = <u16>::lense(&mut c, b);

    // Assert data is read as written.
    assert_eq!(&s.unwrap().to_vec(b)[..], &[0, 1, 2, 3]);
    assert_eq!(t.unwrap().get(b), 0x0605);

    // Everything is aligned; no waste!
    assert_eq!(c.waste(), 0);
    assert_eq!(c.remaining(), 0);
}

#[test]
fn write_then_read_vec() {
    let mut v = Aligned::new(8);

    {
        // writer
        let mut c = Cursor::new(v.as_slice());
        let mut seq = <Vec<u8>>::set_length(&mut c, v.as_mut_vec(), 4).unwrap();
        let tail = <u16>::lense(&mut c, v.as_slice()).unwrap();
        let mut n = 0u8;
        while let Some(a) = seq.next(v.as_slice()) {
            a.set(v.as_mut_vec(), n);
            n += 1;
        }
        tail.set(v.as_mut_vec(), 0x0605);
    }

    // reader
    let b = v.as_slice();
    let mut c = Cursor::new(b);
    // Vector of length 4, containing [0, 1, 2, 3]
    let s = <Vec<u8>>::lense(&mut c, b);
    // Number 0x0605
    let t = <u16>::lense(&mut c, b);

    // Assert data is read as written.
    let mut s = s.unwrap();
    let mut got = Vec::new();
    while let Some(x) = s.next(b) {
        got.push(x.get(b));
    }
    assert_eq!(&got[..], &[0, 1, 2, 3]);
    assert_eq!(t.unwrap().get(b), 0x0605);

    // Everything is aligned; no waste!
    assert_eq!(c.waste(), 0);
    assert_eq!(c.remaining(), 0);
}

#[test]
fn slice_of_u32_is_aligned_after_count() {
    let mut v = Aligned::new(16);
    {
        let mut c = Cursor::new(v.as_slice());
        let s = <[u32]>::set_length(&mut c, v.as_mut_vec(), 2).unwrap();
        s.set(v.as_mut_vec(), 0, 7);
        s.set(v.as_mut_vec(), 1, 9);
        assert_eq!(c.waste(), 2);
        assert_eq!(c.remaining(), 4);
    }
    let b = v.as_slice();
    let mut c = Cursor::new(b);
    let s = <[u32]>::lense(&mut c, b).unwrap();
    assert_eq!(s.len(), 2);
    assert_eq!(s.to_vec(b), vec![7, 9]);
    assert_eq!(&b[0..2], &[2, 0]);
}

#[test]
fn declared_length_past_buffer_is_out_of_bounds() {
    let mut v = Aligned::new(6);
    v.as_mut_vec()[0] = 5;
    let b = v.as_slice();
    let mut c = Cursor::new(b);
    assert_eq!(<[u8]>::lense(&mut c, b).err(), Some(Error::OutOfBounds(5)));
    let mut c = Cursor::new(b);
    assert_eq!(<Vec<u16>>::lense(&mut c, b).err(), Some(Error::OutOfBounds(10)));
    let mut c = Cursor::new(b);
    assert_eq!(<Vec<u8>>::with_length(&mut c, 6).err(), None);
    assert_eq!(c.remaining(), 0);
}

#[test]
fn empty_sequence_yields_nothing() {
    let v = Aligned::new(2);
    let b = v.as_slice();
    let mut c = Cursor::new(b);
    let mut s = <Vec<u32>>::lense(&mut c, b).unwrap();
    assert!(s.next(b).is_none());
    assert_eq!(c.remaining(), 0);
}

#[test]
fn vec_of_u32_region_is_aligned_and_holds_every_element() {
    let mut v = Aligned::new(12);
    {
        let mut c = Cursor::new(v.as_slice());
        let mut seq = <Vec<u32>>::set_length(&mut c, v.as_mut_vec(), 2).unwrap();
        assert_eq!(seq.cursor.cur, 4);
        let mut n = 0u32;
        while let Some(a) = seq.next(v.as_slice()) {
            a.set(v.as_mut_vec(), 10 + n);
            n += 1;
        }
        assert_eq!(n, 2);
        assert_eq!(c.waste(), 2);
        assert_eq!(c.remaining(), 0);
    }
    let b = v.as_slice();
    assert_eq!(&b[0..2], &[2, 0]);
    let mut c = Cursor::new(b);
    let mut s = <Vec<u32>>::lense(&mut c, b).unwrap();
    let mut got = Vec::new();
    while let Some(x) = s.next(b) {
        got.push(x.get(b));
    }
    assert_eq!(got, vec![10, 11]);
    assert_eq!(c.remaining(), 0);
}

#[test]
fn vec_of_records_holds_every_record() {
    let mut v = Aligned::new(40);
    v.as_mut_vec()[0] = 2;
    v.as_mut_vec()[8] = 0x31;
    v.as_mut_vec()[24] = 0x32;
    let b = v.as_slice();
    let mut c = Cursor::new(b);
    let mut s = <Vec<lense::Alice>>::lense(&mut c, b).unwrap();
    let first = s.next(b).unwrap();
    let second = s.next(b).unwrap();
    assert!(s.next(b).is_none());
    assert_eq!((first.a.get(b), second.a.get(b)), (0x31, 0x32));
    assert_eq!(c.waste(), 2);
    assert_eq!(c.remaining(), 0);
}
