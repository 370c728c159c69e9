use lense::{Alice, SeekablePool, SizedLense};

type TupleAlice = (u8, (u8, u16), u32, u64);

#[test]
fn tuple_alice_iter() {
    let mut pool = SeekablePool::<TupleAlice>::with_capacity(1);
    let mut it = pool.iter();
    let mut seen = 0;
    while let Some(guard) = it.next(&mut pool) {
        {
            let b = pool.bytes();
            let (a, (bb, c), d, e) = guard.value().as_ref().unwrap();
            assert_eq!(a.get(b), 0u8);
            assert_eq!(bb.get(b), 0u8);
            assert_eq!(c.get(b), 0u16);
            assert_eq!(d.get(b), 0u32);
            assert_eq!(e.get(b), 0u64);
        }
        pool.release(guard);
        seen += 1;
    }
    assert_eq!(seen, 1);
}

#[test]
fn alice_iter() {
    let mut pool = SeekablePool::<Alice>::with_capacity(4);
    let mut it = pool.iter();
    let mut seen = 0;
    while let Some(guard) = it.next(&mut pool) {
        {
            let b = pool.bytes();
            let Alice { a, bc: (bb, c), d, e } = guard.value().as_ref().unwrap();
            assert_eq!(a.get(b), 0u8);
            assert_eq!(bb.get(b), 0u8);
            assert_eq!(c.get(b), 0u16);
            assert_eq!(d.get(b), 0u32);
            assert_eq!(e.get(b), 0u64);
        }
        pool.release(guard);
        seen += 1;
    }
    assert_eq!(seen, 4);
}

#[test]
fn size_alice_16() {
    assert_eq!(<Alice as SizedLense>::size(), 16);
}

#[test]
fn alice_round_trip_in_pool() {
    let mut pool = SeekablePool::<Alice>::with_capacity(2);
    let g = pool.lense(1).unwrap();
    let Alice { a, bc: (b, c), d, e } = g.value().as_ref().unwrap();
    pool.write(a, 0x11u8);
    pool.write(b, 0x22u8);
    pool.write(c, 0x3344u16);
    pool.write(d, 0x5566_7788u32);
    pool.write(e, 0x99aa_bbcc_ddee_ff00u64);
    pool.release(g);
    let g = pool.lense(1).unwrap();
    let bytes = pool.bytes();
    let Alice { a, bc: (b, c), d, e } = g.value().as_ref().unwrap();
    assert_eq!(a.get(bytes), 0x11);
    assert_eq!(b.get(bytes), 0x22);
    assert_eq!(c.get(bytes), 0x3344);
    assert_eq!(d.get(bytes), 0x5566_7788);
    assert_eq!(e.get(bytes), 0x99aa_bbcc_ddee_ff00);
    assert_eq!(a.at, 16);
    assert_eq!(e.at, 24);
    assert!(bytes[..16].iter().all(|&x| x == 0));
}
