use lense::SeekablePool;

#[test]
fn locking() {
    let mut pool = SeekablePool::<u8>::with_capacity(1);
    if let Some(guard) = pool.lense(0) {
        assert!(pool.lense(0).is_none());
        pool.release(guard);
    } else {
        unreachable!()
    }
    assert!(pool.lense(0).is_some());
}

#[test]
fn pool_storage_rounds_up_to_words() {
    let pool = SeekablePool::<(u8, u16)>::with_capacity(3);
    assert_eq!(pool.bytes().len(), 16);
    assert!(pool.bytes().iter().all(|&x| x == 0));
    let pool = SeekablePool::<u64>::with_capacity(2);
    assert_eq!(pool.bytes().len(), 16);
    let pool = SeekablePool::<u8>::with_capacity(0);
    assert_eq!(pool.bytes().len(), 0);
}

#[test]
fn pool_slot_views_are_offset_by_size() {
    let mut pool = SeekablePool::<(u8, u16)>::with_capacity(2);
    let g = pool.lense(1).unwrap();
    {
        let (a, b) = g.value().as_ref().unwrap();
        assert_eq!(a.at, 3);
        assert_eq!(b.at, 4);
    }
    assert_eq!(g.index(), 1);
    pool.release(g);
    let mut pool2 = SeekablePool::<(u8, u16)>::with_capacity(2);
    let g2 = pool2.lense(1).unwrap();
    let (x, y) = g2.value().as_ref().unwrap();
    pool2.write(x, 7u8);
    pool2.write(y, 0x0102u16);
    assert_eq!(x.get(pool2.bytes()), 7);
    assert_eq!(y.get(pool2.bytes()), 0x0102);
    assert_eq!(&pool2.bytes()[3..6], &[7, 2, 1]);
}

#[test]
fn pool_iter_skips_borrowed_slots() {
    let mut pool = SeekablePool::<u32>::with_capacity(3);
    let held = pool.lense(1).unwrap();
    let mut it = pool.iter();
    assert_eq!(it.len(&pool), 3);
    let g0 = it.next(&mut pool).unwrap();
    assert_eq!(g0.index(), 0);
    let g2 = it.next(&mut pool).unwrap();
    assert_eq!(g2.index(), 2);
    assert!(it.next(&mut pool).is_none());
    pool.release(g0);
    pool.release(g2);
    pool.release(held);
    assert!(!pool.is_locked(1));
}

#[test]
fn div_up_rounds_toward_infinity() {
    assert_eq!(lense::div_up(0, 8), 0);
    assert_eq!(lense::div_up(1, 8), 1);
    assert_eq!(lense::div_up(8, 8), 1);
    assert_eq!(lense::div_up(9, 8), 2);
    assert_eq!(lense::div_up(17, 8), 3);
}
