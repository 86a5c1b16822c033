use psp_engine::avec::AVec;

#[test]
fn lib_capacity_test() {
    let mut t = AVec::new();

    for i in 0..200 {
        t.push(i);
    }

    assert_eq!(t.capacity(), 200);
}

#[test]
fn lib_len_test() {
    let mut t = AVec::new();

    for i in 0..200 {
        t.push(i);
    }

    assert_eq!(t.len(), 200);
}

#[test]
fn with_capacity_test() {
    let t: AVec<u8> = AVec::with_capacity(60);

    assert_eq!(t.capacity(), 60);
    assert_eq!(t.len(), 0);
}

#[test]
fn lib_get_test() {
    let mut t = AVec::new();

    t.push(1);
    t.push(2);
    t.push(3);
    t.push(4);
    t.push(5);

    for n in 0..t.len() {
        assert_eq!(t.get(n), Some(&(n + 1)));
    }

    assert_eq!(t.capacity(), 8);
    assert_eq!(t.len(), 5);
}

#[test]
fn pop_test() {
    let mut t = AVec::new();

    t.push(1);
    t.push(2);
    t.push(3);
    t.push(4);
    t.push(5);

    let r = t.pop();

    assert_eq!(t.len(), 4);
    assert_eq!(t.capacity(), 8);
    assert_eq!(Some(5), r);
}

#[test]
fn reserve_exact_test() {
    let mut t: AVec<u8> = AVec::new();

    assert_eq!(t.capacity(), 0);

    t.reserve_exact(15);

    assert_eq!(t.capacity(), 15);
}

#[test]
fn reserve_test() {
    let mut t: AVec<u8> = AVec::new();

    assert_eq!(t.capacity(), 0);

    t.reserve(15);

    assert_eq!(t.capacity(), 16);
}

#[test]
fn insert_test() {
    let mut t: AVec<u8> = AVec::new();

    t.push(2);
    t.insert(0, 1);

    let mut r: AVec<u8> = AVec::new();

    r.push(1);
    r.insert(1, 2);

    assert_eq!(t, r);
}

#[test]
fn remove_test() {
    let mut t: AVec<u8> = AVec::new();

    t.push(1);
    t.push(2);
    t.push(3);
    t.push(4);

    assert_eq!(t.remove(1), 2);

    let mut r: AVec<u8> = AVec::new();

    r.push(1);
    r.push(3);
    r.push(4);

    assert_eq!(t, r);
}

#[test]
fn swap_remove_test() {
    let mut t: AVec<u8> = AVec::new();

    t.push(1);
    t.push(2);
    t.push(3);
    t.push(4);

    assert_eq!(t.swap_remove(1), 2);
    let mut r: AVec<u8> = AVec::new();

    r.push(1);
    r.push(4);
    r.push(3);

    assert_eq!(t, r);
}

#[test]
fn reserve_grows_full_vector_by_rounded_amount() {
    let mut t: AVec<u8> = AVec::new();
    t.push(1);
    t.push(2);
    t.push(3);
    t.push(4);
    assert_eq!(t.capacity(), 4);
    // No free slot, so the request of 5 grows the capacity by 8.
    t.reserve(5);
    assert_eq!(t.capacity(), 12);
    // Eight free slots exceed a request of 7: nothing changes.
    t.reserve(7);
    assert_eq!(t.capacity(), 12);
    // Eight free slots do not exceed a request of 8: grow by 8.
    t.reserve(8);
    assert_eq!(t.capacity(), 20);
    assert_eq!(t.as_slice(), &[1, 2, 3, 4]);
}

#[test]
fn reserve_exact_grows_by_request() {
    let mut t: AVec<u8> = AVec::new();
    t.push(9);
    assert_eq!(t.capacity(), 4);
    // Three free slots exceed a request of 2.
    t.reserve_exact(2);
    assert_eq!(t.capacity(), 4);
    // Three free slots do not exceed 3: grow by exactly 3.
    t.reserve_exact(3);
    assert_eq!(t.capacity(), 7);
    assert_eq!(t.len(), 1);
}

#[test]
fn push_after_pop_restores_contents() {
    let mut t: AVec<u32> = AVec::new();
    t.push(10);
    t.push(20);
    t.push(30);
    t.push(40);
    assert_eq!(t.pop(), Some(40));
    assert_eq!(t.capacity(), 4);
    t.push(40);
    assert_eq!(t.capacity(), 4);
    assert_eq!(&*t, &[10, 20, 30, 40]);
}

#[test]
fn pop_empty_is_none() {
    let mut t: AVec<u32> = AVec::new();
    assert_eq!(t.pop(), None);
    assert_eq!(t.len(), 0);
    assert_eq!(t.capacity(), 0);
}

#[test]
fn get_out_of_range_is_none() {
    let mut t: AVec<u8> = AVec::new();
    t.push(7);
    assert_eq!(t.get(0), Some(&7));
    assert_eq!(t.get(1), None);
}

#[test]
fn insert_into_full_vector_reserves() {
    let mut t: AVec<u8> = AVec::new();
    t.insert(0, 5);
    assert_eq!(t.capacity(), 4);
    t.insert(0, 4);
    t.insert(2, 6);
    t.insert(0, 3);
    assert_eq!(t.capacity(), 4);
    t.insert(4, 7);
    assert_eq!(t.capacity(), 8);
    assert_eq!(t.as_slice(), &[3, 4, 5, 6, 7]);
    assert_eq!(t.remove(2), 5);
    assert_eq!(t.as_slice(), &[3, 4, 6, 7]);
}

#[test]
fn swap_remove_last() {
    let mut t: AVec<u8> = AVec::new();
    t.push(1);
    t.push(2);
    assert_eq!(t.swap_remove(1), 2);
    assert_eq!(t.as_slice(), &[1]);
}

#[test]
fn equality_compares_lengths_and_elements() {
    let a = AVec::from_slice(&[1u8, 2, 3]);
    let b = AVec::from_slice(&[1u8, 2, 3]);
    let c = AVec::from_slice(&[1u8, 2, 4]);
    let d = AVec::from_slice(&[1u8, 2]);
    assert!(a == b);
    assert!(a != c);
    assert!(a != d);
}

#[test]
fn from_slice_rounds_capacity() {
    let a = AVec::from_slice(&[1u16, 2, 3, 4, 5]);
    assert_eq!(a.len(), 5);
    assert_eq!(a.capacity(), 8);
    assert_eq!(a.as_slice(), &[1, 2, 3, 4, 5]);
    let e: AVec<u16> = AVec::from_slice(&[]);
    assert_eq!(e.capacity(), 0);
}

#[test]
fn remove_undoes_insert() {
    let mut t = AVec::from_slice(&[10u32, 20, 30]);
    t.insert(1, 15);
    assert_eq!(t.as_slice(), &[10, 15, 20, 30]);
    assert_eq!(t.remove(1), 15);
    assert_eq!(t.as_slice(), &[10, 20, 30]);
}

#[test]
fn set_overwrites_in_place() {
    let mut t = AVec::from_slice(&[1u8, 2, 3]);
    t.set(1, 9);
    assert_eq!(t.as_slice(), &[1, 9, 3]);
    assert_eq!(t.capacity(), 4);
}
