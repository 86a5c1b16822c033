use psp_engine::abump::ABump;

#[test]
fn append_test() {
    let mut t = ABump::new();
    let data = [1u8, 2, 3];

    let result = t.append(String::from("test"), &data);
    assert!(result.is_ok());
    assert_eq!(t.len(), 1);

    let (_, size) = t.get(&String::from("test")).unwrap();
    assert_eq!(size, 3);
}

#[test]
fn abump_len_test() {
    let mut t = ABump::new();
    assert_eq!(t.len(), 0);
    assert_eq!(t.append(String::from("a"), &[1, 2]), Ok(1));
    assert_eq!(t.append(String::from("b"), &[3]), Ok(2));
    // Appending under a known name replaces its entry.
    assert_eq!(t.append(String::from("a"), &[4, 5, 6]), Ok(2));
    assert_eq!(t.len(), 2);
}

#[test]
fn abump_capacity_test() {
    let mut t = ABump::new();
    assert_eq!(t.capacity(), 0);
    t.append(String::from("a"), &[1, 2, 3]).unwrap();
    assert_eq!(t.capacity(), 3);
    // No room left: the capacity grows by exactly the chunk size.
    t.append(String::from("b"), &[4, 5]).unwrap();
    assert_eq!(t.capacity(), 5);
}

#[test]
fn raw_len_test() {
    let mut t = ABump::new();
    assert_eq!(t.raw_len(), 0);
    t.append(String::from("a"), &[1, 2, 3]).unwrap();
    t.append(String::from("b"), &[4, 5]).unwrap();
    assert_eq!(t.raw_len(), 5);
}

#[test]
fn abump_get_test() {
    let mut t = ABump::new();
    assert_eq!(t.get(&String::from("x")), None);
    t.append(String::from("x"), &[9, 9, 9, 9]).unwrap();
    t.append(String::from("y"), &[1]).unwrap();
    assert_eq!(t.get(&String::from("x")), Some((4, 4)));
    assert_eq!(t.get(&String::from("y")), Some((1, 1)));
    assert_eq!(t.get(&String::from("z")), None);
}

#[test]
fn abump_bytes_accumulate_in_order() {
    let mut t = ABump::new();
    t.append(String::from("a"), &[1, 2, 3]).unwrap();
    t.append(String::from("b"), &[4, 5]).unwrap();
    assert_eq!(t.as_slice(), &[1, 2, 3, 4, 5]);
    // Each entry records the position `size` bytes from the start.
    assert_eq!(t.get(&String::from("b")), Some((2, 2)));
}
