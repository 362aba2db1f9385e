use smded::util::IteratorArrayExt;

#[test]
fn short_list_is_padded() {
    let a: [u8; 4] = vec![1u8, 2].collect_to_array_padded(9);
    assert_eq!(a, [1, 2, 9, 9]);
    let a: [u8; 3] = Vec::new().collect_to_array_padded(7);
    assert_eq!(a, [7, 7, 7]);
}

#[test]
fn long_list_is_cut() {
    let a: [u8; 2] = vec![1u8, 2, 3].collect_to_array_padded(9);
    assert_eq!(a, [1, 2]);
    let a: [u8; 0] = vec![1u8].collect_to_array_padded(9);
    assert_eq!(a, []);
}
