use rand_sequence::permute::PermuteSlice;

#[test]
fn test_create() {
    let slice: &[i32] = &[1, 2, 3, 4, 5];
    let permuted = slice.permute_with_seed(0);
    let mut iterator = permuted.clone().into_iter();
    let mut values: Vec<&i32> = Vec::new();
    for _ in 0..5 {
        values.push(iterator.next().unwrap());
    }
    assert_eq!(values, &[&1, &3, &5, &4, &2]);
    assert_eq!(permuted.get(1), Some(&3));
    assert_eq!(permuted.get(3), Some(&4));
}

#[test]
fn permuted_slice_ends_with_the_slice() {
    let words = ["a", "b", "c"];
    let slice: &[&str] = &words;
    let mut iterator = slice.permute_with_seed(1).into_iter();
    let mut seen: Vec<&str> = Vec::new();
    while let Some(word) = iterator.next() {
        seen.push(*word);
    }
    assert_eq!(seen, vec!["c", "a", "b"]);
    assert_eq!(iterator.next(), None);
}

#[test]
fn permuted_slice_of_one_element() {
    let slice: &[u8] = &[42];
    let permuted = slice.permute_with_seed(7);
    assert_eq!(permuted.get(0), Some(&42));
    let mut iterator = permuted.into_iter();
    assert_eq!(iterator.next(), Some(&42));
    assert_eq!(iterator.next(), None);
}

#[test]
fn permuted_slice_mut_holds_the_same_order() {
    let slice: &[i32] = &[1, 2, 3, 4, 5];
    let permuted = slice.permute_mut_with_seed(0);
    assert_eq!(permuted.slice, slice);
    let order: Vec<usize> = (0..5).map(|i| permuted.sequence.n(i)).collect();
    assert_eq!(order, vec![0, 2, 4, 3, 1]);
}
