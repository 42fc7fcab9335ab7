use batch_payments::batch::partition;

#[test]
fn partition_is_lossless_and_ordered() {
    let items: Vec<u32> = (0..47).collect();
    let batches = partition(items.clone(), 20);
    assert_eq!(batches.iter().map(|b| b.len()).collect::<Vec<_>>(), vec![20, 20, 7]);
    let flat: Vec<u32> = batches.into_iter().flatten().collect();
    assert_eq!(flat, items);
}

#[test]
fn empty_input_gives_no_batches() {
    let batches = partition(Vec::<u8>::new(), 20);
    assert!(batches.is_empty());
}

#[test]
fn exact_multiple_has_no_short_batch() {
    let batches = partition((0..40).collect::<Vec<u8>>(), 20);
    assert_eq!(batches.len(), 2);
    assert_eq!(batches[1].len(), 20);
}

#[test]
fn twenty_five_entries_make_two_batches() {
    let batches = partition((0..25).collect::<Vec<u8>>(), 20);
    assert_eq!(batches.iter().map(|b| b.len()).collect::<Vec<_>>(), vec![20, 5]);
}
