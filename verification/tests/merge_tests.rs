use file_store::merge::MergedStreams;

#[test]
fn test_merge_round_robin_order() {
    let mut m: MergedStreams<u32> = MergedStreams::new();
    m.push(vec![1, 2]);
    m.push(vec![10, 20]);
    assert_eq!(m.next(), Some(1));
    assert_eq!(m.next(), Some(10));
    assert_eq!(m.next(), Some(2));
    assert_eq!(m.next(), Some(20));
    assert_eq!(m.next(), None);
}

#[test]
fn test_merge_yields_exactly_all_items() {
    // Seeded with three streams (one empty) and one stream inserted during
    // consumption: the merged stream yields exactly the combined count and
    // then terminates.
    let mut m: MergedStreams<u32> = MergedStreams::new();
    m.push(vec![1, 2, 3]);
    m.push(vec![]);
    m.push(vec![4, 5]);
    let mut seen: Vec<u32> = Vec::new();
    seen.push(m.next().unwrap());
    seen.push(m.next().unwrap());
    // Insert a new stream while consuming, as a listing does when it
    // discovers a subdirectory.
    m.push(vec![6, 7, 8, 9]);
    loop {
        match m.next() {
            Some(x) => seen.push(x),
            None => break,
        }
    }
    assert_eq!(seen.len(), 9);
    let mut sorted = seen.clone();
    sorted.sort();
    assert_eq!(sorted, vec![1, 2, 3, 4, 5, 6, 7, 8, 9]);
    // Once complete, the merger stays complete.
    assert_eq!(m.next(), None);
}

#[test]
fn test_merge_preserves_order_within_one_stream() {
    let mut m: MergedStreams<u32> = MergedStreams::new();
    m.push(vec![1, 2, 3, 4]);
    m.push(vec![100]);
    let mut firsts: Vec<u32> = Vec::new();
    loop {
        match m.next() {
            Some(x) => {
                if x < 100 {
                    firsts.push(x);
                }
            },
            None => break,
        }
    }
    assert_eq!(firsts, vec![1, 2, 3, 4]);
}

#[test]
fn test_drain() {
    let mut m: MergedStreams<u8> = MergedStreams::new();
    m.push(vec![1]);
    m.push(vec![2, 3]);
    let all = m.drain();
    assert_eq!(all.len(), 3);
    assert_eq!(m.next(), None);
}

#[test]
fn test_empty_merger_terminates_immediately() {
    let mut m: MergedStreams<u8> = MergedStreams::new();
    assert_eq!(m.next(), None);
    m.push(vec![]);
    assert_eq!(m.next(), None);
}
