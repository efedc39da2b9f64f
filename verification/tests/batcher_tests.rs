use stream_injector::batcher::Batcher;
use stream_injector::correlator::CorrelatedRecord;

fn rec(n: u32) -> CorrelatedRecord {
    CorrelatedRecord {
        key: format!("k{}", n).into_bytes(),
        value: format!("v{}", n).into_bytes(),
        expire_at: format!("{}", 1000 + n).into_bytes(),
    }
}

#[test]
fn batcher_of_no_capacity_does_not_exist() {
    assert!(Batcher::new(0).is_none());
}

#[test]
fn new_batcher_is_empty() {
    let b = match Batcher::new(3) {
        Some(b) => b,
        None => panic!("three is a capacity"),
    };
    assert_eq!(b.capacity(), 3);
    assert_eq!(b.buffered_count(), 0);
    assert_eq!(b.finish(), Vec::<CorrelatedRecord>::new());
}

#[test]
fn batch_leaves_when_full() {
    let mut b = match Batcher::new(3) {
        Some(b) => b,
        None => panic!("three is a capacity"),
    };
    assert_eq!(b.push(rec(1)), None);
    assert_eq!(b.buffered_count(), 1);
    assert_eq!(b.push(rec(2)), None);
    assert_eq!(b.buffered_count(), 2);
    assert_eq!(b.push(rec(3)), Some(vec![rec(1), rec(2), rec(3)]));
    assert_eq!(b.buffered_count(), 0);
    assert_eq!(b.push(rec(4)), None);
    assert_eq!(b.capacity(), 3);
    assert_eq!(b.finish(), vec![rec(4)]);
}

#[test]
fn capacity_of_one_releases_every_record() {
    let mut b = match Batcher::new(1) {
        Some(b) => b,
        None => panic!("one is a capacity"),
    };
    assert_eq!(b.push(rec(1)), Some(vec![rec(1)]));
    assert_eq!(b.push(rec(2)), Some(vec![rec(2)]));
    assert_eq!(b.finish(), Vec::<CorrelatedRecord>::new());
}

#[test]
fn batches_together_are_the_records_pushed() {
    for capacity in 1..6usize {
        for count in 0..14u32 {
            let mut b = match Batcher::new(capacity) {
                Some(b) => b,
                None => panic!("a capacity above zero"),
            };
            let mut seen: Vec<CorrelatedRecord> = Vec::new();
            let mut batches = 0usize;
            for n in 0..count {
                if let Some(batch) = b.push(rec(n)) {
                    assert_eq!(batch.len(), capacity);
                    seen.extend(batch);
                    batches += 1;
                }
            }
            let last = b.finish();
            assert!(last.len() < capacity);
            assert_eq!(batches, count as usize / capacity);
            assert_eq!(last.len(), count as usize % capacity);
            seen.extend(last);
            let pushed: Vec<CorrelatedRecord> = (0..count).map(rec).collect();
            assert_eq!(seen, pushed);
        }
    }
}
