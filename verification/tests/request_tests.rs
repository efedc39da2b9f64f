use stream_injector::correlator::CorrelatedRecord;
use stream_injector::correlator::PendingEntry;
use stream_injector::plan::plan_batch;
use stream_injector::plan::plan_leftover;
use stream_injector::plan::remaining_ttl;
use stream_injector::plan::LeftoverPolicy;
use stream_injector::request::new_request;
use stream_injector::request::queue_write;

fn record(key: &str, value: &str, expire_at: &str) -> CorrelatedRecord {
    CorrelatedRecord {
        key: key.as_bytes().to_vec(),
        value: value.as_bytes().to_vec(),
        expire_at: expire_at.as_bytes().to_vec(),
    }
}

#[test]
fn new_request_is_empty() {
    let request = new_request();
    assert_eq!(request.len(), 0);
    assert_eq!(request.get_packed_pipeline(), Vec::<u8>::new());
}

#[test]
fn queue_write_with_ttl_packs_set_ex() {
    let mut request = new_request();
    queue_write(&mut request, b"a", b"1", Some(5));
    assert_eq!(request.len(), 1);
    assert_eq!(
        request.get_packed_pipeline(),
        b"*5\r\n$3\r\nSET\r\n$1\r\na\r\n$1\r\n1\r\n$2\r\nEX\r\n$1\r\n5\r\n".to_vec()
    );
}

#[test]
fn queue_write_without_ttl_packs_plain_set() {
    let mut request = new_request();
    queue_write(&mut request, b"key", b"value", None);
    assert_eq!(
        request.get_packed_pipeline(),
        b"*3\r\n$3\r\nSET\r\n$3\r\nkey\r\n$5\r\nvalue\r\n".to_vec()
    );
}

#[test]
fn queue_write_appends_behind_earlier_writes() {
    let mut request = new_request();
    queue_write(&mut request, b"a", b"1", Some(10));
    queue_write(&mut request, b"b", b"", None);
    queue_write(&mut request, b"", b"3", Some(18446744073709551615));
    assert_eq!(request.len(), 3);
    let mut expected: Vec<u8> = Vec::new();
    expected.extend_from_slice(b"*5\r\n$3\r\nSET\r\n$1\r\na\r\n$1\r\n1\r\n$2\r\nEX\r\n$2\r\n10\r\n");
    expected.extend_from_slice(b"*3\r\n$3\r\nSET\r\n$1\r\nb\r\n$0\r\n\r\n");
    expected.extend_from_slice(
        b"*5\r\n$3\r\nSET\r\n$0\r\n\r\n$1\r\n3\r\n$2\r\nEX\r\n$20\r\n18446744073709551615\r\n",
    );
    assert_eq!(request.get_packed_pipeline(), expected);
}

#[test]
fn remaining_ttl_is_the_difference() {
    assert_eq!(remaining_ttl(1_000_010, 1_000_000), Some(10));
    assert_eq!(remaining_ttl(1_000_001, 1_000_000), Some(1));
}

#[test]
fn remaining_ttl_is_none_at_or_after_expiry() {
    assert_eq!(remaining_ttl(1_000_000, 1_000_000), None);
    assert_eq!(remaining_ttl(999_999, 1_000_000), None);
    assert_eq!(remaining_ttl(i64::MIN, i64::MAX), None);
}

#[test]
fn remaining_ttl_spans_the_whole_range() {
    assert_eq!(remaining_ttl(i64::MAX, i64::MIN), Some(u64::MAX));
    assert_eq!(remaining_ttl(i64::MAX, 0), Some(9223372036854775807));
    assert_eq!(remaining_ttl(0, i64::MIN), Some(9223372036854775808));
}

#[test]
fn plan_batch_writes_live_records_and_counts_expired() {
    let batch = vec![
        record("a", "1", "1010"),
        record("b", "2", "1000"),
        record("c", "3", "999"),
        record("d", "4", "1001"),
    ];
    let plan = match plan_batch(&batch, 1000) {
        Ok(plan) => plan,
        Err(_) => panic!("the batch is readable"),
    };
    assert_eq!(plan.inserted, 2);
    assert_eq!(plan.expired_on_arrival, 2);
    let mut expected: Vec<u8> = Vec::new();
    expected.extend_from_slice(b"*5\r\n$3\r\nSET\r\n$1\r\na\r\n$1\r\n1\r\n$2\r\nEX\r\n$2\r\n10\r\n");
    expected.extend_from_slice(b"*5\r\n$3\r\nSET\r\n$1\r\nd\r\n$1\r\n4\r\n$2\r\nEX\r\n$1\r\n1\r\n");
    assert_eq!(plan.request.get_packed_pipeline(), expected);
}

#[test]
fn plan_batch_of_nothing_is_empty() {
    let batch: Vec<CorrelatedRecord> = Vec::new();
    let plan = match plan_batch(&batch, 0) {
        Ok(plan) => plan,
        Err(_) => panic!("an empty batch is readable"),
    };
    assert_eq!(plan.inserted, 0);
    assert_eq!(plan.expired_on_arrival, 0);
    assert!(plan.request.is_empty());
}

#[test]
fn plan_batch_names_the_first_unreadable_expiry() {
    let batch = vec![
        record("a", "1", "1010"),
        record("b", "2", "soon"),
        record("c", "3", ""),
    ];
    match plan_batch(&batch, 1000) {
        Ok(_) => panic!("the second expiry is no number"),
        Err(e) => assert_eq!(e.index, 1),
    }
}

#[test]
fn plan_batch_accepts_signs_and_negative_clocks() {
    let batch = vec![record("a", "1", "-5"), record("b", "2", "+7")];
    let plan = match plan_batch(&batch, -10) {
        Ok(plan) => plan,
        Err(_) => panic!("the batch is readable"),
    };
    assert_eq!(plan.inserted, 2);
    let mut expected: Vec<u8> = Vec::new();
    expected.extend_from_slice(b"*5\r\n$3\r\nSET\r\n$1\r\na\r\n$1\r\n1\r\n$2\r\nEX\r\n$1\r\n5\r\n");
    expected.extend_from_slice(b"*5\r\n$3\r\nSET\r\n$1\r\nb\r\n$1\r\n2\r\n$2\r\nEX\r\n$2\r\n17\r\n");
    assert_eq!(plan.request.get_packed_pipeline(), expected);
}

#[test]
fn plan_leftover_persist_writes_plain_sets() {
    let left = vec![
        PendingEntry { key: b"b".to_vec(), value: b"2".to_vec() },
        PendingEntry { key: b"z".to_vec(), value: b"26".to_vec() },
    ];
    let plan = plan_leftover(&left, LeftoverPolicy::Persist);
    assert_eq!(plan.without_ttl, 2);
    let mut expected: Vec<u8> = Vec::new();
    expected.extend_from_slice(b"*3\r\n$3\r\nSET\r\n$1\r\nb\r\n$1\r\n2\r\n");
    expected.extend_from_slice(b"*3\r\n$3\r\nSET\r\n$1\r\nz\r\n$2\r\n26\r\n");
    assert_eq!(plan.request.get_packed_pipeline(), expected);
}

#[test]
fn plan_leftover_with_default_ttl_writes_set_ex() {
    let left = vec![PendingEntry { key: b"b".to_vec(), value: b"2".to_vec() }];
    let plan = plan_leftover(&left, LeftoverPolicy::ExpireAfter(3600));
    assert_eq!(plan.without_ttl, 1);
    assert_eq!(
        plan.request.get_packed_pipeline(),
        b"*5\r\n$3\r\nSET\r\n$1\r\nb\r\n$1\r\n2\r\n$2\r\nEX\r\n$4\r\n3600\r\n".to_vec()
    );
}

#[test]
fn plan_leftover_of_nothing_is_empty() {
    let left: Vec<PendingEntry> = Vec::new();
    let plan = plan_leftover(&left, LeftoverPolicy::ExpireAfter(3600));
    assert_eq!(plan.without_ttl, 0);
    assert!(plan.request.is_empty());
}

#[test]
fn queue_write_discards_the_reply_of_each_write() {
    let mut request = new_request();
    assert!(format!("{:?}", request).contains("ignored_commands: {}"));
    queue_write(&mut request, b"a", b"1", Some(5));
    assert!(format!("{:?}", request).contains("ignored_commands: {0}"));
    queue_write(&mut request, b"b", b"2", None);
    let shown = format!("{:?}", request);
    assert!(shown.contains("ignored_commands: {0, 1}") || shown.contains("ignored_commands: {1, 0}"));
}
