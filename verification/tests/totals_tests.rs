use stream_injector::plan::LeftoverPolicy;
use stream_injector::settings::Settings;
use stream_injector::totals::CounterOverflow;
use stream_injector::totals::Totals;

#[test]
fn new_totals_are_zero_and_balanced() {
    let t = Totals::new();
    assert_eq!(t, Totals { accepted: 0, inserted: 0, expired_on_arrival: 0, without_ttl: 0 });
    assert!(t.is_balanced());
}

#[test]
fn totals_grow_by_what_is_added() {
    let mut t = Totals::new();
    assert_eq!(t.add_accepted(10), Ok(()));
    assert!(!t.is_balanced());
    assert_eq!(t.add_batch(4, 3), Ok(()));
    assert_eq!(t.add_batch(1, 0), Ok(()));
    assert!(!t.is_balanced());
    assert_eq!(t.add_without_ttl(2), Ok(()));
    assert_eq!(t, Totals { accepted: 10, inserted: 5, expired_on_arrival: 3, without_ttl: 2 });
    assert!(t.is_balanced());
}

#[test]
fn totals_of_workers_add_up() {
    let mut run = Totals { accepted: 9, inserted: 0, expired_on_arrival: 0, without_ttl: 1 };
    let first = Totals { accepted: 0, inserted: 3, expired_on_arrival: 1, without_ttl: 0 };
    let second = Totals { accepted: 0, inserted: 2, expired_on_arrival: 2, without_ttl: 0 };
    assert_eq!(run.add(first), Ok(()));
    assert_eq!(run.add(second), Ok(()));
    assert_eq!(run, Totals { accepted: 9, inserted: 5, expired_on_arrival: 3, without_ttl: 1 });
    assert!(run.is_balanced());
}

#[test]
fn full_counter_refuses_and_keeps_its_count() {
    let full = Totals {
        accepted: u64::MAX,
        inserted: u64::MAX - 1,
        expired_on_arrival: 5,
        without_ttl: u64::MAX,
    };
    let mut t = full;
    assert_eq!(t.add_accepted(1), Err(CounterOverflow));
    assert_eq!(t.add_accepted(0), Ok(()));
    assert_eq!(t.add_batch(2, 0), Err(CounterOverflow));
    assert_eq!(t.add_batch(0, u64::MAX - 4), Err(CounterOverflow));
    assert_eq!(t.add_without_ttl(1), Err(CounterOverflow));
    assert_eq!(
        t.add(Totals { accepted: 0, inserted: 2, expired_on_arrival: 0, without_ttl: 0 }),
        Err(CounterOverflow)
    );
    assert_eq!(t, full);
    assert_eq!(t.add_batch(1, u64::MAX - 5), Ok(()));
    assert_eq!(t.inserted, u64::MAX);
    assert_eq!(t.expired_on_arrival, u64::MAX);
}

#[test]
fn balance_is_told_without_overflow() {
    let t = Totals {
        accepted: u64::MAX,
        inserted: u64::MAX,
        expired_on_arrival: u64::MAX,
        without_ttl: u64::MAX,
    };
    assert!(!t.is_balanced());
    let u = Totals { accepted: u64::MAX, inserted: u64::MAX, expired_on_arrival: 0, without_ttl: 0 };
    assert!(u.is_balanced());
}

#[test]
fn standard_settings_are_usable() {
    let s = Settings::standard();
    assert_eq!(s.batch_capacity, 200);
    assert_eq!(s.channel_capacity, 1000);
    assert_eq!(s.workers, 128);
    assert_eq!(s.reconnect_every, 100);
    assert_eq!(s.backoff_seconds, 2);
    assert_eq!(s.leftover, LeftoverPolicy::ExpireAfter(3600));
    assert!(s.is_usable());
}

#[test]
fn settings_without_batch_worker_or_period_are_not_usable() {
    let s = Settings::standard();
    assert!(!Settings { batch_capacity: 0, ..s }.is_usable());
    assert!(!Settings { workers: 0, ..s }.is_usable());
    assert!(!Settings { reconnect_every: 0, ..s }.is_usable());
    assert!(Settings { channel_capacity: 0, backoff_seconds: 0, ..s }.is_usable());
    assert!(Settings { leftover: LeftoverPolicy::Persist, ..s }.is_usable());
}
