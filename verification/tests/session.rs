use canora::session::{is_fresh, Watchdog};

#[test]
fn an_outage_is_reported_once_and_the_wait_grows_to_a_minute() {
    let mut watchdog = Watchdog::new();
    assert!(!watchdog.looked(false));
    assert!(watchdog.looked(true), "the first look at a dead session reports it");
    assert!(!watchdog.looked(true), "the same outage is not reported twice");
    let waits: Vec<u64> = (0..7).map(|_| watchdog.failed()).collect();
    assert_eq!(waits, vec![2, 4, 8, 16, 32, 60, 60]);
    watchdog.reconnected();
    assert_eq!(watchdog.wait_s, 2);
    assert!(watchdog.looked(true), "a new outage is reported again");
    assert!(!watchdog.looked(false));
    assert!(!watchdog.reported);
}

#[test]
fn a_token_is_replaced_a_minute_early() {
    assert!(is_fresh(0, 60_001));
    assert!(!is_fresh(0, 60_000));
    assert!(!is_fresh(u64::MAX, u64::MAX));
}
