use mxbot_common::retry::{random_from, Backoff};
use mxbot_common::time::Duration;

#[test]
fn backoff_doubles_caps_and_resets() {
    let mut backoff = Backoff::new(Duration::from_secs(5), Duration::from_secs(12));
    assert_eq!(backoff.next_delay(), Duration::from_secs(5));
    assert_eq!(backoff.next_delay(), Duration::from_secs(10));
    assert_eq!(backoff.next_delay(), Duration::from_secs(12));
    assert_eq!(backoff.next_delay(), Duration::from_secs(12));
    backoff.reset();
    assert_eq!(backoff.next_delay(), Duration::from_secs(5));
}

#[test]
fn jittered_backoff_stays_within_twenty_percent() {
    let mut b = Backoff::new(Duration::from_secs(2), Duration::from_secs(10)).with_jitter();
    let d1 = b.next_delay();
    assert!(d1 >= Duration::from_secs(2) && d1 <= Duration::from_millis(2_400));
    let d2 = b.next_delay();
    assert!(d2 >= Duration::from_secs(4) && d2 <= Duration::from_millis(4_800));
    for _ in 0..5 {
        let d = b.next_delay();
        assert!(d >= Duration::from_secs(8) && d <= Duration::from_secs(12));
    }
}

#[test]
fn the_random_number_picks_the_jitter() {
    let mut b = Backoff::new(Duration::from_secs(2), Duration::from_secs(10)).with_jitter();
    assert_eq!(b.next_delay_with(400), Duration::from_millis(2_400));
    assert_eq!(b.next_delay_with(801), Duration::from_millis(4_000));
    let mut short = Backoff::new(Duration::from_millis(100), Duration::from_secs(1)).with_jitter();
    assert_eq!(short.next_delay_with(20), Duration::from_millis(120));
    let mut tiny = Backoff::new(Duration::from_millis(1), Duration::from_secs(1)).with_jitter();
    assert_eq!(tiny.next_delay_with(50), Duration::from_millis(1));
    let mut long = Backoff::new(Duration::from_secs(600), Duration::from_secs(600)).with_jitter();
    assert_eq!(long.next_delay_with(30_000), Duration::from_secs(630));
    assert_eq!(long.next_delay_with(30_001), Duration::from_secs(600));
}

#[test]
fn a_first_delay_above_the_ceiling_is_kept_once() {
    let mut b = Backoff::new(Duration::from_secs(20), Duration::from_secs(12));
    assert_eq!(b.next_delay(), Duration::from_secs(20));
    assert_eq!(b.next_delay(), Duration::from_secs(12));
}

#[test]
fn durations_convert() {
    let d = Duration::new(3, 250_000_001);
    assert_eq!(d.as_secs(), 3);
    assert_eq!(d.as_millis(), 3_250);
    assert_eq!(d.as_nanos(), 3_250_000_001);
    assert_eq!(d.subsec_nanos(), 250_000_001);
    assert_eq!(d.since(Duration::from_secs(3)).unwrap().as_millis(), 250);
    assert_eq!(d.since(Duration::from_secs(4)), None);
    assert_eq!(Duration::from_secs(1).plus(Duration::from_millis(5)).as_millis(), 1_005);
    assert_eq!(Duration::from_secs(2).min(Duration::from_secs(1)), Duration::from_secs(1));
    assert_eq!(Duration::from_secs(u64::MAX).as_secs(), u64::MAX);
}

#[test]
fn backoff_goes_on_forever() {
    let mut b = Backoff::new(Duration::from_secs(1), Duration::from_secs(300));
    for _ in 0..1_000 {
        assert!(b.next_delay() <= Duration::from_secs(300));
    }
    assert_eq!(b.next_delay(), Duration::from_secs(300));
}

#[test]
fn the_clock_gives_the_random_number() {
    assert_eq!(random_from(Some(123_456_789)), 123_456_789);
    assert_eq!(random_from(Some(0)), 0);
    assert_eq!(random_from(None), 0);
}
