use mxbot_common::format::mentionify;
use mxbot_common::send::{
    classify_send_error, in_thread, thread_root, ReceivedEvent, RetryHint, SendFailure, SendRetry,
};
use mxbot_common::time::Duration;

fn at(secs: u64) -> Duration {
    Duration::from_secs(secs)
}

fn api(status: u16, retry_after: Option<RetryHint>) -> SendFailure {
    SendFailure::Api {
        status,
        retry_after,
    }
}

#[test]
fn send_failures_are_classified() {
    let now = at(100);
    assert_eq!(classify_send_error(SendFailure::Local, now), (false, None));
    assert_eq!(classify_send_error(SendFailure::NoResponse, now), (true, None));
    assert_eq!(classify_send_error(api(403, None), now), (false, None));
    assert_eq!(classify_send_error(api(499, None), now), (false, None));
    assert_eq!(classify_send_error(api(500, None), now), (true, None));
    assert_eq!(classify_send_error(api(429, None), now), (true, None));
    assert_eq!(
        classify_send_error(api(429, Some(RetryHint::Delay(at(7)))), now),
        (true, Some(at(7)))
    );
    assert_eq!(
        classify_send_error(api(429, Some(RetryHint::DateTime(at(105)))), now),
        (true, Some(at(5)))
    );
    assert_eq!(
        classify_send_error(api(429, Some(RetryHint::DateTime(at(99)))), now),
        (true, None)
    );
}

#[test]
fn sending_is_tried_four_times_under_one_transaction() {
    let now = at(0);
    let mut retry = SendRetry::new("txn-1".to_owned());
    let mut delays = Vec::new();
    loop {
        assert_eq!(retry.transaction_id(), "txn-1");
        let attempt = retry.attempt();
        match retry.on_failure(SendFailure::NoResponse, now) {
            Some((delay, next)) => {
                delays.push(delay);
                retry = next;
            }
            None => {
                assert_eq!(attempt, 4);
                break;
            }
        }
    }
    assert_eq!(delays, vec![at(2), at(4), at(8)]);
}

#[test]
fn suggested_delays_are_followed_up_to_half_a_minute() {
    let now = at(0);
    let retry = SendRetry::new("t".to_owned());
    let (delay, retry) = retry
        .on_failure(api(429, Some(RetryHint::Delay(at(9)))), now)
        .unwrap();
    assert_eq!(delay, at(9));
    let (delay, retry) = retry
        .on_failure(api(429, Some(RetryHint::Delay(at(90)))), now)
        .unwrap();
    assert_eq!(delay, at(30));
    let (delay, _) = retry.on_failure(api(502, None), now).unwrap();
    assert_eq!(delay, at(2));
}

#[test]
fn final_failures_are_not_retried() {
    let now = at(0);
    assert!(SendRetry::new("t".to_owned())
        .on_failure(SendFailure::Local, now)
        .is_none());
    assert!(SendRetry::new("t".to_owned())
        .on_failure(api(403, Some(RetryHint::Delay(at(1)))), now)
        .is_none());
}

#[test]
fn replies_stay_in_their_thread() {
    let first = ReceivedEvent {
        event_id: "$a".to_owned(),
        thread: None,
    };
    assert_eq!(thread_root(&first), "$a");
    let reply = ReceivedEvent {
        event_id: "$b".to_owned(),
        thread: Some("$a".to_owned()),
    };
    assert_eq!(thread_root(&reply), "$a");
    let message = in_thread(mentionify("hi"), "$a".to_owned(), "$b".to_owned());
    let relation = message.relates_to.unwrap();
    assert_eq!(relation.root, "$a");
    assert_eq!(relation.in_reply_to, "$b");
    assert_eq!(message.body, "hi");
}
