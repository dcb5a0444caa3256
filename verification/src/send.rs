//! Sending messages: idempotent retries and thread replies.
use vstd::prelude::*;

use crate::format::{Message, MessageView, ThreadRelation};
use crate::retry::Backoff;
use crate::text;
use crate::time::Duration;

verus! {

/// How often sending is tried.
pub const MAX_ATTEMPTS: u32 = 4;

/// The first delay between two attempts, in seconds.
pub const INITIAL_BACKOFF_SECS: u64 = 2;

/// The longest delay between two attempts, in seconds.
pub const MAX_BACKOFF_SECS: u64 = 30;

/// When a server that limits the rate suggests to try again.
#[derive(Clone, Copy, Debug, PartialEq, Eq)]
pub enum RetryHint {
    /// After this span.
    Delay(Duration),
    /// At this point in time, written as the span since the Unix epoch.
    DateTime(Duration),
}

/// How sending failed.
#[derive(Clone, Copy, Debug, PartialEq, Eq)]
pub enum SendFailure {
    /// Before anything was sent: serialization, crypto or store errors.
    Local,
    /// Without a Matrix error body: connection reset, timeout, and the like.
    NoResponse,
    /// With a Matrix error. The hint is that of `M_LIMIT_EXCEEDED`.
    Api { status: u16, retry_after: Option<RetryHint> },
}

/// Whether trying again may help.
pub open spec fn is_retryable(failure: SendFailure) -> bool {
    match failure {
        SendFailure::Local => false,
        SendFailure::NoResponse => true,
        SendFailure::Api { status, .. } => status == 429 || status >= 500,
    }
}

/// The delay that the server suggests, in nanoseconds. A point in time that
/// has passed suggests none.
pub open spec fn suggested_delay(failure: SendFailure, now: nat) -> Option<nat> {
    match failure {
        SendFailure::Api { retry_after: Some(RetryHint::Delay(delay)), .. } => Some(delay@),
        SendFailure::Api { retry_after: Some(RetryHint::DateTime(at)), .. } => if now <= at@ {
            Some((at@ - now) as nat)
        } else {
            None
        },
        _ => None,
    }
}

/// Classify a send failure as retryable, with any server-suggested delay
/// (`M_LIMIT_EXCEEDED`'s `retry_after`). `now` is the span since the Unix
/// epoch.
pub fn classify_send_error(failure: SendFailure, now: Duration) -> (res: (bool, Option<Duration>))
    ensures
        res.0 == is_retryable(failure),
        match res.1 {
            Some(delay) => suggested_delay(failure, now@) == Some(delay@),
            None => suggested_delay(failure, now@) is None,
        },
{
    match failure {
        SendFailure::Local => (false, None),
        SendFailure::NoResponse => (true, None),
        SendFailure::Api { status, retry_after } => {
            let delay = match retry_after {
                Some(RetryHint::Delay(delay)) => Some(delay),
                Some(RetryHint::DateTime(at)) => at.since(now),
                None => None,
            };
            (status == 429 || status >= 500, delay)
        },
    }
}

/// Sending one message, retrying transient failures (5xx, 429, network).
///
/// Every attempt reuses one transaction ID: `PUT /send/{type}/{txnId}` is
/// idempotent, so a retry after a lost *response* returns the original event
/// instead of posting a duplicate.
#[derive(Debug)]
pub struct SendRetry {
    transaction_id: String,
    attempt: u32,
    backoff: Backoff,
}

/// How far sending has come.
#[verifier::ext_equal]
pub struct SendRetryView {
    pub transaction_id: Seq<char>,
    /// The number of the current attempt, from one.
    pub attempt: nat,
    /// The delay before the next attempt, where the server suggests none.
    pub backoff: nat,
}

impl View for SendRetry {
    type V = SendRetryView;

    closed spec fn view(&self) -> SendRetryView {
        SendRetryView {
            transaction_id: self.transaction_id@,
            attempt: self.attempt as nat,
            backoff: self.backoff@.current,
        }
    }
}

/// Before the first attempt.
pub open spec fn first_attempt(transaction_id: Seq<char>) -> SendRetryView {
    SendRetryView { transaction_id, attempt: 1, backoff: 2_000_000_000 }
}

/// The smaller of two numbers.
pub open spec fn at_most(n: nat, bound: nat) -> nat {
    if n <= bound {
        n
    } else {
        bound
    }
}

/// The delay before the next attempt, in nanoseconds: the suggested one, else
/// the backoff's, and at most 30 seconds.
pub open spec fn send_delay(state: SendRetryView, failure: SendFailure, now: nat) -> nat {
    at_most(
        match suggested_delay(failure, now) {
            Some(delay) => delay,
            None => state.backoff,
        },
        30_000_000_000,
    )
}

/// The next attempt. The backoff only grows where it was used.
pub open spec fn next_attempt(state: SendRetryView, failure: SendFailure, now: nat) -> SendRetryView {
    SendRetryView {
        transaction_id: state.transaction_id,
        attempt: state.attempt + 1,
        backoff: if suggested_delay(failure, now) is Some {
            state.backoff
        } else {
            at_most(2 * state.backoff, 30_000_000_000)
        },
    }
}

/// What a failed attempt leads to: how long to wait, and the next attempt;
/// none where the failure is final.
pub open spec fn after_failure(state: SendRetryView, failure: SendFailure, now: nat) -> Option<
    (nat, SendRetryView),
> {
    if is_retryable(failure) && state.attempt < MAX_ATTEMPTS {
        Some((send_delay(state, failure, now), next_attempt(state, failure, now)))
    } else {
        None
    }
}

/// What a failed attempt leads to.
pub open spec fn retry_view(retry: Option<(Duration, SendRetry)>) -> Option<(nat, SendRetryView)> {
    match retry {
        Some((delay, next)) => Some((delay@, next@)),
        None => None,
    }
}

impl SendRetry {
    #[verifier::type_invariant]
    spec fn in_step(self) -> bool {
        &&& 1 <= self.attempt <= MAX_ATTEMPTS
        &&& self.backoff@.current <= 30_000_000_000
        &&& self.backoff@.max == 30_000_000_000
        &&& !self.backoff@.jitter
    }

    /// Before the first attempt.
    pub fn new(transaction_id: String) -> (res: Self)
        ensures
            res@ == first_attempt(transaction_id@),
    {
        SendRetry {
            transaction_id,
            attempt: 1,
            backoff: Backoff::new(
                Duration::from_secs(INITIAL_BACKOFF_SECS),
                Duration::from_secs(MAX_BACKOFF_SECS),
            ),
        }
    }

    /// The transaction ID of every attempt.
    pub fn transaction_id(&self) -> (res: &str)
        ensures
            res@ == self@.transaction_id,
    {
        self.transaction_id.as_str()
    }

    /// The number of the current attempt, from one.
    pub fn attempt(&self) -> (res: u32)
        ensures
            res == self@.attempt,
            1 <= res <= MAX_ATTEMPTS,
    {
        proof {
            use_type_invariant(self);
        }
        self.attempt
    }

    /// What to do when the current attempt failed: how long to wait, and the
    /// next attempt; none where the failure is final.
    pub fn on_failure(self, failure: SendFailure, now: Duration) -> (res: Option<
        (Duration, SendRetry),
    >)
        ensures
            1 <= self@.attempt <= MAX_ATTEMPTS,
            retry_view(res) == after_failure(self@, failure, now@),
            failure matches SendFailure::Api { status, .. } ==> (res is Some <==> self@.attempt < 4
                && (status == 429 || 500 <= status)),
            failure is NoResponse ==> (res is Some <==> self@.attempt < 4),
            failure is Local ==> res is None,
            res is Some <==> is_retryable(failure) && self@.attempt < MAX_ATTEMPTS,
            res matches Some((delay, next)) ==> {
                &&& delay@ == send_delay(self@, failure, now@)
                &&& next@ == next_attempt(self@, failure, now@)
            },
    {
        proof {
            use_type_invariant(&self);
        }
        let (retryable, retry_after) = classify_send_error(failure, now);
        if !retryable || self.attempt >= MAX_ATTEMPTS {
            return None;
        }
        let transaction_id = self.transaction_id;
        let attempt = self.attempt + 1;
        let mut backoff = self.backoff;
        let delay = match retry_after {
            Some(delay) => delay,
            None => backoff.next_delay(),
        };
        let delay = delay.min(Duration::from_secs(MAX_BACKOFF_SECS));
        Some((delay, SendRetry { transaction_id, attempt, backoff }))
    }
}

// Threads

/// A message that the bot received.
#[derive(Debug)]
pub struct ReceivedEvent {
    pub event_id: String,
    /// The root of the thread that the message is in, if it is in one.
    pub thread: Option<String>,
}

/// The thread root to answer an event in: its own thread root, or itself.
pub open spec fn root_of(event_id: Seq<char>, thread: Option<Seq<char>>) -> Seq<char> {
    match thread {
        Some(root) => root,
        None => event_id,
    }
}

/// The thread root to answer `event` in: its own thread root, or itself.
pub fn thread_root(event: &ReceivedEvent) -> (res: String)
    ensures
        res@ == root_of(event.event_id@, text::option_view(event.thread)),
{
    match &event.thread {
        Some(root) => root.clone(),
        None => event.event_id.clone(),
    }
}

/// `content` as a thread reply quoting `reply_to` under `root`.
pub open spec fn threaded(content: MessageView, root: Seq<char>, reply_to: Seq<char>) -> MessageView {
    MessageView { thread: Some((root, reply_to)), ..content }
}

/// Make `content` a thread reply quoting `reply_to` under `root`.
pub fn in_thread(content: Message, root: String, reply_to: String) -> (res: Message)
    ensures
        res@ == threaded(content@, root@, reply_to@),
{
    Message {
        body: content.body,
        formatted: content.formatted,
        mentions: content.mentions,
        relates_to: Some(ThreadRelation { root, in_reply_to: reply_to }),
    }
}

// Laws

/// Every attempt reuses the transaction ID, and no delay is longer than 30
/// seconds.
pub proof fn law_retries_are_idempotent(state: SendRetryView, failure: SendFailure, now: nat)
    ensures
        next_attempt(state, failure, now).transaction_id == state.transaction_id,
        send_delay(state, failure, now) <= 30_000_000_000,
        after_failure(state, failure, now) matches Some((delay, next)) ==> {
            &&& next.transaction_id == state.transaction_id
            &&& next.attempt == state.attempt + 1
            &&& delay <= 30_000_000_000
        },
{
}

/// A server's error is retried before the fourth attempt where its status is
/// 429 or from 500 on, and never with another status or after four attempts.
/// Neither what the server suggests nor the time makes a difference.
pub proof fn law_statuses_that_are_retried(
    state: SendRetryView,
    status: u16,
    hint: Option<RetryHint>,
    now: nat,
)
    ensures
        ({
            let outcome = after_failure(
                state,
                SendFailure::Api { status, retry_after: hint },
                now,
            );
            &&& 500 <= status && state.attempt <= 3 ==> outcome is Some
            &&& status == 429 && state.attempt <= 3 ==> outcome is Some
            &&& status < 429 ==> outcome is None
            &&& 429 < status < 500 ==> outcome is None
            &&& state.attempt >= 4 ==> outcome is None
        }),
{
}

/// Where no answer came, sending is tried up to four times; a failure before
/// anything was sent is final at once.
pub proof fn law_lost_answers_are_retried(state: SendRetryView, now: nat)
    ensures
        after_failure(state, SendFailure::NoResponse, now) is Some <==> state.attempt <= 3,
        after_failure(state, SendFailure::Local, now) is None,
{
}

/// Whatever fails, and however the server hints, sending ends: every retry
/// comes closer to the fourth attempt.
pub proof fn law_sending_ends(state: SendRetryView, failure: SendFailure, now: nat)
    requires
        state.attempt <= 4,
    ensures
        after_failure(state, failure, now) matches Some((_, next)) ==> state.attempt
            < next.attempt <= 4,
{
}

/// The server's suggestion is followed up to half a minute, and does not use
/// up the backoff: a span is waited for, and a point in time is waited for
/// until it comes. One that has passed suggests nothing.
pub proof fn law_suggestions_are_followed(
    state: SendRetryView,
    status: u16,
    span: Duration,
    now: nat,
)
    requires
        status == 429 || 500 <= status,
        state.attempt <= 3,
    ensures
        after_failure(
            state,
            SendFailure::Api { status, retry_after: Some(RetryHint::Delay(span)) },
            now,
        ) matches Some((delay, next)) && {
            &&& span@ <= 30_000_000_000 ==> delay == span@
            &&& span@ > 30_000_000_000 ==> delay == 30_000_000_000
            &&& next.backoff == state.backoff
        },
        after_failure(
            state,
            SendFailure::Api { status, retry_after: Some(RetryHint::DateTime(span)) },
            now,
        ) matches Some((delay, next)) && {
            &&& now <= span@ <= now + 30_000_000_000 ==> now + delay == span@
            &&& now + 30_000_000_000 < span@ ==> delay == 30_000_000_000
            &&& now <= span@ ==> next.backoff == state.backoff
        },
        span@ < now ==> after_failure(
            state,
            SendFailure::Api { status, retry_after: Some(RetryHint::DateTime(span)) },
            now,
        ) == after_failure(state, SendFailure::Api { status, retry_after: None }, now),
        after_failure(state, SendFailure::Api { status, retry_after: None }, now)
            == after_failure(state, SendFailure::NoResponse, now),
{
}

/// Where the server suggests nothing, the delays are two seconds, four and
/// eight: the n-th failed attempt is followed by two seconds doubled n - 1
/// times.
pub proof fn law_send_delays_double(state: SendRetryView, now: nat)
    requires
        1 <= state.attempt <= 3,
        state.backoff == 1_000_000_000 * vstd::arithmetic::power2::pow2(state.attempt),
    ensures
        after_failure(state, SendFailure::NoResponse, now) matches Some((delay, next)) && {
            &&& delay == 1_000_000_000 * vstd::arithmetic::power2::pow2(state.attempt)
            &&& next.backoff == 1_000_000_000 * vstd::arithmetic::power2::pow2(next.attempt)
        },
{
    vstd::arithmetic::power2::lemma2_to64();
}

/// An answer to a message in a thread stays in that thread, and one to a
/// message outside of threads starts its own. An answer in a thread is the
/// message as it was, with the thread's root and the message that it quotes;
/// where it was in a thread before, it is no longer.
pub proof fn law_replies_stay_in_the_thread(
    content: MessageView,
    event_id: Seq<char>,
    root: Seq<char>,
    other: Seq<char>,
)
    ensures
        root_of(event_id, Some(root)) == root,
        root_of(event_id, None) == event_id,
        ({
            let reply = threaded(content, root_of(event_id, Some(root)), event_id);
            &&& reply.body == content.body
            &&& reply.formatted == content.formatted
            &&& reply.mentions == content.mentions
            &&& reply.thread == Some((root, event_id))
            &&& threaded(threaded(content, other, other), root, event_id) == threaded(
                content,
                root,
                event_id,
            )
        }),
{
}

/// What a failed attempt leads to is the delay and the next attempt, if there
/// is one.
pub proof fn law_retries_are_seen_as_they_are(delay: Duration, next: SendRetry)
    ensures
        retry_view(Some((delay, next))) == Some((delay@, next@)),
        retry_view(None) is None,
{
}

/// What the server suggests is reported as it is, however long and with
/// whatever status: a span as that span, a point in time as what is left until
/// it. One that has passed, and any other failure, suggests nothing.
pub proof fn law_suggestions_are_reported(status: u16, span: Duration, now: nat, left: nat)
    ensures
        suggested_delay(
            SendFailure::Api { status, retry_after: Some(RetryHint::Delay(span)) },
            now,
        ) == Some(span@),
        now + left == span@ ==> suggested_delay(
            SendFailure::Api { status, retry_after: Some(RetryHint::DateTime(span)) },
            now,
        ) == Some(left),
        span@ < now ==> suggested_delay(
            SendFailure::Api { status, retry_after: Some(RetryHint::DateTime(span)) },
            now,
        ) is None,
        suggested_delay(SendFailure::Api { status, retry_after: None }, now) is None,
        suggested_delay(SendFailure::NoResponse, now) is None,
        suggested_delay(SendFailure::Local, now) is None,
{
}

/// Which failures are transient: a lost answer, too many requests and every
/// error of the server's own are; a local failure and every other refusal are
/// not. What the server suggests makes no difference.
pub proof fn law_which_failures_are_transient(status: u16, hint: Option<RetryHint>)
    ensures
        is_retryable(SendFailure::NoResponse),
        !is_retryable(SendFailure::Local),
        status / 100 == 5 ==> is_retryable(SendFailure::Api { status, retry_after: hint }),
        status / 100 == 4 ==> (is_retryable(SendFailure::Api { status, retry_after: hint })
            <==> status == 429),
        status / 100 < 4 ==> !is_retryable(SendFailure::Api { status, retry_after: hint }),
        status / 100 > 5 ==> is_retryable(SendFailure::Api { status, retry_after: hint }),
{
}

/// The state after `n` attempts that no answer came to.
pub open spec fn after_lost_answers(transaction_id: Seq<char>, n: nat) -> Option<SendRetryView>
    decreases n,
{
    if n == 0 {
        Some(first_attempt(transaction_id))
    } else {
        match after_lost_answers(transaction_id, (n - 1) as nat) {
            Some(state) => match after_failure(state, SendFailure::NoResponse, 0) {
                Some((_, next)) => Some(next),
                None => None,
            },
            None => None,
        }
    }
}

/// A message to which no answer comes is sent four times under its one
/// transaction ID, after waiting two seconds, four and eight; then it is given
/// up.
pub proof fn law_a_message_is_sent_four_times(transaction_id: Seq<char>, n: nat)
    ensures
        n <= 3 ==> after_lost_answers(transaction_id, n) == Some(
            SendRetryView {
                transaction_id,
                attempt: n + 1,
                backoff: 2_000_000_000 * vstd::arithmetic::power2::pow2(n),
            },
        ),
        n >= 4 ==> after_lost_answers(transaction_id, n) is None,
    decreases n,
{
    vstd::arithmetic::power2::lemma2_to64();
    if n > 0 {
        law_a_message_is_sent_four_times(transaction_id, (n - 1) as nat);
    }
}

} // verus!
