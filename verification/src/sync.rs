//! Initial sync and the long-running sync loop.
use vstd::prelude::*;

use crate::retry::Backoff;
use crate::time::Duration;

verus! {

/// The first delay before syncing again, in seconds.
pub const RETRY_INITIAL_SECS: u64 = 5;

/// The longest delay before syncing again, in seconds.
pub const RETRY_MAX_SECS: u64 = 300;

/// A sync session that ran this many seconds counts as healthy and resets
/// the backoff.
pub const HEALTHY_AFTER_SECS: u64 = 60;

/// The delays between sync sessions.
#[derive(Debug)]
pub struct SyncRetry {
    backoff: Backoff,
}

/// The delay, in nanoseconds, before the next sync session.
impl View for SyncRetry {
    type V = nat;

    closed spec fn view(&self) -> nat {
        self.backoff@.current
    }
}

/// The delay after this one: doubled, up to five minutes.
pub open spec fn longer_delay(delay: nat) -> nat {
    if 2 * delay <= 300_000_000_000 {
        2 * delay
    } else {
        300_000_000_000
    }
}

/// The delay after a sync session that ran for `ran` nanoseconds: it starts
/// over with five seconds after a healthy session.
pub open spec fn delay_after_session(delay: nat, ran: nat) -> nat {
    if ran >= 60_000_000_000 {
        5_000_000_000
    } else {
        delay
    }
}

/// How long to wait after a sync that failed, and the delay after that.
pub open spec fn after_failed_sync(delay: nat) -> (nat, nat) {
    (delay, longer_delay(delay))
}

/// How long to wait after a session that ran for `ran` nanoseconds, and the
/// delay after that.
pub open spec fn after_session(delay: nat, ran: nat) -> (nat, nat) {
    after_failed_sync(delay_after_session(delay, ran))
}

impl SyncRetry {
    #[verifier::type_invariant]
    spec fn in_step(self) -> bool {
        &&& self.backoff@.initial == 5_000_000_000
        &&& self.backoff@.max == 300_000_000_000
        &&& self.backoff@.current <= 300_000_000_000
        &&& !self.backoff@.jitter
    }

    /// Before the first session.
    pub fn new() -> (res: Self)
        ensures
            res@ == 5_000_000_000,
            res@ == delay_after_failures(0),
    {
        SyncRetry {
            backoff: Backoff::new(
                Duration::from_secs(RETRY_INITIAL_SECS),
                Duration::from_secs(RETRY_MAX_SECS),
            ),
        }
    }

    /// How long to wait after the first sync failed.
    ///
    /// Never gives up: background tasks (schedulers, pollers) keep running
    /// while the homeserver is unreachable, and the bot catches up once it is
    /// back.
    pub fn on_failure(self) -> (res: (Duration, SyncRetry))
        ensures
            (res.0@, res.1@) == after_failed_sync(self@),
            res.0@ == self@,
            res.1@ == longer_delay(self@),
            self@ <= 300_000_000_000,
    {
        proof {
            use_type_invariant(&self);
        }
        let mut backoff = self.backoff;
        let delay = backoff.next_delay();
        (delay, SyncRetry { backoff })
    }

    /// How long to wait after a session that ran for `ran`, with backoff that
    /// resets after a healthy run.
    pub fn on_exit(self, ran: Duration) -> (res: (Duration, SyncRetry))
        ensures
            (res.0@, res.1@) == after_session(self@, ran@),
            res.0@ == delay_after_session(self@, ran@),
            res.1@ == longer_delay(delay_after_session(self@, ran@)),
            self@ <= 300_000_000_000,
    {
        proof {
            use_type_invariant(&self);
        }
        let mut backoff = self.backoff;
        if ran.at_least(Duration::from_secs(HEALTHY_AFTER_SECS)) {
            backoff.reset();
        }
        let delay = backoff.next_delay();
        (delay, SyncRetry { backoff })
    }
}

/// However long the sessions run, the delay stays between five seconds and
/// five minutes.
pub proof fn law_sync_delays_are_bounded(delay: nat, ran: nat)
    requires
        5_000_000_000 <= delay <= 300_000_000_000,
    ensures
        5_000_000_000 <= delay_after_session(delay, ran) <= 300_000_000_000,
        5_000_000_000 <= longer_delay(delay_after_session(delay, ran)) <= 300_000_000_000,
{
}

/// The delay after `n` failures in a row.
pub open spec fn delay_after_failures(n: nat) -> nat
    decreases n,
{
    if n == 0 {
        5_000_000_000
    } else {
        longer_delay(delay_after_failures((n - 1) as nat))
    }
}

/// Failures in a row are followed by five seconds that double each time, up to
/// five minutes, which it stays at: six failures in, and ever after.
pub proof fn law_sync_delays_double(n: nat)
    ensures
        n <= 5 ==> delay_after_failures(n) == 5_000_000_000 * vstd::arithmetic::power2::pow2(n),
        n >= 6 ==> delay_after_failures(n) == 300_000_000_000,
    decreases n,
{
    vstd::arithmetic::power2::lemma2_to64();
    if n > 0 {
        law_sync_delays_double((n - 1) as nat);
    }
}

/// A session that ran for a minute or longer counts as healthy: the delays
/// start over, whatever they had grown to. A shorter one changes nothing.
pub proof fn law_healthy_sessions_start_over(delay: nat, other: nat, ran: nat)
    ensures
        ran >= 60_000_000_000 ==> delay_after_session(delay, ran) == delay_after_failures(0),
        ran >= 60_000_000_000 ==> delay_after_session(delay, ran) == delay_after_session(
            other,
            ran,
        ),
        ran < 60_000_000_000 ==> delay_after_session(delay, ran) == delay,
        longer_delay(delay) <= 2 * delay,
        2 * delay <= 300_000_000_000 ==> longer_delay(delay) == 2 * delay,
        2 * delay > 300_000_000_000 ==> longer_delay(delay) == 300_000_000_000,
{
}

/// The n-th failure in a row is waited for as long as the delay has grown to,
/// and makes the next one longer; so is a session that ended early. After a
/// healthy session the wait is five seconds.
pub proof fn law_how_long_is_waited(n: nat, ran: nat)
    ensures
        after_failed_sync(delay_after_failures(n)) == (
            delay_after_failures(n),
            delay_after_failures(n + 1),
        ),
        ran < 60_000_000_000 ==> after_session(delay_after_failures(n), ran) == (
            delay_after_failures(n),
            delay_after_failures(n + 1),
        ),
        ran >= 60_000_000_000 ==> after_session(delay_after_failures(n), ran) == (
            5_000_000_000nat,
            10_000_000_000nat,
        ),
{
    law_sync_delays_double(0);
    law_sync_delays_double(1);
}

} // verus!
