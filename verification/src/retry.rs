//! Exponential-backoff helpers.
use vstd::prelude::*;

use crate::time;
use crate::time::Duration;

verus! {

// The clock

/// A point in time of the system clock.
#[verifier::external_type_specification]
#[verifier::external_body]
pub struct ExSystemTime(std::time::SystemTime);

/// The error of a difference that would be negative.
#[verifier::external_type_specification]
#[verifier::external_body]
pub struct ExSystemTimeError(std::time::SystemTimeError);

/// `SystemTime::now`: nothing is known of what the clock says.
pub assume_specification[ std::time::SystemTime::now ]() -> (res: std::time::SystemTime)
;

/// `SystemTime::duration_since`: nothing is known of the difference.
pub assume_specification[ std::time::SystemTime::duration_since ](
    this: &std::time::SystemTime,
    earlier: std::time::SystemTime,
) -> (res: Result<std::time::Duration, std::time::SystemTimeError>)
;

/// `Duration::subsec_nanos`: less than one second.
pub assume_specification[ std::time::Duration::subsec_nanos ](
    this: &std::time::Duration,
) -> (res: u32)
    ensures
        res < 1_000_000_000,
;

/// `std::time::UNIX_EPOCH`: a fixed point in time.
#[verifier::external_body]
fn epoch() -> (res: std::time::SystemTime) {
    std::time::UNIX_EPOCH
}

/// Cheap, dependency-free pseudo-randomness; only spreads out retry timing.
fn jitter_nanos() -> (res: u64)
    ensures
        res < 1_000_000_000,
{
    let elapsed = match std::time::SystemTime::now().duration_since(epoch()) {
        Ok(d) => Some(d.subsec_nanos()),
        Err(_) => None,
    };
    random_from(elapsed)
}

/// The random number that the clock gives: its nanoseconds beyond the whole
/// seconds since the Unix epoch, or zero where it stands before the epoch.
pub fn random_from(subsec_nanos: Option<u32>) -> (res: u64)
    ensures
        res == (match subsec_nanos {
            Some(nanos) => nanos as u64,
            None => 0,
        }),
{
    match subsec_nanos {
        Some(nanos) => nanos as u64,
        None => 0,
    }
}

// Backoff

/// Doubling backoff with a ceiling.
#[derive(Clone, Debug)]
pub struct Backoff {
    initial: Duration,
    max: Duration,
    current: Duration,
    jitter: bool,
}

/// The state of a backoff, in nanoseconds.
pub struct BackoffView {
    pub initial: nat,
    pub max: nat,
    pub current: nat,
    pub jitter: bool,
}

impl View for Backoff {
    type V = BackoffView;

    closed spec fn view(&self) -> BackoffView {
        BackoffView {
            initial: self.initial@,
            max: self.max@,
            current: self.current@,
            jitter: self.jitter,
        }
    }
}

/// The most jitter, in milliseconds, that is added to a delay of `current`
/// nanoseconds: a fifth of it, but at most 30 000. The whole milliseconds of
/// the delay count modulo 2^64.
pub open spec fn max_jitter_millis(current: nat) -> nat {
    let fifth = ((current / 1_000_000) % 0x1_0000_0000_0000_0000) / 5;
    if fifth > 30_000 {
        30_000
    } else {
        fifth
    }
}

/// The jitter, in nanoseconds, that the random number `random` adds to a
/// delay of `current` nanoseconds.
pub open spec fn jitter_for(current: nat, random: nat) -> nat {
    random % (max_jitter_millis(current) + 1) * 1_000_000
}

/// The delay that `state` yields for the random number `random`.
pub open spec fn delay_of(state: BackoffView, random: nat) -> nat {
    if state.jitter {
        state.current + jitter_for(state.current, random)
    } else {
        state.current
    }
}

/// The state after one more delay: doubled, up to the ceiling.
pub open spec fn advanced(state: BackoffView) -> BackoffView {
    BackoffView {
        current: if 2 * state.current <= state.max {
            2 * state.current
        } else {
            state.max
        },
        ..state
    }
}

/// Whether the delay can still be doubled.
pub open spec fn can_advance(state: BackoffView) -> bool {
    2 * state.current <= time::MAX_NANOS
}

/// The state of a new backoff.
pub open spec fn fresh(initial: nat, max: nat) -> BackoffView {
    BackoffView { initial, max, current: initial, jitter: false }
}

/// The state with jitter.
pub open spec fn jittered(state: BackoffView) -> BackoffView {
    BackoffView { jitter: true, ..state }
}

/// The state that starts over.
pub open spec fn restarted(state: BackoffView) -> BackoffView {
    BackoffView { current: state.initial, ..state }
}

impl Backoff {
    /// Starts at `initial` and doubles up to `max`.
    pub fn new(initial: Duration, max: Duration) -> (res: Self)
        ensures
            res@ == fresh(initial@, max@),
    {
        Backoff { initial, max, current: initial, jitter: false }
    }

    /// Add up to ~20% random jitter to each delay, so that many clients
    /// retrying against the same service spread out.
    pub fn with_jitter(self) -> (res: Self)
        ensures
            res@ == jittered(self@),
    {
        Backoff { initial: self.initial, max: self.max, current: self.current, jitter: true }
    }

    /// The delay to wait now; the following call returns twice as much
    /// (capped, plus jitter if enabled).
    pub fn next_delay(&mut self) -> (delay: Duration)
        requires
            can_advance(old(self)@),
        ensures
            final(self)@ == advanced(old(self)@),
            exists|random: nat|
                random < 1_000_000_000 && #[trigger] delay_of(old(self)@, random) == delay@,
            !old(self)@.jitter ==> delay@ == old(self)@.current,
    {
        let random = if self.jitter {
            jitter_nanos()
        } else {
            0
        };
        let delay = self.next_delay_with(random);
        assert(delay@ == delay_of(old(self)@, random as nat));
        delay
    }

    /// [`Backoff::next_delay`], with the random number that picks the jitter.
    pub fn next_delay_with(&mut self, random: u64) -> (delay: Duration)
        requires
            can_advance(old(self)@),
        ensures
            final(self)@ == advanced(old(self)@),
            delay@ == delay_of(old(self)@, random as nat),
    {
        let current = self.current;
        let mut delay = current;
        if self.jitter {
            let millis = (current.as_millis() % 0x1_0000_0000_0000_0000) as u64;
            let fifth = millis / 5;
            let max_jitter_ms: u64 = if fifth > 30_000 {
                30_000
            } else {
                fifth
            };
            assert(max_jitter_ms == max_jitter_millis(current@));
            delay = delay.plus(Duration::from_millis(random % (max_jitter_ms + 1)));
        }
        self.current = current.doubled().min(self.max);
        delay
    }

    /// Starts over with the initial delay.
    pub fn reset(&mut self)
        ensures
            final(self)@ == restarted(old(self)@),
    {
        self.current = self.initial;
    }
}

// Laws

/// The state after `n` delays.
pub open spec fn advanced_times(state: BackoffView, n: nat) -> BackoffView
    decreases n,
{
    if n == 0 {
        state
    } else {
        advanced(advanced_times(state, (n - 1) as nat))
    }
}

/// The first delay of a new backoff is the initial one; every later one is
/// the initial delay doubled as often as delays were taken, up to the
/// ceiling.
pub proof fn law_delays_double_up_to_the_ceiling(initial: nat, max: nat, n: nat)
    ensures
        advanced_times(fresh(initial, max), n).current == (if n == 0 {
            initial
        } else if initial * vstd::arithmetic::power2::pow2(n) <= max {
            initial * vstd::arithmetic::power2::pow2(n)
        } else {
            max
        }),
        advanced_times(fresh(initial, max), n).initial == initial,
        advanced_times(fresh(initial, max), n).max == max,
        !advanced_times(fresh(initial, max), n).jitter,
    decreases n,
{
    if n > 0 {
        let before = (n - 1) as nat;
        law_delays_double_up_to_the_ceiling(initial, max, before);
        vstd::arithmetic::power2::lemma_pow2_unfold(n);
        let p = vstd::arithmetic::power2::pow2(before);
        assert(initial * (2 * p) == 2 * (initial * p)) by (nonlinear_arith);
        if before == 0 {
            vstd::arithmetic::power2::lemma2_to64();
        } else {
            assert(max < initial * p ==> max < initial * (2 * p)) by (nonlinear_arith)
                requires
                    initial >= 0,
                    p >= 0,
            ;
        }
    }
}

/// A backoff whose ceiling can be doubled can always advance, once its
/// initial delay can be doubled.
pub proof fn law_backoff_never_runs_out(state: BackoffView)
    requires
        can_advance(state),
        2 * state.max <= time::MAX_NANOS,
    ensures
        can_advance(advanced(state)),
{
}

/// Jitter only lengthens a delay: by at most a fifth, and never by more than
/// 30 seconds.
pub proof fn law_jitter_is_bounded(state: BackoffView, random: nat)
    ensures
        delay_of(state, random) >= state.current,
        delay_of(state, random) <= state.current + 30_000_000_000,
        5 * (delay_of(state, random) - state.current) <= state.current,
{
    let bound = max_jitter_millis(state.current);
    assert(random % (bound + 1) <= bound);
    let millis = state.current / 1_000_000;
    assert(millis % 0x1_0000_0000_0000_0000 <= millis) by {
        vstd::arithmetic::div_mod::lemma_mod_decreases(millis, 0x1_0000_0000_0000_0000);
    }
}

/// Without jitter every delay is the current one, whatever the random number.
pub proof fn law_without_jitter_delays_are_exact(state: BackoffView, random: nat)
    requires
        !state.jitter,
    ensures
        delay_of(state, random) == state.current,
{
}

/// Jitter spreads delays out: every number of whole milliseconds up to a fifth
/// of the delay, and up to 30 seconds, is added for some random number.
pub proof fn law_jitter_spreads_delays(state: BackoffView, millis: nat)
    requires
        state.jitter,
        state.current < 0x1_0000_0000_0000_0000 * 1_000_000,
        5 * millis * 1_000_000 <= state.current,
        millis <= 30_000,
    ensures
        delay_of(state, millis) == state.current + millis * 1_000_000,
{
    let whole = state.current / 1_000_000;
    assert(whole % 0x1_0000_0000_0000_0000 == whole) by {
        vstd::arithmetic::div_mod::lemma_small_mod(whole, 0x1_0000_0000_0000_0000);
    }
    assert(millis <= max_jitter_millis(state.current));
    vstd::arithmetic::div_mod::lemma_small_mod(millis, max_jitter_millis(state.current) + 1);
}

/// Jitter changes only the delay that is waited, not the ones that follow:
/// with and without it the delays double alike.
pub proof fn law_jitter_does_not_change_the_backoff(state: BackoffView, n: nat)
    ensures
        advanced_times(BackoffView { jitter: true, ..state }, n).current == advanced_times(
            BackoffView { jitter: false, ..state },
            n,
        ).current,
        advanced_times(state, n).jitter == state.jitter,
        advanced_times(state, n).initial == state.initial,
        advanced_times(state, n).max == state.max,
    decreases n,
{
    if n > 0 {
        law_jitter_does_not_change_the_backoff(state, (n - 1) as nat);
        law_jitter_does_not_change_the_backoff(
            BackoffView { jitter: true, ..state },
            (n - 1) as nat,
        );
        law_jitter_does_not_change_the_backoff(
            BackoffView { jitter: false, ..state },
            (n - 1) as nat,
        );
    }
}

/// Starting over gives the delays of a new backoff again, however many were
/// taken before, with jitter or without.
pub proof fn law_starting_over_forgets_the_delays(initial: nat, max: nat, n: nat)
    ensures
        restarted(advanced_times(fresh(initial, max), n)) == fresh(initial, max),
        restarted(advanced_times(jittered(fresh(initial, max)), n)) == jittered(
            fresh(initial, max),
        ),
        jittered(fresh(initial, max)).jitter,
        jittered(fresh(initial, max)).current == initial,
        jittered(fresh(initial, max)).max == max,
{
    lemma_advanced_keeps_the_rest(fresh(initial, max), n);
    lemma_advanced_keeps_the_rest(jittered(fresh(initial, max)), n);
}

proof fn lemma_advanced_keeps_the_rest(state: BackoffView, n: nat)
    ensures
        advanced_times(state, n).initial == state.initial,
        advanced_times(state, n).max == state.max,
        advanced_times(state, n).jitter == state.jitter,
    decreases n,
{
    if n > 0 {
        lemma_advanced_keeps_the_rest(state, (n - 1) as nat);
    }
}

/// The random number counts modulo the number of jitters that there are: the
/// next one after the longest starts again with none.
pub proof fn law_jitters_recur(state: BackoffView, random: nat, times: nat)
    requires
        state.jitter,
    ensures
        delay_of(state, random + times * (max_jitter_millis(state.current) + 1)) == delay_of(
            state,
            random,
        ),
        delay_of(state, max_jitter_millis(state.current)) == state.current + max_jitter_millis(
            state.current,
        ) * 1_000_000,
{
    let count = (max_jitter_millis(state.current) + 1) as int;
    vstd::arithmetic::div_mod::lemma_mod_multiples_vanish(times as int, random as int, count);
    vstd::arithmetic::mul::lemma_mul_is_commutative(times as int, count);
    vstd::arithmetic::div_mod::lemma_small_mod(
        max_jitter_millis(state.current),
        max_jitter_millis(state.current) + 1,
    );
}

} // verus!
