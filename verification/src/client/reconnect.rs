//! When a node that lost its session tries again.

use vstd::arithmetic::power2::*;
use vstd::prelude::*;

use crate::client::http::{is_fatal, registration_error_is_fatal, ApiError};
use crate::external::random_at_most;

verus! {

/// The first delay, in nanoseconds.
pub const RECONNECT_INITIAL_DELAY: u128 = 1_000_000_000;

/// The longest delay, in nanoseconds.
pub const RECONNECT_MAX_DELAY: u128 = 30_000_000_000;

/// A session that lasted this long, in nanoseconds, makes the delay short again.
pub const RECONNECT_BACKOFF_RESET_AFTER: u128 = 60_000_000_000;

/// The most that chance adds to a delay, in milliseconds.
pub const RECONNECT_JITTER_MAX_MILLIS: u64 = 250;

/// The nanoseconds in a millisecond.
pub const NANOS_PER_MILLI: u128 = 1_000_000;

/// The delay before the next attempt, apart from chance.
pub open spec fn delay_now(delay: u128, session: u128) -> u128 {
    if session >= RECONNECT_BACKOFF_RESET_AFTER {
        RECONNECT_INITIAL_DELAY
    } else {
        delay
    }
}

/// The delay before the attempt after an attempt.
pub open spec fn delay_after(delay: u128) -> u128 {
    if 2 * delay < RECONNECT_MAX_DELAY {
        (2 * delay) as u128
    } else {
        RECONNECT_MAX_DELAY
    }
}

/// When a node that lost its session tries again.
pub struct Reconnect {
    delay: u128,
}

impl Reconnect {
    /// The delay before the next attempt, unless the session before it was a long one.
    pub closed spec fn delay(self) -> u128 {
        self.delay
    }

    /// The delay is always between the first and the longest.
    pub open spec fn wf(self) -> bool {
        RECONNECT_INITIAL_DELAY <= self.delay() <= RECONNECT_MAX_DELAY
    }

    pub fn new() -> (result: Self)
        ensures
            result.wf(),
            result.delay() == RECONNECT_INITIAL_DELAY,
    {
        Reconnect { delay: RECONNECT_INITIAL_DELAY }
    }

    /// How long to wait, in nanoseconds, after a session that lasted so long.
    pub fn retry_in(&mut self, session: u128, jitter_millis: u64) -> (result: u128)
        requires
            old(self).wf(),
        ensures
            final(self).wf(),
            result == delay_now(old(self).delay(), session) + jitter_millis * NANOS_PER_MILLI,
            final(self).delay() == delay_after(delay_now(old(self).delay(), session)),
    {
        if session >= RECONNECT_BACKOFF_RESET_AFTER {
            self.delay = RECONNECT_INITIAL_DELAY;
        }
        assert(0 <= jitter_millis * NANOS_PER_MILLI <= u64::MAX * NANOS_PER_MILLI)
            by (nonlinear_arith)
            requires
                NANOS_PER_MILLI == 1_000_000u128,
                jitter_millis <= u64::MAX,
        ;
        let retry_in = self.delay + jitter_millis as u128 * NANOS_PER_MILLI;
        self.delay = if 2 * self.delay < RECONNECT_MAX_DELAY {
            2 * self.delay
        } else {
            RECONNECT_MAX_DELAY
        };
        retry_in
    }

    /// How long to wait, in nanoseconds, after a session that lasted so long and ended with an
    /// error; nothing where the error is one that trying again cannot mend. `None` as an error
    /// stands for one that the API did not give.
    pub fn session_failed(
        &mut self,
        error: Option<&ApiError>,
        has_registered: bool,
        session: u128,
    ) -> (result: Option<u128>)
        requires
            old(self).wf(),
        ensures
            final(self).wf(),
            ({
                let fatal = error matches Some(error) && is_fatal(error.text(), has_registered);
                let base = delay_now(old(self).delay(), session);
                match result {
                    None => fatal && *final(self) == *old(self),
                    Some(retry_in) => {
                        &&& !fatal
                        &&& exists|jitter: u64|
                            jitter <= RECONNECT_JITTER_MAX_MILLIS && retry_in == base
                                + #[trigger] (jitter * NANOS_PER_MILLI)
                        &&& final(self).delay() == delay_after(base)
                    },
                }
            }),
    {
        if let Some(error) = error {
            if registration_error_is_fatal(error, has_registered) {
                return None;
            }
        }
        let jitter = random_at_most(RECONNECT_JITTER_MAX_MILLIS);
        Some(self.retry_in(session, jitter))
    }
}

/// The delay after a number of attempts in a row.
pub open spec fn delay_after_attempts(n: nat) -> u128
    decreases n,
{
    if n == 0 {
        RECONNECT_INITIAL_DELAY
    } else {
        delay_after(delay_after_attempts((n - 1) as nat))
    }
}

/// The delay doubles with every attempt, up to the longest.
pub proof fn law_delay_doubles_up_to_the_longest(n: nat)
    ensures
        delay_after_attempts(n) == if pow2(n) * RECONNECT_INITIAL_DELAY < RECONNECT_MAX_DELAY {
            pow2(n) * RECONNECT_INITIAL_DELAY
        } else {
            RECONNECT_MAX_DELAY as int
        },
    decreases n,
{
    if n == 0 {
        lemma2_to64();
    } else {
        law_delay_doubles_up_to_the_longest((n - 1) as nat);
        lemma_pow2_unfold(n);
    }
}

/// A session that lasts long enough makes the next delay the first one.
pub proof fn law_long_session_resets_the_delay(delay: u128, session: u128)
    requires
        session >= RECONNECT_BACKOFF_RESET_AFTER,
    ensures
        delay_now(delay, session) == RECONNECT_INITIAL_DELAY,
{
}

/// A node waits for its delay and what chance adds to it, in milliseconds. The delay starts at one
/// second, doubles with every attempt up to thirty, and starts again after a session of a minute.
pub proof fn law_delays_between_attempts(
    reconnect: &mut Reconnect,
    session: u128,
    jitter: u64,
    wait: u128,
    fresh: Reconnect,
)
    requires
        old(reconnect).wf(),
        call_ensures(Reconnect::new, (), fresh),
        call_ensures(Reconnect::retry_in, (reconnect, session, jitter), wait),
    ensures
        fresh.delay() == 1_000_000_000,
        1_000_000_000 <= old(reconnect).delay() <= 30_000_000_000,
        session >= 60_000_000_000 ==> wait == 1_000_000_000 + jitter * 1_000_000
            && final(reconnect).delay() == 2_000_000_000,
        session < 60_000_000_000 ==> wait == old(reconnect).delay() + jitter * 1_000_000,
        session < 60_000_000_000 && old(reconnect).delay() < 15_000_000_000
            ==> final(reconnect).delay() == 2 * old(reconnect).delay(),
        session < 60_000_000_000 && old(reconnect).delay() >= 15_000_000_000
            ==> final(reconnect).delay() == 30_000_000_000,
{
}

/// A failed session is tried again, after its delay and at most a quarter of a second, unless the
/// server found fault with the request.
pub proof fn law_failed_sessions_are_tried_again(
    reconnect: &mut Reconnect,
    error: &ApiError,
    has_registered: bool,
    session: u128,
    fatal: bool,
    result: Option<u128>,
    other: &mut Reconnect,
    unexplained: Option<u128>,
)
    requires
        old(reconnect).wf(),
        old(other).wf(),
        call_ensures(registration_error_is_fatal, (error, has_registered), fatal),
        call_ensures(
            Reconnect::session_failed,
            (reconnect, Some(error), has_registered, session),
            result,
        ),
        call_ensures(
            Reconnect::session_failed,
            (other, None::<&ApiError>, has_registered, session),
            unexplained,
        ),
    ensures
        result is None <==> fatal,
        fatal ==> *final(reconnect) == *old(reconnect),
        unexplained is Some,
        result matches Some(wait) ==> {
            let delay = if session >= 60_000_000_000 {
                1_000_000_000
            } else {
                old(reconnect).delay()
            };
            delay <= wait <= delay + 250_000_000
        },
        unexplained matches Some(wait) ==> {
            let delay = if session >= 60_000_000_000 {
                1_000_000_000
            } else {
                old(other).delay()
            };
            delay <= wait <= delay + 250_000_000
        },
{
    assert forall|jitter: u64| jitter <= 250 implies 0 <= #[trigger] (jitter * NANOS_PER_MILLI)
        <= 250_000_000 by {
        assert(0 <= jitter * NANOS_PER_MILLI <= 250_000_000) by (nonlinear_arith)
            requires
                jitter <= 250,
                NANOS_PER_MILLI == 1_000_000u128,
        ;
    }
}

} // verus!
