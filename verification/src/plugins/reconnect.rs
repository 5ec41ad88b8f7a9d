//! When a lost connection is tried again.
use vstd::arithmetic::power2::{lemma2_to64, lemma_pow2_strictly_increases, lemma_pow2_unfold, pow2};
use vstd::prelude::*;

verus! {

/// After so many failures in a row a connection is given up.
pub const MAX_RECONNECT_ATTEMPTS: u32 = 10;

/// The longest wait between two attempts, in seconds.
pub const MAX_RECONNECT_DELAY: u64 = 30;

/// The wait before an attempt, in seconds: two to the number of failures, and
/// at most `cap`.
pub open spec fn backoff(attempt: nat, cap: nat) -> nat {
    if pow2(attempt) < cap {
        pow2(attempt)
    } else {
        cap
    }
}

/// The wait before an attempt, in seconds, with an upper bound.
pub fn capped_backoff(attempt: u32, cap: u64) -> (r: u64)
    ensures
        r == backoff(attempt as nat, cap as nat),
{
    let mut delay: u64 = 1;
    let mut i: u32 = 0;
    proof {
        lemma2_to64();
    }
    while i < attempt && delay < cap
        invariant
            i <= attempt,
            delay == pow2(i as nat),
        decreases attempt - i,
    {
        proof {
            lemma_pow2_unfold((i + 1) as nat);
            if i + 1 < attempt {
                lemma_pow2_strictly_increases((i + 1) as nat, attempt as nat);
            }
        }
        if delay > 0x7fff_ffff_ffff_ffff {
            return cap;
        }
        delay = delay * 2;
        i += 1;
    }
    proof {
        if i < attempt {
            lemma_pow2_strictly_increases(i as nat, attempt as nat);
        }
    }
    if delay < cap {
        delay
    } else {
        cap
    }
}

/// The wait before an attempt, in seconds.
pub fn backoff_delay(attempt: u32) -> (r: u64)
    ensures
        r == backoff(attempt as nat, MAX_RECONNECT_DELAY as nat),
{
    capped_backoff(attempt, MAX_RECONNECT_DELAY)
}

/// No wait is longer than the bound.
pub proof fn law_wait_is_bounded(attempt: nat, cap: nat)
    ensures
        backoff(attempt, cap) <= cap,
{
}

/// The more failures, the longer the wait.
pub proof fn law_waits_grow(fewer: nat, more: nat, cap: nat)
    requires
        fewer <= more,
    ensures
        backoff(fewer, cap) <= backoff(more, cap),
{
    if fewer < more {
        lemma_pow2_strictly_increases(fewer, more);
    }
}

/// What follows a failure.
#[derive(Clone, Copy, Debug, PartialEq, Eq, Structural)]
pub enum Retry {
    /// Try again after so many seconds.
    Wait(u64),
    /// Stop trying.
    GiveUp,
}

/// How many attempts failed in a row.
#[derive(Debug)]
pub struct Attempts {
    errors: u32,
}

/// What follows the failure that makes it `errors` in a row.
pub open spec fn retry_after(errors: nat) -> Retry {
    if errors >= MAX_RECONNECT_ATTEMPTS {
        Retry::GiveUp
    } else {
        Retry::Wait(backoff(errors, MAX_RECONNECT_DELAY as nat) as u64)
    }
}

impl View for Attempts {
    type V = nat;

    closed spec fn view(&self) -> nat {
        self.errors as nat
    }
}

impl Attempts {
    #[verifier::type_invariant]
    spec fn wf(&self) -> bool {
        self.errors <= MAX_RECONNECT_ATTEMPTS
    }

    /// No attempt has failed.
    pub fn new() -> (r: Self)
        ensures
            r@ == 0,
    {
        Attempts { errors: 0 }
    }

    /// Counts a failure; a connection that was given up stays so.
    pub fn failed(&mut self) -> (r: Retry)
        ensures
            final(self)@ == if old(self)@ < MAX_RECONNECT_ATTEMPTS {
                old(self)@ + 1
            } else {
                old(self)@
            },
            old(self)@ < MAX_RECONNECT_ATTEMPTS ==> r == retry_after(old(self)@ + 1),
            old(self)@ >= MAX_RECONNECT_ATTEMPTS ==> r == Retry::GiveUp,
    {
        proof {
            use_type_invariant(&*self);
        }
        if self.errors < MAX_RECONNECT_ATTEMPTS {
            self.errors = self.errors + 1;
        }
        if self.errors >= MAX_RECONNECT_ATTEMPTS {
            Retry::GiveUp
        } else {
            Retry::Wait(backoff_delay(self.errors))
        }
    }

    /// Forgets the failures.
    pub fn succeeded(&mut self)
        ensures
            final(self)@ == 0,
    {
        self.errors = 0;
    }
}

/// How a connection, or the preparation of one, ended.
#[derive(Clone, Copy, Debug, PartialEq, Eq, Structural)]
pub enum Outcome {
    /// It failed.
    Failed,
    /// The platform closed it.
    Closed,
    /// The plugin is to stop.
    Shutdown,
}

/// What a connection loop does next.
#[derive(Clone, Copy, Debug, PartialEq, Eq, Structural)]
pub enum Next {
    /// Leave the loop.
    Stop,
    /// Connect again at once.
    Again,
    /// Connect again after so many seconds.
    Wait(u64),
}

/// What follows a failure that makes it `errors` in a row.
pub open spec fn next_after_failure(errors: nat) -> Next {
    match retry_after(errors) {
        Retry::GiveUp => Next::Stop,
        Retry::Wait(secs) => Next::Wait(secs),
    }
}

/// What follows, where the loop connects again after a close if `persistent`.
pub open spec fn next_step(errors: nat, outcome: Outcome, persistent: bool) -> Next {
    match outcome {
        Outcome::Failed => next_after_failure(errors + 1),
        Outcome::Closed => if persistent {
            Next::Again
        } else {
            Next::Stop
        },
        Outcome::Shutdown => Next::Stop,
    }
}

/// The failures in a row after an outcome.
pub open spec fn errors_after(errors: nat, outcome: Outcome, persistent: bool) -> nat {
    match outcome {
        Outcome::Failed => if errors < MAX_RECONNECT_ATTEMPTS {
            errors + 1
        } else {
            errors
        },
        Outcome::Closed => if persistent {
            0
        } else {
            errors
        },
        Outcome::Shutdown => errors,
    }
}

/// Decides what a connection loop does next; `persistent` says whether it
/// connects again after the platform closed the connection.
pub fn after_connection(attempts: &mut Attempts, outcome: Outcome, persistent: bool) -> (r: Next)
    ensures
        r == next_step(old(attempts)@, outcome, persistent),
        final(attempts)@ == errors_after(old(attempts)@, outcome, persistent),
{
    match outcome {
        Outcome::Failed => match attempts.failed() {
            Retry::GiveUp => Next::Stop,
            Retry::Wait(secs) => Next::Wait(secs),
        },
        Outcome::Closed => if persistent {
            attempts.succeeded();
            Next::Again
        } else {
            Next::Stop
        },
        Outcome::Shutdown => Next::Stop,
    }
}

/// The failures in a row of a loop that registers each connection first: how many
/// registrations were refused since the last that was not, and how many connections
/// failed since the last that came up.
#[derive(Debug)]
pub struct StreamAttempts {
    refused: u32,
    broken: u32,
}

/// The failures of a loop that registers first.
pub struct StreamFailures {
    pub refused: nat,
    pub broken: nat,
}

impl StreamFailures {
    /// All failures that count.
    pub open spec fn total(self) -> nat {
        self.refused + self.broken
    }

    /// The failures once a registration was refused; a loop that gave up stays so.
    pub open spec fn with_refusal(self) -> StreamFailures {
        if self.total() < MAX_RECONNECT_ATTEMPTS {
            StreamFailures { refused: self.refused + 1, ..self }
        } else {
            self
        }
    }

    /// The failures once a connection failed; a loop that gave up stays so.
    pub open spec fn with_break(self) -> StreamFailures {
        if self.total() < MAX_RECONNECT_ATTEMPTS {
            StreamFailures { broken: self.broken + 1, ..self }
        } else {
            self
        }
    }

    /// The failures once a registration was accepted: it says nothing yet about the
    /// connection.
    pub open spec fn registered(self) -> StreamFailures {
        StreamFailures { refused: 0, ..self }
    }
}

/// No failures.
pub open spec fn no_failures() -> StreamFailures {
    StreamFailures { refused: 0, broken: 0 }
}

impl View for StreamAttempts {
    type V = StreamFailures;

    closed spec fn view(&self) -> StreamFailures {
        StreamFailures { refused: self.refused as nat, broken: self.broken as nat }
    }
}

impl StreamAttempts {
    #[verifier::type_invariant]
    spec fn wf(&self) -> bool {
        self.refused + self.broken <= MAX_RECONNECT_ATTEMPTS
    }

    /// Nothing has failed.
    pub fn new() -> (r: Self)
        ensures
            r@ == no_failures(),
    {
        StreamAttempts { refused: 0, broken: 0 }
    }

    /// Notes that the connection has come up: what failed before is forgotten.
    pub fn came_up(&mut self)
        ensures
            final(self)@ == no_failures(),
            final(self)@.total() == 0,
    {
        *self = StreamAttempts { refused: 0, broken: 0 };
    }

    fn next(&self) -> (r: Next)
        ensures
            r == next_after_failure(self@.total()),
    {
        proof {
            use_type_invariant(self);
        }
        let errors: u32 = self.refused + self.broken;
        if errors >= MAX_RECONNECT_ATTEMPTS {
            Next::Stop
        } else {
            Next::Wait(backoff_delay(errors))
        }
    }
}

/// Decides what a loop does once it has registered a connection, or could not:
/// nothing follows an accepted registration but the connection.
pub fn after_registration(attempts: &mut StreamAttempts, ok: bool) -> (r: Option<Next>)
    ensures
        ok ==> r is None && final(attempts)@ == old(attempts)@.registered(),
        !ok ==> final(attempts)@ == old(attempts)@.with_refusal() && r == Some(
            next_after_failure(old(attempts)@.with_refusal().total()),
        ),
{
    proof {
        use_type_invariant(&*attempts);
    }
    if ok {
        attempts.refused = 0;
        return None;
    }
    if attempts.refused + attempts.broken < MAX_RECONNECT_ATTEMPTS {
        attempts.refused = attempts.refused + 1;
    }
    Some(attempts.next())
}

/// What follows a registered connection that ended.
pub open spec fn next_of_stream(failures: StreamFailures, outcome: Outcome) -> Next {
    match outcome {
        Outcome::Failed => next_after_failure(failures.with_break().total()),
        Outcome::Closed => Next::Stop,
        Outcome::Shutdown => Next::Stop,
    }
}

/// Decides what a loop does once a registered connection has ended.
pub fn after_stream(attempts: &mut StreamAttempts, outcome: Outcome) -> (r: Next)
    ensures
        r == next_of_stream(old(attempts)@, outcome),
        final(attempts)@ == if outcome == Outcome::Failed {
            old(attempts)@.with_break()
        } else {
            old(attempts)@
        },
{
    proof {
        use_type_invariant(&*attempts);
    }
    match outcome {
        Outcome::Failed => {
            if attempts.refused + attempts.broken < MAX_RECONNECT_ATTEMPTS {
                attempts.broken = attempts.broken + 1;
            }
            attempts.next()
        },
        Outcome::Closed => Next::Stop,
        Outcome::Shutdown => Next::Stop,
    }
}

/// The failures after so many rounds, from those before: in each the registration
/// is refused, or it is accepted and the connection fails before it comes up.
pub open spec fn failures_after_rounds(before: StreamFailures, accepted: bool, rounds: nat) -> StreamFailures
    decreases rounds,
{
    if rounds == 0 {
        before
    } else {
        let earlier = failures_after_rounds(before, accepted, (rounds - 1) as nat);
        if accepted {
            earlier.registered().with_break()
        } else {
            earlier.with_refusal()
        }
    }
}

/// Registrations that are refused, and connections that never come up however often
/// they can be registered, end the loop at the tenth in a row; each before that is
/// followed by its wait.
pub proof fn law_failing_rounds_end_the_loop(accepted: bool, round: nat)
    requires
        0 < round <= MAX_RECONNECT_ATTEMPTS,
    ensures
        failures_after_rounds(no_failures(), accepted, round).total() == round,
        next_after_failure(failures_after_rounds(no_failures(), accepted, round).total()) == if round
            == MAX_RECONNECT_ATTEMPTS {
            Next::Stop
        } else {
            Next::Wait(backoff(round, MAX_RECONNECT_DELAY as nat) as u64)
        },
{
    lemma_rounds(accepted, round);
}

proof fn lemma_rounds(accepted: bool, round: nat)
    requires
        round <= MAX_RECONNECT_ATTEMPTS,
    ensures
        failures_after_rounds(no_failures(), accepted, round) == (if accepted {
            StreamFailures { refused: 0, broken: round }
        } else {
            StreamFailures { refused: round, broken: 0 }
        }),
    decreases round,
{
    if round > 0 {
        lemma_rounds(accepted, (round - 1) as nat);
    }
}

/// A failure after a connection that came up is the first in a row, whatever failed
/// before it, and the loop goes on after two seconds. So is a connection that fails
/// after a registration which had been refused any number of times, where none
/// failed before that.
pub proof fn law_failure_after_success_is_the_first(refused: nat)
    ensures
        no_failures().with_break().total() == 1,
        no_failures().with_refusal().total() == 1,
        next_of_stream(no_failures(), Outcome::Failed) == Next::Wait(2),
        next_after_failure(no_failures().with_refusal().total()) == Next::Wait(2),
        next_of_stream((StreamFailures { refused, broken: 0 }).registered(), Outcome::Failed) == Next::Wait(2),
{
    lemma2_to64();
}

/// A loop that goes on has failures to spare.
pub proof fn law_loop_stays_below_the_limit(errors: nat, outcome: Outcome, persistent: bool)
    requires
        errors < MAX_RECONNECT_ATTEMPTS,
        next_step(errors, outcome, persistent) != Next::Stop,
    ensures
        errors_after(errors, outcome, persistent) < MAX_RECONNECT_ATTEMPTS,
{
}

/// A connection is given up at the tenth failure in a row, and not before.
pub proof fn law_gives_up_at_the_limit(failures: nat)
    requires
        failures > 0,
    ensures
        retry_after(failures) == Retry::GiveUp <==> failures >= MAX_RECONNECT_ATTEMPTS,
        failures < MAX_RECONNECT_ATTEMPTS ==> retry_after(failures) == Retry::Wait(
            backoff(failures, MAX_RECONNECT_DELAY as nat) as u64,
        ),
{
}

/// The first wait is of two seconds, each further one is twice as long up to the bound, and
/// after nine failures the tenth ends the connection.
pub proof fn law_waits_double(failures: nat)
    ensures
        backoff(1, 30) == 2,
        backoff(failures + 1, 30) == (if 2 * backoff(failures, 30) < 30 {
            2 * backoff(failures, 30)
        } else {
            30
        }),
        retry_after(failures) == (if failures < 10 {
            Retry::Wait(backoff(failures, 30) as u64)
        } else {
            Retry::GiveUp
        }),
{
    lemma2_to64();
    lemma_pow2_unfold(failures + 1);
}

} // verus!
