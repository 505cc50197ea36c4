//! Retry with an exponentially growing delay and a ceiling on the time waited.
//!
//! The controller is driven by its caller. After [`BackoffState::new`] the
//! caller attempts the operation and reports the result with
//! [`BackoffState::step`]; the returned [`BackoffAction`] says what to do next.
//! After a failure the controller asks for a sleep of the current delay, unless
//! that sleep would bring the time waited in total above the ceiling: then it
//! gives up at once. When the caller reports the sleep as over, the delay is
//! doubled and the next attempt is due.

use vstd::arithmetic::power2::{lemma2_to64, lemma_pow2_pos, lemma_pow2_unfold, pow2};
use vstd::prelude::*;

verus! {

/// Where a retry sequence stands.
#[derive(Debug, Clone, Copy, PartialEq, Eq, Structural)]
pub enum BackoffPhase {
    /// The operation is due, or in flight.
    Attempting,
    /// The last attempt failed; the delay is being slept.
    Waiting,
    /// The operation succeeded. Terminal.
    Succeeded,
    /// A further sleep would have exceeded the ceiling. Terminal.
    Abandoned,
}

/// What the caller observed.
#[derive(Debug, Clone, PartialEq, Eq)]
pub enum BackoffEvent<E> {
    /// The attempt succeeded.
    Succeeded,
    /// The attempt failed.
    Failed(E),
    /// The requested sleep is over.
    Elapsed,
}

/// How a retry sequence ended.
#[derive(Debug, Clone, PartialEq, Eq)]
pub enum BackoffOutcome<E> {
    /// The operation succeeded.
    Succeeded,
    /// The controller gave up; the value is the last failure observed.
    Abandoned(E),
}

/// What the caller has to do next.
#[derive(Debug, Clone, PartialEq, Eq)]
pub enum BackoffAction<E> {
    /// Invoke the operation and report `Succeeded` or `Failed`.
    Attempt,
    /// Sleep for this many seconds and report `Elapsed`.
    Sleep(u64),
    /// Stop; the sequence is over.
    Finish(BackoffOutcome<E>),
    /// The event does not belong to the current phase and was ignored.
    Idle,
}

/// The state of one retry sequence. It is owned by the task that retries.
#[derive(Debug, Clone, Copy, PartialEq, Eq, Structural)]
pub struct BackoffState {
    /// Seconds to sleep after the next failure.
    pub delay: u64,
    /// Seconds slept so far, all sleeps together.
    pub waited: u64,
    /// The most seconds that the sequence may sleep, all sleeps together.
    pub ceiling: u64,
    pub phase: BackoffPhase,
}

/// The number as a machine word, or the largest machine word if it does not
/// fit.
pub open spec fn saturated(seconds: int) -> u64 {
    if seconds > u64::MAX {
        u64::MAX
    } else {
        seconds as u64
    }
}

/// The sum of a list of sleeps.
pub open spec fn total_delay(delays: Seq<u64>) -> nat
    decreases delays.len(),
{
    if delays.len() == 0 {
        0
    } else {
        delays[0] as nat + total_delay(delays.drop_first())
    }
}

/// The seconds slept in total by a sequence that has slept `rounds` times,
/// starting from a delay of `initial` seconds: `initial * (2^rounds - 1)`.
pub open spec fn total_wait(initial: nat, rounds: nat) -> nat {
    (initial * pow2(rounds) - initial) as nat
}

impl BackoffState {
    /// The state before the first attempt.
    pub open spec fn initial(initial: u64, ceiling: u64) -> Self {
        BackoffState { delay: initial, waited: 0, ceiling, phase: BackoffPhase::Attempting }
    }

    /// Whether no event can change the state any more.
    pub open spec fn is_terminal(self) -> bool {
        self.phase is Succeeded || self.phase is Abandoned
    }

    /// The time waited is within the ceiling, and so it is with the sleep in
    /// progress, if there is one.
    pub open spec fn wf(self) -> bool {
        &&& self.waited <= self.ceiling
        &&& self.phase is Waiting ==> self.waited + self.delay <= self.ceiling
    }

    /// The transition function: the next state and the action to carry out.
    pub open spec fn spec_step<E>(self, event: BackoffEvent<E>) -> (Self, BackoffAction<E>) {
        match (self.phase, event) {
            (BackoffPhase::Attempting, BackoffEvent::Succeeded) => (
                BackoffState { phase: BackoffPhase::Succeeded, ..self },
                BackoffAction::Finish(BackoffOutcome::Succeeded),
            ),
            (BackoffPhase::Attempting, BackoffEvent::Failed(failure)) => {
                if self.waited + self.delay > self.ceiling {
                    (
                        BackoffState { phase: BackoffPhase::Abandoned, ..self },
                        BackoffAction::Finish(BackoffOutcome::Abandoned(failure)),
                    )
                } else {
                    (
                        BackoffState { phase: BackoffPhase::Waiting, ..self },
                        BackoffAction::Sleep(self.delay),
                    )
                }
            },
            (BackoffPhase::Waiting, BackoffEvent::Elapsed) => (
                BackoffState {
                    delay: saturated(2 * self.delay),
                    waited: saturated(self.waited + self.delay),
                    phase: BackoffPhase::Attempting,
                    ..self
                },
                BackoffAction::Attempt,
            ),
            _ => (self, BackoffAction::Idle),
        }
    }

    /// The state reached from `self` when each of `failures` is reported in
    /// turn and each requested sleep is reported as elapsed.
    pub open spec fn after_failures<E>(self, failures: Seq<E>) -> Self
        decreases failures.len(),
    {
        if failures.len() == 0 {
            self
        } else {
            self.after_failures(failures.drop_last()).spec_step(
                BackoffEvent::Failed(failures.last()),
            ).0.spec_step(BackoffEvent::<E>::Elapsed).0
        }
    }

    /// The sleeps, in seconds, that the controller asks for while `events` are
    /// reported in turn, whatever the events are.
    pub open spec fn delays<E>(self, events: Seq<BackoffEvent<E>>) -> Seq<u64>
        decreases events.len(),
    {
        if events.len() == 0 {
            Seq::empty()
        } else {
            let (next, action) = self.spec_step(events[0]);
            let rest = next.delays(events.drop_first());
            match action {
                BackoffAction::Sleep(secs) => seq![secs] + rest,
                _ => rest,
            }
        }
    }

    /// How often the controller asks for a further attempt while `events` are
    /// reported in turn. The first attempt, which nobody asks for, is not
    /// counted.
    pub open spec fn retries<E>(self, events: Seq<BackoffEvent<E>>) -> nat
        decreases events.len(),
    {
        if events.len() == 0 {
            0
        } else {
            let (next, action) = self.spec_step(events[0]);
            let rest = next.retries(events.drop_first());
            if action is Attempt {
                rest + 1
            } else {
                rest
            }
        }
    }

    /// Starts a retry sequence. The first attempt is due at once: no delay is
    /// incurred if it succeeds. With an initial delay of zero the controller
    /// retries without pause and never gives up.
    pub fn new(initial: u64, ceiling: u64) -> (state: Self)
        ensures
            state == Self::initial(initial, ceiling),
            state.wf(),
    {
        BackoffState { delay: initial, waited: 0, ceiling, phase: BackoffPhase::Attempting }
    }

    /// Whether the sequence is over.
    pub fn is_finished(&self) -> (finished: bool)
        ensures
            finished == self.is_terminal(),
    {
        match self.phase {
            BackoffPhase::Succeeded => true,
            BackoffPhase::Abandoned => true,
            _ => false,
        }
    }

    /// Takes one event and returns the next state and the action to carry out.
    ///
    /// No sum or product overflows: a time that does not fit the machine word
    /// is above every ceiling, and is kept as the largest machine word.
    pub fn step<E>(self, event: BackoffEvent<E>) -> (next: (Self, BackoffAction<E>))
        ensures
            next == self.spec_step(event),
            self.wf() ==> next.0.wf(),
    {
        match self.phase {
            BackoffPhase::Attempting => match event {
                BackoffEvent::Succeeded => (
                    BackoffState { phase: BackoffPhase::Succeeded, ..self },
                    BackoffAction::Finish(BackoffOutcome::Succeeded),
                ),
                BackoffEvent::Failed(failure) => {
                    let within = match self.waited.checked_add(self.delay) {
                        Some(total) => total <= self.ceiling,
                        None => false,
                    };
                    if within {
                        (
                            BackoffState { phase: BackoffPhase::Waiting, ..self },
                            BackoffAction::Sleep(self.delay),
                        )
                    } else {
                        (
                            BackoffState { phase: BackoffPhase::Abandoned, ..self },
                            BackoffAction::Finish(BackoffOutcome::Abandoned(failure)),
                        )
                    }
                },
                BackoffEvent::Elapsed => (self, BackoffAction::Idle),
            },
            BackoffPhase::Waiting => match event {
                BackoffEvent::Elapsed => {
                    let delay = match self.delay.checked_mul(2) {
                        Some(doubled) => doubled,
                        None => u64::MAX,
                    };
                    let waited = match self.waited.checked_add(self.delay) {
                        Some(total) => total,
                        None => u64::MAX,
                    };
                    (
                        BackoffState {
                            delay,
                            waited,
                            ceiling: self.ceiling,
                            phase: BackoffPhase::Attempting,
                        },
                        BackoffAction::Attempt,
                    )
                },
                _ => (self, BackoffAction::Idle),
            },
            _ => (self, BackoffAction::Idle),
        }
    }
}

/// A sequence that is over, or whose next sleep would exceed the ceiling, asks
/// for no sleep and no further attempt.
proof fn lemma_nothing_when_spent<E>(state: BackoffState, events: Seq<BackoffEvent<E>>)
    requires
        state.is_terminal() || (state.phase is Attempting && state.waited + state.delay
            > state.ceiling),
    ensures
        state.delays(events).len() == 0,
        state.retries(events) == 0,
    decreases events.len(),
{
    if events.len() > 0 {
        lemma_nothing_when_spent(state.spec_step(events[0]).0, events.drop_first());
    }
}

/// After a sleep whose end brings a sum or product beyond the machine word, the
/// next sleep would exceed the ceiling.
proof fn lemma_spent_after_overflow(state: BackoffState)
    requires
        state.phase is Waiting,
        2 * state.delay > u64::MAX || state.waited + state.delay > u64::MAX,
    ensures
        ({
            let next = state.spec_step(BackoffEvent::<()>::Elapsed).0;
            next.phase is Attempting && next.waited + next.delay > next.ceiling
        }),
{
}

/// The sleeps that follow from any state: while an attempt is due they start
/// at the current delay, during a sleep at its double, and each is twice the
/// one before.
proof fn lemma_delays_from<E>(state: BackoffState, events: Seq<BackoffEvent<E>>, i: int)
    requires
        0 <= i < state.delays(events).len(),
    ensures
        state.phase is Attempting || state.phase is Waiting,
        state.phase is Attempting ==> state.delays(events)[i] == state.delay * pow2(i as nat),
        state.phase is Waiting ==> state.delays(events)[i] == 2 * state.delay * pow2(i as nat),
    decreases events.len(),
{
    if state.is_terminal() {
        lemma_nothing_when_spent(state, events);
    } else {
        let (next, action) = state.spec_step(events[0]);
        let later = events.drop_first();
        let rest = next.delays(later);
        let delay = state.delay as nat;
        assert(pow2(0) == 1) by {
            lemma2_to64();
        }
        if next.is_terminal() {
            lemma_nothing_when_spent(next, later);
        } else if action is Sleep {
            assert(state.delays(events) == seq![state.delay] + rest);
            if i == 0 {
                assert(delay * 1 == delay);
            } else {
                lemma_delays_from(next, later, i - 1);
                lemma_pow2_unfold(i as nat);
                let p = pow2((i - 1) as nat);
                assert(2 * delay * p == delay * (2 * p)) by (nonlinear_arith);
            }
        } else if action is Attempt {
            assert(state.delays(events) == rest);
            if 2 * state.delay > u64::MAX {
                lemma_spent_after_overflow(state);
                lemma_nothing_when_spent(next, later);
            } else {
                lemma_delays_from(next, later, i);
                assert((2 * delay) * pow2(i as nat) == 2 * delay * pow2(i as nat))
                    by (nonlinear_arith);
            }
        } else {
            assert(state.delays(events) == rest);
            lemma_delays_from(next, later, i);
        }
    }
}

/// The sleeps that follow from any state fit into what the ceiling leaves, and
/// no further attempt is asked for without a sleep before it.
proof fn lemma_total_from<E>(state: BackoffState, events: Seq<BackoffEvent<E>>)
    ensures
        state.is_terminal() ==> state.delays(events).len() == 0 && state.retries(events) == 0,
        state.phase is Attempting && state.delays(events).len() > 0 ==> state.waited
            + total_delay(state.delays(events)) <= state.ceiling,
        state.phase is Attempting ==> state.retries(events) <= state.delays(events).len(),
        state.phase is Waiting && state.delays(events).len() > 0 ==> state.waited + state.delay
            + total_delay(state.delays(events)) <= state.ceiling,
        state.phase is Waiting ==> state.retries(events) <= state.delays(events).len() + 1,
    decreases events.len(),
{
    if state.is_terminal() {
        lemma_nothing_when_spent(state, events);
    } else if events.len() > 0 {
        let (next, action) = state.spec_step(events[0]);
        let later = events.drop_first();
        let rest = next.delays(later);
        lemma_total_from(next, later);
        if action is Sleep {
            let all = seq![state.delay] + rest;
            assert(state.delays(events) == all);
            assert(all[0] == state.delay);
            assert(all.drop_first() == rest);
            assert(total_delay(rest) >= 0);
        } else if action is Attempt {
            assert(state.delays(events) == rest);
            if 2 * state.delay > u64::MAX || state.waited + state.delay > u64::MAX {
                lemma_spent_after_overflow(state);
                lemma_nothing_when_spent(next, later);
            }
        } else {
            assert(state.delays(events) == rest);
        }
    }
}

/// A list whose entries double from `first` on adds up to `first` times one
/// less than the power of two of its length.
proof fn lemma_sum_of_doubling(delays: Seq<u64>, first: nat)
    requires
        forall|i: int| 0 <= i < delays.len() ==> #[trigger] delays[i] == first * pow2(i as nat),
    ensures
        total_delay(delays) == total_wait(first, delays.len()),
        first <= first * pow2(delays.len()),
    decreases delays.len(),
{
    let n = delays.len();
    if n == 0 {
        assert(pow2(0) == 1) by {
            lemma2_to64();
        }
        assert(first * 1 == first);
    } else {
        let rest = delays.drop_first();
        let p = pow2((n - 1) as nat);
        lemma_pow2_unfold(n);
        assert(pow2(0) == 1) by {
            lemma2_to64();
        }
        assert(delays[0] == first * pow2(0));
        assert(first * 1 == first);
        assert forall|i: int| 0 <= i < rest.len() implies #[trigger] rest[i] == (2 * first) * pow2(
            i as nat,
        ) by {
            let q = pow2(i as nat);
            assert(rest[i] == delays[i + 1]);
            lemma_pow2_unfold((i + 1) as nat);
            assert(first * (2 * q) == (2 * first) * q) by (nonlinear_arith);
        }
        lemma_sum_of_doubling(rest, 2 * first);
        assert((2 * first) * p == first * (2 * p)) by (nonlinear_arith);
    }
}

/// The delays of every sequence of events, in whatever order and with
/// whatever results: the sleeps that the controller asks for, counted from
/// zero, are `initial * 2^i` seconds long.
pub proof fn lemma_delays_double<E>(
    initial: u64,
    ceiling: u64,
    events: Seq<BackoffEvent<E>>,
    i: int,
)
    requires
        0 <= i < BackoffState::initial(initial, ceiling).delays(events).len(),
    ensures
        BackoffState::initial(initial, ceiling).delays(events)[i] == initial * pow2(i as nat),
{
    lemma_delays_from(BackoffState::initial(initial, ceiling), events, i);
}

/// The ceiling holds for every sequence of events, however many failures it
/// reports: all the sleeps that the controller asks for add up to at most the
/// ceiling. With `n` sleeps the sum is `initial * (2^n - 1)`. A further attempt
/// is asked for only after a sleep.
pub proof fn lemma_delays_within_ceiling<E>(
    initial: u64,
    ceiling: u64,
    events: Seq<BackoffEvent<E>>,
)
    ensures
        ({
            let start = BackoffState::initial(initial, ceiling);
            &&& total_delay(start.delays(events)) <= ceiling
            &&& total_delay(start.delays(events)) == total_wait(
                initial as nat,
                start.delays(events).len(),
            )
            &&& start.retries(events) <= start.delays(events).len()
        }),
{
    let start = BackoffState::initial(initial, ceiling);
    let delays = start.delays(events);
    lemma_total_from(start, events);
    assert forall|i: int| 0 <= i < delays.len() implies #[trigger] delays[i] == (initial as nat)
        * pow2(i as nat) by {
        lemma_delays_double(initial, ceiling, events, i);
    }
    lemma_sum_of_doubling(delays, initial as nat);
}

/// Where a sequence stands after `n` failed attempts, each followed by the
/// sleep it was granted, when it started with a delay of `initial` seconds:
///
/// - the controller is about to attempt again exactly if the `n` sleeps of
///   `initial`, `2 * initial`, ... seconds fit into the ceiling together, and
///   has given up otherwise;
/// - while it goes on, it has waited `initial * (2^n - 1)` seconds and its
///   delay is `initial * 2^n`;
/// - a further failure is then answered by a sleep of exactly that delay if
///   the sleep still fits into the ceiling, and by giving up with that
///   failure, without any sleep, if it does not.
pub proof fn lemma_after_failures<E>(initial: u64, ceiling: u64, failures: Seq<E>, failure: E)
    ensures
        ({
            let n = failures.len();
            let state = BackoffState::initial(initial, ceiling).after_failures(failures);
            let (next, action) = state.spec_step(BackoffEvent::Failed(failure));
            &&& state.ceiling == ceiling
            &&& state.wf()
            &&& state.phase is Attempting || state.phase is Abandoned
            &&& state.phase is Attempting <==> total_wait(initial as nat, n) <= ceiling
            &&& state.phase is Attempting ==> {
                &&& state.waited == total_wait(initial as nat, n)
                &&& state.delay == saturated(initial * pow2(n))
                &&& total_wait(initial as nat, n + 1) <= ceiling ==> next.phase is Waiting
                    && action == BackoffAction::<E>::Sleep(state.delay) && state.delay == initial
                    * pow2(n)
                &&& total_wait(initial as nat, n + 1) > ceiling ==> next.phase is Abandoned
                    && action == BackoffAction::Finish(BackoffOutcome::Abandoned(failure))
            }
        }),
    decreases failures.len(),
{
    let n = failures.len();
    let a = initial as nat;
    let p = pow2(n);
    lemma_pow2_pos(n);
    lemma_pow2_unfold(n + 1);
    assert(a * (2 * p) - a == (a * p - a) + a * p) by (nonlinear_arith);
    assert(a * p >= a) by (nonlinear_arith)
        requires
            p >= 1,
            a >= 0,
    ;
    if n == 0 {
        assert(pow2(0) == 1) by {
            lemma2_to64();
        }
        assert(a * 1 == a);
    } else {
        lemma_after_failures(initial, ceiling, failures.drop_last(), failures.last());
        let q = pow2((n - 1) as nat);
        lemma_pow2_pos((n - 1) as nat);
        lemma_pow2_unfold(n);
        assert(a * (2 * q) - a == (a * q - a) + a * q) by (nonlinear_arith);
        assert(a * (2 * q) == 2 * (a * q)) by (nonlinear_arith);
        assert(a * q >= a) by (nonlinear_arith)
            requires
                q >= 1,
                a >= 0,
        ;
    }
}

/// Once a sequence has succeeded or was abandoned, no event changes the state
/// and none asks for a further attempt or sleep, however many failures
/// came before.
pub proof fn lemma_terminal_is_final<E>(state: BackoffState, event: BackoffEvent<E>)
    requires
        state.is_terminal(),
    ensures
        state.spec_step(event) == (state, BackoffAction::<E>::Idle),
{
}

/// A success on the first attempt ends the sequence at once, and no sleep is
/// asked for, then or later.
pub proof fn lemma_first_success_no_delay<E>(
    initial: u64,
    ceiling: u64,
    later: Seq<BackoffEvent<E>>,
)
    ensures
        BackoffState::initial(initial, ceiling).spec_step(BackoffEvent::<E>::Succeeded) == (
            BackoffState { delay: initial, waited: 0, ceiling, phase: BackoffPhase::Succeeded },
            BackoffAction::<E>::Finish(BackoffOutcome::Succeeded),
        ),
        BackoffState::initial(initial, ceiling).delays(
            seq![BackoffEvent::<E>::Succeeded] + later,
        ).len() == 0,
{
    let start = BackoffState::initial(initial, ceiling);
    let events = seq![BackoffEvent::<E>::Succeeded] + later;
    assert(events[0] == BackoffEvent::<E>::Succeeded);
    assert(events.drop_first() == later);
    lemma_nothing_when_spent(start.spec_step(events[0]).0, later);
}

} // verus!
