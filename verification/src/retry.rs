//! When a lookup tries again.
//!
//! A lookup is a handful of attempts, each of them cut off after a short
//! time. The attempts themselves are the caller's business; here is what is
//! decided between them. The caller starts with `Retry::new().step()` and
//! then, as long as the step says [`Step::Try`], makes one attempt and
//! reports it to [`Retry::observe`], which gives the next step.

use vstd::prelude::*;
use crate::error::TaxInfoError;
use crate::info::TaxInfo;

verus! {

/// How many attempts a lookup makes at most.
pub const MAX_ATTEMPTS: usize = 3;

/// After how many milliseconds an attempt is given up.
pub const DEFAULT_TIMEOUT_MILLIS: u64 = 2_500;

/// How one attempt ended.
#[derive(Debug, PartialEq)]
pub enum Attempt {
    /// The attempt ran to its end, with this outcome.
    Finished(Result<TaxInfo, TaxInfoError>),
    /// The attempt was cut off because it took too long.
    TimedOut,
}

/// The attempts that a lookup may still make.
#[derive(Debug, PartialEq)]
pub struct Retry {
    pub remaining: usize,
}

/// What a lookup does next.
#[derive(Debug, PartialEq)]
pub enum Step {
    /// Make one attempt, and report it to [`Retry::observe`] of this state.
    Try(Retry),
    /// Stop and return this.
    Done(Result<TaxInfo, TaxInfoError>),
}

impl Attempt {
    /// Whether the attempt calls for another one: it timed out, or it
    /// failed in a way that may have passed by the next attempt.
    pub open spec fn retries(self) -> bool {
        match self {
            Attempt::TimedOut => true,
            Attempt::Finished(Err(e)) => e.spec_retryable(),
            Attempt::Finished(Ok(_)) => false,
        }
    }
}

impl Retry {
    /// The state before the first attempt.
    pub fn new() -> (fresh: Retry)
        ensures
            fresh.remaining == MAX_ATTEMPTS,
    {
        Retry { remaining: MAX_ATTEMPTS }
    }

    /// The step at the head of the loop: one more attempt where one is
    /// left, and otherwise the end.
    pub open spec fn spec_step(self) -> Step {
        if self.remaining > 0 {
            Step::Try(Retry { remaining: (self.remaining - 1) as usize })
        } else {
            Step::Done(Err(TaxInfoError::NoMoreRetries))
        }
    }

    /// The step after an attempt: a success and a failure that will not
    /// pass are returned at once; after a timeout or a failure that may
    /// pass, the loop goes on as [`Retry::spec_step`] says.
    pub open spec fn spec_observe(self, attempt: Attempt) -> Step {
        match attempt {
            Attempt::Finished(Ok(info)) => Step::Done(Ok(info)),
            Attempt::Finished(Err(e)) => if e.spec_retryable() {
                self.spec_step()
            } else {
                Step::Done(Err(e))
            },
            Attempt::TimedOut => self.spec_step(),
        }
    }

    /// Takes one attempt from the budget, or ends the lookup with
    /// [`TaxInfoError::NoMoreRetries`] where none is left.
    pub fn step(self) -> (next: Step)
        ensures
            next == self.spec_step(),
    {
        if self.remaining > 0 {
            Step::Try(Retry { remaining: self.remaining - 1 })
        } else {
            Step::Done(Err(TaxInfoError::NoMoreRetries))
        }
    }

    /// Decides what follows an attempt. A timeout counts like a failure
    /// that may pass: both use up the attempt and lead to the next one.
    pub fn observe(self, attempt: Attempt) -> (next: Step)
        ensures
            next == self.spec_observe(attempt),
    {
        match attempt {
            Attempt::Finished(Ok(info)) => Step::Done(Ok(info)),
            Attempt::Finished(Err(e)) => {
                if e.retryable() {
                    self.step()
                } else {
                    Step::Done(Err(e))
                }
            },
            Attempt::TimedOut => self.step(),
        }
    }
}

/// How a lookup went: what it returned, if it came to an end, and how many
/// attempts it made.
pub struct Run {
    pub result: Option<Result<TaxInfo, TaxInfoError>>,
    pub calls: nat,
}

/// How a lookup goes from the step `step` on when its attempts end as
/// `script` says, one after the other. Attempts are made only while the
/// step asks for one; where the script ends before the lookup does, there
/// is no result yet.
pub open spec fn run(step: Step, script: Seq<Attempt>) -> Run
    decreases script.len(),
{
    match step {
        Step::Done(result) => Run { result: Some(result), calls: 0 },
        Step::Try(state) => if script.len() == 0 {
            Run { result: None, calls: 0 }
        } else {
            let rest = run(state.spec_observe(script[0]), script.skip(1));
            Run { result: rest.result, calls: rest.calls + 1 }
        },
    }
}

/// How a lookup goes from its start.
pub open spec fn lookup(script: Seq<Attempt>) -> Run {
    run(Retry { remaining: MAX_ATTEMPTS }.spec_step(), script)
}

/// Whether the first `k` attempts of `script` each call for another one.
pub open spec fn retries_first(script: Seq<Attempt>, k: int) -> bool {
    forall|i: int| 0 <= i < k ==> (#[trigger] script[i]).retries()
}

proof fn lemma_run_is_bounded(state: Retry, script: Seq<Attempt>)
    ensures
        run(Step::Try(state), script).calls <= state.remaining + 1,
        run(Step::Try(state), script).calls <= script.len(),
    decreases script.len(),
{
    reveal_with_fuel(run, 2);
    if script.len() > 0 {
        match state.spec_observe(script[0]) {
            Step::Try(next) => {
                lemma_run_is_bounded(next, script.skip(1));
            },
            Step::Done(_) => {},
        }
    }
}

proof fn lemma_run_decides(state: Retry, script: Seq<Attempt>, k: int)
    requires
        0 <= k <= state.remaining,
        k < script.len(),
        retries_first(script, k),
        !script[k].retries(),
    ensures
        run(Step::Try(state), script) == (Run {
            result: Some(script[k]->Finished_0),
            calls: (k + 1) as nat,
        }),
    decreases k,
{
    reveal_with_fuel(run, 2);
    if k > 0 {
        let rest = script.skip(1);
        let next = Retry { remaining: (state.remaining - 1) as usize };
        assert(script[0].retries());
        assert(state.spec_observe(script[0]) == Step::Try(next));
        assert forall|i: int| 0 <= i < k - 1 implies (#[trigger] rest[i]).retries() by {
            assert(rest[i] == script[i + 1]);
        }
        assert(rest[k - 1] == script[k]);
        lemma_run_decides(next, rest, k - 1);
    }
}

proof fn lemma_run_gives_up(state: Retry, script: Seq<Attempt>)
    requires
        script.len() > state.remaining,
        retries_first(script, state.remaining + 1),
    ensures
        run(Step::Try(state), script) == (Run {
            result: Some(Err(TaxInfoError::NoMoreRetries)),
            calls: (state.remaining + 1) as nat,
        }),
    decreases state.remaining,
{
    reveal_with_fuel(run, 2);
    let rest = script.skip(1);
    assert(script[0].retries());
    if state.remaining > 0 {
        let next = Retry { remaining: (state.remaining - 1) as usize };
        assert(state.spec_observe(script[0]) == Step::Try(next));
        assert forall|i: int| 0 <= i < next.remaining + 1 implies (#[trigger] rest[i]).retries() by {
            assert(rest[i] == script[i + 1]);
        }
        lemma_run_gives_up(next, rest);
    } else {
        assert(state.spec_observe(script[0]) == Step::Done(Err(TaxInfoError::NoMoreRetries)));
    }
}

/// What a run from `Step::Try(state)` on comes to, in terms of the script.
pub open spec fn run_accounts_for(state: Retry, script: Seq<Attempt>) -> bool {
    let outcome = run(Step::Try(state), script);
    let n = outcome.calls as int;
    match outcome.result {
        None => n == script.len() && script.len() <= state.remaining && retries_first(script, n),
        Some(result) => 1 <= n <= script.len() && retries_first(script, n - 1) && if script[n
            - 1].retries() {
            n == state.remaining + 1 && result == Err::<TaxInfo, TaxInfoError>(
                TaxInfoError::NoMoreRetries,
            )
        } else {
            script[n - 1] == Attempt::Finished(result)
        },
    }
}

proof fn lemma_run_accounts(state: Retry, script: Seq<Attempt>)
    ensures
        run_accounts_for(state, script),
    decreases script.len(),
{
    reveal_with_fuel(run, 2);
    if script.len() > 0 {
        let rest = script.skip(1);
        match state.spec_observe(script[0]) {
            Step::Try(next) => {
                lemma_run_accounts(next, rest);
                let inner = run(Step::Try(next), rest);
                let m = inner.calls as int;
                assert forall|i: int| 0 <= i < m implies rest[i] == script[i + 1] by {}
                match inner.result {
                    None => {
                        assert forall|i: int| 0 <= i < m + 1 implies (#[trigger] script[i]).retries() by {
                            if i > 0 {
                                assert(rest[i - 1].retries());
                            }
                        }
                    },
                    Some(_) => {
                        assert forall|i: int| 0 <= i < m implies (#[trigger] script[i]).retries() by {
                            if i > 0 {
                                assert(rest[i - 1].retries());
                            }
                        }
                        assert(rest[m - 1] == script[m]);
                    },
                }
            },
            Step::Done(_) => {},
        }
    }
}

/// Every lookup is accounted for by its attempts. One that has ended made
/// at least one attempt, each but the last called for another, and the
/// last either decided the result, which is then its own outcome, or was
/// the last of [`MAX_ATTEMPTS`] that all called for another, and the
/// result is [`TaxInfoError::NoMoreRetries`]. One that has not ended has
/// made fewer than [`MAX_ATTEMPTS`] attempts, each of which called for
/// another.
pub proof fn lookup_is_accounted_for(script: Seq<Attempt>)
    ensures
        run_accounts_for(Retry { remaining: (MAX_ATTEMPTS - 1) as usize }, script),
        lookup(script) == run(
            Step::Try(Retry { remaining: (MAX_ATTEMPTS - 1) as usize }),
            script,
        ),
        lookup(script).result matches Some(Ok(info)) ==> script[lookup(script).calls - 1]
            == Attempt::Finished(Ok(info)),
{
    lemma_run_accounts(Retry { remaining: (MAX_ATTEMPTS - 1) as usize }, script);
}

/// A lookup never makes more than [`MAX_ATTEMPTS`] attempts, whatever they
/// come to.
pub proof fn lookup_is_bounded(script: Seq<Attempt>)
    ensures
        lookup(script).calls <= MAX_ATTEMPTS,
        lookup(script).calls <= script.len(),
{
    lemma_run_is_bounded(Retry { remaining: (MAX_ATTEMPTS - 1) as usize }, script);
}

/// The first attempt that does not call for another one ends the lookup,
/// provided that it is among the first [`MAX_ATTEMPTS`]: its outcome is
/// returned, and no attempt is made after it. So a failure that will not
/// pass, met at the first attempt, costs one attempt; and a success after
/// two timeouts costs three.
pub proof fn first_settled_attempt_decides(script: Seq<Attempt>, k: int)
    requires
        0 <= k < MAX_ATTEMPTS,
        k < script.len(),
        retries_first(script, k),
        !script[k].retries(),
    ensures
        lookup(script).result == Some(script[k]->Finished_0),
        lookup(script).calls == k + 1,
{
    lemma_run_decides(Retry { remaining: (MAX_ATTEMPTS - 1) as usize }, script, k);
}

/// Where each of the first [`MAX_ATTEMPTS`] attempts times out or fails in
/// a way that may pass, the lookup makes exactly that many attempts and
/// ends with [`TaxInfoError::NoMoreRetries`].
pub proof fn lookup_gives_up_after_max_attempts(script: Seq<Attempt>)
    requires
        script.len() >= MAX_ATTEMPTS,
        retries_first(script, MAX_ATTEMPTS as int),
    ensures
        lookup(script).result == Some(Err::<TaxInfo, TaxInfoError>(TaxInfoError::NoMoreRetries)),
        lookup(script).calls == MAX_ATTEMPTS,
{
    lemma_run_gives_up(Retry { remaining: (MAX_ATTEMPTS - 1) as usize }, script);
}

} // verus!
