//! Keeps count of the calls of an operation: every call is attempted,
//! whatever became of those before it, and the operation fails if any did.
use crate::error::ChetterError;
use vstd::prelude::*;

verus! {

/// The failures among `outcomes`, in order.
pub open spec fn failures_of(outcomes: Seq<Result<(), ChetterError>>) -> Seq<ChetterError>
    decreases outcomes.len(),
{
    if outcomes.len() == 0 {
        Seq::empty()
    } else {
        match outcomes.last() {
            Ok(_) => failures_of(outcomes.drop_last()),
            Err(e) => failures_of(outcomes.drop_last()).push(e),
        }
    }
}

/// What an operation with the failures `failures` ends in: success where
/// there is none, and else the last of them.
pub open spec fn summed(failures: Seq<ChetterError>) -> Result<(), ChetterError> {
    if failures.len() == 0 {
        Ok(())
    } else {
        Err(failures.last())
    }
}

/// The calls of one operation, how many of them were attempted, and the
/// failures so far.
pub struct Attempts<T> {
    plan: Vec<T>,
    attempted: usize,
    failures: Vec<ChetterError>,
}

/// What an [`Attempts`] holds.
pub struct AttemptsView<T> {
    /// The calls to make, in order.
    pub plan: Seq<T>,
    /// How many of them were attempted.
    pub attempted: nat,
    /// The failures recorded, in order.
    pub failures: Seq<ChetterError>,
}

impl<T> AttemptsView<T> {
    /// The state before any call of `plan`.
    pub open spec fn start(plan: Seq<T>) -> Self {
        AttemptsView { plan, attempted: 0, failures: Seq::empty() }
    }

    /// The call to make next, if any is left.
    pub open spec fn pending(self) -> Option<T> {
        if self.attempted < self.plan.len() {
            Some(self.plan[self.attempted as int])
        } else {
            None
        }
    }

    /// The state once the pending call came to `outcome`: the call counts
    /// as attempted, and a failure is kept.
    pub open spec fn after(self, outcome: Result<(), ChetterError>) -> Self {
        AttemptsView {
            plan: self.plan,
            attempted: if self.attempted < self.plan.len() {
                self.attempted + 1
            } else {
                self.attempted
            },
            failures: match outcome {
                Ok(_) => self.failures,
                Err(e) => self.failures.push(e),
            },
        }
    }

    /// The state once calls came to `outcomes`, one after the other.
    pub open spec fn after_all(self, outcomes: Seq<Result<(), ChetterError>>) -> Self
        decreases outcomes.len(),
    {
        if outcomes.len() == 0 {
            self
        } else {
            self.after_all(outcomes.drop_last()).after(outcomes.last())
        }
    }

    /// What the operation ends in.
    pub open spec fn result(self) -> Result<(), ChetterError> {
        summed(self.failures)
    }
}

impl<T> View for Attempts<T> {
    type V = AttemptsView<T>;

    closed spec fn view(&self) -> AttemptsView<T> {
        AttemptsView {
            plan: self.plan@,
            attempted: self.attempted as nat,
            failures: self.failures@,
        }
    }
}

impl<T> Attempts<T> {
    /// Starts on the calls of `plan`, none of which is attempted yet.
    pub fn new(plan: Vec<T>) -> (attempts: Self)
        ensures
            attempts@ == AttemptsView::start(plan@),
    {
        Attempts { plan, attempted: 0, failures: Vec::new() }
    }

    /// The call to make next: the first that was not attempted, whatever
    /// the calls before it came to. `None` once all were attempted.
    pub fn pending(&self) -> (call: Option<&T>)
        ensures
            match call {
                Some(c) => self@.pending() == Some(*c),
                None => self@.pending() is None,
            },
    {
        if self.attempted < self.plan.len() {
            Some(&self.plan[self.attempted])
        } else {
            None
        }
    }

    /// Records what the pending call came to. A failure is kept in every
    /// case, also where no call was pending.
    pub fn record(&mut self, outcome: Result<(), ChetterError>)
        ensures
            final(self)@ == old(self)@.after(outcome),
    {
        let attempted = if self.attempted < self.plan.len() {
            self.attempted + 1
        } else {
            self.attempted
        };
        self.attempted = attempted;
        match outcome {
            Ok(_) => {},
            Err(e) => {
                self.failures.push(e);
            },
        }
    }

    /// What the operation ends in: success if no failure was recorded, and
    /// else the last failure.
    pub fn finish(self) -> (result: Result<(), ChetterError>)
        ensures
            result == self@.result(),
    {
        let mut failures = self.failures;
        match failures.pop() {
            None => Ok(()),
            Some(e) => Err(e),
        }
    }
}

/// However the calls come out, each call of the plan is handed out once,
/// in the order of the plan: after `outcomes`, as many calls were
/// attempted as outcomes came in, the next call is the one that follows
/// them in the plan, and the failures are those among the outcomes.
pub proof fn lemma_every_call_is_attempted<T>(
    plan: Seq<T>,
    outcomes: Seq<Result<(), ChetterError>>,
)
    requires
        outcomes.len() <= plan.len(),
    ensures
        AttemptsView::start(plan).after_all(outcomes).plan == plan,
        AttemptsView::start(plan).after_all(outcomes).attempted == outcomes.len(),
        AttemptsView::start(plan).after_all(outcomes).failures == failures_of(outcomes),
        AttemptsView::start(plan).after_all(outcomes).pending() == if outcomes.len()
            < plan.len() {
            Some(plan[outcomes.len() as int])
        } else {
            None
        },
    decreases outcomes.len(),
{
    if outcomes.len() > 0 {
        lemma_every_call_is_attempted(plan, outcomes.drop_last());
    }
}

/// An operation fails exactly if one of its calls failed.
pub proof fn lemma_failures_are_reported(outcomes: Seq<Result<(), ChetterError>>)
    ensures
        summed(failures_of(outcomes)) is Err <==> exists|i: int|
            0 <= i < outcomes.len() && (#[trigger] outcomes[i]) is Err,
    decreases outcomes.len(),
{
    if outcomes.len() > 0 {
        let shorter = outcomes.drop_last();
        lemma_failures_are_reported(shorter);
        if outcomes.last() is Ok {
            if summed(failures_of(shorter)) is Err {
                let i = choose|i: int| 0 <= i < shorter.len() && (#[trigger] shorter[i]) is Err;
                assert(outcomes[i] is Err);
            } else {
                assert forall|i: int| 0 <= i < outcomes.len() implies !((
                #[trigger] outcomes[i]) is Err) by {
                    if i < shorter.len() {
                        assert(shorter[i] == outcomes[i]);
                    }
                }
            }
        } else {
            assert(outcomes[outcomes.len() - 1] is Err);
        }
    }
}

/// A failed operation reports the failure of the last call that failed:
/// the call numbered `i`, where every later call succeeded.
pub proof fn lemma_last_failure_wins(outcomes: Seq<Result<(), ChetterError>>, i: int)
    requires
        0 <= i < outcomes.len(),
        outcomes[i] is Err,
        forall|j: int| i < j < outcomes.len() ==> (#[trigger] outcomes[j]) is Ok,
    ensures
        summed(failures_of(outcomes)) == Err::<(), ChetterError>(outcomes[i]->Err_0),
    decreases outcomes.len(),
{
    if i < outcomes.len() - 1 {
        let shorter = outcomes.drop_last();
        assert(outcomes[outcomes.len() - 1] is Ok);
        assert(shorter[i] == outcomes[i]);
        assert forall|j: int| i < j < shorter.len() implies (#[trigger] shorter[j]) is Ok by {
            assert(shorter[j] == outcomes[j]);
        }
        lemma_last_failure_wins(shorter, i);
    }
}

} // verus!
