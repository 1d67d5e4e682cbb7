//! A saga run taken one call at a time, for callers that make the calls
//! themselves (the asynchronous saga awaits each of them).
use crate::saga_machine::{
    advance, lemma_replay_push, pending_call, replay, saga_run, settled, Call, SagaPhase, Step,
};
use vstd::prelude::*;

verus! {

enum DriverPhase {
    Forward(usize),
    Unwinding(usize, anyhow::Error),
    Failed(anyhow::Error),
}

/// The decisions of one run of a saga over `total` commands: which call to
/// make next, given the outcomes of the calls made so far, and what the run
/// reports at the end.
pub struct SagaDriver {
    total: usize,
    phase: DriverPhase,
    journal: Ghost<Seq<Step>>,
}

impl SagaDriver {
    /// The number of commands of the run.
    pub closed spec fn total(&self) -> usize {
        self.total
    }

    /// Where the run stands.
    pub closed spec fn phase(&self) -> SagaPhase {
        match self.phase {
            DriverPhase::Forward(i) => SagaPhase::Forward(i),
            DriverPhase::Unwinding(i, e) => SagaPhase::Unwinding(i, e),
            DriverPhase::Failed(e) => SagaPhase::Finished(Err(e)),
        }
    }

    /// The calls recorded so far, with their outcomes.
    pub closed spec fn journal(&self) -> Seq<Step> {
        self.journal@
    }

    #[verifier::type_invariant]
    spec fn follows_the_rules(&self) -> bool {
        replay(self.total, self.journal@) == Some(self.phase())
    }

    /// A run over `total` commands, before its first call.
    pub fn new(total: usize) -> (d: Self)
        ensures
            d.total() == total,
            d.phase() == SagaPhase::Forward(0),
            d.journal() == Seq::<Step>::empty(),
    {
        SagaDriver { total, phase: DriverPhase::Forward(0), journal: Ghost(Seq::empty()) }
    }

    /// The call to make next, or `None` once the run is over.
    pub fn next_call(&self) -> (c: Option<Call>)
        ensures
            c == pending_call(self.phase(), self.total()),
    {
        match &self.phase {
            DriverPhase::Forward(i) => if *i < self.total {
                Some(Call::Execute(*i))
            } else {
                None
            },
            DriverPhase::Unwinding(i, _) => if *i > 0 {
                Some(Call::Rollback(*i - 1))
            } else {
                None
            },
            DriverPhase::Failed(_) => None,
        }
    }

    /// Takes in the outcome of the call that `next_call` named.
    pub fn record(self, outcome: Result<(), anyhow::Error>) -> (d: Self)
        requires
            pending_call(self.phase(), self.total()) is Some,
        ensures
            d.total() == self.total(),
            d.phase() == advance(self.phase(), outcome),
            d.journal() == self.journal().push(
                Step { call: pending_call(self.phase(), self.total())->0, outcome },
            ),
    {
        proof {
            use_type_invariant(&self);
        }
        let ghost old_phase = self.phase();
        let ghost step = Step { call: pending_call(old_phase, self.total)->0, outcome };
        proof {
            lemma_replay_push(self.total, self.journal@, step);
        }
        let SagaDriver { total, phase, journal } = self;
        let next = match phase {
            DriverPhase::Forward(i) => match outcome {
                Ok(()) => DriverPhase::Forward(i + 1),
                Err(e) => DriverPhase::Unwinding(i, e),
            },
            DriverPhase::Unwinding(i, cause) => match outcome {
                Ok(()) => DriverPhase::Unwinding(i - 1, cause),
                Err(e) => DriverPhase::Failed(e),
            },
            DriverPhase::Failed(e) => DriverPhase::Failed(e),
        };
        SagaDriver { total, phase: next, journal: Ghost(journal@.push(step)) }
    }

    /// What the run reports, once no call is left to make.
    pub fn finish(self) -> (r: Result<(), anyhow::Error>)
        requires
            pending_call(self.phase(), self.total()) is None,
        ensures
            settled(self.phase(), self.total()) == Some(r),
            saga_run(self.total(), self.journal(), r),
    {
        proof {
            use_type_invariant(&self);
        }
        match self.phase {
            DriverPhase::Forward(_) => Ok(()),
            DriverPhase::Unwinding(_, cause) => Err(cause),
            DriverPhase::Failed(e) => Err(e),
        }
    }
}

} // verus!
