//! The rules by which a saga drives its commands.
//!
//! A saga of `n` commands executes them in order. When the command at index
//! `k` fails, the saga rolls back the commands `k - 1, k - 2, ..., 0` (last in,
//! first out), stops at the first rollback that fails, and reports an error:
//! the rollback's error if one failed, the execute's error otherwise. The
//! failed command itself is not rolled back and the commands after it are
//! never executed.
//!
//! These rules are written once here, as a state machine over `SagaPhase`.
//! `IronSagaSync::execute_all` keeps a journal of the calls it makes and is
//! proved to follow the rules over it; its contract also ties the journal to
//! the commands: each command's `history` grows by exactly the journal's
//! entries for it. `SagaDriver` is proved to prescribe the calls the rules
//! name; the asynchronous loop that makes them stands outside Verus.
use vstd::prelude::*;

verus! {

/// A call that a saga makes on one of its commands, by index.
#[derive(Clone, Copy, Debug, PartialEq, Eq, Structural)]
pub enum Call {
    Execute(usize),
    Rollback(usize),
}

/// One call and the outcome that the command reported for it.
pub struct Step {
    pub call: Call,
    pub outcome: Result<(), anyhow::Error>,
}

/// A call that a command received, with the outcome it reported.
pub enum CommandCall {
    Execute(Result<(), anyhow::Error>),
    Rollback(Result<(), anyhow::Error>),
}

/// The index of the command that a call is made on.
pub open spec fn call_index(c: Call) -> int {
    match c {
        Call::Execute(i) => i as int,
        Call::Rollback(i) => i as int,
    }
}

/// The step `s` as the command it is made on sees it.
pub open spec fn as_command_call(s: Step) -> CommandCall {
    match s.call {
        Call::Execute(_) => CommandCall::Execute(s.outcome),
        Call::Rollback(_) => CommandCall::Rollback(s.outcome),
    }
}

/// The calls among the steps `t` that were made on the command at index `i`,
/// in order.
pub open spec fn calls_on(t: Seq<Step>, i: int) -> Seq<CommandCall>
    decreases t.len(),
{
    if t.len() == 0 {
        Seq::empty()
    } else if call_index(t.last().call) == i {
        calls_on(t.drop_last(), i).push(as_command_call(t.last()))
    } else {
        calls_on(t.drop_last(), i)
    }
}

/// One more step adds a call to the command it is made on, and to no other.
pub proof fn lemma_calls_on_push(t: Seq<Step>, s: Step)
    ensures
        forall|i: int|
            #[trigger] calls_on(t.push(s), i) == if call_index(s.call) == i {
                calls_on(t, i).push(as_command_call(s))
            } else {
                calls_on(t, i)
            },
{
    assert(t.push(s).drop_last() =~= t);
}

/// Where a run of a saga stands.
pub enum SagaPhase {
    /// The commands below the index have executed successfully; the one at the
    /// index executes next.
    Forward(usize),
    /// The command at the first index failed with the error; the commands below
    /// the index are still to be rolled back, the highest first.
    Unwinding(usize, anyhow::Error),
    /// The run is over with this result.
    Finished(Result<(), anyhow::Error>),
}

/// The call that a run in phase `p` over `n` commands makes next, if any.
pub open spec fn pending_call(p: SagaPhase, n: usize) -> Option<Call> {
    match p {
        SagaPhase::Forward(i) => if i < n { Some(Call::Execute(i)) } else { None },
        SagaPhase::Unwinding(i, _) => if i > 0 { Some(Call::Rollback((i - 1) as usize)) } else { None },
        SagaPhase::Finished(_) => None,
    }
}

/// The phase after the pending call of phase `p` reported `outcome`.
pub open spec fn advance(p: SagaPhase, outcome: Result<(), anyhow::Error>) -> SagaPhase {
    match p {
        SagaPhase::Forward(i) => match outcome {
            Ok(_) => SagaPhase::Forward((i + 1) as usize),
            Err(e) => SagaPhase::Unwinding(i, e),
        },
        SagaPhase::Unwinding(i, cause) => match outcome {
            Ok(_) => SagaPhase::Unwinding((i - 1) as usize, cause),
            Err(e) => SagaPhase::Finished(Err(e)),
        },
        SagaPhase::Finished(r) => SagaPhase::Finished(r),
    }
}

/// The result of a run in phase `p` over `n` commands, once no call is pending.
pub open spec fn settled(p: SagaPhase, n: usize) -> Option<Result<(), anyhow::Error>> {
    match p {
        SagaPhase::Forward(i) => if i >= n { Some(Ok(())) } else { None },
        SagaPhase::Unwinding(i, cause) => if i == 0 { Some(Err(cause)) } else { None },
        SagaPhase::Finished(r) => Some(r),
    }
}

/// The phase that a run over `n` commands reaches by the steps `t`, starting
/// from the beginning; `None` where a step is not the call the rules prescribe.
pub open spec fn replay(n: usize, t: Seq<Step>) -> Option<SagaPhase>
    decreases t.len(),
{
    if t.len() == 0 {
        Some(SagaPhase::Forward(0))
    } else {
        match replay(n, t.drop_last()) {
            Some(p) => if pending_call(p, n) == Some(t.last().call) {
                Some(advance(p, t.last().outcome))
            } else {
                None
            },
            None => None,
        }
    }
}

/// `t` is the whole sequence of calls of a run over `n` commands, and `r` the
/// result that the run reports.
pub open spec fn saga_run(n: usize, t: Seq<Step>, r: Result<(), anyhow::Error>) -> bool {
    match replay(n, t) {
        Some(p) => settled(p, n) == Some(r),
        None => false,
    }
}

/// Replaying one more step extends the replay by one transition.
pub proof fn lemma_replay_push(n: usize, t: Seq<Step>, s: Step)
    ensures
        replay(n, t.push(s)) == (match replay(n, t) {
            Some(p) => if pending_call(p, n) == Some(s.call) {
                Some(advance(p, s.outcome))
            } else {
                None
            },
            None => None,
        }),
{
    assert(t.push(s).drop_last() =~= t);
}

/// The first `k` steps of `t` executed the commands `0..k`, each successfully.
pub open spec fn executed_in_order(t: Seq<Step>, k: int) -> bool {
    &&& 0 <= k <= t.len()
    &&& forall|i: int|
        0 <= i < k ==> (#[trigger] t[i]).call == Call::Execute(i as usize) && t[i].outcome is Ok
}

/// The steps of `t` after index `k` roll back the commands `k - 1, k - 2, ...`
/// in that order.
pub open spec fn rolls_back_from(t: Seq<Step>, k: int) -> bool {
    forall|j: int| k < j < t.len() ==> (#[trigger] t[j]).call == Call::Rollback((2 * k - j) as usize)
}

/// The steps of `t` strictly between the indices `lo` and `hi` all succeeded.
pub open spec fn succeeded_between(t: Seq<Step>, lo: int, hi: int) -> bool {
    forall|j: int| lo < j < hi ==> (#[trigger] t[j]).outcome is Ok
}

/// What the steps `t` look like when they replay, over `n` commands, to the
/// phase `p`, with the command at `k` the one that failed, if one did.
pub open spec fn run_shape(n: usize, t: Seq<Step>, p: SagaPhase, k: int) -> bool {
    match p {
        SagaPhase::Forward(i) => t.len() == i && i <= n && executed_in_order(t, i as int),
        SagaPhase::Unwinding(i, e) => {
            &&& 0 <= i <= k < n
            &&& executed_in_order(t, k)
            &&& t[k].call == Call::Execute(k as usize)
            &&& t[k].outcome == Err::<(), anyhow::Error>(e)
            &&& t.len() == 2 * k + 1 - i
            &&& rolls_back_from(t, k)
            &&& succeeded_between(t, k, t.len() as int)
        },
        SagaPhase::Finished(r) => {
            &&& 0 <= k < n
            &&& executed_in_order(t, k)
            &&& t[k].call == Call::Execute(k as usize)
            &&& t[k].outcome is Err
            &&& k + 1 < t.len() <= 2 * k + 1
            &&& rolls_back_from(t, k)
            &&& succeeded_between(t, k, t.len() - 1)
            &&& t.last().outcome is Err
            &&& r == t.last().outcome
        },
    }
}

/// Every sequence of steps that the rules accept has the shape of a run.
pub proof fn lemma_run_shape(n: usize, t: Seq<Step>) -> (k: int)
    requires
        replay(n, t) is Some,
    ensures
        run_shape(n, t, replay(n, t)->0, k),
    decreases t.len(),
{
    if t.len() == 0 {
        0
    } else {
        let prev = t.drop_last();
        let s = t.last();
        let k0 = lemma_run_shape(n, prev);
        let p = replay(n, prev)->0;
        assert(forall|j: int| 0 <= j < prev.len() ==> prev[j] == t[j]);
        match p {
            SagaPhase::Forward(i) => {
                match s.outcome {
                    Ok(_) => {
                        assert(executed_in_order(t, (i + 1) as int));
                        0
                    },
                    Err(e) => {
                        assert(executed_in_order(t, i as int));
                        i as int
                    },
                }
            },
            SagaPhase::Unwinding(i, e) => {
                assert(rolls_back_from(t, k0));
                match s.outcome {
                    Ok(_) => {
                        assert(succeeded_between(t, k0, t.len() as int));
                        k0
                    },
                    Err(e2) => {
                        assert(succeeded_between(t, k0, t.len() - 1));
                        k0
                    },
                }
            },
            SagaPhase::Finished(_) => {
                k0
            },
        }
    }
}

} // verus!
