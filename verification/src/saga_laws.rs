//! What holds of every run of a saga, whichever driver ran it.
use crate::saga_machine::{
    as_command_call, call_index, calls_on, lemma_run_shape, pending_call, replay, saga_run,
    settled, Call, CommandCall, SagaPhase, Step,
};
use vstd::prelude::*;

verus! {

/// A run that succeeds executed every command exactly once, in the order of
/// the pipeline, and rolled nothing back.
pub proof fn law_success_executes_every_command_in_order(
    n: usize,
    t: Seq<Step>,
    r: Result<(), anyhow::Error>,
)
    requires
        saga_run(n, t, r),
        r is Ok,
    ensures
        t.len() == n,
        forall|i: int|
            0 <= i < n ==> (#[trigger] t[i]).call == Call::Execute(i as usize) && t[i].outcome is Ok,
{
    lemma_run_shape(n, t);
}

/// A run fails exactly when one of its calls failed.
pub proof fn law_fails_iff_some_call_failed(n: usize, t: Seq<Step>, r: Result<(), anyhow::Error>)
    requires
        saga_run(n, t, r),
    ensures
        r is Err <==> exists|j: int| 0 <= j < t.len() && (#[trigger] t[j]).outcome is Err,
{
    let k = lemma_run_shape(n, t);
    match replay(n, t)->0 {
        SagaPhase::Forward(i) => {
            assert forall|j: int| 0 <= j < t.len() implies !((#[trigger] t[j]).outcome is Err) by {}
        },
        SagaPhase::Unwinding(i, e) => {
            assert(t[k].outcome is Err);
        },
        SagaPhase::Finished(_) => {
            assert(t[k].outcome is Err);
        },
    }
}

/// When a run fails, the command at some index `k` failed after the commands
/// before it had all succeeded; no later command was executed; the commands
/// `k - 1, k - 2, ..., 0` were then rolled back in that order (last in, first
/// out), stopping at the first rollback that failed. The run reports the error
/// of that rollback, or, when every rollback succeeded, the error of the
/// command at `k`.
pub proof fn law_failure_rolls_back_in_reverse(
    n: usize,
    t: Seq<Step>,
    r: Result<(), anyhow::Error>,
) -> (k: int)
    requires
        saga_run(n, t, r),
        r is Err,
    ensures
        0 <= k < n,
        forall|i: int|
            0 <= i < k ==> (#[trigger] t[i]).call == Call::Execute(i as usize) && t[i].outcome is Ok,
        t[k].call == Call::Execute(k as usize),
        t[k].outcome is Err,
        k + 1 <= t.len() <= 2 * k + 1,
        forall|j: int| k < j < t.len() ==> (#[trigger] t[j]).call == Call::Rollback((2 * k - j) as usize),
        forall|j: int| k < j < t.len() - 1 ==> (#[trigger] t[j]).outcome is Ok,
        t.len() < 2 * k + 1 ==> t.len() > k + 1 && t.last().outcome is Err,
        r == (if t.len() > k + 1 && t.last().outcome is Err {
            t.last().outcome
        } else {
            t[k].outcome
        }),
{
    let k = lemma_run_shape(n, t);
    match replay(n, t)->0 {
        SagaPhase::Forward(i) => {},
        SagaPhase::Unwinding(i, e) => {
            if t.len() > k + 1 {
                assert(t[t.len() - 1].outcome is Ok);
            }
        },
        SagaPhase::Finished(_) => {},
    }
    k
}

/// The call at index `j` of `t` rolls back a command that executed
/// successfully earlier in `t`.
pub open spec fn compensates_completed(n: usize, t: Seq<Step>, j: int) -> bool {
    let i = t[j].call->Rollback_0;
    &&& i < j
    &&& i < n
    &&& t[i as int].call == Call::Execute(i)
    &&& t[i as int].outcome is Ok
}

/// A rollback only ever compensates a command that executed successfully
/// earlier in the same run, and no command is rolled back twice or executed
/// twice.
pub proof fn law_only_completed_commands_are_compensated(
    n: usize,
    t: Seq<Step>,
    r: Result<(), anyhow::Error>,
)
    requires
        saga_run(n, t, r),
    ensures
        forall|j: int|
            0 <= j < t.len() && (#[trigger] t[j]).call is Rollback ==> compensates_completed(
                n,
                t,
                j,
            ),
        forall|j1: int, j2: int|
            0 <= j1 < j2 < t.len() ==> (#[trigger] t[j1]).call != (#[trigger] t[j2]).call,
{
    let k = lemma_run_shape(n, t);
    match replay(n, t)->0 {
        SagaPhase::Forward(i) => {},
        SagaPhase::Unwinding(_, _) => {
            assert forall|j: int|
                0 <= j < t.len() && (#[trigger] t[j]).call is Rollback implies compensates_completed(
                n,
                t,
                j,
            ) by {
                let i = t[j].call->Rollback_0;
                if j < k {
                    assert(t[j].call == Call::Execute(j as usize));
                } else if j == k {
                } else {
                    assert(t[j].call == Call::Rollback((2 * k - j) as usize));
                    assert(t[i as int].call == Call::Execute(i));
                }
            }
        },
        SagaPhase::Finished(_) => {
            assert forall|j: int|
                0 <= j < t.len() && (#[trigger] t[j]).call is Rollback implies compensates_completed(
                n,
                t,
                j,
            ) by {
                let i = t[j].call->Rollback_0;
                if j < k {
                    assert(t[j].call == Call::Execute(j as usize));
                } else if j == k {
                } else {
                    assert(t[j].call == Call::Rollback((2 * k - j) as usize));
                    assert(t[i as int].call == Call::Execute(i));
                }
            }
        },
    }
}

/// A saga without commands succeeds without making a call.
pub proof fn law_empty_saga_succeeds(t: Seq<Step>, r: Result<(), anyhow::Error>)
    requires
        saga_run(0, t, r),
    ensures
        t.len() == 0,
        r is Ok,
{
    lemma_run_shape(0, t);
}

/// Two runs over the same number of commands whose calls reported the same
/// outcomes made the same calls and report the same result: the result and
/// the calls depend on nothing but the outcomes.
pub proof fn law_outcomes_determine_the_run(
    n: usize,
    t1: Seq<Step>,
    r1: Result<(), anyhow::Error>,
    t2: Seq<Step>,
    r2: Result<(), anyhow::Error>,
)
    requires
        saga_run(n, t1, r1),
        saga_run(n, t2, r2),
        forall|j: int| 0 <= j < t1.len() && j < t2.len() ==> (#[trigger] t1[j]).outcome == t2[j].outcome,
    ensures
        t1 == t2,
        r1 == r2,
{
    if t1.len() <= t2.len() {
        lemma_prefix_replays(n, t2, t1.len() as int);
        lemma_same_outcomes_same_prefix(n, t1, t2.take(t1.len() as int));
        lemma_settled_run_is_complete(n, t2, t1.len() as int);
    } else {
        lemma_prefix_replays(n, t1, t2.len() as int);
        lemma_same_outcomes_same_prefix(n, t2, t1.take(t2.len() as int));
        lemma_settled_run_is_complete(n, t1, t2.len() as int);
    }
    assert(t1 =~= t2);
}

/// Every prefix of a sequence of steps that the rules accept is accepted too.
proof fn lemma_prefix_replays(n: usize, t: Seq<Step>, m: int)
    requires
        replay(n, t) is Some,
        0 <= m <= t.len(),
    ensures
        replay(n, t.take(m)) is Some,
    decreases t.len(),
{
    if m < t.len() {
        let prev = t.drop_last();
        assert(prev.take(m) =~= t.take(m));
        lemma_prefix_replays(n, prev, m);
    } else {
        assert(t.take(m) =~= t);
    }
}

proof fn lemma_same_outcomes_same_prefix(n: usize, t1: Seq<Step>, t2: Seq<Step>)
    requires
        replay(n, t1) is Some,
        replay(n, t2) is Some,
        t1.len() == t2.len(),
        forall|j: int| 0 <= j < t1.len() ==> (#[trigger] t1[j]).outcome == t2[j].outcome,
    ensures
        t1 == t2,
        replay(n, t1) == replay(n, t2),
    decreases t1.len(),
{
    if t1.len() > 0 {
        let p1 = t1.drop_last();
        let p2 = t2.drop_last();
        assert(forall|j: int| 0 <= j < p1.len() ==> p1[j] == t1[j] && p2[j] == t2[j]);
        lemma_same_outcomes_same_prefix(n, p1, p2);
        assert(t1 =~= t2);
    }
}

/// Once a run has settled, the rules allow no further call: a run whose
/// prefix of length `m` settles ends there.
proof fn lemma_settled_run_is_complete(n: usize, t: Seq<Step>, m: int)
    requires
        replay(n, t) is Some,
        0 <= m <= t.len(),
        settled(replay(n, t.take(m))->0, n) is Some || replay(n, t.take(m)) is None,
    ensures
        m == t.len(),
    decreases t.len(),
{
    if m < t.len() {
        let prev = t.drop_last();
        assert(prev.take(m) =~= t.take(m));
        if m == prev.len() {
            assert(prev =~= t.take(m));
            let p = replay(n, prev)->0;
            assert(pending_call(p, n) is None);
        } else {
            lemma_settled_run_is_complete(n, prev, m);
        }
    }
}

/// In a run that succeeds, every command received exactly one call: an
/// `execute` that succeeded.
pub proof fn law_success_calls_on_each_command(n: usize, t: Seq<Step>, r: Result<(), anyhow::Error>)
    requires
        saga_run(n, t, r),
        r is Ok,
    ensures
        forall|i: int|
            0 <= i < n ==> #[trigger] calls_on(t, i) == seq![
                CommandCall::Execute(Ok::<(), anyhow::Error>(())),
            ],
{
    law_success_executes_every_command_in_order(n, t, r);
    assert forall|i: int| 0 <= i < n implies #[trigger] calls_on(t, i) == seq![
        CommandCall::Execute(Ok::<(), anyhow::Error>(())),
    ] by {
        assert forall|j: int| 0 <= j < t.len() && j != i implies call_index(t[j].call) != i by {
            assert(t[j].call == Call::Execute(j as usize));
        }
        assert(t[i].call == Call::Execute(i as usize));
        assert(t[i].outcome is Ok);
        let unit = t[i].outcome->Ok_0;
        assert(unit == ());
        assert(t[i].outcome == Ok::<(), anyhow::Error>(()));
        assert(as_command_call(t[i]) == CommandCall::Execute(Ok::<(), anyhow::Error>(())));
        lemma_calls_one(t, i, i);
    }
}

/// In a run that fails at the command `k`: the commands after `k` received
/// no call; `k` received its failed `execute` only; each command below `k`
/// received a successful `execute`, followed by a `rollback` exactly when the
/// unwinding reached it (the commands from `2k + 1 - t.len()` on).
pub proof fn law_failure_calls_on_each_command(
    n: usize,
    t: Seq<Step>,
    r: Result<(), anyhow::Error>,
) -> (k: int)
    requires
        saga_run(n, t, r),
        r is Err,
    ensures
        0 <= k < n,
        t[k].outcome is Err,
        forall|i: int| k < i < n ==> (#[trigger] calls_on(t, i)).len() == 0,
        calls_on(t, k) == seq![CommandCall::Execute(t[k].outcome)],
        forall|i: int|
            0 <= i < k && i >= 2 * k + 1 - t.len() ==> #[trigger] calls_on(t, i) == seq![
                CommandCall::Execute(Ok::<(), anyhow::Error>(())),
                CommandCall::Rollback(t[2 * k - i].outcome),
            ],
        forall|i: int|
            0 <= i < k && i < 2 * k + 1 - t.len() ==> #[trigger] calls_on(t, i) == seq![
                CommandCall::Execute(Ok::<(), anyhow::Error>(())),
            ],
{
    let k = law_failure_rolls_back_in_reverse(n, t, r);
    assert forall|j: int| 0 <= j < t.len() implies call_index(t[j].call) == if j <= k {
        j
    } else {
        2 * k - j
    } by {
        if j < k {
            assert(t[j].call == Call::Execute(j as usize));
        } else if j > k {
            assert(t[j].call == Call::Rollback((2 * k - j) as usize));
        }
    }
    assert forall|i: int| k < i < n implies (#[trigger] calls_on(t, i)).len() == 0 by {
        lemma_calls_none(t, i);
    }
    lemma_calls_one(t, k, k);
    assert forall|i: int| 0 <= i < k && i >= 2 * k + 1 - t.len() implies #[trigger] calls_on(
        t,
        i,
    ) == seq![
        CommandCall::Execute(Ok::<(), anyhow::Error>(())),
        CommandCall::Rollback(t[2 * k - i].outcome),
    ] by {
        assert(t[i].call == Call::Execute(i as usize));
        assert(t[i].outcome is Ok);
        let unit = t[i].outcome->Ok_0;
        assert(unit == ());
        assert(t[i].outcome == Ok::<(), anyhow::Error>(()));
        assert(t[2 * k - i].call == Call::Rollback(i as usize));
        assert(as_command_call(t[i]) == CommandCall::Execute(Ok::<(), anyhow::Error>(())));
        lemma_calls_two(t, i, i, 2 * k - i);
    }
    assert forall|i: int| 0 <= i < k && i < 2 * k + 1 - t.len() implies #[trigger] calls_on(
        t,
        i,
    ) == seq![CommandCall::Execute(Ok::<(), anyhow::Error>(()))] by {
        assert(t[i].call == Call::Execute(i as usize));
        assert(t[i].outcome is Ok);
        let unit = t[i].outcome->Ok_0;
        assert(unit == ());
        assert(t[i].outcome == Ok::<(), anyhow::Error>(()));
        assert(as_command_call(t[i]) == CommandCall::Execute(Ok::<(), anyhow::Error>(())));
        lemma_calls_one(t, i, i);
    }
    k
}

proof fn lemma_calls_none(t: Seq<Step>, i: int)
    requires
        forall|j: int| 0 <= j < t.len() ==> call_index((#[trigger] t[j]).call) != i,
    ensures
        calls_on(t, i) == Seq::<CommandCall>::empty(),
    decreases t.len(),
{
    if t.len() > 0 {
        let prev = t.drop_last();
        assert(forall|j: int| 0 <= j < prev.len() ==> prev[j] == t[j]);
        lemma_calls_none(prev, i);
    }
}

proof fn lemma_calls_one(t: Seq<Step>, i: int, p: int)
    requires
        0 <= p < t.len(),
        call_index(t[p].call) == i,
        forall|j: int| 0 <= j < t.len() && j != p ==> call_index((#[trigger] t[j]).call) != i,
    ensures
        calls_on(t, i) == seq![as_command_call(t[p])],
    decreases t.len(),
{
    let prev = t.drop_last();
    assert(forall|j: int| 0 <= j < prev.len() ==> prev[j] == t[j]);
    if p == t.len() - 1 {
        lemma_calls_none(prev, i);
        assert(calls_on(t, i) =~= seq![as_command_call(t[p])]);
    } else {
        lemma_calls_one(prev, i, p);
    }
}

proof fn lemma_calls_two(t: Seq<Step>, i: int, p: int, q: int)
    requires
        0 <= p < q < t.len(),
        call_index(t[p].call) == i,
        call_index(t[q].call) == i,
        forall|j: int|
            0 <= j < t.len() && j != p && j != q ==> call_index((#[trigger] t[j]).call) != i,
    ensures
        calls_on(t, i) == seq![as_command_call(t[p]), as_command_call(t[q])],
    decreases t.len(),
{
    let prev = t.drop_last();
    assert(forall|j: int| 0 <= j < prev.len() ==> prev[j] == t[j]);
    if q == t.len() - 1 {
        lemma_calls_one(prev, i, p);
        assert(calls_on(t, i) =~= seq![as_command_call(t[p]), as_command_call(t[q])]);
    } else {
        lemma_calls_two(prev, i, p, q);
    }
}

} // verus!
