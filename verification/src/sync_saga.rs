//! The synchronous saga: a pipeline of commands that either all succeed or
//! roll back, last in first out.
use crate::saga_laws::{law_failure_calls_on_each_command, law_success_calls_on_each_command};
use crate::saga_machine::{
    calls_on, lemma_calls_on_push, lemma_replay_push, replay, saga_run, Call, CommandCall,
    SagaPhase, Step,
};
use vstd::prelude::*;

verus! {

/// A step of a pipeline that can be undone.
///
/// `execute` does the work; `rollback` compensates for it after a later step
/// of the pipeline has failed. Users implement it for their own commands.
///
/// `history` is the sequence of calls that the command has received, with the
/// outcome it reported for each: every call of `execute` or `rollback` adds
/// one entry and changes no earlier one. Pipelines state which calls they make
/// on each command through it.
pub trait SyncCommand {
    /// The calls that the command has received, with their outcomes, in order.
    /// Commands verified with Verus define it (over a ghost record they keep);
    /// for commands written outside Verus, which nothing here checks, the
    /// closed default stands in, and the `ensures` below are what the
    /// pipelines assume of them.
    closed spec fn history(&self) -> Seq<CommandCall> {
        Seq::empty()
    }

    fn execute(&mut self) -> (r: Result<(), anyhow::Error>)
        ensures
            final(self).history() == old(self).history().push(CommandCall::Execute(r)),
    ;

    fn rollback(&mut self) -> (r: Result<(), anyhow::Error>)
        ensures
            final(self).history() == old(self).history().push(CommandCall::Rollback(r)),
    ;
}

/// A boxed command, such as `Box<dyn SyncCommand>`, runs the command inside.
impl<C: SyncCommand + ?Sized> SyncCommand for Box<C> {
    open spec fn history(&self) -> Seq<CommandCall> {
        (**self).history()
    }

    fn execute(&mut self) -> (r: Result<(), anyhow::Error>) {
        (**self).execute()
    }

    fn rollback(&mut self) -> (r: Result<(), anyhow::Error>) {
        (**self).rollback()
    }
}

/// The commands `after` are the commands `before` once each has received the
/// calls that the steps `t` made on it: its history grew by exactly those
/// calls, and a command that received none is unchanged.
pub open spec fn histories_follow<C: SyncCommand>(before: Seq<C>, after: Seq<C>, t: Seq<Step>) -> bool {
    &&& after.len() == before.len()
    &&& forall|j: int|
        0 <= j < before.len() ==> (#[trigger] after[j]).history() == before[j].history() + calls_on(
            t,
            j,
        )
    &&& forall|j: int|
        0 <= j < before.len() && calls_on(t, j).len() == 0 ==> #[trigger] after[j] == before[j]
}

/// A pipeline of synchronous commands, run in the order in which they were
/// added. Commands of several types go in as `Box<dyn SyncCommand>`.
pub struct IronSagaSync<C> {
    commands: Vec<C>,
    last_run: Ghost<Seq<Step>>,
}

impl<C> Default for IronSagaSync<C> {
    fn default() -> (saga: Self)
        ensures
            saga@.len() == 0,
            saga.last_run().len() == 0,
    {
        IronSagaSync { commands: Vec::new(), last_run: Ghost(Seq::empty()) }
    }
}

impl<C> IronSagaSync<C> {
    /// The commands, in the order in which they run.
    pub closed spec fn view(&self) -> Seq<C> {
        self.commands@
    }

    /// The journal of the latest `execute_all`: its calls, with their outcomes,
    /// in order. `execute_all` states that each command's `history` grew by
    /// exactly the journal's entries for it.
    pub closed spec fn last_run(&self) -> Seq<Step> {
        self.last_run@
    }

    /// Appends a command at the end of the pipeline.
    pub fn add_command(&mut self, c: C)
        ensures
            final(self)@ == old(self)@.push(c),
            final(self).last_run() == old(self).last_run(),
    {
        self.commands.push(c);
    }

    /// The commands, in the order in which they run.
    pub fn commands(&self) -> (cs: &[C])
        ensures
            cs@ == self@,
    {
        self.commands.as_slice()
    }

    /// The commands, in the order in which they run, to be changed in place.
    pub fn commands_mut(&mut self) -> (cs: &mut [C])
        ensures
            cs@ == old(self)@,
            final(cs)@ == final(self)@,
            final(self).last_run() == old(self).last_run(),
    {
        self.commands.as_mut_slice()
    }
}

impl<C: SyncCommand> IronSagaSync<C> {
    /// Runs the commands in order. When one fails, rolls back the commands
    /// before it, the latest first, and returns the error: the error of the
    /// first rollback that failed (no rollback is tried after it), or else the
    /// error of the failed command.
    pub fn execute_all(&mut self) -> (r: Result<(), anyhow::Error>)
        ensures
            final(self)@.len() == old(self)@.len(),
            saga_run(old(self)@.len() as usize, final(self).last_run(), r),
            histories_follow(old(self)@, final(self)@, final(self).last_run()),
    {
        self.last_run = Ghost(Seq::empty());
        let n = self.commands.len();
        let mut i: usize = 0;
        while i < n
            invariant
                i <= n,
                n == self.commands@.len(),
                n == old(self).commands@.len(),
                replay(n, self.last_run@) == Some(SagaPhase::Forward(i)),
                histories_follow(old(self).commands@, self.commands@, self.last_run@),
            decreases n - i,
        {
            let r = self.commands[i].execute();
            proof {
                lemma_replay_push(n, self.last_run@, Step { call: Call::Execute(i), outcome: r });
                lemma_calls_on_push(self.last_run@, Step { call: Call::Execute(i), outcome: r });
            }
            self.last_run = Ghost(self.last_run@.push(Step { call: Call::Execute(i), outcome: r }));
            match r {
                Ok(()) => {},
                Err(e) => {
                    let rolled = self.rollback_all(i, Ghost(e), Ghost(old(self).commands@));
                    match rolled {
                        Ok(()) => {
                            return Err(e);
                        },
                        Err(rollback_error) => {
                            return Err(rollback_error);
                        },
                    }
                },
            }
            i = i + 1;
        }
        Ok(())
    }

    /// Rolls back the commands below `index`, the highest first, and stops at
    /// the first rollback that fails, returning its error.
    fn rollback_all(
        &mut self,
        index: usize,
        Ghost(cause): Ghost<anyhow::Error>,
        Ghost(before): Ghost<Seq<C>>,
    ) -> (r: Result<(), anyhow::Error>)
        requires
            index <= old(self)@.len(),
            histories_follow(before, old(self)@, old(self).last_run()),
            replay(old(self)@.len() as usize, old(self).last_run()) == Some(
                SagaPhase::Unwinding(index, cause),
            ),
        ensures
            final(self)@.len() == old(self)@.len(),
            replay(old(self)@.len() as usize, final(self).last_run()) == Some(
                match r {
                    Ok(_) => SagaPhase::Unwinding(0, cause),
                    Err(e) => SagaPhase::Finished(Err(e)),
                },
            ),
            histories_follow(before, final(self)@, final(self).last_run()),
    {
        let n = self.commands.len();
        let mut i: usize = index;
        while i > 0
            invariant
                i <= index,
                n == self.commands@.len(),
                n == old(self).commands@.len(),
                index <= n,
                replay(n, self.last_run@) == Some(SagaPhase::Unwinding(i, cause)),
                histories_follow(before, self.commands@, self.last_run@),
            decreases i,
        {
            i = i - 1;
            let r = self.commands[i].rollback();
            proof {
                lemma_replay_push(n, self.last_run@, Step { call: Call::Rollback(i), outcome: r });
                lemma_calls_on_push(self.last_run@, Step { call: Call::Rollback(i), outcome: r });
            }
            self.last_run = Ghost(self.last_run@.push(Step { call: Call::Rollback(i), outcome: r }));
            match r {
                Ok(()) => {},
                Err(e) => {
                    return Err(e);
                },
            }
        }
        Ok(())
    }
}

/// After a run of `execute_all` that succeeded, each command's history grew
/// by exactly one successful `execute`.
pub proof fn law_success_histories<C: SyncCommand>(
    before: Seq<C>,
    after: Seq<C>,
    t: Seq<Step>,
    r: Result<(), anyhow::Error>,
)
    requires
        before.len() <= usize::MAX,
        saga_run(before.len() as usize, t, r),
        histories_follow(before, after, t),
        r is Ok,
    ensures
        forall|i: int|
            0 <= i < before.len() ==> (#[trigger] after[i]).history() == before[i].history().push(
                CommandCall::Execute(Ok(())),
            ),
{
    law_success_calls_on_each_command(before.len() as usize, t, r);
    assert forall|i: int| 0 <= i < before.len() implies (#[trigger] after[i]).history()
        == before[i].history().push(CommandCall::Execute(Ok(()))) by {
        assert(calls_on(t, i) == seq![CommandCall::Execute(Ok::<(), anyhow::Error>(()))]);
        assert(before[i].history() + calls_on(t, i) =~= before[i].history().push(
            CommandCall::Execute(Ok(())),
        ));
    }
}

/// After a run of `execute_all` that failed at the command `k`: the commands
/// after `k` are unchanged; `k`'s history grew by its failed `execute`; the
/// history of each command below `k` grew by a successful `execute`, and by a
/// `rollback` too where the unwinding reached it (from index `2k + 1 - t.len()`
/// on).
pub proof fn law_failure_histories<C: SyncCommand>(
    before: Seq<C>,
    after: Seq<C>,
    t: Seq<Step>,
    r: Result<(), anyhow::Error>,
) -> (k: int)
    requires
        before.len() <= usize::MAX,
        saga_run(before.len() as usize, t, r),
        histories_follow(before, after, t),
        r is Err,
    ensures
        0 <= k < before.len(),
        t[k].outcome is Err,
        forall|i: int| k < i < before.len() ==> #[trigger] after[i] == before[i],
        after[k].history() == before[k].history().push(CommandCall::Execute(t[k].outcome)),
        forall|i: int|
            0 <= i < k && i >= 2 * k + 1 - t.len() ==> (#[trigger] after[i]).history()
                == before[i].history().push(CommandCall::Execute(Ok(()))).push(
                CommandCall::Rollback(t[2 * k - i].outcome),
            ),
        forall|i: int|
            0 <= i < k && i < 2 * k + 1 - t.len() ==> (#[trigger] after[i]).history()
                == before[i].history().push(CommandCall::Execute(Ok(()))),
{
    let k = law_failure_calls_on_each_command(before.len() as usize, t, r);
    assert forall|i: int| k < i < before.len() implies #[trigger] after[i] == before[i] by {
        assert(calls_on(t, i).len() == 0);
    }
    assert(before[k].history() + calls_on(t, k) =~= before[k].history().push(
        CommandCall::Execute(t[k].outcome),
    ));
    assert forall|i: int| 0 <= i < k && i >= 2 * k + 1 - t.len() implies (#[trigger] after[i]).history()
        == before[i].history().push(CommandCall::Execute(Ok(()))).push(
        CommandCall::Rollback(t[2 * k - i].outcome),
    ) by {
        assert(before[i].history() + calls_on(t, i) =~= before[i].history().push(
            CommandCall::Execute(Ok(())),
        ).push(CommandCall::Rollback(t[2 * k - i].outcome)));
    }
    assert forall|i: int| 0 <= i < k && i < 2 * k + 1 - t.len() implies (#[trigger] after[i]).history()
        == before[i].history().push(CommandCall::Execute(Ok(()))) by {
        assert(before[i].history() + calls_on(t, i) =~= before[i].history().push(
            CommandCall::Execute(Ok(())),
        ));
    }
    k
}

} // verus!
