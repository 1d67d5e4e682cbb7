//! The rollback of a single command: the compensating command attached to it,
//! and what the command reports when it executes.
use crate::saga_machine::{calls_on, lemma_calls_on_push, Call, CommandCall, Step};
use crate::sync_saga::SyncCommand;
use vstd::prelude::*;

verus! {

/// What to do once the compensating command has executed.
pub enum CompensationNext {
    /// The rollback is over with this result.
    Finish(Result<(), anyhow::Error>),
    /// Roll the compensating command back in turn (its outcome is ignored),
    /// then fail with this error, the one the compensating command reported.
    RollbackThenFail(anyhow::Error),
}

/// What a rollback does after its compensating command reported `outcome`:
/// nothing more on success; on failure, with `recursive`, roll the
/// compensating command back too and keep its error; without, fail with its
/// error.
pub open spec fn after_compensating_spec(recursive: bool, outcome: Result<(), anyhow::Error>)
    -> CompensationNext {
    match outcome {
        Ok(_) => CompensationNext::Finish(Ok(())),
        Err(e) => if recursive {
            CompensationNext::RollbackThenFail(e)
        } else {
            CompensationNext::Finish(Err(e))
        },
    }
}

/// What a rollback does after its compensating command reported `outcome`.
pub fn after_compensating(recursive: bool, outcome: Result<(), anyhow::Error>) -> (n:
    CompensationNext)
    ensures
        n == after_compensating_spec(recursive, outcome),
{
    match outcome {
        Ok(()) => CompensationNext::Finish(Ok(())),
        Err(e) => if recursive {
            CompensationNext::RollbackThenFail(e)
        } else {
            CompensationNext::Finish(Err(e))
        },
    }
}

/// `t` is the whole sequence of calls that a rollback made on its
/// compensating command (index 0), and `r` what the rollback reported.
pub open spec fn compensation_run(recursive: bool, t: Seq<Step>, r: Result<(), anyhow::Error>) -> bool {
    &&& t.len() >= 1
    &&& t[0].call == Call::Execute(0)
    &&& match after_compensating_spec(recursive, t[0].outcome) {
        CompensationNext::Finish(fin) => t.len() == 1 && r == fin,
        CompensationNext::RollbackThenFail(e) => t.len() == 2 && t[1].call == Call::Rollback(0)
            && r == Err::<(), anyhow::Error>(e),
    }
}

/// The compensating command attached to a command, run when the command is
/// rolled back.
pub struct RollbackCmd<R> {
    cmd: Option<R>,
    recursive: bool,
    last_run: Ghost<Seq<Step>>,
}

impl<R> RollbackCmd<R> {
    /// The compensating command, if one is attached.
    pub closed spec fn cmd(&self) -> Option<R> {
        self.cmd
    }

    /// A failure of the compensating command is rolled back in turn.
    pub closed spec fn recursive(&self) -> bool {
        self.recursive
    }

    /// The journal of the latest `run`: the calls made on the compensating
    /// command, with their outcomes. `run` states that the command's `history`
    /// grew by exactly these entries.
    pub closed spec fn last_run(&self) -> Seq<Step> {
        self.last_run@
    }

    /// No compensating command yet.
    pub fn new(recursive: bool) -> (rc: Self)
        ensures
            rc.cmd() is None,
            rc.recursive() == recursive,
            rc.last_run().len() == 0,
    {
        RollbackCmd { cmd: None, recursive, last_run: Ghost(Seq::empty()) }
    }

    /// Attaches `cmd`, in place of any earlier one.
    pub fn set(&mut self, cmd: R)
        ensures
            final(self).cmd() == Some(cmd),
            final(self).recursive() == old(self).recursive(),
            final(self).last_run() == old(self).last_run(),
    {
        self.cmd = Some(cmd);
    }

    /// Whether a compensating command is attached.
    pub fn is_set(&self) -> (b: bool)
        ensures
            b == self.cmd() is Some,
    {
        self.cmd.is_some()
    }
}

impl<R: SyncCommand> RollbackCmd<R> {
    /// Rolls the owning command back: executes the compensating command, if
    /// one is attached, and on its failure, when `recursive`, rolls it back in
    /// turn before failing with its error.
    pub fn run(&mut self) -> (r: Result<(), anyhow::Error>)
        ensures
            final(self).cmd() is Some == old(self).cmd() is Some,
            final(self).recursive() == old(self).recursive(),
            old(self).cmd() is None ==> r is Ok && final(self).last_run().len() == 0,
            old(self).cmd() is Some ==> compensation_run(
                old(self).recursive(),
                final(self).last_run(),
                r,
            ),
            old(self).cmd() is Some ==> final(self).cmd()->0.history() == old(
                self,
            ).cmd()->0.history() + calls_on(final(self).last_run(), 0),
    {
        self.last_run = Ghost(Seq::empty());
        match &mut self.cmd {
            None => Ok(()),
            Some(c) => {
                let outcome = c.execute();
                let ghost first = Step { call: Call::Execute(0), outcome };
                proof {
                    lemma_calls_on_push(Seq::empty(), first);
                    assert(calls_on(Seq::<Step>::empty(), 0) =~= Seq::<CommandCall>::empty());
                }
                let next = after_compensating(self.recursive, outcome);
                match next {
                    CompensationNext::Finish(fin) => {
                        self.last_run = Ghost(Seq::empty().push(first));
                        fin
                    },
                    CompensationNext::RollbackThenFail(e) => {
                        let undone = c.rollback();
                        proof {
                            lemma_calls_on_push(
                                Seq::empty().push(first),
                                Step { call: Call::Rollback(0), outcome: undone },
                            );
                        }
                        self.last_run = Ghost(
                            Seq::empty().push(first).push(
                                Step { call: Call::Rollback(0), outcome: undone },
                            ),
                        );
                        Err(e)
                    },
                }
            },
        }
    }
}

/// Builds the error of a command from the error value that its function
/// returned, through `anyhow::Error::msg` on the value's `Debug` text (what
/// `anyhow!("{:?}", e)` makes). Nothing is stated of the error, whose message
/// rests on the value's `Debug` impl.
#[verifier::external_body]
fn error_from_debug<E: core::fmt::Debug>(e: &E) -> anyhow::Error {
    anyhow::Error::msg(format!("{:?}", e))
}

/// What a command whose function returns a `Result` reports once the function
/// has returned `res`: success exactly when `res` is `Ok`.
pub fn result_check<T, E: core::fmt::Debug>(res: &Result<T, E>) -> (r: Result<(), anyhow::Error>)
    ensures
        r is Ok <==> res is Ok,
{
    match res {
        Ok(_) => Ok(()),
        Err(e) => Err(error_from_debug(e)),
    }
}

} // verus!
