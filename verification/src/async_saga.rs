//! The pipeline of the asynchronous saga. Its commands are awaited by the
//! caller, which takes each call from a `SagaDriver` that this pipeline starts.
use crate::saga_driver::SagaDriver;
use crate::saga_machine::{SagaPhase, Step};
use vstd::prelude::*;

verus! {

/// A pipeline of asynchronous commands, run in the order in which they were
/// added. The commands are held as they were given; the caller awaits them in
/// the order that `start_run` prescribes.
pub struct IronSagaAsync<C> {
    commands: Vec<C>,
}

impl<C> Default for IronSagaAsync<C> {
    fn default() -> (saga: Self)
        ensures
            saga@.len() == 0,
    {
        IronSagaAsync { commands: Vec::new() }
    }
}

impl<C> IronSagaAsync<C> {
    /// The commands, in the order in which they run.
    pub closed spec fn view(&self) -> Seq<C> {
        self.commands@
    }

    /// Appends a command at the end of the pipeline.
    pub fn add_command(&mut self, c: C)
        ensures
            final(self)@ == old(self)@.push(c),
    {
        self.commands.push(c);
    }

    /// The commands, in the order in which they run.
    pub fn commands(&self) -> (cs: &[C])
        ensures
            cs@ == self@,
    {
        self.commands.as_slice()
    }

    /// The commands, in the order in which they run, to be changed in place.
    pub fn commands_mut(&mut self) -> (cs: &mut [C])
        ensures
            cs@ == old(self)@,
            final(cs)@ == final(self)@,
    {
        self.commands.as_mut_slice()
    }

    /// A fresh run over the commands of the pipeline.
    pub fn start_run(&self) -> (d: SagaDriver)
        ensures
            d.total() == self@.len(),
            d.phase() == SagaPhase::Forward(0),
            d.journal() == Seq::<Step>::empty(),
    {
        SagaDriver::new(self.commands.len())
    }
}

} // verus!
