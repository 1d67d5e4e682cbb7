use ironsaga::{Call, IronSagaAsync, IronSagaSync, SagaDriver, SyncCommand};
use std::cell::RefCell;
use std::rc::Rc;

fn fail(msg: &str) -> anyhow::Result<()> {
    Err(anyhow::Error::msg(msg.to_string()))
}

/// Runs a driver over `n` commands with the given outcomes, in order, and
/// returns the calls it asked for and its result.
fn drive(n: usize, mut outcomes: Vec<anyhow::Result<()>>) -> (Vec<Call>, anyhow::Result<()>) {
    outcomes.reverse();
    let mut driver = SagaDriver::new(n);
    let mut made = Vec::new();
    while let Some(call) = driver.next_call() {
        made.push(call);
        let outcome = outcomes.pop().expect("an outcome for every call");
        driver = driver.record(outcome);
    }
    (made, driver.finish())
}

#[test]
fn driver_executes_every_command_on_success() {
    let (calls, r) = drive(3, vec![Ok(()), Ok(()), Ok(())]);
    assert_eq!(calls, vec![Call::Execute(0), Call::Execute(1), Call::Execute(2)]);
    assert!(r.is_ok());
}

#[test]
fn driver_over_no_command_finishes_at_once() {
    let (calls, r) = drive(0, vec![]);
    assert!(calls.is_empty());
    assert!(r.is_ok());
}

#[test]
fn driver_unwinds_last_in_first_out() {
    let (calls, r) = drive(4, vec![Ok(()), Ok(()), fail("third"), Ok(()), Ok(())]);
    assert_eq!(
        calls,
        vec![
            Call::Execute(0),
            Call::Execute(1),
            Call::Execute(2),
            Call::Rollback(1),
            Call::Rollback(0),
        ]
    );
    assert_eq!(r.unwrap_err().to_string(), "third");
}

#[test]
fn driver_stops_at_a_failed_rollback() {
    let (calls, r) = drive(3, vec![Ok(()), Ok(()), fail("third"), fail("undo second")]);
    assert_eq!(
        calls,
        vec![Call::Execute(0), Call::Execute(1), Call::Execute(2), Call::Rollback(1)]
    );
    assert_eq!(r.unwrap_err().to_string(), "undo second");
}

#[test]
fn async_saga_keeps_its_commands_and_starts_runs_over_them() {
    let mut saga: IronSagaAsync<&'static str> = IronSagaAsync::default();
    saga.add_command("insert user");
    saga.add_command("add bonus");
    assert_eq!(saga.commands(), &["insert user", "add bonus"]);
    saga.commands_mut()[1] = "add salary";
    assert_eq!(saga.commands()[1], "add salary");
    let driver = saga.start_run();
    assert_eq!(driver.next_call(), Some(Call::Execute(0)));
}

struct Recorder {
    index: usize,
    calls: Rc<RefCell<Vec<Call>>>,
    execute_ok: bool,
    rollback_ok: bool,
}

impl SyncCommand for Recorder {
    fn execute(&mut self) -> anyhow::Result<()> {
        self.calls.borrow_mut().push(Call::Execute(self.index));
        if self.execute_ok { Ok(()) } else { Err(anyhow::Error::msg("execute failed")) }
    }

    fn rollback(&mut self) -> anyhow::Result<()> {
        self.calls.borrow_mut().push(Call::Rollback(self.index));
        if self.rollback_ok { Ok(()) } else { Err(anyhow::Error::msg("rollback failed")) }
    }
}

#[test]
fn sync_saga_and_driver_make_the_same_calls() {
    // commands 0..4; command 3 fails; the rollback of command 1 fails
    let calls = Rc::new(RefCell::new(Vec::new()));
    let mut saga: IronSagaSync<Recorder> = IronSagaSync::default();
    for index in 0..5 {
        saga.add_command(Recorder {
            index,
            calls: calls.clone(),
            execute_ok: index != 3,
            rollback_ok: index != 1,
        });
    }
    let sync_result = saga.execute_all();

    let outcomes = vec![
        Ok(()),
        Ok(()),
        Ok(()),
        Err(anyhow::Error::msg("execute failed")),
        Ok(()),
        Err(anyhow::Error::msg("rollback failed")),
    ];
    let (driver_calls, driver_result) = drive(5, outcomes);
    assert_eq!(*calls.borrow(), driver_calls);
    assert_eq!(
        driver_calls,
        vec![
            Call::Execute(0),
            Call::Execute(1),
            Call::Execute(2),
            Call::Execute(3),
            Call::Rollback(2),
            Call::Rollback(1),
        ]
    );
    assert_eq!(sync_result.unwrap_err().to_string(), "rollback failed");
    assert_eq!(driver_result.unwrap_err().to_string(), "rollback failed");
}
