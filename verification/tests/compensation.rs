use ironsaga::compensation::{after_compensating, result_check, CompensationNext, RollbackCmd};
use ironsaga::SyncCommand;
use std::cell::RefCell;
use std::rc::Rc;

type Log = Rc<RefCell<Vec<&'static str>>>;

struct Undo {
    log: Log,
    execute_ok: bool,
}

impl SyncCommand for Undo {
    fn execute(&mut self) -> anyhow::Result<()> {
        self.log.borrow_mut().push("execute");
        if self.execute_ok {
            Ok(())
        } else {
            Err(anyhow::Error::msg("compensation failed"))
        }
    }

    fn rollback(&mut self) -> anyhow::Result<()> {
        self.log.borrow_mut().push("rollback");
        Err(anyhow::Error::msg("ignored"))
    }
}

fn slot(recursive: bool, execute_ok: bool, log: &Log) -> RollbackCmd<Box<dyn SyncCommand>> {
    let mut rc: RollbackCmd<Box<dyn SyncCommand>> = RollbackCmd::new(recursive);
    rc.set(Box::new(Undo { log: log.clone(), execute_ok }));
    rc
}

#[test]
fn rollback_without_compensation_succeeds() {
    let mut rc: RollbackCmd<Box<dyn SyncCommand>> = RollbackCmd::new(true);
    assert!(!rc.is_set());
    assert!(rc.run().is_ok());
}

#[test]
fn rollback_runs_the_compensating_command() {
    let log: Log = Rc::new(RefCell::new(Vec::new()));
    let mut rc = slot(false, true, &log);
    assert!(rc.is_set());
    assert!(rc.run().is_ok());
    assert_eq!(*log.borrow(), vec!["execute"]);
}

#[test]
fn failed_compensation_is_reported() {
    let log: Log = Rc::new(RefCell::new(Vec::new()));
    let mut rc = slot(false, false, &log);
    assert_eq!(rc.run().unwrap_err().to_string(), "compensation failed");
    assert_eq!(*log.borrow(), vec!["execute"]);
}

#[test]
fn recursive_rollback_undoes_a_failed_compensation_and_keeps_its_error() {
    let log: Log = Rc::new(RefCell::new(Vec::new()));
    let mut rc = slot(true, false, &log);
    assert_eq!(rc.run().unwrap_err().to_string(), "compensation failed");
    assert_eq!(*log.borrow(), vec!["execute", "rollback"]);
}

#[test]
fn recursive_rollback_after_success_does_nothing_more() {
    let log: Log = Rc::new(RefCell::new(Vec::new()));
    let mut rc = slot(true, true, &log);
    assert!(rc.run().is_ok());
    assert_eq!(*log.borrow(), vec!["execute"]);
}

#[test]
fn next_step_after_compensating() {
    assert!(matches!(after_compensating(true, Ok(())), CompensationNext::Finish(Ok(()))));
    assert!(matches!(
        after_compensating(true, Err(anyhow::Error::msg("x"))),
        CompensationNext::RollbackThenFail(_)
    ));
    match after_compensating(false, Err(anyhow::Error::msg("x"))) {
        CompensationNext::Finish(Err(e)) => assert_eq!(e.to_string(), "x"),
        _ => panic!("a failure without recursion finishes with the error"),
    }
}

#[test]
fn result_check_reports_the_error_by_its_debug_text() {
    let ok: Result<u32, String> = Ok(3);
    assert!(result_check(&ok).is_ok());
    let err: Result<u32, &str> = Err("full name exceeded the limit.");
    assert_eq!(
        result_check(&err).unwrap_err().to_string(),
        "\"full name exceeded the limit.\""
    );
}
