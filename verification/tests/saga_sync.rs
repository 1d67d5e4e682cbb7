use ironsaga::compensation::RollbackCmd;
use ironsaga::{IronSagaSync, SyncCommand};
use std::cell::RefCell;
use std::rc::Rc;

/// Records every call made on the commands of a test, in order.
type Log = Rc<RefCell<Vec<String>>>;

/// A command that logs its calls and reports the outcomes it was given.
struct Scripted {
    name: &'static str,
    log: Log,
    execute_ok: bool,
    rollback_ok: bool,
}

impl SyncCommand for Scripted {
    fn execute(&mut self) -> anyhow::Result<()> {
        self.log.borrow_mut().push(format!("execute {}", self.name));
        if self.execute_ok {
            Ok(())
        } else {
            Err(anyhow::Error::msg(format!("{} failed", self.name)))
        }
    }

    fn rollback(&mut self) -> anyhow::Result<()> {
        self.log.borrow_mut().push(format!("rollback {}", self.name));
        if self.rollback_ok {
            Ok(())
        } else {
            Err(anyhow::Error::msg(format!("{} rollback failed", self.name)))
        }
    }
}

fn scripted(name: &'static str, log: &Log, execute_ok: bool, rollback_ok: bool) -> Box<dyn SyncCommand> {
    Box::new(Scripted { name, log: log.clone(), execute_ok, rollback_ok })
}

fn calls(log: &Log) -> Vec<String> {
    log.borrow().clone()
}

#[test]
fn all_commands_succeed_in_order() {
    let log: Log = Rc::new(RefCell::new(Vec::new()));
    let mut saga: IronSagaSync<Box<dyn SyncCommand>> = IronSagaSync::default();
    saga.add_command(scripted("a", &log, true, true));
    saga.add_command(scripted("b", &log, true, true));
    saga.add_command(scripted("c", &log, true, true));
    assert!(saga.execute_all().is_ok());
    assert_eq!(calls(&log), vec!["execute a", "execute b", "execute c"]);
}

#[test]
fn empty_saga_succeeds() {
    let mut saga: IronSagaSync<Box<dyn SyncCommand>> = IronSagaSync::default();
    assert!(saga.execute_all().is_ok());
    assert_eq!(saga.commands().len(), 0);
}

#[test]
fn failure_rolls_back_earlier_commands_last_first() {
    let log: Log = Rc::new(RefCell::new(Vec::new()));
    let mut saga: IronSagaSync<Box<dyn SyncCommand>> = IronSagaSync::default();
    saga.add_command(scripted("a", &log, true, true));
    saga.add_command(scripted("b", &log, true, true));
    saga.add_command(scripted("c", &log, false, true));
    saga.add_command(scripted("d", &log, true, true));
    let err = saga.execute_all().unwrap_err();
    assert_eq!(err.to_string(), "c failed");
    assert_eq!(
        calls(&log),
        vec!["execute a", "execute b", "execute c", "rollback b", "rollback a"]
    );
}

#[test]
fn first_command_failing_rolls_nothing_back() {
    let log: Log = Rc::new(RefCell::new(Vec::new()));
    let mut saga: IronSagaSync<Box<dyn SyncCommand>> = IronSagaSync::default();
    saga.add_command(scripted("a", &log, false, true));
    saga.add_command(scripted("b", &log, true, true));
    let err = saga.execute_all().unwrap_err();
    assert_eq!(err.to_string(), "a failed");
    assert_eq!(calls(&log), vec!["execute a"]);
}

#[test]
fn failed_rollback_stops_the_unwinding_and_is_reported() {
    let log: Log = Rc::new(RefCell::new(Vec::new()));
    let mut saga: IronSagaSync<Box<dyn SyncCommand>> = IronSagaSync::default();
    saga.add_command(scripted("a", &log, true, true));
    saga.add_command(scripted("b", &log, true, false));
    saga.add_command(scripted("c", &log, false, true));
    let err = saga.execute_all().unwrap_err();
    assert_eq!(err.to_string(), "b rollback failed");
    assert_eq!(calls(&log), vec!["execute a", "execute b", "execute c", "rollback b"]);
}

#[test]
fn commands_keep_the_order_of_addition() {
    let log: Log = Rc::new(RefCell::new(Vec::new()));
    let mut saga: IronSagaSync<Box<dyn SyncCommand>> = IronSagaSync::default();
    saga.add_command(scripted("a", &log, true, true));
    saga.add_command(scripted("b", &log, true, true));
    assert_eq!(saga.commands().len(), 2);
    saga.commands_mut()[1].execute().unwrap();
    saga.commands_mut()[0].rollback().unwrap();
    assert_eq!(calls(&log), vec!["execute b", "rollback a"]);
}

#[test]
fn boxed_command_forwards_its_calls() {
    let log: Log = Rc::new(RefCell::new(Vec::new()));
    let mut boxed = scripted("a", &log, true, false);
    assert!(boxed.execute().is_ok());
    assert!(boxed.rollback().is_err());
    assert_eq!(calls(&log), vec!["execute a", "rollback a"]);
}

// ── The order example of the crate's documentation ───────────────────────────

#[derive(Debug, Default)]
struct OrderContext {
    order_id: Option<u64>,
    payment_id: Option<u64>,
    shipment_id: Option<u64>,
    rollback_log: Vec<String>,
}

type Ctx = Rc<RefCell<OrderContext>>;

/// A command as the attribute makes it: the function's body runs once, its
/// result is kept, and a rollback runs the attached compensating command.
struct Cmd<F: FnMut() -> anyhow::Result<()>> {
    body: F,
    done: bool,
    rollback_cmd: RollbackCmd<Box<dyn SyncCommand>>,
}

impl<F: FnMut() -> anyhow::Result<()>> Cmd<F> {
    fn new(body: F) -> Self {
        Cmd { body, done: false, rollback_cmd: RollbackCmd::new(false) }
    }

    fn set_rollback(&mut self, rollback: impl SyncCommand + 'static) {
        self.rollback_cmd.set(Box::new(rollback));
    }
}

impl<F: FnMut() -> anyhow::Result<()>> SyncCommand for Cmd<F> {
    fn execute(&mut self) -> anyhow::Result<()> {
        if self.done {
            return Ok(());
        }
        self.done = true;
        (self.body)()
    }

    fn rollback(&mut self) -> anyhow::Result<()> {
        self.rollback_cmd.run()
    }
}

fn create_order(order_id: u64, ctx: Ctx) -> impl FnMut() -> anyhow::Result<()> {
    move || {
        ctx.borrow_mut().order_id = Some(order_id);
        Ok(())
    }
}

fn cancel_order(order_id: u64, ctx: Ctx) -> impl FnMut() -> anyhow::Result<()> {
    move || {
        ctx.borrow_mut().rollback_log.push(format!("order #{order_id} cancelled"));
        Ok(())
    }
}

fn charge_payment(payment_id: u64, ctx: Ctx) -> impl FnMut() -> anyhow::Result<()> {
    move || {
        ctx.borrow_mut().payment_id = Some(payment_id);
        Ok(())
    }
}

fn refund_payment(payment_id: u64, ctx: Ctx) -> impl FnMut() -> anyhow::Result<()> {
    move || {
        ctx.borrow_mut().rollback_log.push(format!("payment #{payment_id} refunded"));
        Ok(())
    }
}

fn schedule_shipment(_shipment_id: u64) -> impl FnMut() -> anyhow::Result<()> {
    move || Err(anyhow::Error::msg("shipment service unavailable!"))
}

#[test]
fn sync_example() {
    let ctx: Ctx = Rc::new(RefCell::new(OrderContext::default()));

    let mut create = Cmd::new(create_order(1001, ctx.clone()));
    create.set_rollback(Cmd::new(cancel_order(1001, ctx.clone())));

    let mut charge = Cmd::new(charge_payment(2002, ctx.clone()));
    charge.set_rollback(Cmd::new(refund_payment(2002, ctx.clone())));

    let ship = Cmd::new(schedule_shipment(3003));

    let mut saga: IronSagaSync<Box<dyn SyncCommand>> = IronSagaSync::default();
    saga.add_command(Box::new(create));
    saga.add_command(Box::new(charge));
    saga.add_command(Box::new(ship));

    let err = saga.execute_all().unwrap_err();
    assert_eq!(err.to_string(), "shipment service unavailable!");

    let ctx = ctx.borrow();
    assert_eq!(ctx.order_id, Some(1001));
    assert_eq!(ctx.payment_id, Some(2002));
    assert_eq!(ctx.shipment_id, None);
    assert_eq!(ctx.rollback_log.len(), 2);
    assert_eq!(ctx.rollback_log[0], "payment #2002 refunded");
    assert_eq!(ctx.rollback_log[1], "order #1001 cancelled");
}
