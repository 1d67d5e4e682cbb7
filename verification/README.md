# ironsaga

Command pipelines with automatic compensation. A saga runs its commands in
order; when one fails, the commands that already ran are rolled back, the
latest first, and the error is reported.

## Layout

- `src/` — the library, verified with Verus.
  - `saga_machine.rs`: the rules of a run as a state machine (`replay`,
    `saga_run`), shared by every driver.
  - `sync_saga.rs`: `SyncCommand`, whose `history` records the calls a command
    receives, and `IronSagaSync`, whose `execute_all` is proved to follow the
    rules over a journal of its calls, with each command's `history` growing by
    exactly the journal's entries for it.
  - `saga_driver.rs`: `SagaDriver`, the same rules one call at a time, for
    callers that await their commands.
  - `async_saga.rs`: `IronSagaAsync`, the pipeline of asynchronous commands.
  - `saga_laws.rs`: what holds of every run (all or nothing, last in first
    out, determinism).
  - `compensation.rs`: the rollback of one command through its compensating
    command (`RollbackCmd`), plain or recursive.
  - `cmd_args.rs`, `cmd_plan.rs`: the decisions of the `ironcmd` attribute —
    its argument list, the name of the generated type, how each parameter is
    stored.
- `app/` — ordinary Rust around the library: the `async` command trait and
  the loop that awaits a `SagaDriver`'s calls, the code generation of the
  `ironcmd` attribute (`syn`/`quote`), and the order example.
- `tests/` — the library's tests.
