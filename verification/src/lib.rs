//! Command pipelines with automatic compensation: either every command
//! succeeds, or the ones that ran are rolled back, last in first out.
use vstd::prelude::*;

pub mod async_saga;
pub mod cmd_args;
pub mod cmd_args_laws;
pub mod cmd_plan;
pub mod compensation;
pub mod saga_driver;
pub mod saga_laws;
pub mod saga_machine;
pub mod sync_saga;

pub use anyhow;
pub use async_saga::IronSagaAsync;
pub use saga_driver::SagaDriver;
pub use saga_machine::{Call, CommandCall, SagaPhase, Step};
pub use sync_saga::{IronSagaSync, SyncCommand};

verus! {

/// The error type that commands report, that of `anyhow`.
#[verifier::external_type_specification]
#[verifier::external_body]
pub struct ExAnyhowError(anyhow::Error);

} // verus!
