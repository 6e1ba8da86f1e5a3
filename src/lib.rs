//! An I2C target (peripheral) contract, a verified in-process bus simulator
//! that meets it, and two example targets built on the simulator: an
//! addressable RAM and a register-file I/O expander.
//!
//! The simulator's target half, [`target::SimTarget`], is specified against
//! the model in [`model`]; [`laws`] states what holds across calls.
pub mod address;
pub mod contract;
pub mod descriptor;
pub mod error;
pub mod expander;
pub mod laws;
pub mod model;
pub mod ram;
pub mod target;
pub mod transaction;

pub use address::AnyAddress;
pub use contract::{I2cTarget, ReadTransaction, WriteTransaction};
pub use error::{ErrorKind, NoAcknowledgeSource};
pub use target::{OnRead, OnWrite, SimTarget};
pub use transaction::{
    ReadResult, Transaction, TransactionExpectEither, TransactionExpectRead,
    TransactionExpectWrite, WriteResult,
};
