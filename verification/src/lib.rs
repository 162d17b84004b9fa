//! Execution core for Wasm smart contracts inside a deterministic chain runtime.
//!
//! The crate keeps the ledger of contracts, their code and their storage, meters gas and
//! storage deposits, and runs nested calls as a stack of frames whose changes commit or roll
//! back one frame at a time. The code of a contract runs elsewhere: whoever runs it drives
//! the stack through its host functions and tells it how each frame ended.

pub mod address;
pub mod code_cache;
pub mod config;
pub mod contract;
pub mod deletion;
pub mod deposit;
pub mod dispatch;
pub mod error;
pub mod event;
pub mod exec;
pub mod gas;
pub mod invariants;
pub mod laws;
pub mod ledger;
pub mod pallet;
pub mod primitives;
pub mod recount;
pub mod run;
pub mod sandbox;
pub mod state;
pub mod storage;
pub mod sums;
pub mod table;
pub mod weight;

pub use address::{AddressGenerator, DefaultAddressGenerator};
pub use config::Config;
pub use error::Error;
pub use event::Event;
pub use pallet::Pallet;
