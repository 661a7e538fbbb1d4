//! The core of an on-chain program that keeps one fixed-layout record per
//! account: the record's 50-byte codec, the three instruction handlers and
//! the dispatcher that guards and routes them.
//!
//! The host environment stays outside. Accounts come in as plain values
//! ([`Account`]), the time comes from a [`TimeSource`], and every function is
//! proved against a mathematical description of what it does.

pub mod account;
pub mod clock;
pub mod error;
pub mod little_endian;
pub mod model;
pub mod processor;
pub mod pubkey;
pub mod state;

pub use account::Account;
pub use clock::TimeSource;
pub use error::ProcessError;
pub use processor::{
    process_initialize_network, process_instruction, process_instruction_with,
    process_neural_computation, process_update_parameters,
};
pub use pubkey::Pubkey;
pub use state::NetworkState;
