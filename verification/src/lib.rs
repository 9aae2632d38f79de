//! A programmable custodial wallet engine.
//!
//! The wallet holds fungible token balances on an external ledger and
//! authorizes spending through passkey credentials rather than a single
//! private key.  This crate is the decision core: an explicit, verified
//! state machine that decides, for every state-changing operation, whether
//! it is permitted, by whom, and what side effects (spending limits,
//! transaction history, recovery state) accompany the decision.
//!
//! The host environment that embeds the engine supplies the ambient
//! inputs (the current time, the wallet's own address, token balances,
//! the outcome of the cryptographic signature check) and performs the
//! token transfers that successful operations request.  Everything the
//! engine itself decides is stated in contracts and proved.

pub mod auth;
pub mod bytes;
pub mod errors;
pub mod ledger;
pub mod ops;
pub mod policy;
pub mod recovery;
pub mod signers;
pub mod state;
pub mod types;

pub use errors::Error;
