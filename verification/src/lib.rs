//! A two-party token swap through an escrow record.
//!
//! A maker locks a deposit of one mint in a vault and names what is wanted
//! of another mint in return. Any taker may fill the offer, paying the maker
//! and receiving all the vault holds; or the maker may take the offer back.
//! Either way the vault and the record are closed.
//!
//! `Exchange` holds a token `Ledger` and the `EscrowRegistry` of open
//! offers; `make`, `take` and `refund` are the three requests. What they do
//! is stated over `model::Market`, the state as mathematics, and `laws`
//! holds what follows for every market.

pub mod address;
pub mod contexts;
pub mod error;
pub mod instructions;
pub mod laws;
pub mod ledger;
pub mod model;
pub mod registry;
pub mod rules;
pub mod state;
pub mod swap;
mod table;

pub use address::Address;
pub use contexts::make::{Make, MakeBumps};
pub use contexts::refund::Refund;
pub use contexts::take::Take;
pub use contexts::Signer;
pub use error::SwapError;
pub use instructions::shared::{trasfer_token, Authority};
pub use ledger::Ledger;
pub use registry::EscrowRegistry;
pub use rules::{check_make, check_refund, check_take};
pub use state::Escrow;
pub use swap::{make, make_at, refund, refund_with, take, take_with, Exchange};
