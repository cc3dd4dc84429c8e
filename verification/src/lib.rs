//! A fungible-token ledger: an account-balance store with an owner-delegated
//! spending mechanism (the allowance pattern).
//!
//! The ledger is a single aggregate owning the total supply, the balance
//! table, the allowance table, and a queue of emitted records. Every
//! operation carries the conservation invariant: the sum of all balances
//! equals the total supply at all times.

pub mod account;
pub mod balances;
pub mod allowances;
pub mod token;

pub use account::Address;
pub use token::Erc20;
pub use token::Event;
