//! Authorization core of a programmable account.
//!
//! An account has an owner, known by a public key, and a ledger of grants by
//! which the owner lets other keys, the delegates, send messages of chosen
//! types for a time. Before a transaction runs the account decides whether
//! it may: the owner's signature is enough, a delegate needs a grant that is
//! not void for each message as well.
//!
//! - [`state`] holds what the account keeps: the owner's key and the ledger.
//! - [`execute`] sets the key, changes the ledger and judges transactions.
//! - [`query`] answers questions about both.
//! - [`contract`] dispatches the messages of the four entry points.
//! - [`msg`] and [`error`] hold the values that go in and come out.
//! - [`lex`] is the order of the ledger's keys.
//! - [`host`] holds what is taken on trust from other crates.

pub mod contract;
pub mod error;
pub mod execute;
pub mod host;
pub mod lex;
pub mod msg;
pub mod query;
pub mod state;
