//! The rules of a tip jar held by a ledger contract: tips escrowed for
//! creators, platform fees, split tips, tips with notes, recurring
//! subscriptions, withdrawals and an emergency pause.
//!
//! [`TipJarContract`] holds the calls. Each works on a [`Ledger`]: the
//! contract's storage, and the list of what the call asks of the ledger around
//! it. What a call comes to is stated in `model`. Which calls are accepted is
//! proved in `answer_laws`, what they do in `outcome_laws`, and what holds of
//! all calls and of their histories in `laws`, `call_laws`, `account_laws`,
//! `history_laws` and `footprint`.

pub mod account_laws;
pub mod answer_laws;
pub mod asked;
pub mod call_laws;
pub mod calls;
pub mod contract;
pub mod footprint;
pub mod history_laws;
pub mod host;
pub mod laws;
pub mod ledger;
pub mod model;
pub mod outcome_laws;
pub mod split;
pub mod storage;
pub mod sums;
pub mod table;
pub mod types;
pub mod validity;
pub mod view_laws;

pub use contract::TipJarContract;
pub use ledger::Ledger;
pub use storage::Storage;
pub use table::{Table, TableKey};
pub use types::{
    Address, AddressKind, DataKey, Effect, Event, Failure, Subscription, TipJarError, TipSplit,
    TipWithMessage,
};
