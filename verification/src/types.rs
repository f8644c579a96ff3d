//! The values that the tip jar works on.

use crate::table::TableKey;
use vstd::prelude::*;

verus! {

/// What an address stands for.
#[derive(Clone, Copy, Debug, PartialEq, Eq, Structural)]
pub enum AddressKind {
    /// An account, identified by its public key.
    Account,
    /// A contract, identified by its hash.
    Contract,
}

/// A ledger address: its kind and the 32 bytes that identify it, as the
/// big-endian numbers of the first and the last 16 of them.
#[derive(Clone, Copy, Debug, PartialEq, Eq, Structural)]
pub struct Address {
    pub kind: AddressKind,
    pub high: u128,
    pub low: u128,
}

impl TableKey for Address {
    fn same(&self, other: &Self) -> (r: bool) {
        *self == *other
    }
}

/// The errors that the contract reports to its callers.
#[derive(Copy, Clone, Debug, PartialEq, Eq, PartialOrd, Ord, Structural)]
pub enum TipJarError {
    AlreadyInitialized,
    TokenNotInitialized,
    InvalidAmount,
    NothingToWithdraw,
    MessageTooLong,
    InvalidSplitTotal,
    FeeTooHigh,
    NotDueYet,
    SubscriptionNotActive,
    SubscriptionNotFound,
}

impl TipJarError {
    /// The number under which the ledger reports the error.
    pub open spec fn spec_code(self) -> u32 {
        match self {
            TipJarError::AlreadyInitialized => 1,
            TipJarError::TokenNotInitialized => 2,
            TipJarError::InvalidAmount => 3,
            TipJarError::NothingToWithdraw => 4,
            TipJarError::MessageTooLong => 5,
            TipJarError::InvalidSplitTotal => 6,
            TipJarError::FeeTooHigh => 7,
            TipJarError::NotDueYet => 8,
            TipJarError::SubscriptionNotActive => 9,
            TipJarError::SubscriptionNotFound => 10,
        }
    }

    /// The number under which the ledger reports the error.
    pub fn code(self) -> (r: u32)
        ensures
            r == self.spec_code(),
    {
        match self {
            TipJarError::AlreadyInitialized => 1,
            TipJarError::TokenNotInitialized => 2,
            TipJarError::InvalidAmount => 3,
            TipJarError::NothingToWithdraw => 4,
            TipJarError::MessageTooLong => 5,
            TipJarError::InvalidSplitTotal => 6,
            TipJarError::FeeTooHigh => 7,
            TipJarError::NotDueYet => 8,
            TipJarError::SubscriptionNotActive => 9,
            TipJarError::SubscriptionNotFound => 10,
        }
    }
}

/// Why a call was refused. The ledger undoes everything that a refused call
/// did.
#[derive(Copy, Clone, Debug, PartialEq, Eq, Structural)]
pub enum Failure {
    /// One of the errors that the contract reports by number.
    Error(TipJarError),
    /// The caller is not the one who may do this.
    Unauthorized,
    /// The contract is paused.
    Paused,
    /// An entry that the call cannot do without was never stored.
    MissingEntry,
    /// A number left the range of its type, or a list was full.
    Overflow,
}

/// A tip with a note, as it is kept for its creator.
#[derive(Debug, PartialEq, Eq)]
pub struct TipWithMessage {
    pub sender: Address,
    pub creator: Address,
    pub amount: i128,
    pub message: soroban_sdk::String,
    pub metadata: soroban_sdk::Map<soroban_sdk::String, soroban_sdk::String>,
    pub timestamp: u64,
}

/// What a [`TipWithMessage`] says.
pub struct TipWithMessageView {
    pub sender: Address,
    pub creator: Address,
    pub amount: int,
    pub message: Seq<u8>,
    pub metadata: Map<Seq<u8>, Seq<u8>>,
    pub timestamp: u64,
}

impl View for TipWithMessage {
    type V = TipWithMessageView;

    open spec fn view(&self) -> TipWithMessageView {
        TipWithMessageView {
            sender: self.sender,
            creator: self.creator,
            amount: self.amount as int,
            message: crate::host::string_bytes(self.message),
            metadata: crate::host::metadata_entries(self.metadata),
            timestamp: self.timestamp,
        }
    }
}

impl Clone for TipWithMessage {
    /// A second record that says the same.
    fn clone(&self) -> (r: Self)
        ensures
            r@ == self@,
    {
        TipWithMessage {
            sender: self.sender,
            creator: self.creator,
            amount: self.amount,
            message: crate::host::copy_string(&self.message),
            metadata: crate::host::copy_metadata(&self.metadata),
            timestamp: self.timestamp,
        }
    }
}

/// One recipient of a split tip.
#[derive(Clone, Copy, Debug, PartialEq, Eq, Structural)]
pub struct TipSplit {
    pub creator: Address,
    /// Basis points: 10_000 == 100.00%
    pub percentage: u32,
}

/// A recurring payment from a subscriber to a creator.
#[derive(Clone, Copy, Debug, PartialEq, Eq, Structural)]
pub struct Subscription {
    pub subscriber: Address,
    pub creator: Address,
    pub amount: i128,
    pub interval: u64,
    pub next_payment: u64,
    pub active: bool,
}

/// The entries of the contract's storage.
#[derive(Clone, Copy, Debug, PartialEq, Eq, Structural)]
pub enum DataKey {
    /// Token contract address used for all tips.
    Token,
    /// Creator's currently withdrawable balance held by this contract.
    CreatorBalance(Address),
    /// Historical total tips ever received by creator.
    CreatorTotal(Address),
    /// Emergency pause state (bool).
    Paused,
    /// Contract administrator (Address).
    Admin,
    /// Messages appended for a creator.
    CreatorMessages(Address),
    /// Platform fee in basis points (10_000 == 100%). Max 1_000 (10%).
    PlatformFee,
    /// Address that receives collected platform fees.
    TreasuryAddress,
    /// Cumulative fees collected by the platform.
    TotalFeesCollected,
    /// Auto-incrementing counter for subscription IDs.
    SubCounter,
    /// Subscription record by ID.
    Subscription(u64),
    /// List of subscription IDs created by a subscriber.
    SubscriberSubs(Address),
}

/// What the contract announces to the outside.
#[derive(Debug, PartialEq, Eq)]
pub enum Event {
    /// A fee went from `sender` to the treasury.
    FeeCollected { treasury: Address, sender: Address, fee: i128 },
    /// `creator` was credited with `amount` from `sender`.
    Tip { creator: Address, sender: Address, amount: i128 },
    /// `creator` was credited with `amount` from `sender`, with a note.
    TipMessage {
        creator: Address,
        sender: Address,
        amount: i128,
        message: soroban_sdk::String,
        metadata: soroban_sdk::Map<soroban_sdk::String, soroban_sdk::String>,
    },
    /// `creator` took out `amount`.
    Withdraw { creator: Address, amount: i128 },
}

/// What an [`Event`] says.
pub enum EventView {
    FeeCollected { treasury: Address, sender: Address, fee: int },
    Tip { creator: Address, sender: Address, amount: int },
    TipMessage {
        creator: Address,
        sender: Address,
        amount: int,
        message: Seq<u8>,
        metadata: Map<Seq<u8>, Seq<u8>>,
    },
    Withdraw { creator: Address, amount: int },
}

impl View for Event {
    type V = EventView;

    open spec fn view(&self) -> EventView {
        match *self {
            Event::FeeCollected { treasury, sender, fee } => EventView::FeeCollected {
                treasury,
                sender,
                fee: fee as int,
            },
            Event::Tip { creator, sender, amount } => EventView::Tip {
                creator,
                sender,
                amount: amount as int,
            },
            Event::TipMessage { creator, sender, amount, message, metadata } =>
                EventView::TipMessage {
                    creator,
                    sender,
                    amount: amount as int,
                    message: crate::host::string_bytes(message),
                    metadata: crate::host::metadata_entries(metadata),
                },
            Event::Withdraw { creator, amount } => EventView::Withdraw {
                creator,
                amount: amount as int,
            },
        }
    }
}

/// Something that a call asks of the ledger, beside reading.
#[derive(Debug, PartialEq, Eq)]
pub enum Effect {
    /// The address must have authorized the call; the ledger refuses the call
    /// if it has not.
    RequireAuth(Address),
    /// `token` moves `amount` from one holder to another; the ledger refuses
    /// the call if it cannot.
    Transfer { token: Address, from: Address, to: Address, amount: i128 },
    /// The entry takes the value that the storage holds for it.
    Store(DataKey),
    /// The event is announced.
    Publish(Event),
}

/// What an [`Effect`] asks.
pub enum EffectView {
    RequireAuth(Address),
    Transfer { token: Address, from: Address, to: Address, amount: int },
    Store(DataKey),
    Publish(EventView),
}

impl View for Effect {
    type V = EffectView;

    open spec fn view(&self) -> EffectView {
        match *self {
            Effect::RequireAuth(a) => EffectView::RequireAuth(a),
            Effect::Transfer { token, from, to, amount } => EffectView::Transfer {
                token,
                from,
                to,
                amount: amount as int,
            },
            Effect::Store(key) => EffectView::Store(key),
            Effect::Publish(event) => EffectView::Publish(event@),
        }
    }
}

} // verus!
