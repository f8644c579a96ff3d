//! Every call that can change the contract, what every state of it has in
//! common, and what no call undoes.

use crate::ledger::{LedgerView, Step};
use crate::storage::StorageView;
use crate::types::{Address, Subscription, TipSplit};
use vstd::prelude::*;

verus! {

/// A call that can change the contract.
pub enum Call {
    Init { token: Address, admin: Address },
    Tip { sender: Address, creator: Address, amount: i128 },
    TipWithMessage {
        sender: Address,
        creator: Address,
        amount: i128,
        message: Seq<u8>,
        metadata: Map<Seq<u8>, Seq<u8>>,
    },
    Withdraw { creator: Address },
    TipSplit { sender: Address, splits: Seq<TipSplit>, total_amount: i128 },
    CreateSubscription { subscriber: Address, creator: Address, amount: i128, interval: u64 },
    ProcessSubscriptionPayment { sub_id: u64 },
    CancelSubscription { sub_id: u64, caller: Address },
    SetPlatformFee { admin: Address, fee_bps: u32, treasury: Address },
    Pause { admin: Address },
    Unpause { admin: Address },
}

impl LedgerView {
    /// What a call comes to, whichever it is. The number that a new
    /// subscription gets is left out.
    pub open spec fn call_step(self, call: Call) -> Step<()> {
        match call {
            Call::Init { token, admin } => self.init_step(token, admin),
            Call::Tip { sender, creator, amount } => self.tip_step(sender, creator, amount as int),
            Call::TipWithMessage { sender, creator, amount, message, metadata } =>
                self.tip_with_message_step(sender, creator, amount as int, message, metadata),
            Call::Withdraw { creator } => self.withdraw_step(creator),
            Call::TipSplit { sender, splits, total_amount } => self.tip_split_step(
                sender,
                splits,
                total_amount as int,
            ),
            Call::CreateSubscription { subscriber, creator, amount, interval } => {
                let step = self.create_subscription_step(subscriber, creator, amount, interval);
                Step {
                    storage: step.storage,
                    effects: step.effects,
                    result: match step.result {
                        Ok(_) => Ok(()),
                        Err(failure) => Err(failure),
                    },
                }
            },
            Call::ProcessSubscriptionPayment { sub_id } => self.process_subscription_payment_step(
                sub_id,
            ),
            Call::CancelSubscription { sub_id, caller } => self.cancel_subscription_step(
                sub_id,
                caller,
            ),
            Call::SetPlatformFee { admin, fee_bps, treasury } => self.set_platform_fee_step(
                admin,
                fee_bps,
                treasury,
            ),
            Call::Pause { admin } => self.set_paused_step(admin, true),
            Call::Unpause { admin } => self.set_paused_step(admin, false),
        }
    }
}

impl StorageView {
    /// What was stored at setup was stored together; a fee was stored with its
    /// treasury, after setup, and is at most 10%.
    pub open spec fn settings_valid(self) -> bool {
        &&& self.token is Some <==> self.admin is Some
        &&& self.token is Some <==> self.paused is Some
        &&& self.platform_fee is Some <==> self.treasury is Some
        &&& self.platform_fee is Some ==> self.token is Some
        &&& self.fee_bps() <= 1_000
        &&& self.fees_collected() >= 0
    }

    /// No creator holds less than nothing, or more than they ever received.
    pub open spec fn balances_valid(self) -> bool {
        &&& self.balances.dom().finite()
        &&& self.totals.dom().finite()
        &&& forall|c: Address| 0 <= #[trigger] self.balance(c) <= self.total(c)
    }

    /// Every note is a tip for the creator that it is kept for, and not too
    /// long.
    pub open spec fn messages_valid(self) -> bool {
        forall|c: Address, i: int|
            0 <= i < self.messages_of(c).len() ==> {
                let m = #[trigger] self.messages_of(c)[i];
                m.creator == c && m.amount > 0 && m.message.len() <= 280
            }
    }

    /// The subscriptions are numbered from 1 on without gaps, and each is for
    /// an amount.
    pub open spec fn subscriptions_valid(self) -> bool {
        &&& forall|id: u64| #[trigger]
            self.subscriptions.contains_key(id) <==> 1 <= id <= self.counter()
        &&& forall|id: u64| #[trigger]
            self.subscriptions.contains_key(id) ==> self.subscriptions[id].amount > 0
    }

    /// A subscriber's list holds just the subscriptions that they created,
    /// oldest first.
    pub open spec fn lists_valid(self) -> bool {
        &&& forall|a: Address, i: int, j: int|
            0 <= i < j < self.subs_of(a).len() ==> #[trigger] self.subs_of(a)[i]
                < #[trigger] self.subs_of(a)[j]
        &&& forall|a: Address, i: int|
            0 <= i < self.subs_of(a).len() ==> {
                let id = #[trigger] self.subs_of(a)[i];
                self.subscriptions.contains_key(id) && self.subscriptions[id].subscriber == a
            }
        &&& forall|id: u64| #[trigger]
            self.subscriptions.contains_key(id) ==> self.subs_of(
                self.subscriptions[id].subscriber,
            ).contains(id)
    }

    /// What holds of every storage that the contract can come to.
    pub open spec fn valid(self) -> bool {
        &&& self.settings_valid()
        &&& self.balances_valid()
        &&& self.messages_valid()
        &&& self.subscriptions_valid()
        &&& self.lists_valid()
    }

    /// The terms of `next` are those of `sub`; an ended subscription is as it
    /// was.
    pub open spec fn goes_on(sub: Subscription, next: Subscription) -> bool {
        &&& next.subscriber == sub.subscriber
        &&& next.creator == sub.creator
        &&& next.amount == sub.amount
        &&& next.interval == sub.interval
        &&& sub.next_payment <= next.next_payment
        &&& !sub.active ==> next == sub
    }

    /// What no call undoes: `self` was stored before `later`.
    pub open spec fn evolves(self, later: StorageView) -> bool {
        &&& self.token is Some ==> later.token == self.token
        &&& self.admin is Some ==> later.admin == self.admin
        &&& self.fees_collected() <= later.fees_collected()
        &&& self.counter() <= later.counter()
        &&& forall|c: Address| #[trigger] self.total(c) <= later.total(c)
        &&& forall|c: Address| (#[trigger] self.messages_of(c)).is_prefix_of(later.messages_of(c))
        &&& forall|a: Address| (#[trigger] self.subs_of(a)).is_prefix_of(later.subs_of(a))
        &&& forall|id: u64| #[trigger]
            self.subscriptions.contains_key(id) ==> {
                &&& later.subscriptions.contains_key(id)
                &&& Self::goes_on(self.subscriptions[id], later.subscriptions[id])
            }
    }
}

} // verus!
