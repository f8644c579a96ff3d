//! What the contract keeps on the ledger between calls.

use crate::host::{id_count, new_id_list, push_id};
use crate::table::Table;
use crate::types::{Address, Subscription, TipWithMessage, TipWithMessageView};
use vstd::prelude::*;

verus! {

/// The entries of the contract's storage. An entry that was never stored is
/// `None`, or has no key in its table.
pub struct Storage {
    pub token: Option<Address>,
    pub admin: Option<Address>,
    pub paused: Option<bool>,
    pub platform_fee: Option<u32>,
    pub treasury: Option<Address>,
    pub total_fees: Option<i128>,
    pub sub_counter: Option<u64>,
    pub balances: Table<Address, i128>,
    pub totals: Table<Address, i128>,
    pub messages: Table<Address, Vec<TipWithMessage>>,
    pub subscriptions: Table<u64, Subscription>,
    pub subscriber_subs: Table<Address, soroban_sdk::Vec<u64>>,
}

/// What a [`Storage`] holds.
#[verifier::ext_equal]
pub struct StorageView {
    pub token: Option<Address>,
    pub admin: Option<Address>,
    pub paused: Option<bool>,
    pub platform_fee: Option<u32>,
    pub treasury: Option<Address>,
    pub total_fees: Option<int>,
    pub sub_counter: Option<u64>,
    pub balances: Map<Address, int>,
    pub totals: Map<Address, int>,
    pub messages: Map<Address, Seq<TipWithMessageView>>,
    pub subscriptions: Map<u64, Subscription>,
    pub subscriber_subs: Map<Address, Seq<u64>>,
}

/// What the records of a list say.
pub open spec fn records(s: Seq<TipWithMessage>) -> Seq<TipWithMessageView> {
    s.map_values(|m: TipWithMessage| m@)
}

impl View for Storage {
    type V = StorageView;

    open spec fn view(&self) -> StorageView {
        StorageView {
            token: self.token,
            admin: self.admin,
            paused: self.paused,
            platform_fee: self.platform_fee,
            treasury: self.treasury,
            total_fees: match self.total_fees {
                Some(fees) => Some(fees as int),
                None => None,
            },
            sub_counter: self.sub_counter,
            balances: self.balances@.map_values(|x: i128| x as int),
            totals: self.totals@.map_values(|x: i128| x as int),
            messages: self.messages@.map_values(|v: Vec<TipWithMessage>| records(v@)),
            subscriptions: self.subscriptions@,
            subscriber_subs: self.subscriber_subs@.map_values(
                |v: soroban_sdk::Vec<u64>| crate::host::id_list(v),
            ),
        }
    }
}

/// A list of that length takes no further item.
pub open spec fn full(len: nat) -> bool {
    len >= u32::MAX
}

/// The number lies in the range of an amount of tokens.
pub open spec fn fits(x: int) -> bool {
    i128::MIN <= x <= i128::MAX
}

impl StorageView {
    /// Nothing was ever stored.
    pub open spec fn empty() -> StorageView {
        StorageView {
            token: None,
            admin: None,
            paused: None,
            platform_fee: None,
            treasury: None,
            total_fees: None,
            sub_counter: None,
            balances: Map::empty(),
            totals: Map::empty(),
            messages: Map::empty(),
            subscriptions: Map::empty(),
            subscriber_subs: Map::empty(),
        }
    }

    /// Whether the contract is paused; it is not before that was ever stored.
    pub open spec fn is_paused(self) -> bool {
        self.paused == Some(true)
    }

    /// The platform fee in basis points; none before one was stored.
    pub open spec fn fee_bps(self) -> int {
        match self.platform_fee {
            Some(bps) => bps as int,
            None => 0,
        }
    }

    /// The fees collected so far.
    pub open spec fn fees_collected(self) -> int {
        match self.total_fees {
            Some(fees) => fees,
            None => 0,
        }
    }

    /// The number of the last subscription.
    pub open spec fn counter(self) -> int {
        match self.sub_counter {
            Some(n) => n as int,
            None => 0,
        }
    }

    /// What `creator` can withdraw.
    pub open spec fn balance(self, creator: Address) -> int {
        if self.balances.contains_key(creator) {
            self.balances[creator]
        } else {
            0
        }
    }

    /// What `creator` ever received.
    pub open spec fn total(self, creator: Address) -> int {
        if self.totals.contains_key(creator) {
            self.totals[creator]
        } else {
            0
        }
    }

    /// The notes kept for `creator`, oldest first.
    pub open spec fn messages_of(self, creator: Address) -> Seq<TipWithMessageView> {
        if self.messages.contains_key(creator) {
            self.messages[creator]
        } else {
            Seq::empty()
        }
    }

    /// The numbers of the subscriptions that `subscriber` created, oldest first.
    pub open spec fn subs_of(self, subscriber: Address) -> Seq<u64> {
        if self.subscriber_subs.contains_key(subscriber) {
            self.subscriber_subs[subscriber]
        } else {
            Seq::empty()
        }
    }

    /// `amount` can be added to what `creator` holds and to what they ever
    /// received.
    pub open spec fn can_credit(self, creator: Address, amount: int) -> bool {
        fits(self.balance(creator) + amount) && fits(self.total(creator) + amount)
    }

    /// `creator` received `amount`.
    pub open spec fn credit(self, creator: Address, amount: int) -> StorageView {
        StorageView {
            balances: self.balances.insert(creator, self.balance(creator) + amount),
            totals: self.totals.insert(creator, self.total(creator) + amount),
            ..self
        }
    }
}

impl Storage {
    /// A storage in which nothing was ever stored.
    pub fn new() -> (r: Storage)
        ensures
            r@ == StorageView::empty(),
    {
        let r = Storage {
            token: None,
            admin: None,
            paused: None,
            platform_fee: None,
            treasury: None,
            total_fees: None,
            sub_counter: None,
            balances: Table::new(),
            totals: Table::new(),
            messages: Table::new(),
            subscriptions: Table::new(),
            subscriber_subs: Table::new(),
        };
        assert(r@ =~= StorageView::empty());
        r
    }

    /// Whether the contract is paused.
    pub fn is_paused(&self) -> (r: bool)
        ensures
            r == self@.is_paused(),
    {
        match self.paused {
            Some(paused) => paused,
            None => false,
        }
    }

    /// The platform fee in basis points.
    pub fn fee_bps(&self) -> (r: u32)
        ensures
            r == self@.fee_bps(),
    {
        match self.platform_fee {
            Some(bps) => bps,
            None => 0,
        }
    }

    /// The fees collected so far.
    pub fn fees_collected(&self) -> (r: i128)
        ensures
            r == self@.fees_collected(),
    {
        match self.total_fees {
            Some(fees) => fees,
            None => 0,
        }
    }

    /// What `creator` can withdraw.
    pub fn balance(&self, creator: Address) -> (r: i128)
        ensures
            r == self@.balance(creator),
    {
        match self.balances.get(creator) {
            Some(balance) => *balance,
            None => 0,
        }
    }

    /// What `creator` ever received.
    pub fn total(&self, creator: Address) -> (r: i128)
        ensures
            r == self@.total(creator),
    {
        match self.totals.get(creator) {
            Some(total) => *total,
            None => 0,
        }
    }

    /// Whether `creator` can be credited with `amount`.
    pub fn can_credit(&self, creator: Address, amount: i128) -> (r: bool)
        ensures
            r == self@.can_credit(creator, amount as int),
    {
        self.balance(creator).checked_add(amount).is_some() && self.total(creator).checked_add(
            amount,
        ).is_some()
    }

    /// Credits `creator` with `amount`.
    pub(crate) fn credit(&mut self, creator: Address, amount: i128)
        requires
            old(self)@.can_credit(creator, amount as int),
        ensures
            final(self)@ == old(self)@.credit(creator, amount as int),
    {
        let balance: i128 = self.balance(creator) + amount;
        let total: i128 = self.total(creator) + amount;
        self.balances.set(creator, balance);
        self.totals.set(creator, total);
        assert(self@ =~= old(self)@.credit(creator, amount as int));
    }

    /// Whether the list of notes of `creator` is full.
    pub fn messages_full(&self, creator: Address) -> (r: bool)
        ensures
            r == full(self@.messages_of(creator).len()),
    {
        match self.messages.get(creator) {
            Some(list) => {
                assert(records(list@) == self@.messages_of(creator));
                list.len() >= u32::MAX as usize
            },
            None => false,
        }
    }

    /// Keeps `record` behind the notes of `creator`.
    pub(crate) fn push_message(&mut self, creator: Address, record: TipWithMessage)
        ensures
            final(self)@ == (StorageView {
                messages: old(self)@.messages.insert(
                    creator,
                    old(self)@.messages_of(creator).push(record@),
                ),
                ..old(self)@
            }),
    {
        let ghost before = self@;
        let ghost said = record@;
        match self.messages.get_mut(creator) {
            Some(list) => {
                list.push(record);
                assert(records(list@) =~= before.messages_of(creator).push(said));
            },
            None => {
                let mut list: Vec<TipWithMessage> = Vec::new();
                list.push(record);
                assert(records(list@) =~= before.messages_of(creator).push(said));
                self.messages.set(creator, list);
            },
        }
        assert(self@ =~= (StorageView {
            messages: before.messages.insert(creator, before.messages_of(creator).push(said)),
            ..before
        }));
    }

    /// Whether the list of subscriptions of `subscriber` is full.
    pub fn subscriptions_full(&self, subscriber: Address) -> (r: bool)
        ensures
            r == full(self@.subs_of(subscriber).len()),
    {
        match self.subscriber_subs.get(subscriber) {
            Some(list) => id_count(list) == u32::MAX,
            None => false,
        }
    }

    /// Keeps `id` behind the subscriptions that `subscriber` created.
    pub(crate) fn push_subscription(
        &mut self,
        host: &soroban_sdk::Env,
        subscriber: Address,
        id: u64,
    )
        requires
            !full(old(self)@.subs_of(subscriber).len()),
        ensures
            final(self)@ == (StorageView {
                subscriber_subs: old(self)@.subscriber_subs.insert(
                    subscriber,
                    old(self)@.subs_of(subscriber).push(id),
                ),
                ..old(self)@
            }),
    {
        let ghost before = self@;
        match self.subscriber_subs.get_mut(subscriber) {
            Some(list) => {
                push_id(list, id);
            },
            None => {
                let mut list = new_id_list(host);
                push_id(&mut list, id);
                self.subscriber_subs.set(subscriber, list);
            },
        }
        assert(self@ =~= (StorageView {
            subscriber_subs: before.subscriber_subs.insert(
                subscriber,
                before.subs_of(subscriber).push(id),
            ),
            ..before
        }));
    }
}

} // verus!
