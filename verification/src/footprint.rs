//! Which entries of the storage a call rests on, so that a call can be made on
//! those entries alone.

use crate::calls::Call;
use crate::ledger::LedgerView;
use crate::storage::StorageView;
use crate::types::{Address, DataKey, EffectView, TipSplit};
use vstd::prelude::*;

verus! {

impl StorageView {
    /// The two storages hold the same under `key`.
    pub open spec fn agrees(self, other: StorageView, key: DataKey) -> bool {
        match key {
            DataKey::Token => self.token == other.token,
            DataKey::Admin => self.admin == other.admin,
            DataKey::Paused => self.paused == other.paused,
            DataKey::PlatformFee => self.platform_fee == other.platform_fee,
            DataKey::TreasuryAddress => self.treasury == other.treasury,
            DataKey::TotalFeesCollected => self.total_fees == other.total_fees,
            DataKey::SubCounter => self.sub_counter == other.sub_counter,
            DataKey::CreatorBalance(c) => {
                &&& self.balances.contains_key(c) == other.balances.contains_key(c)
                &&& self.balance(c) == other.balance(c)
            },
            DataKey::CreatorTotal(c) => {
                &&& self.totals.contains_key(c) == other.totals.contains_key(c)
                &&& self.total(c) == other.total(c)
            },
            DataKey::CreatorMessages(c) => {
                &&& self.messages.contains_key(c) == other.messages.contains_key(c)
                &&& self.messages_of(c) == other.messages_of(c)
            },
            DataKey::Subscription(id) => {
                &&& self.subscriptions.contains_key(id) == other.subscriptions.contains_key(id)
                &&& self.subscriptions.contains_key(id) ==> self.subscriptions[id]
                    == other.subscriptions[id]
            },
            DataKey::SubscriberSubs(a) => {
                &&& self.subscriber_subs.contains_key(a) == other.subscriber_subs.contains_key(a)
                &&& self.subs_of(a) == other.subs_of(a)
            },
        }
    }
}

/// The entry is one of the contract's settings.
pub open spec fn is_setting(key: DataKey) -> bool {
    key is Token || key is Admin || key is Paused || key is PlatformFee || key is TreasuryAddress
        || key is TotalFeesCollected || key is SubCounter
}

/// The entries that a call may read: the settings, and, unless the contract is
/// paused, those of the creators, the subscription and the subscriber that it
/// concerns.
pub open spec fn reads(ledger: LedgerView, call: Call, key: DataKey) -> bool {
    ||| is_setting(key)
    ||| !ledger.storage.is_paused() && match (call, key) {
        (Call::Tip { sender, creator, amount }, DataKey::CreatorBalance(c)) => c == creator,
        (Call::Tip { sender, creator, amount }, DataKey::CreatorTotal(c)) => c == creator,
        (
            Call::TipWithMessage { sender, creator, amount, message, metadata },
            DataKey::CreatorBalance(c),
        ) => c == creator,
        (
            Call::TipWithMessage { sender, creator, amount, message, metadata },
            DataKey::CreatorTotal(c),
        ) => c == creator,
        (
            Call::TipWithMessage { sender, creator, amount, message, metadata },
            DataKey::CreatorMessages(c),
        ) => c == creator,
        (Call::Withdraw { creator }, DataKey::CreatorBalance(c)) => c == creator,
        (Call::TipSplit { sender, splits, total_amount }, DataKey::CreatorBalance(c)) =>
            crate::model::named(splits, c, splits.len() as int),
        (Call::TipSplit { sender, splits, total_amount }, DataKey::CreatorTotal(c)) =>
            crate::model::named(splits, c, splits.len() as int),
        (
            Call::CreateSubscription { subscriber, creator, amount, interval },
            DataKey::SubscriberSubs(a),
        ) => a == subscriber,
        (Call::ProcessSubscriptionPayment { sub_id }, DataKey::Subscription(id)) => id == sub_id,
        (Call::ProcessSubscriptionPayment { sub_id }, DataKey::CreatorBalance(c)) =>
            ledger.storage.subscriptions.contains_key(sub_id)
                && ledger.storage.subscriptions[sub_id].creator == c,
        (Call::ProcessSubscriptionPayment { sub_id }, DataKey::CreatorTotal(c)) =>
            ledger.storage.subscriptions.contains_key(sub_id)
                && ledger.storage.subscriptions[sub_id].creator == c,
        (Call::CancelSubscription { sub_id, caller }, DataKey::Subscription(id)) => id == sub_id,
        _ => false,
    }
}

/// The entries that a call may change: those that it may read, and the record
/// of a new subscription.
pub open spec fn touches(ledger: LedgerView, call: Call, key: DataKey) -> bool {
    ||| reads(ledger, call, key)
    ||| match (call, key) {
        (
            Call::CreateSubscription { subscriber, creator, amount, interval },
            DataKey::Subscription(id),
        ) => id == ledger.storage.counter() + 1,
        _ => false,
    }
}

/// Storages that agree on the recipients reach as many of them.
proof fn lemma_reach_agrees(
    a: StorageView,
    b: StorageView,
    total: int,
    splits: Seq<TipSplit>,
    n: int,
)
    requires
        0 <= n <= splits.len(),
        forall|i: int|
            #![trigger splits[i]]
            0 <= i < splits.len() ==> a.balance(splits[i].creator) == b.balance(splits[i].creator)
                && a.total(splits[i].creator) == b.total(splits[i].creator),
    ensures
        a.split_reach(total, splits, n) == b.split_reach(total, splits, n),
    decreases n,
{
    if n > 0 {
        lemma_reach_agrees(a, b, total, splits, n - 1);
        assert(a.balance(splits[n - 1].creator) == b.balance(splits[n - 1].creator));
    }
}

/// A call rests on the entries that it may read: on any ledger that holds the
/// same under those it returns the same, asks the same, and, if it is accepted,
/// leaves the same under the entries that it may change.
pub proof fn law_call_rests_on_what_it_reads(
    ledger: LedgerView,
    other: LedgerView,
    call: Call,
    key: DataKey,
)
    requires
        ledger.contract == other.contract,
        ledger.timestamp == other.timestamp,
        forall|k: DataKey| reads(ledger, call, k) ==> #[trigger] ledger.storage.agrees(
            other.storage,
            k,
        ),
    ensures
        ledger.call_step(call).result == other.call_step(call).result,
        ledger.call_step(call).effects == other.call_step(call).effects,
        ledger.call_step(call).result is Ok && touches(ledger, call, key) ==> ledger.call_step(
            call,
        ).storage.agrees(other.call_step(call).storage, key),
{
    let a = ledger.storage;
    let b = other.storage;
    assert(a.agrees(b, DataKey::Token));
    assert(a.agrees(b, DataKey::Admin));
    assert(a.agrees(b, DataKey::Paused));
    assert(a.agrees(b, DataKey::PlatformFee));
    assert(a.agrees(b, DataKey::TreasuryAddress));
    assert(a.agrees(b, DataKey::TotalFeesCollected));
    assert(a.agrees(b, DataKey::SubCounter));
    assert(reads(ledger, call, key) ==> a.agrees(b, key));
    if !a.is_paused() {
        match call {
            Call::Tip { sender, creator, amount } => {
                assert(a.agrees(b, DataKey::CreatorBalance(creator)));
                assert(a.agrees(b, DataKey::CreatorTotal(creator)));
            },
            Call::TipWithMessage { sender, creator, amount, message, metadata } => {
                assert(a.agrees(b, DataKey::CreatorBalance(creator)));
                assert(a.agrees(b, DataKey::CreatorTotal(creator)));
                assert(a.agrees(b, DataKey::CreatorMessages(creator)));
            },
            Call::Withdraw { creator } => {
                assert(a.agrees(b, DataKey::CreatorBalance(creator)));
            },
            Call::TipSplit { sender, splits, total_amount } => {
                assert forall|i: int|
                    #![trigger splits[i]]
                    0 <= i < splits.len() implies a.balance(splits[i].creator) == b.balance(
                    splits[i].creator,
                ) && a.total(splits[i].creator) == b.total(splits[i].creator) by {
                    let creator = splits[i].creator;
                    assert(crate::model::named(splits, creator, splits.len() as int));
                    assert(a.agrees(b, DataKey::CreatorBalance(creator)));
                    assert(a.agrees(b, DataKey::CreatorTotal(creator)));
                }
                lemma_reach_agrees(a, b, total_amount as int, splits, splits.len() as int);
            },
            Call::CreateSubscription { subscriber, creator, amount, interval } => {
                assert(a.agrees(b, DataKey::SubscriberSubs(subscriber)));
            },
            Call::ProcessSubscriptionPayment { sub_id } => {
                assert(a.agrees(b, DataKey::Subscription(sub_id)));
                if a.subscriptions.contains_key(sub_id) {
                    let creator = a.subscriptions[sub_id].creator;
                    assert(a.agrees(b, DataKey::CreatorBalance(creator)));
                    assert(a.agrees(b, DataKey::CreatorTotal(creator)));
                }
            },
            Call::CancelSubscription { sub_id, caller } => {
                assert(a.agrees(b, DataKey::Subscription(sub_id)));
            },
            _ => {},
        }
    }
}

/// A call leaves all other entries as they were.
pub proof fn law_call_leaves_the_rest_alone(ledger: LedgerView, call: Call, key: DataKey)
    requires
        !touches(ledger, call, key),
    ensures
        ledger.storage.agrees(ledger.call_step(call).storage, key),
{
    if let Call::TipSplit { sender, splits, total_amount } = call {
        let n = splits.len() as int;
        match key {
            DataKey::CreatorBalance(c) if !crate::model::named(splits, c, n) => {
                crate::split::lemma_credited_named(total_amount as int, splits, c, n);
            },
            DataKey::CreatorTotal(c) if !crate::model::named(splits, c, n) => {
                crate::split::lemma_credited_named(total_amount as int, splits, c, n);
            },
            _ => {},
        }
    }
}

/// What is handed to a recipient is stored.
proof fn lemma_split_stores(
    sender: Address,
    total: int,
    splits: Seq<TipSplit>,
    creator: Address,
    n: int,
)
    requires
        0 <= n <= splits.len(),
        crate::model::named(splits, creator, n),
    ensures
        crate::model::split_effects(sender, total, splits, n).contains(
            EffectView::Store(DataKey::CreatorBalance(creator)),
        ),
        crate::model::split_effects(sender, total, splits, n).contains(
            EffectView::Store(DataKey::CreatorTotal(creator)),
        ),
    decreases n,
{
    let handed = crate::model::split_effects(sender, total, splits, n);
    let earlier = crate::model::split_effects(sender, total, splits, n - 1);
    if splits[n - 1].creator == creator {
        let i = earlier.len() as int;
        assert(handed[i] == EffectView::Store(DataKey::CreatorBalance(creator)));
        assert(handed[i + 1] == EffectView::Store(DataKey::CreatorTotal(creator)));
    } else {
        let i = choose|i: int| 0 <= i < n && (#[trigger] splits[i]).creator == creator;
        assert(splits[i].creator == creator);
        assert(crate::model::named(splits, creator, n - 1));
        lemma_split_stores(sender, total, splits, creator, n - 1);
        let balance = EffectView::Store(DataKey::CreatorBalance(creator));
        let total_entry = EffectView::Store(DataKey::CreatorTotal(creator));
        let j = choose|j: int| 0 <= j < earlier.len() && earlier[j] == balance;
        assert(handed[j] == balance);
        let k = choose|k: int| 0 <= k < earlier.len() && earlier[k] == total_entry;
        assert(handed[k] == total_entry);
    }
}

/// Every entry that a call changes is one that it asks the ledger to store.
pub proof fn law_changes_are_stored(ledger: LedgerView, call: Call, key: DataKey)
    requires
        !ledger.storage.agrees(ledger.call_step(call).storage, key),
    ensures
        ledger.call_step(call).effects.contains(EffectView::Store(key)),
{
    let step = ledger.call_step(call);
    let effects = step.effects;
    let n = effects.len() as int;
    let stored = EffectView::Store(key);
    match call {
        Call::Init { token, admin } => {
            assert(effects[0] == stored || effects[1] == stored || effects[2] == stored);
        },
        Call::Tip { sender, creator, amount } => {
            assert(effects[n - 3] == stored || effects[n - 2] == stored || effects[2] == stored);
        },
        Call::TipWithMessage { sender, creator, amount, message, metadata } => {
            assert(effects[2] == stored || effects[3] == stored || effects[4] == stored);
        },
        Call::Withdraw { creator } => {
            assert(effects[2] == stored);
        },
        Call::TipSplit { sender, splits, total_amount } => {
            let total = total_amount as int;
            let count = splits.len() as int;
            crate::split::lemma_reach_within(ledger.storage, total, splits, count);
            let handed = crate::model::split_effects(sender, total, splits, count);
            match key {
                DataKey::CreatorBalance(c) => {
                    if !crate::model::named(splits, c, count) {
                        crate::split::lemma_credited_named(total, splits, c, count);
                    }
                    lemma_split_stores(sender, total, splits, c, count);
                },
                DataKey::CreatorTotal(c) => {
                    if !crate::model::named(splits, c, count) {
                        crate::split::lemma_credited_named(total, splits, c, count);
                    }
                    lemma_split_stores(sender, total, splits, c, count);
                },
                _ => {},
            }
            let i = choose|i: int| 0 <= i < handed.len() && handed[i] == stored;
            assert(effects[i + 2] == stored);
        },
        Call::CreateSubscription { subscriber, creator, amount, interval } => {
            assert(effects[1] == stored || effects[2] == stored || effects[3] == stored);
        },
        Call::ProcessSubscriptionPayment { sub_id } => {
            assert(effects[2] == stored || effects[3] == stored || effects[5] == stored);
        },
        Call::CancelSubscription { sub_id, caller } => {
            assert(effects[1] == stored);
        },
        Call::SetPlatformFee { admin, fee_bps, treasury } => {
            assert(effects[1] == stored || effects[2] == stored);
        },
        Call::Pause { admin } => {
            assert(effects[1] == stored);
        },
        Call::Unpause { admin } => {
            assert(effects[1] == stored);
        },
    }
}

/// Something is stored under `key`.
pub open spec fn is_stored(storage: StorageView, key: DataKey) -> bool {
    match key {
        DataKey::Token => storage.token is Some,
        DataKey::Admin => storage.admin is Some,
        DataKey::Paused => storage.paused is Some,
        DataKey::PlatformFee => storage.platform_fee is Some,
        DataKey::TreasuryAddress => storage.treasury is Some,
        DataKey::TotalFeesCollected => storage.total_fees is Some,
        DataKey::SubCounter => storage.sub_counter is Some,
        DataKey::CreatorBalance(c) => storage.balances.contains_key(c),
        DataKey::CreatorTotal(c) => storage.totals.contains_key(c),
        DataKey::CreatorMessages(c) => storage.messages.contains_key(c),
        DataKey::Subscription(id) => storage.subscriptions.contains_key(id),
        DataKey::SubscriberSubs(a) => storage.subscriber_subs.contains_key(a),
    }
}

/// What is stored for recipients are their balances and totals.
proof fn lemma_split_stores_only(
    sender: Address,
    total: int,
    splits: Seq<TipSplit>,
    key: DataKey,
    n: int,
)
    requires
        0 <= n <= splits.len(),
        crate::model::split_effects(sender, total, splits, n).contains(EffectView::Store(key)),
    ensures
        match key {
            DataKey::CreatorBalance(c) => crate::model::named(splits, c, n),
            DataKey::CreatorTotal(c) => crate::model::named(splits, c, n),
            _ => false,
        },
    decreases n,
{
    let handed = crate::model::split_effects(sender, total, splits, n);
    let stored = EffectView::Store(key);
    let i = choose|i: int| 0 <= i < handed.len() && handed[i] == stored;
    if n > 0 {
        let earlier = crate::model::split_effects(sender, total, splits, n - 1);
        if i < earlier.len() {
            assert(earlier[i] == stored);
            assert(earlier.contains(stored));
            lemma_split_stores_only(sender, total, splits, key, n - 1);
        } else {
            assert(splits[n - 1].creator == splits[n - 1].creator);
        }
    }
}

/// Every entry that an accepted call asks the ledger to store has a value.
pub proof fn law_stored_entries_have_values(ledger: LedgerView, call: Call, key: DataKey)
    requires
        ledger.call_step(call).result is Ok,
        ledger.call_step(call).effects.contains(EffectView::Store(key)),
    ensures
        is_stored(ledger.call_step(call).storage, key),
{
    let effects = ledger.call_step(call).effects;
    let stored = EffectView::Store(key);
    let i = choose|i: int| 0 <= i < effects.len() && effects[i] == stored;
    match call {
        Call::Init { token, admin } => {
            assert(key is Token || key is Admin || key is Paused);
        },
        Call::Tip { sender, creator, amount } => {
            assert(key == DataKey::CreatorBalance(creator) || key == DataKey::CreatorTotal(creator)
                || key is TotalFeesCollected && i == 2);
        },
        Call::TipWithMessage { sender, creator, amount, message, metadata } => {
            assert(key == DataKey::CreatorBalance(creator) || key == DataKey::CreatorTotal(creator)
                || key == DataKey::CreatorMessages(creator));
        },
        Call::Withdraw { creator } => {
            assert(key == DataKey::CreatorBalance(creator));
        },
        Call::TipSplit { sender, splits, total_amount } => {
            let total = total_amount as int;
            let n = splits.len() as int;
            crate::split::lemma_reach_within(ledger.storage, total, splits, n);
            let handed = crate::model::split_effects(sender, total, splits, n);
            assert(i >= 2);
            assert(handed[i - 2] == stored);
            assert(handed.contains(stored));
            lemma_split_stores_only(sender, total, splits, key, n);
        },
        Call::CreateSubscription { subscriber, creator, amount, interval } => {
            assert(key is SubCounter || key == DataKey::SubscriberSubs(subscriber) || key
                == DataKey::Subscription((ledger.storage.counter() + 1) as u64));
        },
        Call::ProcessSubscriptionPayment { sub_id } => {
            let creator = ledger.storage.subscriptions[sub_id].creator;
            assert(key == DataKey::CreatorBalance(creator) || key == DataKey::CreatorTotal(creator)
                || key == DataKey::Subscription(sub_id));
        },
        Call::CancelSubscription { sub_id, caller } => {
            assert(key == DataKey::Subscription(sub_id));
        },
        Call::SetPlatformFee { admin, fee_bps, treasury } => {
            assert(key is PlatformFee || key is TreasuryAddress);
        },
        _ => {
            assert(key is Paused);
        },
    }
}

} // verus!
