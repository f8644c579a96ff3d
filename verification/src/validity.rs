//! What single changes do to a valid state.

use crate::ledger::LedgerView;
use crate::storage::StorageView;
use crate::types::{Address, Subscription, TipSplit, TipWithMessageView};
use vstd::prelude::*;

verus! {

/// A fee is at most a tenth of its tip.
pub(crate) proof fn lemma_fee_bounds(storage: StorageView, amount: int)
    requires
        storage.settings_valid(),
        amount > 0,
    ensures
        0 <= crate::model::basis_points(amount, storage.fee_bps()),
        10 * crate::model::basis_points(amount, storage.fee_bps()) <= amount,
{
    let bps = storage.fee_bps();
    assert(0 <= amount * bps <= amount * 1_000) by (nonlinear_arith)
        requires
            amount > 0,
            0 <= bps <= 1_000,
    ;
}

/// A credit takes nothing off anyone, and adds its amount to the sums.
pub(crate) proof fn lemma_credit_valid(storage: StorageView, creator: Address, amount: int)
    requires
        storage.balances_valid(),
        amount >= 0,
    ensures
        storage.credit(creator, amount).balances_valid(),
        forall|c: Address| #[trigger]
            storage.total(c) <= storage.credit(creator, amount).total(c),
        crate::sums::sum(storage.credit(creator, amount).balances) == crate::sums::sum(
            storage.balances,
        ) + amount,
        crate::sums::sum(storage.credit(creator, amount).totals) == crate::sums::sum(
            storage.totals,
        ) + amount,
{
    let after = storage.credit(creator, amount);
    crate::sums::lemma_sum_insert(storage.balances, creator, storage.balance(creator) + amount);
    crate::sums::lemma_sum_insert(storage.totals, creator, storage.total(creator) + amount);
    assert forall|c: Address| 0 <= #[trigger] after.balance(c) <= after.total(c) by {
        assert(0 <= storage.balance(c) <= storage.total(c));
    }
}

/// Split tips take nothing off anyone, and add their shares to the sums.
pub(crate) proof fn lemma_split_valid(
    storage: StorageView,
    total: int,
    splits: Seq<TipSplit>,
    n: int,
)
    requires
        storage.balances_valid(),
        total >= 0,
        0 <= n <= splits.len(),
        crate::model::percentages(splits, splits.len() as int) == 10_000,
    ensures
        storage.split(total, splits, n).balances_valid(),
        forall|c: Address| #[trigger]
            storage.total(c) <= storage.split(total, splits, n).total(c),
        crate::sums::sum(storage.split(total, splits, n).balances) == crate::sums::sum(
            storage.balances,
        ) + crate::split::shares(total, splits, n),
        crate::sums::sum(storage.split(total, splits, n).totals) == crate::sums::sum(
            storage.totals,
        ) + crate::split::shares(total, splits, n),
    decreases n,
{
    if n == 0 {
        assert(storage.split(total, splits, 0) =~= storage);
    } else {
        let before = storage.split(total, splits, n - 1);
        let share = crate::model::share(total, splits, n - 1);
        lemma_split_valid(storage, total, splits, n - 1);
        crate::split::lemma_split_next(storage, total, splits, n - 1);
        crate::split::lemma_share_positive(total, splits, n - 1);
        lemma_credit_valid(before, splits[n - 1].creator, share);
        assert forall|c: Address| #[trigger]
            storage.total(c) <= storage.split(total, splits, n).total(c) by {
            assert(storage.total(c) <= before.total(c));
            assert(before.total(c) <= storage.split(total, splits, n).total(c));
        }
    }
}

/// Each part of validity rests on its own entries.
pub(crate) proof fn lemma_valid_parts(before: StorageView, after: StorageView)
    requires
        before.valid(),
    ensures
        before.balances == after.balances && before.totals == after.totals
            ==> after.balances_valid(),
        before.messages == after.messages ==> after.messages_valid(),
        before.subscriptions == after.subscriptions && before.sub_counter == after.sub_counter
            ==> after.subscriptions_valid(),
        before.subscriptions == after.subscriptions && before.subscriber_subs
            == after.subscriber_subs ==> after.lists_valid(),
{
    if before.balances == after.balances && before.totals == after.totals {
        assert forall|c: Address| 0 <= #[trigger] after.balance(c) <= after.total(c) by {
            assert(0 <= before.balance(c) <= before.total(c));
        }
    }
    if before.messages == after.messages {
        assert forall|c: Address| #[trigger] after.messages_of(c) == before.messages_of(c) by {}
    }
    if before.subscriber_subs == after.subscriber_subs {
        assert forall|a: Address| #[trigger] after.subs_of(a) == before.subs_of(a) by {}
    }
}

/// A subscription that only changed as far as its terms allow leaves the lists
/// as they were.
pub(crate) proof fn lemma_subscription_changed(
    before: StorageView,
    after: StorageView,
    sub_id: u64,
    next: Subscription,
)
    requires
        before.valid(),
        before.subscriptions.contains_key(sub_id),
        StorageView::goes_on(before.subscriptions[sub_id], next),
        after.subscriptions == before.subscriptions.insert(sub_id, next),
        after.sub_counter == before.sub_counter,
        after.subscriber_subs == before.subscriber_subs,
    ensures
        after.subscriptions_valid(),
        after.lists_valid(),
{
    assert forall|a: Address| #[trigger] after.subs_of(a) == before.subs_of(a) by {}
    assert forall|id: u64| #[trigger] after.subscriptions.contains_key(id) implies {
        &&& before.subscriptions.contains_key(id)
        &&& after.subscriptions[id].subscriber == before.subscriptions[id].subscriber
        &&& after.subscriptions[id].amount == before.subscriptions[id].amount
    } by {}
    assert forall|a: Address, i: int| 0 <= i < after.subs_of(a).len() implies {
        let id = #[trigger] after.subs_of(a)[i];
        after.subscriptions.contains_key(id) && after.subscriptions[id].subscriber == a
    } by {
        let id = before.subs_of(a)[i];
        assert(before.subscriptions.contains_key(id));
    }
}

/// A new subscription is listed where it belongs.
pub(crate) proof fn lemma_create_subscription_valid(
    ledger: LedgerView,
    subscriber: Address,
    creator: Address,
    amount: i128,
    interval: u64,
)
    requires
        ledger.storage.valid(),
        ledger.create_subscription_step(subscriber, creator, amount, interval).result is Ok,
    ensures
        ledger.create_subscription_step(subscriber, creator, amount, interval).storage.valid(),
{
    let before = ledger.storage;
    let after = ledger.create_subscription_step(subscriber, creator, amount, interval).storage;
    let id = (before.counter() + 1) as u64;
    lemma_valid_parts(before, after);
    assert(!before.subscriptions.contains_key(id));
    assert forall|a: Address| a != subscriber implies #[trigger] after.subs_of(a)
        == before.subs_of(a) by {}
    assert(after.subs_of(subscriber) == before.subs_of(subscriber).push(id));
    assert forall|a: Address, i: int, j: int| 0 <= i < j < after.subs_of(a).len() implies
        #[trigger] after.subs_of(a)[i] < #[trigger] after.subs_of(a)[j] by {
        let earlier = before.subs_of(a);
        assert(after.subs_of(a)[i] == earlier[i]);
        assert(before.subscriptions.contains_key(earlier[i]));
        if j < earlier.len() {
            assert(after.subs_of(a)[j] == earlier[j]);
        }
    }
    assert forall|a: Address, i: int| 0 <= i < after.subs_of(a).len() implies {
        let id = #[trigger] after.subs_of(a)[i];
        after.subscriptions.contains_key(id) && after.subscriptions[id].subscriber == a
    } by {
        let earlier = before.subs_of(a);
        if i < earlier.len() {
            assert(after.subs_of(a)[i] == earlier[i]);
            assert(before.subscriptions.contains_key(earlier[i]));
        }
    }
    assert forall|n: u64| #[trigger] after.subscriptions.contains_key(n) implies after.subs_of(
        after.subscriptions[n].subscriber,
    ).contains(n) by {
        let listed = after.subs_of(after.subscriptions[n].subscriber);
        if n == id {
            assert(listed[listed.len() - 1] == n);
        } else {
            let earlier = before.subs_of(before.subscriptions[n].subscriber);
            assert(earlier.contains(n));
            let i = choose|i: int| 0 <= i < earlier.len() && earlier[i] == n;
            assert(listed[i] == n);
        }
    }
}

/// A note that may be kept leaves the notes in order.
pub(crate) proof fn lemma_message_kept_valid(
    before: StorageView,
    after: StorageView,
    creator: Address,
    record: TipWithMessageView,
)
    requires
        before.valid(),
        record.creator == creator,
        record.amount > 0,
        record.message.len() <= 280,
        after.messages == before.messages.insert(creator, before.messages_of(creator).push(record)),
    ensures
        after.messages_valid(),
{
    assert forall|c: Address, i: int| 0 <= i < after.messages_of(c).len() implies {
        let m = #[trigger] after.messages_of(c)[i];
        m.creator == c && m.amount > 0 && m.message.len() <= 280
    } by {
        if i < before.messages_of(c).len() {
            assert(after.messages_of(c)[i] == before.messages_of(c)[i]);
        }
    }
}

/// Each part of the history rests on its own entries.
pub(crate) proof fn lemma_evolves_parts(before: StorageView, after: StorageView)
    ensures
        before.totals == after.totals ==> forall|c: Address| #[trigger]
            before.total(c) <= after.total(c),
        before.messages == after.messages ==> forall|c: Address|
            (#[trigger] before.messages_of(c)).is_prefix_of(after.messages_of(c)),
        before.subscriber_subs == after.subscriber_subs ==> forall|a: Address|
            (#[trigger] before.subs_of(a)).is_prefix_of(after.subs_of(a)),
        before.subscriptions == after.subscriptions ==> forall|id: u64| #[trigger]
            before.subscriptions.contains_key(id) ==> {
                &&& after.subscriptions.contains_key(id)
                &&& StorageView::goes_on(before.subscriptions[id], after.subscriptions[id])
            },
{
}

/// Handing out shares moves no tokens.
pub(crate) proof fn lemma_split_effects_move_nothing(
    sender: Address,
    total: int,
    splits: Seq<TipSplit>,
    n: int,
)
    ensures
        forall|i: int|
            0 <= i < crate::model::split_effects(sender, total, splits, n).len() ==> !((
            #[trigger] crate::model::split_effects(sender, total, splits, n)[i]) is Transfer),
    decreases n,
{
    if n > 0 {
        lemma_split_effects_move_nothing(sender, total, splits, n - 1);
    }
}

} // verus!
