//! What holds of the contract as a whole.

use crate::calls::Call;
use crate::ledger::LedgerView;
use crate::storage::StorageView;
use crate::types::{Address, EffectView, TipSplit, TipWithMessageView};
use vstd::prelude::*;

verus! {

broadcast use crate::sums::group_net;

/// A contract that has stored nothing yet is in a valid state.
pub proof fn law_empty_storage_is_valid()
    ensures
        StorageView::empty().valid(),
{
}

/// A refused call leaves the storage as it was, whatever it was refused for.
pub proof fn law_refused_call_changes_nothing(ledger: LedgerView, call: Call)
    requires
        ledger.call_step(call).result is Err,
    ensures
        ledger.call_step(call).storage == ledger.storage,
{
}

/// Every call takes a valid state to a valid state.
pub proof fn law_call_keeps_state_valid(ledger: LedgerView, call: Call)
    requires
        ledger.storage.valid(),
    ensures
        ledger.call_step(call).storage.valid(),
{
    let before = ledger.storage;
    let after = ledger.call_step(call).storage;
    crate::validity::lemma_valid_parts(before, after);
    if ledger.call_step(call).result is Ok {
        match call {
            Call::Tip { sender, creator, amount } => {
                crate::validity::lemma_fee_bounds(before, amount as int);
                let fee = crate::model::basis_points(amount as int, before.fee_bps());
                crate::validity::lemma_credit_valid(before, creator, amount - fee);
                let credited = before.credit(creator, amount - fee);
                assert forall|c: Address| 0 <= #[trigger] after.balance(c) <= after.total(c) by {
                    assert(0 <= credited.balance(c) <= credited.total(c));
                }
            },
            Call::TipWithMessage { sender, creator, amount, message, metadata } => {
                crate::validity::lemma_credit_valid(before, creator, amount as int);
                let credited = before.credit(creator, amount as int);
                assert forall|c: Address| 0 <= #[trigger] after.balance(c) <= after.total(c) by {
                    assert(0 <= credited.balance(c) <= credited.total(c));
                }
                let record = TipWithMessageView {
                    sender,
                    creator,
                    amount: amount as int,
                    message,
                    metadata,
                    timestamp: ledger.timestamp,
                };
                crate::validity::lemma_message_kept_valid(before, after, creator, record);
            },
            Call::Withdraw { creator } => {
                crate::sums::lemma_sum_insert(before.balances, creator, 0);
                assert forall|c: Address| 0 <= #[trigger] after.balance(c) <= after.total(c) by {
                    assert(0 <= before.balance(c) <= before.total(c));
                }
            },
            Call::TipSplit { sender, splits, total_amount } => {
                crate::split::lemma_reach_within(
                    before,
                    total_amount as int,
                    splits,
                    splits.len() as int,
                );
                crate::validity::lemma_split_valid(
                    before,
                    total_amount as int,
                    splits,
                    splits.len() as int,
                );
            },
            Call::CreateSubscription { subscriber, creator, amount, interval } => {
                crate::validity::lemma_create_subscription_valid(
                    ledger,
                    subscriber,
                    creator,
                    amount,
                    interval,
                );
            },
            Call::ProcessSubscriptionPayment { sub_id } => {
                let sub = before.subscriptions[sub_id];
                crate::validity::lemma_credit_valid(before, sub.creator, sub.amount as int);
                let credited = before.credit(sub.creator, sub.amount as int);
                assert forall|c: Address| 0 <= #[trigger] after.balance(c) <= after.total(c) by {
                    assert(0 <= credited.balance(c) <= credited.total(c));
                }
                crate::validity::lemma_subscription_changed(
                    before,
                    after,
                    sub_id,
                    after.subscriptions[sub_id],
                );
            },
            Call::CancelSubscription { sub_id, caller } => {
                crate::validity::lemma_subscription_changed(
                    before,
                    after,
                    sub_id,
                    after.subscriptions[sub_id],
                );
            },
            _ => {},
        }
    }
}

/// Setup happens once; fees, totals, notes, subscriptions and their numbers
/// only grow; the terms of a subscription stay; an ended one never changes.
pub proof fn law_call_undoes_nothing(ledger: LedgerView, call: Call)
    requires
        ledger.storage.valid(),
    ensures
        ledger.storage.evolves(ledger.call_step(call).storage),
{
    let before = ledger.storage;
    let after = ledger.call_step(call).storage;
    crate::validity::lemma_evolves_parts(before, after);
    if ledger.call_step(call).result is Ok {
        match call {
            Call::Tip { sender, creator, amount } => {
                crate::validity::lemma_fee_bounds(before, amount as int);
                let fee = crate::model::basis_points(amount as int, before.fee_bps());
                crate::validity::lemma_credit_valid(before, creator, amount - fee);
                let credited = before.credit(creator, amount - fee);
                assert forall|c: Address| #[trigger] before.total(c) <= after.total(c) by {
                    assert(credited.total(c) == after.total(c));
                }
            },
            Call::TipWithMessage { sender, creator, amount, message, metadata } => {
                assert forall|c: Address| #[trigger] before.total(c) <= after.total(c) by {}
                assert forall|c: Address|
                    (#[trigger] before.messages_of(c)).is_prefix_of(after.messages_of(c)) by {}
            },
            Call::TipSplit { sender, splits, total_amount } => {
                crate::split::lemma_reach_within(
                    before,
                    total_amount as int,
                    splits,
                    splits.len() as int,
                );
                crate::validity::lemma_split_valid(
                    before,
                    total_amount as int,
                    splits,
                    splits.len() as int,
                );
            },
            Call::CreateSubscription { subscriber, creator, amount, interval } => {
                let id = (before.counter() + 1) as u64;
                assert(!before.subscriptions.contains_key(id));
                assert forall|a: Address|
                    (#[trigger] before.subs_of(a)).is_prefix_of(after.subs_of(a)) by {}
            },
            Call::ProcessSubscriptionPayment { sub_id } => {
                assert(before.subscriptions[sub_id].amount > 0);
                assert forall|c: Address| #[trigger] before.total(c) <= after.total(c) by {}
            },
            _ => {},
        }
    }
}

/// What no call undoes, no sequence of calls undoes.
pub proof fn law_evolution_is_transitive(a: StorageView, b: StorageView, c: StorageView)
    requires
        a.evolves(b),
        b.evolves(c),
    ensures
        a.evolves(c),
{
    assert forall|x: Address| #[trigger] a.total(x) <= c.total(x) by {
        assert(b.total(x) <= c.total(x));
    }
    assert forall|x: Address| (#[trigger] a.messages_of(x)).is_prefix_of(c.messages_of(x)) by {
        assert(b.messages_of(x).is_prefix_of(c.messages_of(x)));
    }
    assert forall|x: Address| (#[trigger] a.subs_of(x)).is_prefix_of(c.subs_of(x)) by {
        assert(b.subs_of(x).is_prefix_of(c.subs_of(x)));
    }
    assert forall|id: u64| #[trigger] a.subscriptions.contains_key(id) implies {
        &&& c.subscriptions.contains_key(id)
        &&& StorageView::goes_on(a.subscriptions[id], c.subscriptions[id])
    } by {
        assert(b.subscriptions.contains_key(id));
    }
}

/// The shares of a split tip make up the tip.
pub proof fn law_split_shares_sum_to_total(total: int, splits: Seq<TipSplit>)
    requires
        splits.len() > 0,
    ensures
        crate::split::shares(total, splits, splits.len() as int) == total,
{
    crate::split::lemma_shares_are_parts(total, splits, splits.len() - 1);
}

/// The parties that a call moves tokens between are others than the contract
/// itself.
pub open spec fn parties_apart(ledger: LedgerView, call: Call) -> bool {
    match call {
        Call::Tip { sender, creator, amount } => sender != ledger.contract
            && ledger.storage.treasury != Some(ledger.contract),
        Call::TipWithMessage { sender, creator, amount, message, metadata } => sender
            != ledger.contract,
        Call::TipSplit { sender, splits, total_amount } => sender != ledger.contract,
        Call::ProcessSubscriptionPayment { sub_id } =>
            ledger.storage.subscriptions[sub_id].subscriber != ledger.contract,
        Call::Withdraw { creator } => creator != ledger.contract,
        _ => true,
    }
}

/// An accepted call brings as many tokens into the contract as it adds to what
/// creators can withdraw, and pays out as many as it takes off.
pub proof fn law_escrow_moves_with_balances(ledger: LedgerView, call: Call)
    requires
        ledger.storage.valid(),
        ledger.call_step(call).result is Ok,
        parties_apart(ledger, call),
    ensures
        crate::sums::net(ledger.call_step(call).effects, ledger.contract) == crate::sums::sum(
            ledger.call_step(call).storage.balances,
        ) - crate::sums::sum(ledger.storage.balances),
{
    reveal_with_fuel(crate::sums::net, 5);
    let before = ledger.storage;
    match call {
        Call::Tip { sender, creator, amount } => {
            crate::validity::lemma_fee_bounds(before, amount as int);
            let fee = crate::model::basis_points(amount as int, before.fee_bps());
            crate::validity::lemma_credit_valid(before, creator, amount - fee);
        },
        Call::TipWithMessage { sender, creator, amount, message, metadata } => {
            crate::validity::lemma_credit_valid(before, creator, amount as int);
        },
        Call::TipSplit { sender, splits, total_amount } => {
            let total = total_amount as int;
            let n = splits.len() as int;
            crate::split::lemma_reach_within(before, total, splits, n);
            crate::validity::lemma_split_valid(before, total, splits, n);
            law_split_shares_sum_to_total(total, splits);
            crate::validity::lemma_split_effects_move_nothing(sender, total, splits, n);
            crate::sums::lemma_net_still(
                crate::model::split_effects(sender, total, splits, n),
                ledger.contract,
            );
        },
        Call::ProcessSubscriptionPayment { sub_id } => {
            let sub = before.subscriptions[sub_id];
            assert(before.subscriptions.contains_key(sub_id));
            crate::validity::lemma_credit_valid(before, sub.creator, sub.amount as int);
        },
        Call::Withdraw { creator } => {
            crate::sums::lemma_sum_insert(before.balances, creator, 0);
        },
        _ => {},
    }
}

/// Whoever pays for a call is another than the contract itself.
pub open spec fn payer_apart(ledger: LedgerView, call: Call) -> bool {
    match call {
        Call::Tip { sender, creator, amount } => sender != ledger.contract,
        Call::TipWithMessage { sender, creator, amount, message, metadata } => sender
            != ledger.contract,
        Call::TipSplit { sender, splits, total_amount } => sender != ledger.contract,
        Call::ProcessSubscriptionPayment { sub_id } =>
            ledger.storage.subscriptions[sub_id].subscriber != ledger.contract,
        _ => true,
    }
}

/// An accepted call never adds more to what creators can withdraw than it
/// brings in, nor pays out more than it takes off, even where the fees or the
/// withdrawn tokens go to the contract itself.
pub proof fn law_escrow_covers_balances(ledger: LedgerView, call: Call)
    requires
        ledger.storage.valid(),
        ledger.call_step(call).result is Ok,
        payer_apart(ledger, call),
    ensures
        crate::sums::net(ledger.call_step(call).effects, ledger.contract) >= crate::sums::sum(
            ledger.call_step(call).storage.balances,
        ) - crate::sums::sum(ledger.storage.balances),
{
    let before = ledger.storage;
    if parties_apart(ledger, call) {
        law_escrow_moves_with_balances(ledger, call);
    } else {
        reveal_with_fuel(crate::sums::net, 5);
        match call {
            Call::Tip { sender, creator, amount } => {
                crate::validity::lemma_fee_bounds(before, amount as int);
                let fee = crate::model::basis_points(amount as int, before.fee_bps());
                crate::validity::lemma_credit_valid(before, creator, amount - fee);
            },
            Call::Withdraw { creator } => {
                crate::sums::lemma_sum_insert(before.balances, creator, 0);
            },
            _ => {},
        }
    }
}

/// What a call hands to creators when it is accepted.
pub open spec fn handed_out(ledger: LedgerView, call: Call) -> int {
    match call {
        Call::Tip { sender, creator, amount } => amount - crate::model::basis_points(
            amount as int,
            ledger.storage.fee_bps(),
        ),
        Call::TipWithMessage { sender, creator, amount, message, metadata } => amount as int,
        Call::TipSplit { sender, splits, total_amount } => total_amount as int,
        Call::ProcessSubscriptionPayment { sub_id } =>
            ledger.storage.subscriptions[sub_id].amount as int,
        _ => 0,
    }
}

/// The sum of what all creators ever received grows by just what an accepted
/// call hands out: a tip less its fee, a tip with a note, a split tip or a
/// payment in full.
pub proof fn law_totals_grow_by_what_is_handed_out(ledger: LedgerView, call: Call)
    requires
        ledger.storage.valid(),
        ledger.call_step(call).result is Ok,
    ensures
        crate::sums::sum(ledger.call_step(call).storage.totals) == crate::sums::sum(
            ledger.storage.totals,
        ) + handed_out(ledger, call),
{
    let before = ledger.storage;
    match call {
        Call::Tip { sender, creator, amount } => {
            crate::validity::lemma_fee_bounds(before, amount as int);
            crate::validity::lemma_credit_valid(before, creator, handed_out(ledger, call));
        },
        Call::TipWithMessage { sender, creator, amount, message, metadata } => {
            crate::validity::lemma_credit_valid(before, creator, amount as int);
        },
        Call::TipSplit { sender, splits, total_amount } => {
            let total = total_amount as int;
            let n = splits.len() as int;
            crate::split::lemma_reach_within(before, total, splits, n);
            crate::validity::lemma_split_valid(before, total, splits, n);
            law_split_shares_sum_to_total(total, splits);
        },
        Call::ProcessSubscriptionPayment { sub_id } => {
            let sub = before.subscriptions[sub_id];
            assert(before.subscriptions.contains_key(sub_id));
            crate::validity::lemma_credit_valid(before, sub.creator, sub.amount as int);
        },
        _ => {},
    }
}

/// The ledger on which a call finds the contract at `contract`.
pub open spec fn ledger_at(contract: Address, timestamp: u64, storage: StorageView) -> LedgerView {
    LedgerView { contract, timestamp, storage, effects: Seq::empty() }
}

/// The storage after a history of calls, each at its time, from the start.
pub open spec fn run(contract: Address, history: Seq<(u64, Call)>) -> StorageView
    decreases history.len(),
{
    if history.len() == 0 {
        StorageView::empty()
    } else {
        let (timestamp, call) = history.last();
        ledger_at(contract, timestamp, run(contract, history.drop_last())).call_step(call).storage
    }
}

/// The tokens that the accepted calls of a history brought into the contract,
/// less those that they paid out.
pub open spec fn held(contract: Address, history: Seq<(u64, Call)>) -> int
    decreases history.len(),
{
    if history.len() == 0 {
        0
    } else {
        let (timestamp, call) = history.last();
        let step = ledger_at(contract, timestamp, run(contract, history.drop_last())).call_step(
            call,
        );
        held(contract, history.drop_last()) + if step.result is Ok {
            crate::sums::net(step.effects, contract)
        } else {
            0
        }
    }
}

/// The contract is in a valid state after every history of calls.
pub proof fn law_every_state_is_valid(contract: Address, history: Seq<(u64, Call)>)
    ensures
        run(contract, history).valid(),
    decreases history.len(),
{
    if history.len() == 0 {
        law_empty_storage_is_valid();
    } else {
        let (timestamp, call) = history.last();
        let earlier = history.drop_last();
        law_every_state_is_valid(contract, earlier);
        law_call_keeps_state_valid(ledger_at(contract, timestamp, run(contract, earlier)), call);
    }
}

/// Nothing that a history brought about is undone by how it goes on.
pub proof fn law_history_undoes_nothing(contract: Address, history: Seq<(u64, Call)>, n: int)
    requires
        0 <= n <= history.len(),
    ensures
        run(contract, history.take(n)).evolves(run(contract, history)),
    decreases history.len(),
{
    if n == history.len() {
        assert(history.take(n) =~= history);
    } else {
        let (timestamp, call) = history.last();
        let earlier = history.drop_last();
        law_history_undoes_nothing(contract, earlier, n);
        assert(earlier.take(n) =~= history.take(n));
        law_every_state_is_valid(contract, earlier);
        law_call_undoes_nothing(ledger_at(contract, timestamp, run(contract, earlier)), call);
        law_evolution_is_transitive(
            run(contract, history.take(n)),
            run(contract, earlier),
            run(contract, history),
        );
    }
}

/// After every history in which the contract does not pay itself, it holds at
/// least the tokens that creators can withdraw.
pub proof fn law_every_balance_is_backed(contract: Address, history: Seq<(u64, Call)>)
    requires
        forall|i: int|
            0 <= i < history.len() ==> payer_apart(
                ledger_at(contract, history[i].0, run(contract, #[trigger] history.take(i))),
                history[i].1,
            ),
    ensures
        held(contract, history) >= crate::sums::sum(run(contract, history).balances),
    decreases history.len(),
{
    if history.len() > 0 {
        let (timestamp, call) = history.last();
        let earlier = history.drop_last();
        assert forall|i: int| 0 <= i < earlier.len() implies payer_apart(
            ledger_at(contract, earlier[i].0, run(contract, #[trigger] earlier.take(i))),
            earlier[i].1,
        ) by {
            assert(earlier.take(i) =~= history.take(i));
        }
        law_every_balance_is_backed(contract, earlier);
        law_every_state_is_valid(contract, earlier);
        assert(history.take(history.len() - 1) =~= earlier);
        let ledger = ledger_at(contract, timestamp, run(contract, earlier));
        if ledger.call_step(call).result is Ok {
            law_escrow_covers_balances(ledger, call);
        } else {
            law_refused_call_changes_nothing(ledger, call);
        }
    }
}

/// After every history in which the contract is none of the parties, the
/// tokens that it holds are those that creators can withdraw, to the last one.
pub proof fn law_escrow_is_the_sum_of_balances(contract: Address, history: Seq<(u64, Call)>)
    requires
        forall|i: int|
            0 <= i < history.len() ==> parties_apart(
                ledger_at(contract, history[i].0, run(contract, #[trigger] history.take(i))),
                history[i].1,
            ),
    ensures
        held(contract, history) == crate::sums::sum(run(contract, history).balances),
    decreases history.len(),
{
    if history.len() > 0 {
        let (timestamp, call) = history.last();
        let earlier = history.drop_last();
        assert forall|i: int| 0 <= i < earlier.len() implies parties_apart(
            ledger_at(contract, earlier[i].0, run(contract, #[trigger] earlier.take(i))),
            earlier[i].1,
        ) by {
            assert(earlier.take(i) =~= history.take(i));
        }
        law_escrow_is_the_sum_of_balances(contract, earlier);
        law_every_state_is_valid(contract, earlier);
        assert(history.take(history.len() - 1) =~= earlier);
        let ledger = ledger_at(contract, timestamp, run(contract, earlier));
        if ledger.call_step(call).result is Ok {
            law_escrow_moves_with_balances(ledger, call);
        } else {
            law_refused_call_changes_nothing(ledger, call);
        }
    }
}

/// Who has to authorize a call; setup needs nobody.
pub open spec fn signer(ledger: LedgerView, call: Call) -> Option<Address> {
    match call {
        Call::Init { token, admin } => None,
        Call::Tip { sender, creator, amount } => Some(sender),
        Call::TipWithMessage { sender, creator, amount, message, metadata } => Some(sender),
        Call::Withdraw { creator } => Some(creator),
        Call::TipSplit { sender, splits, total_amount } => Some(sender),
        Call::CreateSubscription { subscriber, creator, amount, interval } => Some(subscriber),
        Call::ProcessSubscriptionPayment { sub_id } => Some(
            ledger.storage.subscriptions[sub_id].subscriber,
        ),
        Call::CancelSubscription { sub_id, caller } => Some(caller),
        Call::SetPlatformFee { admin, fee_bps, treasury } => Some(admin),
        Call::Pause { admin } => Some(admin),
        Call::Unpause { admin } => Some(admin),
    }
}

/// Before a call asks anything else of the ledger it asks for the
/// authorization of its signer, and no call but setup is accepted without.
pub proof fn law_calls_are_authorized(ledger: LedgerView, call: Call)
    requires
        signer(ledger, call) is Some,
    ensures
        ledger.call_step(call).result is Ok ==> ledger.call_step(call).effects.len() > 0,
        ledger.call_step(call).effects.len() > 0 ==> ledger.call_step(call).effects[0]
            == EffectView::RequireAuth(signer(ledger, call)->0),
{
}

/// Tokens leave nobody who did not authorize the call: they come from the
/// signer, or from the contract to the signer. All of them are of the token
/// that was chosen at setup.
pub proof fn law_transfers_are_authorized(ledger: LedgerView, call: Call, i: int)
    requires
        0 <= i < ledger.call_step(call).effects.len(),
        ledger.call_step(call).effects[i] is Transfer,
    ensures
        ledger.call_step(call).effects[i] matches EffectView::Transfer { token, from, to, amount }
            && {
            &&& ledger.storage.token == Some(token)
            &&& signer(ledger, call) == Some(from) || from == ledger.contract && signer(
                ledger,
                call,
            ) == Some(to)
        },
{
    let effects = ledger.call_step(call).effects;
    match call {
        Call::TipSplit { sender, splits, total_amount } => {
            let total = total_amount as int;
            let reach = ledger.storage.split_reach(total, splits, splits.len() as int);
            crate::validity::lemma_split_effects_move_nothing(sender, total, splits, reach);
            let handed = crate::model::split_effects(sender, total, splits, reach);
            if i >= 2 {
                assert(effects[i] == handed[i - 2]);
            }
        },
        Call::Tip { sender, creator, amount } => {
            assert(i == 1 || i == 4);
        },
        Call::TipWithMessage { sender, creator, amount, message, metadata } => {
            assert(i == 1);
        },
        Call::Withdraw { creator } => {
            assert(i == 1);
        },
        Call::ProcessSubscriptionPayment { sub_id } => {
            assert(i == 1);
        },
        _ => {},
    }
}

} // verus!
