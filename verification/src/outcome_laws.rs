//! What each accepted call does: which entries it changes and how, whom it
//! asks, what it moves and what it announces.

use crate::asked::{auths, events, tip_event, transfers};
use crate::ledger::{LedgerView, Step};
use crate::storage::StorageView;
use crate::sums::net;
use crate::types::{Address, DataKey, EffectView, EventView, TipSplit, TipWithMessageView};
use vstd::prelude::*;

verus! {

/// `creator` received `amount`, and nobody else received anything.
pub open spec fn received(
    before: StorageView,
    after: StorageView,
    creator: Address,
    amount: int,
) -> bool {
    &&& after.balance(creator) == before.balance(creator) + amount
    &&& after.total(creator) == before.total(creator) + amount
    &&& forall|c: Address| c != creator ==> #[trigger] after.balance(c) == before.balance(c)
    &&& forall|c: Address| c != creator ==> #[trigger] after.total(c) == before.total(c)
}

/// `amount` went from one holder to another, and nobody else's tokens moved.
pub open spec fn paid(effects: Seq<EffectView>, from: Address, to: Address, amount: int) -> bool {
    forall|x: Address| #[trigger]
        net(effects, x) == (if x == to {
            amount
        } else {
            0
        }) - (if x == from {
            amount
        } else {
            0
        })
}

/// Nobody's tokens moved.
pub open spec fn paid_nobody(effects: Seq<EffectView>) -> bool {
    forall|x: Address| #[trigger] net(effects, x) == 0
}

/// One transfer pays just its amount.
proof fn lemma_paid(
    effects: Seq<EffectView>,
    token: Address,
    from: Address,
    to: Address,
    amount: int,
)
    requires
        transfers(effects) == seq![EffectView::Transfer { token, from, to, amount }],
    ensures
        paid(effects, from, to, amount),
{
    assert forall|x: Address| #[trigger]
        net(effects, x) == (if x == to {
            amount
        } else {
            0
        }) - (if x == from {
            amount
        } else {
            0
        }) by {
        crate::asked::lemma_net_of_transfers(effects, x);
    }
}

/// Without a transfer nobody is paid.
proof fn lemma_paid_nobody(effects: Seq<EffectView>)
    requires
        transfers(effects).len() == 0,
    ensures
        paid_nobody(effects),
{
    assert forall|x: Address| #[trigger] net(effects, x) == 0 by {
        crate::asked::lemma_net_of_transfers(effects, x);
    }
}

/// What is read of an entry that was never stored: nobody holds or received
/// anything, there are no notes and no subscriptions, no fee is due, and the
/// contract is not paused. What was stored is read as it was stored.
pub proof fn law_entries_are_read_as_stored(storage: StorageView, a: Address)
    ensures
        storage.balances.contains_key(a) ==> storage.balance(a) == storage.balances[a],
        !storage.balances.contains_key(a) ==> storage.balance(a) == 0,
        storage.totals.contains_key(a) ==> storage.total(a) == storage.totals[a],
        !storage.totals.contains_key(a) ==> storage.total(a) == 0,
        storage.messages.contains_key(a) ==> storage.messages_of(a) == storage.messages[a],
        !storage.messages.contains_key(a) ==> storage.messages_of(a).len() == 0,
        storage.subscriber_subs.contains_key(a) ==> storage.subs_of(a)
            == storage.subscriber_subs[a],
        !storage.subscriber_subs.contains_key(a) ==> storage.subs_of(a).len() == 0,
        storage.platform_fee is Some ==> storage.fee_bps() == storage.platform_fee->0,
        storage.platform_fee is None ==> storage.fee_bps() == 0,
        storage.total_fees is Some ==> storage.fees_collected() == storage.total_fees->0,
        storage.total_fees is None ==> storage.fees_collected() == 0,
        storage.sub_counter is Some ==> storage.counter() == storage.sub_counter->0,
        storage.sub_counter is None ==> storage.counter() == 0,
        storage.is_paused() <==> storage.paused == Some(true),
{
}

/// A contract that has stored nothing yet has no entry at all.
pub proof fn law_new_contract_has_no_entries(a: Address, id: u64)
    ensures
        ({
            let storage = StorageView::empty();
            &&& storage.token is None && storage.admin is None && storage.paused is None
            &&& storage.platform_fee is None && storage.treasury is None
            &&& storage.total_fees is None && storage.sub_counter is None
            &&& !storage.balances.contains_key(a) && !storage.totals.contains_key(a)
            &&& !storage.messages.contains_key(a) && !storage.subscriber_subs.contains_key(a)
            &&& !storage.subscriptions.contains_key(id)
        }),
{
}

/// A call leaves the ledger with the storage that it came to and with what it
/// asked for behind what was asked before; where the contract lives and what
/// time it is stay as they were.
pub proof fn law_ledger_goes_on_from_a_call<T>(ledger: LedgerView, step: Step<T>)
    ensures
        ledger.after(step).storage == step.storage,
        ledger.after(step).effects == ledger.effects + step.effects,
        ledger.after(step).contract == ledger.contract,
        ledger.after(step).timestamp == ledger.timestamp,
{
}

/// A part in basis points, rounded towards zero: ten thousand times the part
/// is what the rate makes of the amount, or less by under ten thousand; and
/// what is taken of a loss is the loss of what is taken of a gain.
pub proof fn law_parts_are_rounded_towards_zero(amount: int, bps: int)
    requires
        bps >= 0,
    ensures
        amount >= 0 ==> {
            let part = crate::model::basis_points(amount, bps);
            10_000 * part <= amount * bps < 10_000 * part + 10_000
        },
        crate::model::basis_points(-amount, bps) == -crate::model::basis_points(amount, bps),
{
    assert(0 * bps == 0);
}

/// Setup stores the token and the administrator, starts without a pause, and
/// does nothing else.
pub proof fn law_setup_stores_its_choices(ledger: LedgerView, token: Address, admin: Address)
    requires
        ledger.init_step(token, admin).result is Ok,
    ensures
        ({
            let before = ledger.storage;
            let step = ledger.init_step(token, admin);
            let after = step.storage;
            &&& after.token == Some(token)
            &&& after.admin == Some(admin)
            &&& after.paused == Some(false)
            &&& after == (StorageView {
                token: after.token,
                admin: after.admin,
                paused: after.paused,
                ..before
            })
            &&& auths(step.effects).len() == 0
            &&& transfers(step.effects).len() == 0
            &&& events(step.effects).len() == 0
            &&& paid_nobody(step.effects)
        }),
{
    let effects = ledger.init_step(token, admin).effects;
    crate::asked::lemma_unasked(effects);
    lemma_paid_nobody(effects);
}

/// What a tip asks for, list by list.
proof fn lemma_tip_lists(ledger: LedgerView, sender: Address, creator: Address, amount: int)
    requires
        ledger.tip_step(sender, creator, amount).result is Ok,
    ensures
        ({
            let effects = ledger.tip_step(sender, creator, amount).effects;
            let fee = crate::model::basis_points(amount, ledger.storage.fee_bps());
            let kept = amount - fee;
            let token = ledger.storage.token->0;
            let treasury = ledger.storage.treasury->0;
            let to_escrow = EffectView::Transfer {
                token,
                from: sender,
                to: ledger.contract,
                amount: kept,
            };
            &&& auths(effects) == seq![EffectView::RequireAuth(sender)]
            &&& fee > 0 ==> transfers(effects) == seq![
                EffectView::Transfer { token, from: sender, to: treasury, amount: fee },
                to_escrow,
            ]
            &&& fee <= 0 ==> transfers(effects) == seq![to_escrow]
            &&& fee > 0 ==> events(effects) == seq![
                EffectView::Publish(EventView::FeeCollected { treasury, sender, fee }),
                tip_event(creator, sender, kept),
            ]
            &&& fee <= 0 ==> events(effects) == seq![tip_event(creator, sender, kept)]
            &&& forall|x: Address| #[trigger]
                net(effects, x) == (if x == ledger.contract {
                    kept
                } else {
                    0
                }) + (if fee > 0 && x == treasury {
                    fee
                } else {
                    0
                }) - (if x == sender {
                    amount
                } else {
                    0
                })
        }),
{
    let effects = ledger.tip_step(sender, creator, amount).effects;
    let bps = ledger.storage.fee_bps();
    let fee = crate::model::basis_points(amount, bps);
    let kept = amount - fee;
    let token = ledger.storage.token->0;
    let treasury = ledger.storage.treasury->0;
    assert(amount * bps >= 0) by (nonlinear_arith)
        requires
            amount > 0,
            bps >= 0,
    ;
    let to_escrow = EffectView::Transfer { token, from: sender, to: ledger.contract, amount: kept };
    assert(effects[0] == EffectView::RequireAuth(sender));
    if fee > 0 {
        assert(effects.len() == 8);
        let to_treasury = EffectView::Transfer { token, from: sender, to: treasury, amount: fee };
        let counted = EventView::FeeCollected { treasury, sender, fee };
        assert(effects[1] == to_treasury);
        assert(effects[3] == EffectView::Publish(counted));
        assert(effects[4] == to_escrow);
        assert(effects[7] == tip_event(creator, sender, kept));
        assert(effects[2] is Store && effects[5] is Store && effects[6] is Store);
        crate::asked::lemma_paying_twice(
            effects,
            effects[0],
            (effects[1], effects[3]),
            (to_escrow, effects[7]),
        );
    } else {
        assert(effects.len() == 5);
        assert(effects[1] == to_escrow);
        assert(effects[2] is Store && effects[3] is Store);
        assert(effects[4] == tip_event(creator, sender, kept));
        crate::asked::lemma_paying(effects, effects[0], effects[1], effects[4], 4);
    }
    assert forall|x: Address| #[trigger]
        net(effects, x) == (if x == ledger.contract {
            amount - fee
        } else {
            0
        }) + (if fee > 0 && x == ledger.storage.treasury->0 {
            fee
        } else {
            0
        }) - (if x == sender {
            amount
        } else {
            0
        }) by {
        crate::asked::lemma_net_of_transfers(effects, x);
    }
}

/// An accepted tip takes its amount from the sender, and nothing else. What
/// the platform's rate makes of it, rounded down, goes to the treasury and is
/// counted and announced, if it is anything; the rest goes into escrow, is
/// credited to the creator and announced. No other entry changes.
pub proof fn law_tip_is_shared_with_the_platform(
    ledger: LedgerView,
    sender: Address,
    creator: Address,
    amount: int,
)
    requires
        ledger.tip_step(sender, creator, amount).result is Ok,
    ensures
        ({
            let before = ledger.storage;
            let step = ledger.tip_step(sender, creator, amount);
            let after = step.storage;
            let bps: int = if before.platform_fee is Some {
                before.platform_fee->0 as int
            } else {
                0
            };
            let kept = after.balance(creator) - before.balance(creator);
            let fee = amount - kept;
            let treasury = before.treasury->0;
            let token = before.token->0;
            let to_escrow = EffectView::Transfer {
                token,
                from: sender,
                to: ledger.contract,
                amount: kept,
            };
            &&& 10_000 * fee <= amount * bps < 10_000 * fee + 10_000
            &&& received(before, after, creator, kept)
            &&& after.fees_collected() == before.fees_collected() + fee
            &&& fee == 0 ==> after.total_fees == before.total_fees
            &&& after == (StorageView {
                total_fees: after.total_fees,
                balances: after.balances,
                totals: after.totals,
                ..before
            })
            &&& auths(step.effects) == seq![EffectView::RequireAuth(sender)]
            &&& before.token is Some
            &&& fee > 0 ==> before.treasury is Some
            &&& fee > 0 ==> transfers(step.effects) == seq![
                EffectView::Transfer { token, from: sender, to: treasury, amount: fee },
                to_escrow,
            ]
            &&& fee == 0 ==> transfers(step.effects) == seq![to_escrow]
            &&& fee > 0 ==> events(step.effects) == seq![
                EffectView::Publish(EventView::FeeCollected { treasury, sender, fee }),
                tip_event(creator, sender, kept),
            ]
            &&& fee == 0 ==> events(step.effects) == seq![tip_event(creator, sender, kept)]
            &&& forall|x: Address| #[trigger]
                net(step.effects, x) == (if x == ledger.contract {
                    kept
                } else {
                    0
                }) + (if fee > 0 && x == treasury {
                    fee
                } else {
                    0
                }) - (if x == sender {
                    amount
                } else {
                    0
                })
        }),
{
    let bps = ledger.storage.fee_bps();
    assert(amount * bps >= 0) by (nonlinear_arith)
        requires
            amount > 0,
            bps >= 0,
    ;
    lemma_tip_lists(ledger, sender, creator, amount);
}

/// What a tip with a note asks for, list by list.
proof fn lemma_note_asks(
    ledger: LedgerView,
    sender: Address,
    creator: Address,
    amount: int,
    message: Seq<u8>,
    metadata: Map<Seq<u8>, Seq<u8>>,
)
    requires
        ledger.tip_with_message_step(sender, creator, amount, message, metadata).result is Ok,
    ensures
        ({
            let effects = ledger.tip_with_message_step(
                sender,
                creator,
                amount,
                message,
                metadata,
            ).effects;
            &&& auths(effects) == seq![EffectView::RequireAuth(sender)]
            &&& transfers(effects) == seq![
                EffectView::Transfer {
                    token: ledger.storage.token->0,
                    from: sender,
                    to: ledger.contract,
                    amount,
                },
            ]
            &&& events(effects) == seq![
                EffectView::Publish(
                    EventView::TipMessage { creator, sender, amount, message, metadata },
                ),
            ]
            &&& paid(effects, sender, ledger.contract, amount)
        }),
{
    let effects = ledger.tip_with_message_step(
        sender,
        creator,
        amount,
        message,
        metadata,
    ).effects;
    assert(effects.len() == 6);
    assert(effects[0] == EffectView::RequireAuth(sender));
    assert(effects[1] == EffectView::Transfer {
        token: ledger.storage.token->0,
        from: sender,
        to: ledger.contract,
        amount,
    });
    assert(effects[2] is Store && effects[3] is Store && effects[4] is Store);
    assert(effects[5] == EffectView::Publish(
        EventView::TipMessage { creator, sender, amount, message, metadata },
    ));
    crate::asked::lemma_paying(effects, effects[0], effects[1], effects[5], 5);
    lemma_paid(effects, ledger.storage.token->0, sender, ledger.contract, amount);
}

/// An accepted tip with a note takes its amount from the sender into escrow,
/// and nothing else, whatever the platform's rate; all of it is credited to
/// the creator and announced with the note, which is kept behind the creator's
/// earlier ones. No other entry changes.
pub proof fn law_tip_with_note_is_kept_whole(
    ledger: LedgerView,
    sender: Address,
    creator: Address,
    amount: int,
    message: Seq<u8>,
    metadata: Map<Seq<u8>, Seq<u8>>,
)
    requires
        ledger.tip_with_message_step(sender, creator, amount, message, metadata).result is Ok,
    ensures
        ({
            let before = ledger.storage;
            let step = ledger.tip_with_message_step(sender, creator, amount, message, metadata);
            let after = step.storage;
            let note = TipWithMessageView {
                sender,
                creator,
                amount,
                message,
                metadata,
                timestamp: ledger.timestamp,
            };
            &&& received(before, after, creator, amount)
            &&& after.messages_of(creator) == before.messages_of(creator).push(note)
            &&& forall|c: Address|
                c != creator ==> #[trigger] after.messages_of(c) == before.messages_of(c)
            &&& after == (StorageView {
                balances: after.balances,
                totals: after.totals,
                messages: after.messages,
                ..before
            })
            &&& auths(step.effects) == seq![EffectView::RequireAuth(sender)]
            &&& before.token is Some
            &&& transfers(step.effects) == seq![
                EffectView::Transfer {
                    token: before.token->0,
                    from: sender,
                    to: ledger.contract,
                    amount,
                },
            ]
            &&& events(step.effects) == seq![
                EffectView::Publish(
                    EventView::TipMessage { creator, sender, amount, message, metadata },
                ),
            ]
            &&& paid(step.effects, sender, ledger.contract, amount)
        }),
{
    lemma_note_asks(ledger, sender, creator, amount, message, metadata);
}

/// An accepted withdrawal moves all that the creator could withdraw from the
/// contract to the creator, and leaves them nothing; it is announced. No other
/// entry changes.
pub proof fn law_withdrawal_pays_the_whole_balance(ledger: LedgerView, creator: Address)
    requires
        ledger.withdraw_step(creator).result is Ok,
    ensures
        ({
            let before = ledger.storage;
            let step = ledger.withdraw_step(creator);
            let after = step.storage;
            let amount = before.balance(creator);
            &&& after.balance(creator) == 0
            &&& forall|c: Address|
                c != creator ==> #[trigger] after.balance(c) == before.balance(c)
            &&& after == (StorageView { balances: after.balances, ..before })
            &&& auths(step.effects) == seq![EffectView::RequireAuth(creator)]
            &&& before.token is Some
            &&& transfers(step.effects) == seq![
                EffectView::Transfer {
                    token: before.token->0,
                    from: ledger.contract,
                    to: creator,
                    amount,
                },
            ]
            &&& events(step.effects) == seq![
                EffectView::Publish(EventView::Withdraw { creator, amount }),
            ]
            &&& paid(step.effects, ledger.contract, creator, amount)
        }),
{
    let effects = ledger.withdraw_step(creator).effects;
    let amount = ledger.storage.balance(creator);
    assert(effects.len() == 4);
    assert(effects[0] == EffectView::RequireAuth(creator));
    assert(effects[1] == EffectView::Transfer {
        token: ledger.storage.token->0,
        from: ledger.contract,
        to: creator,
        amount,
    });
    assert(effects[2] is Store);
    assert(effects[3] == EffectView::Publish(EventView::Withdraw { creator, amount }));
    crate::asked::lemma_paying(effects, effects[0], effects[1], effects[3], 3);
    lemma_paid(effects, ledger.storage.token->0, ledger.contract, creator, amount);
}

/// The percentages of the recipients are added up one by one.
pub proof fn law_percentages_add_up(splits: Seq<TipSplit>, n: int)
    requires
        0 <= n < splits.len(),
    ensures
        crate::model::percentages(splits, 0) == 0,
        crate::model::percentages(splits, n + 1) == crate::model::percentages(splits, n)
            + splits[n].percentage,
{
}

/// The shares of the recipients are added up one by one, and those of one
/// creator as often as they are named.
pub proof fn law_shares_add_up(total: int, splits: Seq<TipSplit>, creator: Address, n: int)
    requires
        0 <= n < splits.len(),
    ensures
        crate::split::shares(total, splits, 0) == 0,
        crate::split::shares(total, splits, n + 1) == crate::split::shares(total, splits, n)
            + crate::model::share(total, splits, n),
        crate::model::credited(total, splits, creator, 0) == 0,
        crate::model::credited(total, splits, creator, n + 1) == crate::model::credited(
            total,
            splits,
            creator,
            n,
        ) + if splits[n].creator == creator {
            crate::model::share(total, splits, n)
        } else {
            0
        },
{
}

/// What an accepted split tip asks for, list by list.
proof fn lemma_split_lists(
    ledger: LedgerView,
    sender: Address,
    splits: Seq<TipSplit>,
    total: int,
)
    requires
        ledger.tip_split_step(sender, splits, total).result is Ok,
    ensures
        ({
            let effects = ledger.tip_split_step(sender, splits, total).effects;
            &&& auths(effects) == seq![EffectView::RequireAuth(sender)]
            &&& transfers(effects) == seq![
                EffectView::Transfer {
                    token: ledger.storage.token->0,
                    from: sender,
                    to: ledger.contract,
                    amount: total,
                },
            ]
            &&& events(effects).len() == splits.len()
            &&& forall|i: int|
                0 <= i < splits.len() ==> #[trigger] events(effects)[i] == tip_event(
                    splits[i].creator,
                    sender,
                    crate::model::share(total, splits, i),
                )
            &&& paid(effects, sender, ledger.contract, total)
        }),
{
    let effects = ledger.tip_split_step(sender, splits, total).effects;
    let n = splits.len() as int;
    crate::split::lemma_reach_within(ledger.storage, total, splits, n);
    let handed = crate::model::split_effects(sender, total, splits, n);
    let auth = EffectView::RequireAuth(sender);
    let transfer = EffectView::Transfer {
        token: ledger.storage.token->0,
        from: sender,
        to: ledger.contract,
        amount: total,
    };
    assert(effects =~= seq![auth, transfer] + handed);
    crate::asked::lemma_splitting(effects, auth, transfer, sender, total, splits);
    lemma_paid(effects, ledger.storage.token->0, sender, ledger.contract, total);
}

/// An accepted split tip takes its amount from the sender into escrow at once,
/// and nothing else. Each recipient's share is announced in the order of the
/// recipients: all but the last get what their percentage makes of the amount,
/// rounded down, and the last one all that is left. Each creator is credited
/// with the shares of the places at which they are named. No other entry
/// changes.
pub proof fn law_split_tip_reaches_all_recipients(
    ledger: LedgerView,
    sender: Address,
    splits: Seq<TipSplit>,
    total: int,
)
    requires
        ledger.tip_split_step(sender, splits, total).result is Ok,
    ensures
        ({
            let before = ledger.storage;
            let step = ledger.tip_split_step(sender, splits, total);
            let after = step.storage;
            let n = splits.len() as int;
            &&& n > 0
            &&& forall|i: int|
                0 <= i < n - 1 ==> 10_000 * (#[trigger] crate::model::share(total, splits, i))
                    <= total * splits[i].percentage < 10_000 * crate::model::share(
                    total,
                    splits,
                    i,
                ) + 10_000
            &&& crate::split::shares(total, splits, n) == total
            &&& events(step.effects).len() == n
            &&& forall|i: int|
                0 <= i < n ==> #[trigger] events(step.effects)[i] == tip_event(
                    splits[i].creator,
                    sender,
                    crate::model::share(total, splits, i),
                )
            &&& forall|c: Address| #[trigger]
                after.balance(c) == before.balance(c) + crate::model::credited(
                    total,
                    splits,
                    c,
                    n,
                )
            &&& forall|c: Address| #[trigger]
                after.total(c) == before.total(c) + crate::model::credited(total, splits, c, n)
            &&& after == (StorageView {
                balances: after.balances,
                totals: after.totals,
                ..before
            })
            &&& auths(step.effects) == seq![EffectView::RequireAuth(sender)]
            &&& before.token is Some
            &&& transfers(step.effects) == seq![
                EffectView::Transfer {
                    token: before.token->0,
                    from: sender,
                    to: ledger.contract,
                    amount: total,
                },
            ]
            &&& paid(step.effects, sender, ledger.contract, total)
        }),
{
    let before = ledger.storage;
    let step = ledger.tip_split_step(sender, splits, total);
    let n = splits.len() as int;
    crate::split::lemma_reach_within(before, total, splits, n);
    lemma_split_lists(ledger, sender, splits, total);
    crate::laws::law_split_shares_sum_to_total(total, splits);
    assert forall|c: Address| #[trigger]
        step.storage.balance(c) == before.balance(c) + crate::model::credited(
            total,
            splits,
            c,
            n,
        ) by {
        if !crate::model::named(splits, c, n) {
            crate::split::lemma_credited_named(total, splits, c, n);
        }
    }
    assert forall|c: Address| #[trigger]
        step.storage.total(c) == before.total(c) + crate::model::credited(total, splits, c, n) by {
        if !crate::model::named(splits, c, n) {
            crate::split::lemma_credited_named(total, splits, c, n);
        }
    }
    assert forall|i: int| 0 <= i < n - 1 implies 10_000 * (#[trigger] crate::model::share(
        total,
        splits,
        i,
    )) <= total * splits[i].percentage < 10_000 * crate::model::share(total, splits, i)
        + 10_000 by {
        law_parts_are_rounded_towards_zero(total, splits[i].percentage as int);
    }
}

/// An accepted subscription gets the number after the last one. Its record
/// says what was asked for, is active, and is first due one interval from now;
/// its number is kept behind the subscriber's earlier ones. Nothing moves, and
/// no other entry changes.
pub proof fn law_subscription_is_recorded(
    ledger: LedgerView,
    subscriber: Address,
    creator: Address,
    amount: i128,
    interval: u64,
)
    requires
        ledger.create_subscription_step(subscriber, creator, amount, interval).result is Ok,
    ensures
        ({
            let before = ledger.storage;
            let step = ledger.create_subscription_step(subscriber, creator, amount, interval);
            let after = step.storage;
            let id = step.result->Ok_0;
            let record = after.subscriptions[id];
            &&& id == before.counter() + 1
            &&& after.sub_counter == Some(id)
            &&& after.subscriptions.contains_key(id)
            &&& record.subscriber == subscriber
            &&& record.creator == creator
            &&& record.amount == amount
            &&& record.interval == interval
            &&& record.next_payment == ledger.timestamp + interval
            &&& record.active
            &&& after.subscriptions.remove(id) == before.subscriptions.remove(id)
            &&& after.subs_of(subscriber) == before.subs_of(subscriber).push(id)
            &&& forall|a: Address|
                a != subscriber ==> #[trigger] after.subs_of(a) == before.subs_of(a)
            &&& after == (StorageView {
                sub_counter: after.sub_counter,
                subscriptions: after.subscriptions,
                subscriber_subs: after.subscriber_subs,
                ..before
            })
            &&& auths(step.effects) == seq![EffectView::RequireAuth(subscriber)]
            &&& transfers(step.effects).len() == 0
            &&& events(step.effects).len() == 0
            &&& paid_nobody(step.effects)
        }),
{
    let step = ledger.create_subscription_step(subscriber, creator, amount, interval);
    let effects = step.effects;
    let id = step.result->Ok_0;
    assert(effects.len() == 4);
    assert(effects[0] == EffectView::RequireAuth(subscriber));
    assert(effects[1] is Store && effects[2] is Store && effects[3] is Store);
    crate::asked::lemma_storing(effects, effects[0]);
    lemma_paid_nobody(effects);
    assert(step.storage.subscriptions.remove(id) =~= ledger.storage.subscriptions.remove(id));
}

/// What a payment asks for, list by list.
proof fn lemma_payment_asks(ledger: LedgerView, sub_id: u64)
    requires
        ledger.process_subscription_payment_step(sub_id).result is Ok,
    ensures
        ({
            let effects = ledger.process_subscription_payment_step(sub_id).effects;
            let sub = ledger.storage.subscriptions[sub_id];
            &&& auths(effects) == seq![EffectView::RequireAuth(sub.subscriber)]
            &&& transfers(effects) == seq![
                EffectView::Transfer {
                    token: ledger.storage.token->0,
                    from: sub.subscriber,
                    to: ledger.contract,
                    amount: sub.amount as int,
                },
            ]
            &&& events(effects) == seq![
                tip_event(sub.creator, sub.subscriber, sub.amount as int),
            ]
            &&& paid(effects, sub.subscriber, ledger.contract, sub.amount as int)
        }),
{
    let step = ledger.process_subscription_payment_step(sub_id);
    let effects = step.effects;
    let sub = ledger.storage.subscriptions[sub_id];
    assert(effects.len() == 6);
    assert(effects[0] == EffectView::RequireAuth(sub.subscriber));
    assert(effects[1] == EffectView::Transfer {
        token: ledger.storage.token->0,
        from: sub.subscriber,
        to: ledger.contract,
        amount: sub.amount as int,
    });
    assert(effects[2] is Store && effects[3] is Store && effects[5] is Store);
    assert(effects[4] == tip_event(sub.creator, sub.subscriber, sub.amount as int));
    crate::asked::lemma_paying(effects, effects[0], effects[1], effects[4], 4);
    lemma_paid(
        effects,
        ledger.storage.token->0,
        sub.subscriber,
        ledger.contract,
        sub.amount as int,
    );
}

/// An accepted payment takes the subscription's amount from the subscriber
/// into escrow, and nothing else; all of it is credited to the creator and
/// announced. The next payment is due one interval after this one was, and the
/// subscription is otherwise as it was: still active, on the same terms. No
/// other entry changes.
pub proof fn law_payment_leaves_the_subscription_going(ledger: LedgerView, sub_id: u64)
    requires
        ledger.process_subscription_payment_step(sub_id).result is Ok,
    ensures
        ({
            let before = ledger.storage;
            let step = ledger.process_subscription_payment_step(sub_id);
            let after = step.storage;
            let sub = before.subscriptions[sub_id];
            let next = after.subscriptions[sub_id];
            &&& before.subscriptions.contains_key(sub_id)
            &&& after.subscriptions.contains_key(sub_id)
            &&& sub.active
            &&& next.active
            &&& next.next_payment == sub.next_payment + sub.interval
            &&& next.subscriber == sub.subscriber
            &&& next.creator == sub.creator
            &&& next.amount == sub.amount
            &&& next.interval == sub.interval
            &&& after.subscriptions.remove(sub_id) == before.subscriptions.remove(sub_id)
            &&& received(before, after, sub.creator, sub.amount as int)
            &&& after == (StorageView {
                balances: after.balances,
                totals: after.totals,
                subscriptions: after.subscriptions,
                ..before
            })
            &&& auths(step.effects) == seq![EffectView::RequireAuth(sub.subscriber)]
            &&& before.token is Some
            &&& transfers(step.effects) == seq![
                EffectView::Transfer {
                    token: before.token->0,
                    from: sub.subscriber,
                    to: ledger.contract,
                    amount: sub.amount as int,
                },
            ]
            &&& events(step.effects) == seq![
                tip_event(sub.creator, sub.subscriber, sub.amount as int),
            ]
            &&& paid(step.effects, sub.subscriber, ledger.contract, sub.amount as int)
        }),
{
    let step = ledger.process_subscription_payment_step(sub_id);
    lemma_payment_asks(ledger, sub_id);
    assert(step.storage.subscriptions.remove(sub_id) =~= ledger.storage.subscriptions.remove(
        sub_id,
    ));
}

/// An accepted cancellation ends the subscription and leaves its record
/// otherwise as it was. Nothing moves, and no other entry changes.
pub proof fn law_cancellation_only_ends_the_subscription(
    ledger: LedgerView,
    sub_id: u64,
    caller: Address,
)
    requires
        ledger.cancel_subscription_step(sub_id, caller).result is Ok,
    ensures
        ({
            let before = ledger.storage;
            let step = ledger.cancel_subscription_step(sub_id, caller);
            let after = step.storage;
            let sub = before.subscriptions[sub_id];
            let next = after.subscriptions[sub_id];
            &&& before.subscriptions.contains_key(sub_id)
            &&& after.subscriptions.contains_key(sub_id)
            &&& sub.active
            &&& !next.active
            &&& next.next_payment == sub.next_payment
            &&& next.subscriber == sub.subscriber
            &&& next.creator == sub.creator
            &&& next.amount == sub.amount
            &&& next.interval == sub.interval
            &&& after.subscriptions.remove(sub_id) == before.subscriptions.remove(sub_id)
            &&& after == (StorageView { subscriptions: after.subscriptions, ..before })
            &&& auths(step.effects) == seq![EffectView::RequireAuth(caller)]
            &&& transfers(step.effects).len() == 0
            &&& events(step.effects).len() == 0
            &&& paid_nobody(step.effects)
        }),
{
    let step = ledger.cancel_subscription_step(sub_id, caller);
    let effects = step.effects;
    assert(effects.len() == 2);
    assert(effects[0] == EffectView::RequireAuth(caller));
    assert(effects[1] == EffectView::Store(DataKey::Subscription(sub_id)));
    crate::asked::lemma_storing(effects, effects[0]);
    lemma_paid_nobody(effects);
    assert(step.storage.subscriptions.remove(sub_id) =~= ledger.storage.subscriptions.remove(
        sub_id,
    ));
}

/// An accepted setting of the fee stores the rate and the treasury that it was
/// given, whatever was stored before. Nothing moves, and no other entry
/// changes.
pub proof fn law_fee_setting_replaces_rate_and_treasury(
    ledger: LedgerView,
    admin: Address,
    fee_bps: u32,
    treasury: Address,
)
    requires
        ledger.set_platform_fee_step(admin, fee_bps, treasury).result is Ok,
    ensures
        ({
            let before = ledger.storage;
            let step = ledger.set_platform_fee_step(admin, fee_bps, treasury);
            let after = step.storage;
            &&& after.platform_fee == Some(fee_bps)
            &&& after.treasury == Some(treasury)
            &&& after == (StorageView {
                platform_fee: after.platform_fee,
                treasury: after.treasury,
                ..before
            })
            &&& auths(step.effects) == seq![EffectView::RequireAuth(admin)]
            &&& transfers(step.effects).len() == 0
            &&& events(step.effects).len() == 0
            &&& paid_nobody(step.effects)
        }),
{
    let effects = ledger.set_platform_fee_step(admin, fee_bps, treasury).effects;
    assert(effects.len() == 3);
    assert(effects[0] == EffectView::RequireAuth(admin));
    assert(effects[1] == EffectView::Store(DataKey::PlatformFee));
    assert(effects[2] == EffectView::Store(DataKey::TreasuryAddress));
    crate::asked::lemma_storing(effects, effects[0]);
    lemma_paid_nobody(effects);
}

/// An accepted pause, or end of one, stores just that. Nothing moves, and no
/// other entry changes.
pub proof fn law_pause_setting_stores_the_pause(ledger: LedgerView, admin: Address, paused: bool)
    requires
        ledger.set_paused_step(admin, paused).result is Ok,
    ensures
        ({
            let before = ledger.storage;
            let step = ledger.set_paused_step(admin, paused);
            let after = step.storage;
            &&& after.paused == Some(paused)
            &&& after == (StorageView { paused: after.paused, ..before })
            &&& auths(step.effects) == seq![EffectView::RequireAuth(admin)]
            &&& transfers(step.effects).len() == 0
            &&& events(step.effects).len() == 0
            &&& paid_nobody(step.effects)
        }),
{
    let effects = ledger.set_paused_step(admin, paused).effects;
    assert(effects.len() == 2);
    assert(effects[0] == EffectView::RequireAuth(admin));
    assert(effects[1] == EffectView::Store(DataKey::Paused));
    crate::asked::lemma_storing(effects, effects[0]);
    lemma_paid_nobody(effects);
}

} // verus!
