//! What the storage holds after a history of calls, told from the history.

use crate::calls::Call;
use crate::laws::{ledger_at, run};
use crate::ledger::LedgerView;
use crate::storage::StorageView;
use crate::types::{Address, TipWithMessageView};
use vstd::prelude::*;

verus! {

/// The ledger that the last call of a history finds.
pub open spec fn last_ledger(contract: Address, history: Seq<(u64, Call)>) -> LedgerView {
    ledger_at(contract, history.last().0, run(contract, history.drop_last()))
}

/// The last call of a history is accepted.
pub open spec fn last_accepted(contract: Address, history: Seq<(u64, Call)>) -> bool {
    last_ledger(contract, history).call_step(history.last().1).result is Ok
}

/// How many subscriptions a history created.
pub open spec fn creations(contract: Address, history: Seq<(u64, Call)>) -> int
    decreases history.len(),
{
    if history.len() == 0 {
        0
    } else {
        creations(contract, history.drop_last()) + if history.last().1 is CreateSubscription
            && last_accepted(contract, history) {
            1int
        } else {
            0
        }
    }
}

/// How many payments of a subscription a history made.
pub open spec fn payments(contract: Address, history: Seq<(u64, Call)>, sub_id: u64) -> int
    decreases history.len(),
{
    if history.len() == 0 {
        0
    } else {
        payments(contract, history.drop_last(), sub_id) + if history.last().1 == (
            Call::ProcessSubscriptionPayment { sub_id }) && last_accepted(contract, history) {
            1int
        } else {
            0
        }
    }
}

/// The notes that the accepted calls of a history sent to `creator`, in order.
pub open spec fn notes(
    contract: Address,
    history: Seq<(u64, Call)>,
    creator: Address,
) -> Seq<TipWithMessageView>
    decreases history.len(),
{
    if history.len() == 0 {
        Seq::empty()
    } else {
        let earlier = notes(contract, history.drop_last(), creator);
        match history.last().1 {
            Call::TipWithMessage {
                sender,
                creator: c,
                amount,
                message,
                metadata,
            } if c == creator && last_accepted(contract, history) => earlier.push(
                TipWithMessageView {
                    sender,
                    creator,
                    amount: amount as int,
                    message,
                    metadata,
                    timestamp: history.last().0,
                },
            ),
            _ => earlier,
        }
    }
}

/// The sum of the fees on the accepted tips of a history, each at the rate of
/// its time and rounded down.
pub open spec fn rounded_fees(contract: Address, history: Seq<(u64, Call)>) -> int
    decreases history.len(),
{
    if history.len() == 0 {
        0
    } else {
        let earlier = rounded_fees(contract, history.drop_last());
        match history.last().1 {
            Call::Tip { sender, creator, amount } if last_accepted(contract, history) => earlier
                + amount * last_ledger(contract, history).storage.fee_bps() / 10_000,
            _ => earlier,
        }
    }
}

/// The number of the last subscription is the number of subscriptions that
/// were created.
pub proof fn law_counter_counts_creations(contract: Address, history: Seq<(u64, Call)>)
    ensures
        run(contract, history).counter() == creations(contract, history),
    decreases history.len(),
{
    if history.len() > 0 {
        law_counter_counts_creations(contract, history.drop_last());
    }
}

/// The first subscription that is accepted gets the number 1, the next one 2,
/// and so on, whatever happens in between.
pub proof fn law_subscriptions_are_numbered_in_order(
    contract: Address,
    history: Seq<(u64, Call)>,
    timestamp: u64,
    subscriber: Address,
    creator: Address,
    amount: i128,
    interval: u64,
)
    requires
        ledger_at(contract, timestamp, run(contract, history)).create_subscription_step(
            subscriber,
            creator,
            amount,
            interval,
        ).result is Ok,
    ensures
        ledger_at(contract, timestamp, run(contract, history)).create_subscription_step(
            subscriber,
            creator,
            amount,
            interval,
        ).result->Ok_0 == creations(contract, history) + 1,
{
    law_counter_counts_creations(contract, history);
}

/// A subscription that does not exist was never paid.
proof fn lemma_unknown_is_unpaid(contract: Address, history: Seq<(u64, Call)>, sub_id: u64)
    requires
        !run(contract, history).subscriptions.contains_key(sub_id),
    ensures
        payments(contract, history, sub_id) == 0,
    decreases history.len(),
{
    if history.len() > 0 {
        let earlier = history.drop_last();
        crate::laws::law_every_state_is_valid(contract, earlier);
        crate::laws::law_call_undoes_nothing(last_ledger(contract, history), history.last().1);
        lemma_unknown_is_unpaid(contract, earlier, sub_id);
    }
}

/// One more call advances the schedule of a subscription by one interval if it
/// is an accepted payment of it, and leaves the schedule as it was otherwise.
proof fn lemma_schedule_next(ledger: LedgerView, call: Call, sub_id: u64)
    requires
        ledger.storage.valid(),
        ledger.storage.subscriptions.contains_key(sub_id),
    ensures
        ({
            let before = ledger.storage.subscriptions[sub_id];
            let after = ledger.call_step(call).storage.subscriptions[sub_id];
            let paid = call == (Call::ProcessSubscriptionPayment { sub_id }) && ledger.call_step(
                call,
            ).result is Ok;
            &&& ledger.call_step(call).storage.subscriptions.contains_key(sub_id)
            &&& after.interval == before.interval
            &&& after.next_payment == before.next_payment + if paid {
                before.interval as int
            } else {
                0
            }
        }),
{
}

/// Call `k` of a history created the subscription `sub_id` with `interval`.
pub open spec fn created_at(
    contract: Address,
    history: Seq<(u64, Call)>,
    k: int,
    sub_id: u64,
    interval: u64,
) -> bool {
    match history[k].1 {
        Call::CreateSubscription { subscriber, creator, amount, interval: every } => {
            &&& every == interval
            &&& ledger_at(
                contract,
                history[k].0,
                run(contract, history.take(k)),
            ).create_subscription_step(subscriber, creator, amount, every).result == Ok::<
                u64,
                crate::types::Failure,
            >(sub_id)
        },
        _ => false,
    }
}

/// After every history, whatever calls came between the payments of a
/// subscription and however late they were, its next payment is due as many
/// intervals after its creation as payments were made, and one more.
pub proof fn law_due_time_counts_payments(
    contract: Address,
    history: Seq<(u64, Call)>,
    k: int,
    sub_id: u64,
    interval: u64,
)
    requires
        0 <= k < history.len(),
        created_at(contract, history, k, sub_id, interval),
    ensures
        run(contract, history).subscriptions.contains_key(sub_id),
        run(contract, history).subscriptions[sub_id].interval == interval,
        run(contract, history).subscriptions[sub_id].next_payment == history[k].0 + interval * (1
            + payments(contract, history, sub_id)),
    decreases history.len(),
{
    let earlier = history.drop_last();
    let ledger = last_ledger(contract, history);
    crate::laws::law_every_state_is_valid(contract, earlier);
    if k == history.len() - 1 {
        assert(history.take(k) =~= earlier);
        assert(!run(contract, earlier).subscriptions.contains_key(sub_id));
        lemma_unknown_is_unpaid(contract, earlier, sub_id);
        assert(interval * (1 + 0int) == interval) by (nonlinear_arith);
    } else {
        assert(history.take(k) =~= earlier.take(k));
        law_due_time_counts_payments(contract, earlier, k, sub_id, interval);
        lemma_schedule_next(ledger, history.last().1, sub_id);
        let made = payments(contract, earlier, sub_id);
        assert(interval * (1 + (made + 1)) == interval * (1 + made) + interval)
            by (nonlinear_arith);
    }
}

/// After every history, the notes kept for a creator are those of the accepted
/// tips, in order.
pub proof fn law_notes_are_kept_in_order(
    contract: Address,
    history: Seq<(u64, Call)>,
    creator: Address,
)
    ensures
        run(contract, history).messages_of(creator) == notes(contract, history, creator),
    decreases history.len(),
{
    if history.len() > 0 {
        law_notes_are_kept_in_order(contract, history.drop_last(), creator);
    }
}

/// After every history, the fees collected are the sum of the rounded fees on
/// the accepted tips.
pub proof fn law_fees_are_the_sum_of_rounded_fees(contract: Address, history: Seq<(u64, Call)>)
    ensures
        run(contract, history).fees_collected() == rounded_fees(contract, history),
    decreases history.len(),
{
    if history.len() > 0 {
        law_fees_are_the_sum_of_rounded_fees(contract, history.drop_last());
        if let Call::Tip { sender, creator, amount } = history.last().1 {
            let bps = last_ledger(contract, history).storage.fee_bps();
            if last_accepted(contract, history) {
                assert(amount * bps >= 0) by (nonlinear_arith)
                    requires
                        amount > 0,
                        bps >= 0,
                ;
            }
        }
    }
}

/// Nothing ends a subscription but an accepted cancellation of it.
pub proof fn law_only_cancellation_ends_a_subscription(
    ledger: LedgerView,
    call: Call,
    sub_id: u64,
)
    requires
        ledger.storage.valid(),
        ledger.storage.subscriptions.contains_key(sub_id),
    ensures
        ledger.call_step(call).storage.subscriptions.contains_key(sub_id),
        ledger.call_step(call).storage.subscriptions[sub_id].active <==> {
            &&& ledger.storage.subscriptions[sub_id].active
            &&& !(cancels(call, sub_id) && ledger.call_step(call).result is Ok)
        },
{
}

/// The call is a cancellation of the subscription.
pub open spec fn cancels(call: Call, sub_id: u64) -> bool {
    call is CancelSubscription && call->CancelSubscription_sub_id == sub_id
}

/// An accepted call of a history cancelled the subscription.
pub open spec fn cancelled(contract: Address, history: Seq<(u64, Call)>, sub_id: u64) -> bool
    decreases history.len(),
{
    history.len() > 0 && (cancelled(contract, history.drop_last(), sub_id) || (cancels(
        history.last().1,
        sub_id,
    ) && last_accepted(contract, history)))
}

/// A subscription that does not exist was never cancelled.
proof fn lemma_unknown_is_uncancelled(contract: Address, history: Seq<(u64, Call)>, sub_id: u64)
    requires
        !run(contract, history).subscriptions.contains_key(sub_id),
    ensures
        !cancelled(contract, history, sub_id),
    decreases history.len(),
{
    if history.len() > 0 {
        let earlier = history.drop_last();
        crate::laws::law_every_state_is_valid(contract, earlier);
        crate::laws::law_call_undoes_nothing(last_ledger(contract, history), history.last().1);
        lemma_unknown_is_uncancelled(contract, earlier, sub_id);
    }
}

/// After every history, a subscription stands on the terms on which it was
/// created, and it is active unless an accepted call cancelled it: no payment,
/// however many there were, ends it.
pub proof fn law_subscription_goes_on_until_cancelled(
    contract: Address,
    history: Seq<(u64, Call)>,
    k: int,
    sub_id: u64,
    subscriber: Address,
    creator: Address,
    amount: i128,
    interval: u64,
)
    requires
        0 <= k < history.len(),
        history[k].1 == (Call::CreateSubscription { subscriber, creator, amount, interval }),
        created_at(contract, history, k, sub_id, interval),
    ensures
        ({
            let sub = run(contract, history).subscriptions[sub_id];
            &&& run(contract, history).subscriptions.contains_key(sub_id)
            &&& sub.subscriber == subscriber
            &&& sub.creator == creator
            &&& sub.amount == amount
            &&& sub.interval == interval
            &&& sub.active <==> !cancelled(contract, history, sub_id)
        }),
    decreases history.len(),
{
    let earlier = history.drop_last();
    let ledger = last_ledger(contract, history);
    crate::laws::law_every_state_is_valid(contract, earlier);
    if k == history.len() - 1 {
        assert(history.take(k) =~= earlier);
        assert(!run(contract, earlier).subscriptions.contains_key(sub_id));
        lemma_unknown_is_uncancelled(contract, earlier, sub_id);
    } else {
        assert(history.take(k) =~= earlier.take(k));
        assert(earlier[k] == history[k]);
        law_subscription_goes_on_until_cancelled(
            contract,
            earlier,
            k,
            sub_id,
            subscriber,
            creator,
            amount,
            interval,
        );
        law_only_cancellation_ends_a_subscription(ledger, history.last().1, sub_id);
        crate::laws::law_call_undoes_nothing(ledger, history.last().1);
        let before = ledger.storage.subscriptions[sub_id];
        let after = run(contract, history).subscriptions[sub_id];
        assert(StorageView::goes_on(before, after));
    }
}

/// The numbers of the subscriptions that `subscriber` created in a history, in
/// order.
pub open spec fn created_by(
    contract: Address,
    history: Seq<(u64, Call)>,
    subscriber: Address,
) -> Seq<u64>
    decreases history.len(),
{
    if history.len() == 0 {
        Seq::empty()
    } else {
        let earlier = created_by(contract, history.drop_last(), subscriber);
        match history.last().1 {
            Call::CreateSubscription {
                subscriber: s,
                creator,
                amount,
                interval,
            } if s == subscriber && last_accepted(contract, history) => earlier.push(
                creations(contract, history) as u64,
            ),
            _ => earlier,
        }
    }
}

/// After every history, a subscriber's list holds the numbers of the
/// subscriptions that they created, in order.
pub proof fn law_subscribers_list_what_they_created(
    contract: Address,
    history: Seq<(u64, Call)>,
    subscriber: Address,
)
    ensures
        run(contract, history).subs_of(subscriber) == created_by(contract, history, subscriber),
    decreases history.len(),
{
    if history.len() > 0 {
        law_subscribers_list_what_they_created(contract, history.drop_last(), subscriber);
        law_counter_counts_creations(contract, history.drop_last());
    }
}

/// The token and the administrator that the accepted setup of a history chose.
pub open spec fn chosen(contract: Address, history: Seq<(u64, Call)>) -> Option<(Address, Address)>
    decreases history.len(),
{
    if history.len() == 0 {
        None
    } else {
        match history.last().1 {
            Call::Init { token, admin } if last_accepted(contract, history) => Some(
                (token, admin),
            ),
            _ => chosen(contract, history.drop_last()),
        }
    }
}

/// The rate and the treasury of the last accepted setting of the fee in a
/// history.
pub open spec fn last_fee(contract: Address, history: Seq<(u64, Call)>) -> Option<(u32, Address)>
    decreases history.len(),
{
    if history.len() == 0 {
        None
    } else {
        match history.last().1 {
            Call::SetPlatformFee { admin, fee_bps, treasury } if last_accepted(
                contract,
                history,
            ) => Some((fee_bps, treasury)),
            _ => last_fee(contract, history.drop_last()),
        }
    }
}

/// The last accepted setup, pause or end of a pause of a history leaves the
/// contract paused.
pub open spec fn last_pause(contract: Address, history: Seq<(u64, Call)>) -> bool
    decreases history.len(),
{
    if history.len() == 0 {
        false
    } else if last_accepted(contract, history) && history.last().1 is Pause {
        true
    } else if last_accepted(contract, history) && (history.last().1 is Unpause
        || history.last().1 is Init) {
        false
    } else {
        last_pause(contract, history.drop_last())
    }
}

/// The settings of the two storages are the same.
spec fn same_settings(a: StorageView, b: StorageView) -> bool {
    &&& a.token == b.token
    &&& a.admin == b.admin
    &&& a.paused == b.paused
    &&& a.platform_fee == b.platform_fee
    &&& a.treasury == b.treasury
}

/// The settings change by the calls that are there to set them, and by no
/// other.
pub proof fn law_settings_change_by_their_calls(ledger: LedgerView, call: Call)
    ensures
        ({
            let before = ledger.storage;
            let after = ledger.call_step(call).storage;
            let accepted = ledger.call_step(call).result is Ok;
            &&& !(accepted && call is Init) ==> after.token == before.token && after.admin
                == before.admin
            &&& !(accepted && call is SetPlatformFee) ==> after.platform_fee == before.platform_fee
                && after.treasury == before.treasury
            &&& !(accepted && (call is Init || call is Pause || call is Unpause)) ==> after.paused
                == before.paused
        }),
{
    let before = ledger.storage;
    let after = ledger.call_step(call).storage;
    if ledger.call_step(call).result is Ok {
        match call {
            Call::Tip { sender, creator, amount } => {
                let step = ledger.tip_step(sender, creator, amount as int);
                assert(same_settings(before, step.storage));
            },
            Call::TipWithMessage { sender, creator, amount, message, metadata } => {
                let step = ledger.tip_with_message_step(
                    sender,
                    creator,
                    amount as int,
                    message,
                    metadata,
                );
                assert(same_settings(before, step.storage));
            },
            Call::TipSplit { sender, splits, total_amount } => {
                let step = ledger.tip_split_step(sender, splits, total_amount as int);
                assert(same_settings(before, step.storage));
            },
            Call::Withdraw { creator } => {
                assert(same_settings(before, after));
            },
            Call::CreateSubscription { subscriber, creator, amount, interval } => {
                assert(same_settings(before, after));
            },
            Call::ProcessSubscriptionPayment { sub_id } => {
                assert(same_settings(before, after));
            },
            Call::CancelSubscription { sub_id, caller } => {
                assert(same_settings(before, after));
            },
            _ => {},
        }
    } else {
        crate::laws::law_refused_call_changes_nothing(ledger, call);
    }
}

/// An accepted setting is stored.
proof fn lemma_settings_taken(ledger: LedgerView, call: Call)
    requires
        ledger.call_step(call).result is Ok,
    ensures
        ({
            let after = ledger.call_step(call).storage;
            match call {
                Call::Init { token, admin } => after.token == Some(token) && after.admin == Some(
                    admin,
                ) && after.paused == Some(false),
                Call::SetPlatformFee { admin, fee_bps, treasury } => after.platform_fee == Some(
                    fee_bps,
                ) && after.treasury == Some(treasury),
                Call::Pause { admin } => after.paused == Some(true),
                Call::Unpause { admin } => after.paused == Some(false),
                _ => true,
            }
        }),
{
}

/// After every history, the token and the administrator are those of the
/// accepted setup, the rate and the treasury are those of the last accepted
/// setting of the fee, and the contract is paused just where the last accepted
/// pause was not ended.
pub proof fn law_settings_are_the_last_ones(contract: Address, history: Seq<(u64, Call)>)
    ensures
        ({
            let storage = run(contract, history);
            &&& match chosen(contract, history) {
                Some((token, admin)) => storage.token == Some(token) && storage.admin == Some(
                    admin,
                ),
                None => storage.token is None && storage.admin is None,
            }
            &&& match last_fee(contract, history) {
                Some((fee_bps, treasury)) => storage.platform_fee == Some(fee_bps)
                    && storage.treasury == Some(treasury),
                None => storage.platform_fee is None && storage.treasury is None,
            }
            &&& storage.paused == Some(true) <==> last_pause(contract, history)
        }),
    decreases history.len(),
{
    if history.len() > 0 {
        law_settings_are_the_last_ones(contract, history.drop_last());
        let ledger = last_ledger(contract, history);
        let call = history.last().1;
        law_settings_change_by_their_calls(ledger, call);
        if last_accepted(contract, history) {
            lemma_settings_taken(ledger, call);
        }
        assert(run(contract, history) == ledger.call_step(call).storage);
    }
}

/// After every history, an accepted tip pays its fee to the treasury of the
/// last accepted setting of the fee, at that rate, and nothing to earlier ones;
/// before the first such setting it pays no fee.
pub proof fn law_fee_goes_to_the_last_treasury(
    contract: Address,
    history: Seq<(u64, Call)>,
    timestamp: u64,
    sender: Address,
    creator: Address,
    amount: int,
    x: Address,
)
    requires
        ledger_at(contract, timestamp, run(contract, history)).tip_step(
            sender,
            creator,
            amount,
        ).result is Ok,
        x != contract,
        x != sender,
    ensures
        crate::sums::net(
            ledger_at(contract, timestamp, run(contract, history)).tip_step(
                sender,
                creator,
                amount,
            ).effects,
            x,
        ) == match last_fee(contract, history) {
            Some((fee_bps, treasury)) => if x == treasury {
                amount * fee_bps / 10_000
            } else {
                0
            },
            None => 0,
        },
{
    law_settings_are_the_last_ones(contract, history);
    let ledger = ledger_at(contract, timestamp, run(contract, history));
    crate::outcome_laws::law_tip_is_shared_with_the_platform(ledger, sender, creator, amount);
}

} // verus!
