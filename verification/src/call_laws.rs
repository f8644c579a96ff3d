//! What holds of single calls, and of calls that follow each other.

use crate::calls::Call;
use crate::ledger::LedgerView;
use crate::storage::StorageView;
use crate::types::{Address, Failure, TipJarError, TipSplit, TipWithMessageView};
use vstd::prelude::*;

verus! {

broadcast use crate::sums::group_net;

/// The platform fee is at most 10% of a tip, and never less than nothing.
pub proof fn law_fee_is_capped(storage: StorageView, amount: int)
    requires
        storage.valid(),
        amount > 0,
    ensures
        0 <= crate::model::basis_points(amount, storage.fee_bps()),
        10 * crate::model::basis_points(amount, storage.fee_bps()) <= amount,
{
    crate::validity::lemma_fee_bounds(storage, amount);
}

/// A tip is paid in full by its sender and reaches the creator and the
/// treasury in full: the creator can withdraw it less the fee, which is counted
/// and sent to the treasury.
pub proof fn law_tip_accounts_for_every_token(
    ledger: LedgerView,
    sender: Address,
    creator: Address,
    amount: int,
)
    requires
        ledger.storage.valid(),
        ledger.tip_step(sender, creator, amount).result is Ok,
    ensures
        ({
            let before = ledger.storage;
            let step = ledger.tip_step(sender, creator, amount);
            let fee = crate::model::basis_points(amount, before.fee_bps());
            &&& step.storage.balance(creator) == before.balance(creator) + amount - fee
            &&& step.storage.total(creator) == before.total(creator) + amount - fee
            &&& step.storage.fees_collected() == before.fees_collected() + fee
            &&& sender != ledger.contract && before.treasury != Some(sender) ==> crate::sums::net(
                step.effects,
                sender,
            ) == -amount
            &&& fee > 0 ==> before.treasury is Some
            &&& fee > 0 && before.treasury != Some(sender) && before.treasury != Some(
                ledger.contract,
            ) ==> crate::sums::net(step.effects, before.treasury->0) == fee
        }),
{
    reveal_with_fuel(crate::sums::net, 5);
    crate::validity::lemma_fee_bounds(ledger.storage, amount);
}

/// Without a platform fee the creator gets all of a tip.
pub proof fn law_tip_without_fee_is_kept_whole(
    ledger: LedgerView,
    sender: Address,
    creator: Address,
    amount: int,
)
    requires
        ledger.storage.platform_fee is None,
        ledger.tip_step(sender, creator, amount).result is Ok,
    ensures
        ledger.tip_step(sender, creator, amount).storage == ledger.storage.credit(creator, amount),
{
    assert(amount * 0 == 0);
}

/// A withdrawal pays out all that was escrowed for the creator, takes nothing
/// off what they ever received, and leaves nothing to withdraw a second time.
pub proof fn law_withdrawal_pays_out_once(ledger: LedgerView, creator: Address)
    requires
        ledger.withdraw_step(creator).result is Ok,
    ensures
        ({
            let before = ledger.storage;
            let step = ledger.withdraw_step(creator);
            &&& step.storage.balance(creator) == 0
            &&& step.storage.total(creator) == before.total(creator)
            &&& creator != ledger.contract ==> crate::sums::net(step.effects, creator)
                == before.balance(creator)
            &&& ledger.after(step).withdraw_step(creator).result == Err::<(), Failure>(
                Failure::Error(TipJarError::NothingToWithdraw),
            )
        }),
{
    reveal_with_fuel(crate::sums::net, 5);
}

/// While the contract is paused, nobody tips, withdraws, subscribes, pays or
/// cancels: such a call is refused before it asks anything of the ledger.
pub proof fn law_pause_stops_all_activities(ledger: LedgerView, call: Call)
    requires
        ledger.storage.is_paused(),
        call is Tip || call is TipWithMessage || call is TipSplit || call is Withdraw
            || call is CreateSubscription || call is ProcessSubscriptionPayment
            || call is CancelSubscription,
    ensures
        ledger.call_step(call).result == Err::<(), Failure>(Failure::Paused),
        ledger.call_step(call).storage == ledger.storage,
        ledger.call_step(call).effects.len() == 0,
{
}

/// While the contract is paused, no call changes it, but for what the
/// administrator may do then: end the pause or set the fee.
pub proof fn law_pause_keeps_the_contract_as_it_is(ledger: LedgerView, call: Call)
    requires
        ledger.storage.valid(),
        ledger.storage.is_paused(),
        ledger.call_step(call).result is Ok ==> !(call is Unpause || call is SetPlatformFee),
    ensures
        ledger.call_step(call).storage == ledger.storage,
{
}

/// The end of a pause gives back the contract as it was before the pause.
pub proof fn law_unpause_undoes_pause(ledger: LedgerView, admin: Address)
    requires
        ledger.storage.paused == Some(false),
        ledger.set_paused_step(admin, true).result is Ok,
    ensures
        ({
            let paused = ledger.after(ledger.set_paused_step(admin, true));
            &&& paused.storage.is_paused()
            &&& paused.set_paused_step(admin, false).result is Ok
            &&& paused.set_paused_step(admin, false).storage == ledger.storage
        }),
{
}

/// Nobody but the administrator pauses the contract, ends a pause or sets the
/// fee.
pub proof fn law_settings_are_for_the_admin(
    ledger: LedgerView,
    caller: Address,
    fee_bps: u32,
    treasury: Address,
    paused: bool,
)
    requires
        ledger.storage.admin is Some,
        ledger.storage.admin != Some(caller),
    ensures
        ledger.set_paused_step(caller, paused).result == Err::<(), Failure>(Failure::Unauthorized),
        ledger.set_platform_fee_step(caller, fee_bps, treasury).result == Err::<(), Failure>(
            Failure::Unauthorized,
        ),
        ledger.set_paused_step(caller, paused).storage == ledger.storage,
        ledger.set_platform_fee_step(caller, fee_bps, treasury).storage == ledger.storage,
{
}

/// Once the contract was set up, every later setup is refused, whatever
/// happened in between.
pub proof fn law_setup_happens_once(
    contract: Address,
    history: Seq<(u64, Call)>,
    n: int,
    timestamp: u64,
    token: Address,
    admin: Address,
)
    requires
        0 <= n <= history.len(),
        crate::laws::run(contract, history.take(n)).token is Some,
    ensures
        crate::laws::ledger_at(contract, timestamp, crate::laws::run(contract, history)).init_step(
            token,
            admin,
        ).result == Err::<(), Failure>(Failure::Error(TipJarError::AlreadyInitialized)),
{
    crate::laws::law_history_undoes_nothing(contract, history, n);
}

/// Each recipient of a split tip but the last gets their percentage, rounded
/// down; the last one gets at least that, and what the others' rounding left,
/// which is less than one token for each recipient.
pub proof fn law_split_dust_goes_to_the_last(total: int, splits: Seq<TipSplit>)
    requires
        total >= 0,
        splits.len() > 0,
        crate::model::percentages(splits, splits.len() as int) == 10_000,
    ensures
        forall|i: int|
            0 <= i < splits.len() - 1 ==> #[trigger] crate::model::share(total, splits, i) == total
                * splits[i].percentage / 10_000,
        ({
            let last = splits.len() - 1;
            let part = total * splits[last].percentage / 10_000;
            part <= crate::model::share(total, splits, last) < part + splits.len()
        }),
{
    let n = splits.len() as int;
    crate::split::lemma_parts_within_total(total, splits, n);
    crate::split::lemma_rounding(total, splits, n);
}

/// A creator who is named once in a split tip gets the share of that place;
/// one who is not named gets nothing. Their total grows as their balance does.
pub proof fn law_split_credits_who_is_named(
    ledger: LedgerView,
    sender: Address,
    splits: Seq<TipSplit>,
    total: int,
    creator: Address,
)
    requires
        ledger.tip_split_step(sender, splits, total).result is Ok,
    ensures
        !crate::model::named(splits, creator, splits.len() as int) ==> {
            let after = ledger.tip_split_step(sender, splits, total).storage;
            &&& after.balance(creator) == ledger.storage.balance(creator)
            &&& after.total(creator) == ledger.storage.total(creator)
        },
        forall|i: int|
            #![trigger splits[i]]
            0 <= i < splits.len() && splits[i].creator == creator && (forall|j: int|
                0 <= j < splits.len() && j != i ==> (#[trigger] splits[j]).creator != creator) ==> {
                let after = ledger.tip_split_step(sender, splits, total).storage;
                let share = crate::model::share(total, splits, i);
                &&& after.balance(creator) == ledger.storage.balance(creator) + share
                &&& after.total(creator) == ledger.storage.total(creator) + share
            },
{
    let n = splits.len() as int;
    crate::split::lemma_reach_within(ledger.storage, total, splits, n);
    if !crate::model::named(splits, creator, n) {
        crate::split::lemma_credited_named(total, splits, creator, n);
    }
    assert forall|i: int|
        #![trigger splits[i]]
        0 <= i < splits.len() && splits[i].creator == creator && (forall|j: int|
            0 <= j < splits.len() && j != i ==> (#[trigger] splits[j]).creator
                != creator) implies {
        let after = ledger.tip_split_step(sender, splits, total).storage;
        let share = crate::model::share(total, splits, i);
        &&& after.balance(creator) == ledger.storage.balance(creator) + share
        &&& after.total(creator) == ledger.storage.total(creator) + share
    } by {
        crate::split::lemma_credited_once(total, splits, creator, i, n);
        assert(crate::model::named(splits, creator, n));
    }
}

/// The note of an accepted tip is kept behind the creator's earlier ones, as
/// it was sent.
pub proof fn law_message_reads_back(
    ledger: LedgerView,
    sender: Address,
    creator: Address,
    amount: int,
    message: Seq<u8>,
    metadata: Map<Seq<u8>, Seq<u8>>,
)
    requires
        ledger.tip_with_message_step(sender, creator, amount, message, metadata).result is Ok,
    ensures
        ledger.tip_with_message_step(
            sender,
            creator,
            amount,
            message,
            metadata,
        ).storage.messages_of(creator) == ledger.storage.messages_of(creator).push(
            TipWithMessageView {
                sender,
                creator,
                amount,
                message,
                metadata,
                timestamp: ledger.timestamp,
            },
        ),
        message.len() <= 280,
{
}

/// A new subscription gets a number that none had before, reads back as it was
/// made, is first due one interval later, and leaves the others as they were.
pub proof fn law_subscription_reads_back(
    ledger: LedgerView,
    subscriber: Address,
    creator: Address,
    amount: i128,
    interval: u64,
    other: u64,
)
    requires
        ledger.storage.valid(),
        ledger.create_subscription_step(subscriber, creator, amount, interval).result is Ok,
    ensures
        ({
            let step = ledger.create_subscription_step(subscriber, creator, amount, interval);
            let id = step.result->Ok_0;
            &&& !ledger.storage.subscriptions.contains_key(id)
            &&& ledger.storage.subscriptions.contains_key(other) ==> other < id
            &&& step.storage.subscriptions.contains_key(id)
            &&& step.storage.subscriptions[id].subscriber == subscriber
            &&& step.storage.subscriptions[id].creator == creator
            &&& step.storage.subscriptions[id].amount == amount
            &&& step.storage.subscriptions[id].interval == interval
            &&& step.storage.subscriptions[id].next_payment == ledger.timestamp + interval
            &&& step.storage.subscriptions[id].active
            &&& ledger.storage.subscriptions.contains_key(other) ==> {
                &&& step.storage.subscriptions.contains_key(other)
                &&& step.storage.subscriptions[other] == ledger.storage.subscriptions[other]
            }
        }),
{
}

/// The storage after payments of one subscription at the given times.
pub open spec fn after_payments(
    contract: Address,
    storage: StorageView,
    sub_id: u64,
    times: Seq<u64>,
) -> StorageView
    decreases times.len(),
{
    if times.len() == 0 {
        storage
    } else {
        crate::laws::ledger_at(
            contract,
            times.last(),
            after_payments(contract, storage, sub_id, times.drop_last()),
        ).process_subscription_payment_step(sub_id).storage
    }
}

/// Payment `i` of those at the given times is accepted.
pub open spec fn payment_accepted(
    contract: Address,
    storage: StorageView,
    sub_id: u64,
    times: Seq<u64>,
    i: int,
) -> bool {
    crate::laws::ledger_at(
        contract,
        times[i],
        after_payments(contract, storage, sub_id, times.take(i)),
    ).process_subscription_payment_step(sub_id).result is Ok
}

/// However late payments are processed, the schedule does not drift: after
/// any number of them the next one is due as many intervals after the time
/// that was due at first, and none was made before it was due.
pub proof fn law_schedule_does_not_drift(
    contract: Address,
    storage: StorageView,
    sub_id: u64,
    times: Seq<u64>,
)
    requires
        storage.subscriptions.contains_key(sub_id),
        forall|i: int|
            0 <= i < times.len() ==> #[trigger] payment_accepted(
                contract,
                storage,
                sub_id,
                times,
                i,
            ),
    ensures
        ({
            let first = storage.subscriptions[sub_id];
            let after = after_payments(contract, storage, sub_id, times);
            &&& after.subscriptions.contains_key(sub_id)
            &&& after.subscriptions[sub_id].next_payment == first.next_payment + times.len()
                * first.interval
            &&& after.subscriptions[sub_id].interval == first.interval
            &&& forall|i: int|
                0 <= i < times.len() ==> first.next_payment + i * first.interval
                    <= #[trigger] times[i]
        }),
    decreases times.len(),
{
    let first = storage.subscriptions[sub_id];
    let interval = first.interval as int;
    let n = times.len() as int;
    if n > 0 {
        let earlier = times.drop_last();
        assert forall|i: int| 0 <= i < earlier.len() implies #[trigger] payment_accepted(
            contract,
            storage,
            sub_id,
            earlier,
            i,
        ) by {
            assert(payment_accepted(contract, storage, sub_id, times, i));
            assert(earlier.take(i) =~= times.take(i));
        }
        law_schedule_does_not_drift(contract, storage, sub_id, earlier);
        assert(payment_accepted(contract, storage, sub_id, times, n - 1));
        assert(times.take(n - 1) =~= earlier);
        assert(n * interval == (n - 1) * interval + interval) by (nonlinear_arith);
        assert forall|i: int| 0 <= i < n implies first.next_payment + i * first.interval
            <= #[trigger] times[i] by {
            if i < n - 1 {
                assert(earlier[i] == times[i]);
            }
        }
    } else {
        assert(0 * interval == 0);
    }
}

/// A payment that is not due yet is refused.
pub proof fn law_payment_waits_until_due(ledger: LedgerView, sub_id: u64)
    requires
        !ledger.storage.is_paused(),
        ledger.storage.subscriptions.contains_key(sub_id),
        ledger.storage.subscriptions[sub_id].active,
        ledger.timestamp < ledger.storage.subscriptions[sub_id].next_payment,
    ensures
        ledger.process_subscription_payment_step(sub_id).result == Err::<(), Failure>(
            Failure::Error(TipJarError::NotDueYet),
        ),
{
}

/// Once a subscription was ended, no payment of it is ever made again.
pub proof fn law_ended_subscription_is_never_paid(
    contract: Address,
    history: Seq<(u64, Call)>,
    n: int,
    timestamp: u64,
    sub_id: u64,
)
    requires
        0 <= n <= history.len(),
        crate::laws::run(contract, history.take(n)).subscriptions.contains_key(sub_id),
        !crate::laws::run(contract, history.take(n)).subscriptions[sub_id].active,
    ensures
        ({
            let ledger = crate::laws::ledger_at(
                contract,
                timestamp,
                crate::laws::run(contract, history),
            );
            ledger.process_subscription_payment_step(sub_id).result == Err::<(), Failure>(
                if ledger.storage.is_paused() {
                    Failure::Paused
                } else {
                    Failure::Error(TipJarError::SubscriptionNotActive)
                },
            )
        }),
{
    crate::laws::law_history_undoes_nothing(contract, history, n);
}

/// While the contract is not paused, a subscription is ended by its subscriber
/// or by its creator, and by nobody else.
pub proof fn law_cancellation_is_for_the_parties(
    ledger: LedgerView,
    sub_id: u64,
    caller: Address,
)
    requires
        !ledger.storage.is_paused(),
        ledger.storage.subscriptions.contains_key(sub_id),
        ledger.storage.subscriptions[sub_id].active,
    ensures
        ledger.cancel_subscription_step(sub_id, caller).result is Ok <==> (caller
            == ledger.storage.subscriptions[sub_id].subscriber || caller
            == ledger.storage.subscriptions[sub_id].creator),
        ledger.cancel_subscription_step(sub_id, caller).result is Ok ==> {
            let after = ledger.cancel_subscription_step(sub_id, caller).storage;
            !after.subscriptions[sub_id].active
        },
{
}

/// The creators whose entries a call may change.
pub open spec fn concerns(ledger: LedgerView, call: Call, creator: Address) -> bool {
    match call {
        Call::Tip { sender, creator: c, amount } => c == creator,
        Call::TipWithMessage { sender, creator: c, amount, message, metadata } => c == creator,
        Call::Withdraw { creator: c } => c == creator,
        Call::TipSplit { sender, splits, total_amount } => crate::model::named(
            splits,
            creator,
            splits.len() as int,
        ),
        Call::ProcessSubscriptionPayment { sub_id } =>
            ledger.storage.subscriptions[sub_id].creator == creator,
        _ => false,
    }
}

/// A call leaves the tips of the creators whom it does not concern as they
/// were.
pub proof fn law_other_creators_are_untouched(ledger: LedgerView, call: Call, creator: Address)
    requires
        !concerns(ledger, call, creator),
    ensures
        ledger.call_step(call).storage.balance(creator) == ledger.storage.balance(creator),
        ledger.call_step(call).storage.total(creator) == ledger.storage.total(creator),
        ledger.call_step(call).storage.messages_of(creator) == ledger.storage.messages_of(creator),
{
    if let Call::TipSplit { sender, splits, total_amount } = call {
        crate::split::lemma_credited_named(
            total_amount as int,
            splits,
            creator,
            splits.len() as int,
        );
    }
}

} // verus!
