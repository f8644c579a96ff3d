//! Which calls are accepted, and what the others are answered.

use crate::calls::Call;
use crate::ledger::LedgerView;
use crate::storage::StorageView;
use crate::types::{Address, Failure, TipJarError, TipSplit};
use vstd::prelude::*;

verus! {

/// An amount of tokens can be as large as this.
pub open spec fn is_amount(x: int) -> bool {
    -0x8000_0000_0000_0000_0000_0000_0000_0000 <= x <= 0x7fff_ffff_ffff_ffff_ffff_ffff_ffff_ffff
}

/// The call is refused with an error that the contract reports by number.
pub open spec fn refused_with<T>(result: Result<T, Failure>, e: TipJarError) -> bool {
    result == Err::<T, Failure>(Failure::Error(e))
}

/// The balance and the total of `creator` can both take `amount` more.
pub open spec fn has_room(storage: StorageView, creator: Address, amount: int) -> bool {
    is_amount(storage.balance(creator) + amount) && is_amount(storage.total(creator) + amount)
}

/// Setup is accepted just where no token was chosen before.
pub proof fn law_setup_is_answered(ledger: LedgerView, token: Address, admin: Address)
    ensures
        ledger.storage.token is None ==> ledger.init_step(token, admin).result is Ok,
        ledger.storage.token is Some ==> refused_with(
            ledger.init_step(token, admin).result,
            TipJarError::AlreadyInitialized,
        ),
{
}

/// A tip is accepted just where the contract is set up and not paused, the
/// amount is positive, a fee has a treasury to go to, and no number leaves its
/// range.
pub proof fn law_tip_is_answered(
    ledger: LedgerView,
    sender: Address,
    creator: Address,
    amount: int,
)
    ensures
        ({
            let storage = ledger.storage;
            let result = ledger.tip_step(sender, creator, amount).result;
            let bps: int = if storage.platform_fee is Some {
                storage.platform_fee->0 as int
            } else {
                0
            };
            let fee = amount * bps / 10_000;
            let running = storage.paused != Some(true);
            let ready = running && amount > 0 && storage.token is Some;
            let priced = ready && is_amount(amount * bps);
            let payable = priced && (fee > 0 ==> storage.treasury is Some);
            let in_range = has_room(storage, creator, amount - fee) && (fee > 0 ==> is_amount(
                storage.fees_collected() + fee,
            ));
            &&& result is Ok <==> payable && in_range
            &&& !running ==> result == Err::<(), Failure>(Failure::Paused)
            &&& running && amount <= 0 ==> refused_with(result, TipJarError::InvalidAmount)
            &&& running && amount > 0 && storage.token is None ==> refused_with(
                result,
                TipJarError::TokenNotInitialized,
            )
            &&& ready && !priced ==> result == Err::<(), Failure>(Failure::Overflow)
            &&& priced && !payable ==> result == Err::<(), Failure>(Failure::MissingEntry)
            &&& payable && !in_range ==> result == Err::<(), Failure>(Failure::Overflow)
        }),
{
}

/// A tip with a note is accepted just where the contract is set up and not
/// paused, the amount is positive, the note is no longer than 280 bytes, no
/// number leaves its range, and the creator's notes are not full.
pub proof fn law_tip_with_note_is_answered(
    ledger: LedgerView,
    sender: Address,
    creator: Address,
    amount: int,
    message: Seq<u8>,
    metadata: Map<Seq<u8>, Seq<u8>>,
)
    ensures
        ({
            let storage = ledger.storage;
            let result = ledger.tip_with_message_step(
                sender,
                creator,
                amount,
                message,
                metadata,
            ).result;
            let running = storage.paused != Some(true);
            let asked = running && amount > 0 && message.len() <= 280;
            let ready = asked && storage.token is Some;
            let in_range = has_room(storage, creator, amount) && storage.messages_of(creator).len()
                < 0xffff_ffff;
            &&& result is Ok <==> ready && in_range
            &&& !running ==> result == Err::<(), Failure>(Failure::Paused)
            &&& running && amount <= 0 ==> refused_with(result, TipJarError::InvalidAmount)
            &&& running && amount > 0 && message.len() > 280 ==> refused_with(
                result,
                TipJarError::MessageTooLong,
            )
            &&& asked && storage.token is None ==> refused_with(
                result,
                TipJarError::TokenNotInitialized,
            )
            &&& ready && !in_range ==> result == Err::<(), Failure>(Failure::Overflow)
        }),
{
}

/// A withdrawal is accepted just where the contract is set up and not paused
/// and something is escrowed for the creator.
pub proof fn law_withdrawal_is_answered(ledger: LedgerView, creator: Address)
    ensures
        ({
            let storage = ledger.storage;
            let result = ledger.withdraw_step(creator).result;
            let running = storage.paused != Some(true);
            let filled = storage.balance(creator) > 0;
            &&& result is Ok <==> running && filled && storage.token is Some
            &&& !running ==> result == Err::<(), Failure>(Failure::Paused)
            &&& running && !filled ==> refused_with(result, TipJarError::NothingToWithdraw)
            &&& running && filled && storage.token is None ==> refused_with(
                result,
                TipJarError::TokenNotInitialized,
            )
        }),
{
}

/// As more recipients get their shares, nobody is credited with less.
proof fn lemma_credited_grows(
    total: int,
    splits: Seq<TipSplit>,
    creator: Address,
    i: int,
    n: int,
)
    requires
        total >= 0,
        0 <= i <= n <= splits.len(),
        crate::model::percentages(splits, splits.len() as int) == 10_000,
    ensures
        0 <= crate::model::credited(total, splits, creator, i) <= crate::model::credited(
            total,
            splits,
            creator,
            n,
        ),
    decreases n,
{
    if n > 0 {
        crate::split::lemma_share_positive(total, splits, n - 1);
        if i < n {
            lemma_credited_grows(total, splits, creator, i, n - 1);
        } else {
            lemma_credited_grows(total, splits, creator, i - 1, n - 1);
        }
    }
}

/// All recipients are reached just where none of them is out of range.
proof fn lemma_reach_is_full(storage: StorageView, total: int, splits: Seq<TipSplit>, n: int)
    requires
        0 <= n,
    ensures
        storage.split_reach(total, splits, n) == n <==> forall|i: int|
            0 <= i < n ==> #[trigger] storage.split_fits(total, splits, i),
    decreases n,
{
    if n > 0 {
        lemma_reach_is_full(storage, total, splits, n - 1);
        crate::split::lemma_reach_within(storage, total, splits, n - 1);
    }
}

/// No number leaves its range when a split tip is handed out: not the products
/// that shares are made of, nor what a recipient holds and ever received once
/// all shares are handed out.
pub open spec fn split_in_range(storage: StorageView, splits: Seq<TipSplit>, total: int) -> bool {
    &&& forall|i: int|
        0 <= i < splits.len() - 1 ==> is_amount(total * (#[trigger] splits[i]).percentage)
    &&& forall|i: int|
        0 <= i < splits.len() ==> has_room(
            storage,
            (#[trigger] splits[i]).creator,
            crate::model::credited(total, splits, splits[i].creator, splits.len() as int),
        )
}

/// A split tip is accepted just where the contract is set up and not paused,
/// there are recipients, the amount is positive, the percentages make up the
/// whole, and no number leaves its range; how many recipients there are does
/// not matter.
pub proof fn law_split_tip_is_answered(
    ledger: LedgerView,
    sender: Address,
    splits: Seq<TipSplit>,
    total: int,
)
    requires
        ledger.storage.valid(),
    ensures
        ({
            let storage = ledger.storage;
            let result = ledger.tip_split_step(sender, splits, total).result;
            let whole = crate::model::percentages(splits, splits.len() as int);
            let running = storage.paused != Some(true);
            let asked = running && splits.len() > 0 && total > 0;
            let ready = asked && whole == 10_000 && storage.token is Some;
            &&& result is Ok <==> ready && split_in_range(storage, splits, total)
            &&& !running ==> result == Err::<(), Failure>(Failure::Paused)
            &&& running && !asked ==> refused_with(result, TipJarError::InvalidAmount)
            &&& asked && whole > 0xffff_ffff ==> result == Err::<(), Failure>(Failure::Overflow)
            &&& asked && whole <= 0xffff_ffff && whole != 10_000 ==> refused_with(
                result,
                TipJarError::InvalidSplitTotal,
            )
            &&& asked && whole == 10_000 && storage.token is None ==> refused_with(
                result,
                TipJarError::TokenNotInitialized,
            )
            &&& ready && !split_in_range(storage, splits, total) ==> result == Err::<(), Failure>(
                Failure::Overflow,
            )
        }),
{
    let storage = ledger.storage;
    let n = splits.len() as int;
    if storage.paused != Some(true) && n > 0 && total > 0 && crate::model::percentages(splits, n)
        == 10_000 {
        lemma_reach_is_full(storage, total, splits, n);
        crate::split::lemma_reach_within(storage, total, splits, n);
        if split_in_range(storage, splits, total) {
            assert forall|i: int| 0 <= i < n implies #[trigger] storage.split_fits(
                total,
                splits,
                i,
            ) by {
                let c = splits[i].creator;
                lemma_credited_grows(total, splits, c, i + 1, n);
                assert(has_room(storage, c, crate::model::credited(total, splits, c, n)));
                assert(0 <= storage.balance(c) <= storage.total(c));
                if i < n - 1 {
                    assert(is_amount(total * splits[i].percentage));
                }
            }
        } else if forall|i: int|
            0 <= i < n ==> #[trigger] storage.split_fits(total, splits, i) {
            assert forall|i: int| 0 <= i < n - 1 implies is_amount(
                total * (#[trigger] splits[i]).percentage,
            ) by {
                assert(storage.split_fits(total, splits, i));
            }
            assert forall|i: int| 0 <= i < n implies has_room(
                storage,
                (#[trigger] splits[i]).creator,
                crate::model::credited(total, splits, splits[i].creator, n),
            ) by {
                lemma_last_place(total, splits, splits[i].creator, i, n);
                let c = splits[i].creator;
                let j = choose|j: int|
                    i <= j < n && (#[trigger] splits[j]).creator == c && crate::model::credited(
                        total,
                        splits,
                        c,
                        j + 1,
                    ) == crate::model::credited(total, splits, c, n);
                assert(storage.split_fits(total, splits, j));
            }
            assert(false);
        }
    }
}

/// Who is named at some place has got all their shares at the last place at
/// which they are named.
proof fn lemma_last_place(total: int, splits: Seq<TipSplit>, creator: Address, i: int, n: int)
    requires
        0 <= i < n <= splits.len(),
        splits[i].creator == creator,
    ensures
        exists|j: int|
            i <= j < n && (#[trigger] splits[j]).creator == creator && crate::model::credited(
                total,
                splits,
                creator,
                j + 1,
            ) == crate::model::credited(total, splits, creator, n),
    decreases n,
{
    if splits[n - 1].creator == creator {
        assert(splits[n - 1].creator == creator && crate::model::credited(
            total,
            splits,
            creator,
            n - 1 + 1,
        ) == crate::model::credited(total, splits, creator, n));
    } else {
        lemma_last_place(total, splits, creator, i, n - 1);
    }
}

/// A subscription is accepted just where the contract is not paused, the
/// amount is positive, no number leaves its range, and the subscriber's list is
/// not full.
pub proof fn law_subscription_is_answered(
    ledger: LedgerView,
    subscriber: Address,
    creator: Address,
    amount: i128,
    interval: u64,
)
    ensures
        ({
            let storage = ledger.storage;
            let result = ledger.create_subscription_step(
                subscriber,
                creator,
                amount,
                interval,
            ).result;
            let running = storage.paused != Some(true);
            let asked = running && amount > 0;
            let in_range = storage.counter() < 0xffff_ffff_ffff_ffff && ledger.timestamp + interval
                <= 0xffff_ffff_ffff_ffff && storage.subs_of(subscriber).len() < 0xffff_ffff;
            &&& result is Ok <==> asked && in_range
            &&& !running ==> result == Err::<u64, Failure>(Failure::Paused)
            &&& running && amount <= 0 ==> refused_with(result, TipJarError::InvalidAmount)
            &&& asked && !in_range ==> result == Err::<u64, Failure>(Failure::Overflow)
        }),
{
}

/// A payment is accepted just where the contract is set up and not paused, the
/// subscription exists and is active, the payment is due, and no number leaves
/// its range.
pub proof fn law_payment_is_answered(ledger: LedgerView, sub_id: u64)
    ensures
        ({
            let storage = ledger.storage;
            let result = ledger.process_subscription_payment_step(sub_id).result;
            let sub = storage.subscriptions[sub_id];
            let running = storage.paused != Some(true);
            let known = running && storage.subscriptions.contains_key(sub_id);
            let going = known && sub.active;
            let due = going && sub.next_payment <= ledger.timestamp;
            let ready = due && storage.token is Some;
            let in_range = has_room(storage, sub.creator, sub.amount as int) && sub.next_payment
                + sub.interval <= 0xffff_ffff_ffff_ffff;
            &&& result is Ok <==> ready && in_range
            &&& !running ==> result == Err::<(), Failure>(Failure::Paused)
            &&& running && !known ==> refused_with(result, TipJarError::SubscriptionNotFound)
            &&& known && !going ==> refused_with(result, TipJarError::SubscriptionNotActive)
            &&& going && !due ==> refused_with(result, TipJarError::NotDueYet)
            &&& due && !ready ==> refused_with(result, TipJarError::TokenNotInitialized)
            &&& ready && !in_range ==> result == Err::<(), Failure>(Failure::Overflow)
        }),
{
}

/// A cancellation is accepted just where the contract is not paused, the
/// subscription exists and is active, and the caller is one of its two parties.
pub proof fn law_cancellation_is_answered(ledger: LedgerView, sub_id: u64, caller: Address)
    ensures
        ({
            let storage = ledger.storage;
            let result = ledger.cancel_subscription_step(sub_id, caller).result;
            let sub = storage.subscriptions[sub_id];
            let running = storage.paused != Some(true);
            let known = running && storage.subscriptions.contains_key(sub_id);
            let going = known && sub.active;
            let party = caller == sub.subscriber || caller == sub.creator;
            &&& result is Ok <==> going && party
            &&& !running ==> result == Err::<(), Failure>(Failure::Paused)
            &&& running && !known ==> refused_with(result, TipJarError::SubscriptionNotFound)
            &&& known && !going ==> refused_with(result, TipJarError::SubscriptionNotActive)
            &&& going && !party ==> result == Err::<(), Failure>(Failure::Unauthorized)
        }),
{
}

/// The fee is set just where the caller is the administrator and the rate is
/// at most 1_000 basis points.
pub proof fn law_fee_setting_is_answered(
    ledger: LedgerView,
    admin: Address,
    fee_bps: u32,
    treasury: Address,
)
    ensures
        ({
            let storage = ledger.storage;
            let result = ledger.set_platform_fee_step(admin, fee_bps, treasury).result;
            let entitled = storage.admin == Some(admin);
            &&& result is Ok <==> entitled && fee_bps <= 1_000
            &&& storage.admin is None ==> result == Err::<(), Failure>(Failure::MissingEntry)
            &&& storage.admin is Some && !entitled ==> result == Err::<(), Failure>(
                Failure::Unauthorized,
            )
            &&& entitled && fee_bps > 1_000 ==> refused_with(result, TipJarError::FeeTooHigh)
        }),
{
}

/// The contract is paused, or the pause ended, just where the caller is the
/// administrator.
pub proof fn law_pause_setting_is_answered(ledger: LedgerView, admin: Address, paused: bool)
    ensures
        ({
            let storage = ledger.storage;
            let result = ledger.set_paused_step(admin, paused).result;
            &&& result is Ok <==> storage.admin == Some(admin)
            &&& storage.admin is None ==> result == Err::<(), Failure>(Failure::MissingEntry)
            &&& storage.admin is Some && storage.admin != Some(admin) ==> result == Err::<
                (),
                Failure,
            >(Failure::Unauthorized)
        }),
{
}

/// What a refused call asked for before it was refused: nothing, where the call
/// itself is at fault or the contract paused; the authorization alone, where
/// what it rests on is missing, or where the caller of a setting is not the
/// administrator.
pub proof fn law_refused_calls_ask_little(ledger: LedgerView, call: Call)
    ensures
        ({
            let step = ledger.call_step(call);
            match step.result {
                Err(Failure::Paused) => step.effects.len() == 0,
                Err(Failure::MissingEntry) => step.effects.len() == 1,
                Err(Failure::Unauthorized) => step.effects.len() == if call
                    is CancelSubscription {
                    0nat
                } else {
                    1nat
                },
                Err(Failure::Error(e)) => step.effects.len() == if e
                    == TipJarError::TokenNotInitialized || e == TipJarError::NothingToWithdraw || e
                    == TipJarError::FeeTooHigh {
                    1nat
                } else {
                    0nat
                },
                _ => true,
            }
        }),
{
}

/// The errors are told apart by their numbers, which run from 1 to 10 in the
/// order in which they are declared.
pub proof fn law_error_numbers_are_told_apart(a: TipJarError, b: TipJarError)
    ensures
        1 <= a.spec_code() <= 10,
        a.spec_code() == b.spec_code() <==> a == b,
        TipJarError::AlreadyInitialized.spec_code() < TipJarError::TokenNotInitialized.spec_code()
            < TipJarError::InvalidAmount.spec_code() < TipJarError::NothingToWithdraw.spec_code()
            < TipJarError::MessageTooLong.spec_code() < TipJarError::InvalidSplitTotal.spec_code()
            < TipJarError::FeeTooHigh.spec_code() < TipJarError::NotDueYet.spec_code()
            < TipJarError::SubscriptionNotActive.spec_code()
            < TipJarError::SubscriptionNotFound.spec_code(),
{
}

} // verus!
