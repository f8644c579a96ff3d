//! The calls of the tip jar contract.

use crate::host::{copy_metadata, copy_string, message_len};
use crate::ledger::Ledger;
use crate::types::{
    Address, DataKey, Effect, Event, Failure, Subscription, TipJarError, TipSplit, TipWithMessage,
};
use vstd::prelude::*;

verus! {

/// The tip jar contract. A call works on the [`Ledger`] that it is handed: it
/// changes the storage and lists in `effects` what it asks of the ledger, in
/// order. A call that is refused leaves the storage as it was; what it asked
/// for before it was refused stays listed, because the ledger may refuse the
/// call at one of those first.
pub struct TipJarContract;

impl TipJarContract {
    /// Refuses the call while the contract is paused.
    fn require_not_paused(ledger: &Ledger) -> (r: Result<(), Failure>)
        ensures
            r == (if ledger@.storage.is_paused() {
                Err(Failure::Paused)
            } else {
                Ok(())
            }),
    {
        if ledger.storage.is_paused() {
            return Err(Failure::Paused);
        }
        Ok(())
    }

    /// The token in which tips are paid.
    fn read_token(ledger: &Ledger) -> (r: Result<Address, Failure>)
        ensures
            r == (match ledger@.storage.token {
                Some(token) => Ok(token),
                None => Err(Failure::Error(TipJarError::TokenNotInitialized)),
            }),
    {
        match ledger.storage.token {
            Some(token) => Ok(token),
            None => Err(Failure::Error(TipJarError::TokenNotInitialized)),
        }
    }

    /// The fee on `amount` at `fee_bps` basis points, rounded towards zero.
    pub fn calc_fee(amount: i128, fee_bps: u32) -> (r: i128)
        requires
            i128::MIN <= amount * fee_bps <= i128::MAX,
        ensures
            r == crate::model::basis_points(amount as int, fee_bps as int),
            amount >= 0 ==> 10_000 * r <= amount * fee_bps < 10_000 * r + 10_000,
            amount < 0 ==> 10_000 * r - 10_000 < amount * fee_bps <= 10_000 * r,
    {
        proof {
            let scaled = amount * fee_bps;
            assert(amount >= 0 ==> scaled >= 0) by (nonlinear_arith)
                requires
                    scaled == amount * fee_bps,
                    fee_bps >= 0,
            ;
            assert(amount < 0 ==> scaled <= 0) by (nonlinear_arith)
                requires
                    scaled == amount * fee_bps,
                    fee_bps >= 0,
            ;
            assert(-amount * fee_bps == -scaled) by (nonlinear_arith)
                requires
                    scaled == amount * fee_bps,
            ;
        }
        amount * (fee_bps as i128) / 10_000
    }

    /// Asks the ledger to store and announce that `creator` was credited.
    fn emit_credit(ledger: &mut Ledger, sender: Address, creator: Address, amount: i128)
        ensures
            final(ledger)@ == (crate::ledger::LedgerView {
                effects: old(ledger)@.effects + crate::model::credit_effects(
                    sender,
                    creator,
                    amount as int,
                ),
                ..old(ledger)@
            }),
            final(ledger).storage == old(ledger).storage,
            final(ledger).host == old(ledger).host,
    {
        ledger.emit(Effect::Store(DataKey::CreatorBalance(creator)));
        ledger.emit(Effect::Store(DataKey::CreatorTotal(creator)));
        ledger.emit(Effect::Publish(Event::Tip { creator, sender, amount }));
        assert(ledger@.effects =~= old(ledger)@.effects + crate::model::credit_effects(
            sender,
            creator,
            amount as int,
        ));
    }

    /// The sum of the percentages of `splits`, if it is in range.
    fn percentage_sum(splits: &Vec<TipSplit>) -> (r: Option<u32>)
        ensures
            match r {
                Some(sum) => sum == crate::model::percentages(splits@, splits@.len() as int),
                None => crate::model::percentages(splits@, splits@.len() as int) > u32::MAX,
            },
    {
        let mut sum: u32 = 0;
        let mut i: usize = 0;
        while i < splits.len()
            invariant
                i <= splits@.len(),
                sum == crate::model::percentages(splits@, i as int),
            decreases splits@.len() - i,
        {
            match sum.checked_add(splits[i].percentage) {
                Some(next) => {
                    sum = next;
                },
                None => {
                    proof {
                        crate::split::lemma_percentages_grow(splits@, i + 1, splits@.len() as int);
                    }
                    return None;
                },
            }
            i = i + 1;
        }
        Some(sum)
    }

    /// Distributes `total_amount` tokens from `sender` across multiple creators
    /// according to basis-point percentages (10_000 == 100%). Any rounding dust
    /// is added to the last creator.
    pub fn tip_split(
        ledger: &mut Ledger,
        sender: Address,
        splits: Vec<TipSplit>,
        total_amount: i128,
    ) -> (r: Result<(), Failure>)
        ensures
            r == old(ledger)@.tip_split_step(sender, splits@, total_amount as int).result,
            final(ledger)@ == old(ledger)@.after(
                old(ledger)@.tip_split_step(sender, splits@, total_amount as int),
            ),
            final(ledger).host == old(ledger).host,
    {
        let ghost before = ledger@;
        let ghost storage = ledger@.storage;
        let ghost total = total_amount as int;
        let ghost n = splits@.len() as int;
        if let Err(failure) = Self::require_not_paused(ledger) {
            return Err(failure);
        }
        if splits.len() == 0 || total_amount <= 0 {
            return Err(Failure::Error(TipJarError::InvalidAmount));
        }
        let percentages = match Self::percentage_sum(&splits) {
            Some(percentages) => percentages,
            None => {
                return Err(Failure::Overflow);
            },
        };
        if percentages != 10_000 {
            return Err(Failure::Error(TipJarError::InvalidSplitTotal));
        }
        ledger.emit(Effect::RequireAuth(sender));
        let token = match Self::read_token(ledger) {
            Ok(token) => token,
            Err(failure) => {
                return Err(failure);
            },
        };
        let contract = ledger.contract;
        ledger.emit(
            Effect::Transfer { token, from: sender, to: contract, amount: total_amount },
        );
        let ghost opening = ledger@.effects;
        assert(ledger@.storage.split(total, splits@, 0) =~= storage);

        let balances = ledger.storage.balances.copy();
        let totals = ledger.storage.totals.copy();
        let last: usize = splits.len() - 1;
        let mut distributed: i128 = 0;
        let mut i: usize = 0;
        while i < splits.len()
            invariant
                i <= splits@.len(),
                n == splits@.len(),
                last == n - 1,
                total == total_amount,
                total > 0,
                crate::model::percentages(splits@, n) == 10_000,
                before == old(ledger)@,
                ledger.host == old(ledger).host,
                storage == before.storage,
                !storage.is_paused(),
                storage.token == Some(token),
                opening == before.effects + seq![
                    crate::types::EffectView::RequireAuth(sender),
                    crate::types::EffectView::Transfer {
                        token,
                        from: sender,
                        to: before.contract,
                        amount: total,
                    },
                ],
                balances@.map_values(|x: i128| x as int) == storage.balances,
                totals@.map_values(|x: i128| x as int) == storage.totals,
                i < n ==> distributed == crate::model::parts(total, splits@, i as int),
                storage.split_reach(total, splits@, i as int) == i,
                ledger@.storage == storage.split(total, splits@, i as int),
                ledger@.contract == before.contract,
                ledger@.timestamp == before.timestamp,
                ledger@.effects == opening + crate::model::split_effects(
                    sender,
                    total,
                    splits@,
                    i as int,
                ),
            decreases splits@.len() - i,
        {
            let split = splits[i];
            proof {
                crate::split::lemma_parts_within_total(total, splits@, i as int);
                crate::split::lemma_parts_within_total(total, splits@, i + 1);
                crate::split::lemma_split_next(storage, total, splits@, i as int);
            }
            let shared: Option<i128> = if i == last {
                Some(total_amount - distributed)
            } else {
                match total_amount.checked_mul(split.percentage as i128) {
                    Some(scaled) => Some(scaled / 10_000),
                    None => None,
                }
            };
            let mut amount: i128 = 0;
            let mut fits: bool = false;
            if let Some(shared_amount) = shared {
                amount = shared_amount;
                fits = ledger.storage.can_credit(split.creator, amount);
            }
            assert(shared is Some ==> amount == crate::model::share(total, splits@, i as int));
            assert(fits == storage.split_fits(total, splits@, i as int));
            if !fits {
                proof {
                    crate::split::lemma_reach_stays(storage, total, splits@, i as int, n);
                }
                ledger.storage.balances = balances;
                ledger.storage.totals = totals;
                return Err(Failure::Overflow);
            }
            ledger.storage.credit(split.creator, amount);
            Self::emit_credit(ledger, sender, split.creator, amount);
            distributed = distributed + amount;
            i = i + 1;
        }
        Ok(())
    }

    /// One-time setup to choose the token contract and administrator for the TipJar.
    pub fn init(ledger: &mut Ledger, token: Address, admin: Address) -> (r: Result<(), Failure>)
        ensures
            r == old(ledger)@.init_step(token, admin).result,
            final(ledger)@ == old(ledger)@.after(old(ledger)@.init_step(token, admin)),
            final(ledger).host == old(ledger).host,
    {
        if ledger.storage.token.is_some() {
            return Err(Failure::Error(TipJarError::AlreadyInitialized));
        }
        ledger.storage.token = Some(token);
        ledger.emit(Effect::Store(DataKey::Token));
        ledger.storage.admin = Some(admin);
        ledger.emit(Effect::Store(DataKey::Admin));
        ledger.storage.paused = Some(false);
        ledger.emit(Effect::Store(DataKey::Paused));
        Ok(())
    }

    /// Moves `amount` tokens from `sender` into contract escrow for `creator`.
    ///
    /// If a platform fee is configured, the fee is sent directly to the treasury
    /// and only the remainder is escrowed for the creator.
    pub fn tip(ledger: &mut Ledger, sender: Address, creator: Address, amount: i128) -> (r: Result<
        (),
        Failure,
    >)
        ensures
            r == old(ledger)@.tip_step(sender, creator, amount as int).result,
            final(ledger)@ == old(ledger)@.after(
                old(ledger)@.tip_step(sender, creator, amount as int),
            ),
            final(ledger).host == old(ledger).host,
    {
        if let Err(failure) = Self::require_not_paused(ledger) {
            return Err(failure);
        }
        if amount <= 0 {
            return Err(Failure::Error(TipJarError::InvalidAmount));
        }
        ledger.emit(Effect::RequireAuth(sender));
        let token = match Self::read_token(ledger) {
            Ok(token) => token,
            Err(failure) => {
                return Err(failure);
            },
        };
        let contract = ledger.contract;
        let fee_bps: u32 = ledger.storage.fee_bps();
        if amount.checked_mul(fee_bps as i128).is_none() {
            return Err(Failure::Overflow);
        }
        let fee: i128 = Self::calc_fee(amount, fee_bps);
        assert(0 <= fee) by {
            assert(0 <= amount * fee_bps) by (nonlinear_arith)
                requires
                    amount > 0,
                    fee_bps >= 0,
            ;
        }
        let creator_amount: i128 = amount - fee;
        let mut total_fees: Option<i128> = ledger.storage.total_fees;
        if fee > 0 {
            // The fee goes directly to the treasury; the rest goes into escrow.
            let treasury = match ledger.storage.treasury {
                Some(treasury) => treasury,
                None => {
                    return Err(Failure::MissingEntry);
                },
            };
            ledger.emit(Effect::Transfer { token, from: sender, to: treasury, amount: fee });
            total_fees = ledger.storage.fees_collected().checked_add(fee);
            if total_fees.is_none() {
                return Err(Failure::Overflow);
            }
            ledger.emit(Effect::Store(DataKey::TotalFeesCollected));
            ledger.emit(Effect::Publish(Event::FeeCollected { treasury, sender, fee }));
        }
        ledger.emit(
            Effect::Transfer { token, from: sender, to: contract, amount: creator_amount },
        );
        if !ledger.storage.can_credit(creator, creator_amount) {
            return Err(Failure::Overflow);
        }
        ledger.storage.total_fees = total_fees;
        ledger.storage.credit(creator, creator_amount);
        Self::emit_credit(ledger, sender, creator, creator_amount);
        Ok(())
    }

    /// Allows supporters to attach a note and metadata to a tip.
    pub fn tip_with_message(
        ledger: &mut Ledger,
        sender: Address,
        creator: Address,
        amount: i128,
        message: soroban_sdk::String,
        metadata: soroban_sdk::Map<soroban_sdk::String, soroban_sdk::String>,
    ) -> (r: Result<(), Failure>)
        ensures
            r == old(ledger)@.tip_with_message_step(
                sender,
                creator,
                amount as int,
                crate::host::string_bytes(message),
                crate::host::metadata_entries(metadata),
            ).result,
            final(ledger)@ == old(ledger)@.after(
                old(ledger)@.tip_with_message_step(
                    sender,
                    creator,
                    amount as int,
                    crate::host::string_bytes(message),
                    crate::host::metadata_entries(metadata),
                ),
            ),
            final(ledger).host == old(ledger).host,
    {
        if let Err(failure) = Self::require_not_paused(ledger) {
            return Err(failure);
        }
        if amount <= 0 {
            return Err(Failure::Error(TipJarError::InvalidAmount));
        }
        if message_len(&message) > 280 {
            return Err(Failure::Error(TipJarError::MessageTooLong));
        }
        ledger.emit(Effect::RequireAuth(sender));
        let token = match Self::read_token(ledger) {
            Ok(token) => token,
            Err(failure) => {
                return Err(failure);
            },
        };
        // The tokens go into escrow first, so that the creator can withdraw them later.
        let contract = ledger.contract;
        ledger.emit(Effect::Transfer { token, from: sender, to: contract, amount });
        if !ledger.storage.can_credit(creator, amount) {
            return Err(Failure::Overflow);
        }
        ledger.emit(Effect::Store(DataKey::CreatorBalance(creator)));
        ledger.emit(Effect::Store(DataKey::CreatorTotal(creator)));
        if ledger.storage.messages_full(creator) {
            return Err(Failure::Overflow);
        }
        ledger.storage.credit(creator, amount);

        let record = TipWithMessage {
            sender,
            creator,
            amount,
            message: copy_string(&message),
            metadata: copy_metadata(&metadata),
            timestamp: ledger.timestamp,
        };
        ledger.storage.push_message(creator, record);
        ledger.emit(Effect::Store(DataKey::CreatorMessages(creator)));
        ledger.emit(
            Effect::Publish(Event::TipMessage { creator, sender, amount, message, metadata }),
        );
        Ok(())
    }

    /// Returns total historical tips for a creator.
    pub fn get_total_tips(ledger: &Ledger, creator: Address) -> (r: i128)
        ensures
            r == ledger@.storage.total(creator),
            r == (if ledger@.storage.totals.contains_key(creator) {
                ledger@.storage.totals[creator]
            } else {
                0
            }),
    {
        ledger.storage.total(creator)
    }

    /// Returns stored messages for a creator.
    pub fn get_messages(ledger: &Ledger, creator: Address) -> (r: Vec<TipWithMessage>)
        ensures
            crate::storage::records(r@) == ledger@.storage.messages_of(creator),
            ledger@.storage.messages.contains_key(creator) ==> crate::storage::records(r@)
                == ledger@.storage.messages[creator],
            !ledger@.storage.messages.contains_key(creator) ==> r@.len() == 0,
    {
        let mut list: Vec<TipWithMessage> = Vec::new();
        if let Some(stored) = ledger.storage.messages.get(creator) {
            let mut i: usize = 0;
            while i < stored.len()
                invariant
                    i <= stored@.len(),
                    crate::storage::records(list@) == crate::storage::records(stored@).take(
                        i as int,
                    ),
                decreases stored@.len() - i,
            {
                let ghost taken = crate::storage::records(list@);
                let record = stored[i].clone();
                list.push(record);
                assert(crate::storage::records(list@) =~= taken.push(record@));
                assert(crate::storage::records(stored@).take(i + 1)
                    =~= crate::storage::records(stored@).take(i as int).push(stored@[i as int]@));
                i = i + 1;
            }
        }
        assert(crate::storage::records(list@) =~= ledger@.storage.messages_of(creator));
        list
    }

    /// Returns currently withdrawable escrowed tips for a creator.
    pub fn get_withdrawable_balance(ledger: &Ledger, creator: Address) -> (r: i128)
        ensures
            r == ledger@.storage.balance(creator),
            r == (if ledger@.storage.balances.contains_key(creator) {
                ledger@.storage.balances[creator]
            } else {
                0
            }),
    {
        ledger.storage.balance(creator)
    }

    /// Allows creator to withdraw their accumulated escrowed tips.
    pub fn withdraw(ledger: &mut Ledger, creator: Address) -> (r: Result<(), Failure>)
        ensures
            r == old(ledger)@.withdraw_step(creator).result,
            final(ledger)@ == old(ledger)@.after(old(ledger)@.withdraw_step(creator)),
            final(ledger).host == old(ledger).host,
    {
        if let Err(failure) = Self::require_not_paused(ledger) {
            return Err(failure);
        }
        ledger.emit(Effect::RequireAuth(creator));
        let amount: i128 = ledger.storage.balance(creator);
        if amount <= 0 {
            return Err(Failure::Error(TipJarError::NothingToWithdraw));
        }
        let token = match Self::read_token(ledger) {
            Ok(token) => token,
            Err(failure) => {
                return Err(failure);
            },
        };
        let contract = ledger.contract;
        ledger.emit(Effect::Transfer { token, from: contract, to: creator, amount });
        ledger.storage.balances.set(creator, 0);
        ledger.emit(Effect::Store(DataKey::CreatorBalance(creator)));
        ledger.emit(Effect::Publish(Event::Withdraw { creator, amount }));
        Ok(())
    }

    /// Creates a recurring subscription from `subscriber` to `creator`.
    /// Returns the new subscription ID.
    pub fn create_subscription(
        ledger: &mut Ledger,
        subscriber: Address,
        creator: Address,
        amount: i128,
        interval: u64,
    ) -> (r: Result<u64, Failure>)
        ensures
            r == old(ledger)@.create_subscription_step(
                subscriber,
                creator,
                amount,
                interval,
            ).result,
            final(ledger)@ == old(ledger)@.after(
                old(ledger)@.create_subscription_step(subscriber, creator, amount, interval),
            ),
            final(ledger).host == old(ledger).host,
    {
        if let Err(failure) = Self::require_not_paused(ledger) {
            return Err(failure);
        }
        if amount <= 0 {
            return Err(Failure::Error(TipJarError::InvalidAmount));
        }
        ledger.emit(Effect::RequireAuth(subscriber));
        let sub_id: u64 = match ledger.storage.sub_counter {
            Some(sub_id) => sub_id,
            None => 0,
        };
        let next_id: u64 = match sub_id.checked_add(1) {
            Some(next_id) => next_id,
            None => {
                return Err(Failure::Overflow);
            },
        };
        ledger.emit(Effect::Store(DataKey::SubCounter));
        let next_payment: u64 = match ledger.timestamp.checked_add(interval) {
            Some(next_payment) => next_payment,
            None => {
                return Err(Failure::Overflow);
            },
        };
        let sub = Subscription {
            subscriber,
            creator,
            amount,
            interval,
            next_payment,
            active: true,
        };
        ledger.emit(Effect::Store(DataKey::Subscription(next_id)));
        if ledger.storage.subscriptions_full(subscriber) {
            return Err(Failure::Overflow);
        }
        ledger.storage.sub_counter = Some(next_id);
        ledger.storage.subscriptions.set(next_id, sub);
        // The subscription is listed among those of its subscriber.
        ledger.storage.push_subscription(&ledger.host, subscriber, next_id);
        ledger.emit(Effect::Store(DataKey::SubscriberSubs(subscriber)));
        Ok(next_id)
    }

    /// Processes a due subscription payment. Can be called by anyone; the subscriber
    /// must authorize the transaction (pull-payment model).
    /// `next_payment` advances by `interval` from the scheduled time, not from now,
    /// preventing schedule drift on late processing.
    pub fn process_subscription_payment(ledger: &mut Ledger, sub_id: u64) -> (r: Result<
        (),
        Failure,
    >)
        ensures
            r == old(ledger)@.process_subscription_payment_step(sub_id).result,
            final(ledger)@ == old(ledger)@.after(
                old(ledger)@.process_subscription_payment_step(sub_id),
            ),
            final(ledger).host == old(ledger).host,
    {
        if let Err(failure) = Self::require_not_paused(ledger) {
            return Err(failure);
        }
        let mut sub = match Self::get_subscription(ledger, sub_id) {
            Ok(sub) => sub,
            Err(failure) => {
                return Err(failure);
            },
        };
        if !sub.active {
            return Err(Failure::Error(TipJarError::SubscriptionNotActive));
        }
        if ledger.timestamp < sub.next_payment {
            return Err(Failure::Error(TipJarError::NotDueYet));
        }
        ledger.emit(Effect::RequireAuth(sub.subscriber));
        let token = match Self::read_token(ledger) {
            Ok(token) => token,
            Err(failure) => {
                return Err(failure);
            },
        };
        let contract = ledger.contract;
        ledger.emit(
            Effect::Transfer { token, from: sub.subscriber, to: contract, amount: sub.amount },
        );
        if !ledger.storage.can_credit(sub.creator, sub.amount) {
            return Err(Failure::Overflow);
        }
        Self::emit_credit(ledger, sub.subscriber, sub.creator, sub.amount);
        // The schedule goes on from the time at which the payment was due.
        match sub.next_payment.checked_add(sub.interval) {
            Some(next_payment) => {
                sub.next_payment = next_payment;
            },
            None => {
                return Err(Failure::Overflow);
            },
        }
        ledger.storage.credit(sub.creator, sub.amount);
        ledger.storage.subscriptions.set(sub_id, sub);
        ledger.emit(Effect::Store(DataKey::Subscription(sub_id)));
        Ok(())
    }

    /// Cancels a subscription. Either the subscriber or the creator may cancel.
    pub fn cancel_subscription(ledger: &mut Ledger, sub_id: u64, caller: Address) -> (r: Result<
        (),
        Failure,
    >)
        ensures
            r == old(ledger)@.cancel_subscription_step(sub_id, caller).result,
            final(ledger)@ == old(ledger)@.after(
                old(ledger)@.cancel_subscription_step(sub_id, caller),
            ),
            final(ledger).host == old(ledger).host,
    {
        if let Err(failure) = Self::require_not_paused(ledger) {
            return Err(failure);
        }
        let mut sub = match Self::get_subscription(ledger, sub_id) {
            Ok(sub) => sub,
            Err(failure) => {
                return Err(failure);
            },
        };
        if !sub.active {
            return Err(Failure::Error(TipJarError::SubscriptionNotActive));
        }
        if caller != sub.subscriber && caller != sub.creator {
            return Err(Failure::Unauthorized);
        }
        ledger.emit(Effect::RequireAuth(caller));
        sub.active = false;
        ledger.storage.subscriptions.set(sub_id, sub);
        ledger.emit(Effect::Store(DataKey::Subscription(sub_id)));
        Ok(())
    }

    /// Returns a subscription record by ID.
    pub fn get_subscription(ledger: &Ledger, sub_id: u64) -> (r: Result<Subscription, Failure>)
        ensures
            r == (if ledger@.storage.subscriptions.contains_key(sub_id) {
                Ok(ledger@.storage.subscriptions[sub_id])
            } else {
                Err(Failure::Error(TipJarError::SubscriptionNotFound))
            }),
    {
        match ledger.storage.subscriptions.get(sub_id) {
            Some(sub) => Ok(*sub),
            None => Err(Failure::Error(TipJarError::SubscriptionNotFound)),
        }
    }

    /// Refuses whoever is not the administrator.
    fn require_admin(ledger: &mut Ledger, admin: Address) -> (r: Result<(), Failure>)
        ensures
            r == (match old(ledger)@.storage.admin {
                Some(stored) => if stored == admin {
                    Ok(())
                } else {
                    Err(Failure::Unauthorized)
                },
                None => Err(Failure::MissingEntry),
            }),
            final(ledger)@ == (crate::ledger::LedgerView {
                effects: old(ledger)@.effects.push(crate::types::EffectView::RequireAuth(admin)),
                ..old(ledger)@
            }),
            final(ledger).storage == old(ledger).storage,
            final(ledger).host == old(ledger).host,
    {
        ledger.emit(Effect::RequireAuth(admin));
        match ledger.storage.admin {
            Some(stored) => if stored == admin {
                Ok(())
            } else {
                Err(Failure::Unauthorized)
            },
            None => Err(Failure::MissingEntry),
        }
    }

    /// Sets the platform fee (in basis points) and treasury address. Admin only.
    pub fn set_platform_fee(
        ledger: &mut Ledger,
        admin: Address,
        fee_bps: u32,
        treasury: Address,
    ) -> (r: Result<(), Failure>)
        ensures
            r == old(ledger)@.set_platform_fee_step(admin, fee_bps, treasury).result,
            final(ledger)@ == old(ledger)@.after(
                old(ledger)@.set_platform_fee_step(admin, fee_bps, treasury),
            ),
            final(ledger).host == old(ledger).host,
    {
        if let Err(failure) = Self::require_admin(ledger, admin) {
            return Err(failure);
        }
        if fee_bps > 1_000 {
            return Err(Failure::Error(TipJarError::FeeTooHigh));
        }
        ledger.storage.platform_fee = Some(fee_bps);
        ledger.emit(Effect::Store(DataKey::PlatformFee));
        ledger.storage.treasury = Some(treasury);
        ledger.emit(Effect::Store(DataKey::TreasuryAddress));
        Ok(())
    }

    /// Returns the total fees collected by the platform.
    pub fn get_total_fees_collected(ledger: &Ledger) -> (r: i128)
        ensures
            r == ledger@.storage.fees_collected(),
            r == (match ledger@.storage.total_fees {
                Some(fees) => fees,
                None => 0,
            }),
    {
        ledger.storage.fees_collected()
    }

    /// Emergency pause to stop all state-changing activities (Admin only).
    ///
    /// What is the administrator's own stays open: `set_platform_fee`, `pause`
    /// and `unpause`.
    pub fn pause(ledger: &mut Ledger, admin: Address) -> (r: Result<(), Failure>)
        ensures
            r == old(ledger)@.set_paused_step(admin, true).result,
            final(ledger)@ == old(ledger)@.after(old(ledger)@.set_paused_step(admin, true)),
            final(ledger).host == old(ledger).host,
    {
        if let Err(failure) = Self::require_admin(ledger, admin) {
            return Err(failure);
        }
        ledger.storage.paused = Some(true);
        ledger.emit(Effect::Store(DataKey::Paused));
        Ok(())
    }

    /// Resume contract activities after an emergency pause (Admin only).
    pub fn unpause(ledger: &mut Ledger, admin: Address) -> (r: Result<(), Failure>)
        ensures
            r == old(ledger)@.set_paused_step(admin, false).result,
            final(ledger)@ == old(ledger)@.after(old(ledger)@.set_paused_step(admin, false)),
            final(ledger).host == old(ledger).host,
    {
        if let Err(failure) = Self::require_admin(ledger, admin) {
            return Err(failure);
        }
        ledger.storage.paused = Some(false);
        ledger.emit(Effect::Store(DataKey::Paused));
        Ok(())
    }
}

} // verus!
