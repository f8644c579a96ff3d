//! What each call of the contract comes to.

use crate::ledger::{LedgerView, Step};
use crate::storage::{fits, full, StorageView};
use crate::types::{
    Address, DataKey, EffectView, EventView, Failure, Subscription, TipJarError, TipSplit,
    TipWithMessageView,
};
use vstd::prelude::*;

verus! {

/// The part of `amount` that `bps` basis points make, rounded towards zero.
pub open spec fn basis_points(amount: int, bps: int) -> int {
    if amount >= 0 {
        amount * bps / 10_000
    } else {
        -(-amount * bps / 10_000)
    }
}

/// The sum of the percentages of the first `n` recipients.
pub open spec fn percentages(splits: Seq<TipSplit>, n: int) -> int
    decreases n,
{
    if n <= 0 {
        0
    } else {
        percentages(splits, n - 1) + splits[n - 1].percentage
    }
}

/// The sum of what the first `n` recipients get by their percentages alone.
pub open spec fn parts(total: int, splits: Seq<TipSplit>, n: int) -> int
    decreases n,
{
    if n <= 0 {
        0
    } else {
        parts(total, splits, n - 1) + basis_points(total, splits[n - 1].percentage as int)
    }
}

/// What recipient `i` gets of `total`: their percentage, rounded down, or,
/// for the last one, all that is left.
pub open spec fn share(total: int, splits: Seq<TipSplit>, i: int) -> int {
    if i == splits.len() - 1 {
        total - parts(total, splits, i)
    } else {
        basis_points(total, splits[i].percentage as int)
    }
}

/// What `creator` gets of `total` among the first `n` recipients; a creator
/// may be named more than once.
pub open spec fn credited(total: int, splits: Seq<TipSplit>, creator: Address, n: int) -> int
    decreases n,
{
    if n <= 0 {
        0
    } else if splits[n - 1].creator == creator {
        credited(total, splits, creator, n - 1) + share(total, splits, n - 1)
    } else {
        credited(total, splits, creator, n - 1)
    }
}

/// `creator` is among the first `n` recipients.
pub open spec fn named(splits: Seq<TipSplit>, creator: Address, n: int) -> bool {
    exists|i: int| 0 <= i < n && (#[trigger] splits[i]).creator == creator
}

/// What is asked of the ledger for the first `n` recipients.
pub open spec fn split_effects(
    sender: Address,
    total: int,
    splits: Seq<TipSplit>,
    n: int,
) -> Seq<EffectView>
    decreases n,
{
    if n <= 0 {
        Seq::empty()
    } else {
        split_effects(sender, total, splits, n - 1) + credit_effects(
            sender,
            splits[n - 1].creator,
            share(total, splits, n - 1),
        )
    }
}

/// What is asked of the ledger when `creator` is credited with `amount`.
pub open spec fn credit_effects(sender: Address, creator: Address, amount: int) -> Seq<EffectView> {
    seq![
        EffectView::Store(DataKey::CreatorBalance(creator)),
        EffectView::Store(DataKey::CreatorTotal(creator)),
        EffectView::Publish(EventView::Tip { creator, sender, amount }),
    ]
}

impl StorageView {
    /// The storage after the first `n` recipients got their shares.
    pub open spec fn split(self, total: int, splits: Seq<TipSplit>, n: int) -> StorageView {
        StorageView {
            balances: Map::new(
                |c: Address| self.balances.contains_key(c) || named(splits, c, n),
                |c: Address| self.balance(c) + credited(total, splits, c, n),
            ),
            totals: Map::new(
                |c: Address| self.totals.contains_key(c) || named(splits, c, n),
                |c: Address| self.total(c) + credited(total, splits, c, n),
            ),
            ..self
        }
    }

    /// No number leaves its range when recipient `i` gets their share after
    /// those before them.
    pub open spec fn split_fits(self, total: int, splits: Seq<TipSplit>, i: int) -> bool {
        &&& i < splits.len() - 1 ==> fits(total * splits[i].percentage)
        &&& fits(
            self.balance(splits[i].creator) + credited(total, splits, splits[i].creator, i + 1),
        )
        &&& fits(
            self.total(splits[i].creator) + credited(total, splits, splits[i].creator, i + 1),
        )
    }

    /// How many of the first `n` recipients get their shares before a number
    /// leaves its range.
    pub open spec fn split_reach(self, total: int, splits: Seq<TipSplit>, n: int) -> int
        decreases n,
    {
        if n <= 0 {
            0
        } else if self.split_reach(total, splits, n - 1) == n - 1 && self.split_fits(
            total,
            splits,
            n - 1,
        ) {
            n
        } else {
            self.split_reach(total, splits, n - 1)
        }
    }
}

impl LedgerView {
    /// One-time setup.
    pub open spec fn init_step(self, token: Address, admin: Address) -> Step<()> {
        if self.storage.token is Some {
            self.refused(seq![], Failure::Error(TipJarError::AlreadyInitialized))
        } else {
            Step {
                storage: StorageView {
                    token: Some(token),
                    admin: Some(admin),
                    paused: Some(false),
                    ..self.storage
                },
                effects: seq![
                    EffectView::Store(DataKey::Token),
                    EffectView::Store(DataKey::Admin),
                    EffectView::Store(DataKey::Paused),
                ],
                result: Ok(()),
            }
        }
    }

    /// A tip, with the fee taken out of it.
    pub open spec fn tip_step(self, sender: Address, creator: Address, amount: int) -> Step<()> {
        let auth = seq![EffectView::RequireAuth(sender)];
        let bps = self.storage.fee_bps();
        let fee = basis_points(amount, bps);
        let kept = amount - fee;
        if self.storage.is_paused() {
            self.refused(seq![], Failure::Paused)
        } else if amount <= 0 {
            self.refused(seq![], Failure::Error(TipJarError::InvalidAmount))
        } else if self.storage.token is None {
            self.refused(auth, Failure::Error(TipJarError::TokenNotInitialized))
        } else if !fits(amount * bps) {
            self.refused(auth, Failure::Overflow)
        } else if fee > 0 && self.storage.treasury is None {
            self.refused(auth, Failure::MissingEntry)
        } else {
            let token = self.storage.token->0;
            let treasury = self.storage.treasury->0;
            let fees = self.storage.fees_collected() + fee;
            let to_treasury = if fee > 0 {
                seq![EffectView::Transfer { token, from: sender, to: treasury, amount: fee }]
            } else {
                seq![]
            };
            let counted = if fee > 0 {
                seq![
                    EffectView::Store(DataKey::TotalFeesCollected),
                    EffectView::Publish(EventView::FeeCollected { treasury, sender, fee }),
                ]
            } else {
                seq![]
            };
            let to_escrow = seq![
                EffectView::Transfer { token, from: sender, to: self.contract, amount: kept },
            ];
            if fee > 0 && !fits(fees) {
                self.refused(auth + to_treasury, Failure::Overflow)
            } else if !self.storage.can_credit(creator, kept) {
                self.refused(auth + to_treasury + counted + to_escrow, Failure::Overflow)
            } else {
                Step {
                    storage: StorageView {
                        total_fees: if fee > 0 { Some(fees) } else { self.storage.total_fees },
                        ..self.storage.credit(creator, kept)
                    },
                    effects: auth + to_treasury + counted + to_escrow + credit_effects(
                        sender,
                        creator,
                        kept,
                    ),
                    result: Ok(()),
                }
            }
        }
    }

    /// A tip with a note.
    pub open spec fn tip_with_message_step(
        self,
        sender: Address,
        creator: Address,
        amount: int,
        message: Seq<u8>,
        metadata: Map<Seq<u8>, Seq<u8>>,
    ) -> Step<()> {
        let auth = seq![EffectView::RequireAuth(sender)];
        if self.storage.is_paused() {
            self.refused(seq![], Failure::Paused)
        } else if amount <= 0 {
            self.refused(seq![], Failure::Error(TipJarError::InvalidAmount))
        } else if message.len() > 280 {
            self.refused(seq![], Failure::Error(TipJarError::MessageTooLong))
        } else if self.storage.token is None {
            self.refused(auth, Failure::Error(TipJarError::TokenNotInitialized))
        } else {
            let to_escrow = seq![
                EffectView::Transfer {
                    token: self.storage.token->0,
                    from: sender,
                    to: self.contract,
                    amount,
                },
            ];
            let credited = seq![
                EffectView::Store(DataKey::CreatorBalance(creator)),
                EffectView::Store(DataKey::CreatorTotal(creator)),
            ];
            if !self.storage.can_credit(creator, amount) {
                self.refused(auth + to_escrow, Failure::Overflow)
            } else if full(self.storage.messages_of(creator).len()) {
                self.refused(auth + to_escrow + credited, Failure::Overflow)
            } else {
                let record = TipWithMessageView {
                    sender,
                    creator,
                    amount,
                    message,
                    metadata,
                    timestamp: self.timestamp,
                };
                Step {
                    storage: StorageView {
                        messages: self.storage.messages.insert(
                            creator,
                            self.storage.messages_of(creator).push(record),
                        ),
                        ..self.storage.credit(creator, amount)
                    },
                    effects: auth + to_escrow + credited + seq![
                        EffectView::Store(DataKey::CreatorMessages(creator)),
                        EffectView::Publish(
                            EventView::TipMessage { creator, sender, amount, message, metadata },
                        ),
                    ],
                    result: Ok(()),
                }
            }
        }
    }

    /// A creator takes out all that is escrowed for them.
    pub open spec fn withdraw_step(self, creator: Address) -> Step<()> {
        let auth = seq![EffectView::RequireAuth(creator)];
        let amount = self.storage.balance(creator);
        if self.storage.is_paused() {
            self.refused(seq![], Failure::Paused)
        } else if amount <= 0 {
            self.refused(auth, Failure::Error(TipJarError::NothingToWithdraw))
        } else if self.storage.token is None {
            self.refused(auth, Failure::Error(TipJarError::TokenNotInitialized))
        } else {
            Step {
                storage: StorageView {
                    balances: self.storage.balances.insert(creator, 0),
                    ..self.storage
                },
                effects: auth + seq![
                    EffectView::Transfer {
                        token: self.storage.token->0,
                        from: self.contract,
                        to: creator,
                        amount,
                    },
                    EffectView::Store(DataKey::CreatorBalance(creator)),
                    EffectView::Publish(EventView::Withdraw { creator, amount }),
                ],
                result: Ok(()),
            }
        }
    }

    /// A tip distributed over several creators.
    pub open spec fn tip_split_step(
        self,
        sender: Address,
        splits: Seq<TipSplit>,
        total: int,
    ) -> Step<()> {
        let auth = seq![EffectView::RequireAuth(sender)];
        let n = splits.len() as int;
        if self.storage.is_paused() {
            self.refused(seq![], Failure::Paused)
        } else if n == 0 || total <= 0 {
            self.refused(seq![], Failure::Error(TipJarError::InvalidAmount))
        } else if percentages(splits, n) > u32::MAX {
            self.refused(seq![], Failure::Overflow)
        } else if percentages(splits, n) != 10_000 {
            self.refused(seq![], Failure::Error(TipJarError::InvalidSplitTotal))
        } else if self.storage.token is None {
            self.refused(auth, Failure::Error(TipJarError::TokenNotInitialized))
        } else {
            let to_escrow = seq![
                EffectView::Transfer {
                    token: self.storage.token->0,
                    from: sender,
                    to: self.contract,
                    amount: total,
                },
            ];
            let reach = self.storage.split_reach(total, splits, n);
            let effects = auth + to_escrow + split_effects(sender, total, splits, reach);
            if reach < n {
                self.refused(effects, Failure::Overflow)
            } else {
                Step { storage: self.storage.split(total, splits, n), effects, result: Ok(()) }
            }
        }
    }

    /// A new recurring payment.
    pub open spec fn create_subscription_step(
        self,
        subscriber: Address,
        creator: Address,
        amount: i128,
        interval: u64,
    ) -> Step<u64> {
        let auth = seq![EffectView::RequireAuth(subscriber)];
        let id = (self.storage.counter() + 1) as u64;
        let counted = seq![EffectView::Store(DataKey::SubCounter)];
        let recorded = seq![EffectView::Store(DataKey::Subscription(id))];
        if self.storage.is_paused() {
            self.refused(seq![], Failure::Paused)
        } else if amount <= 0 {
            self.refused(seq![], Failure::Error(TipJarError::InvalidAmount))
        } else if self.storage.counter() + 1 > u64::MAX {
            self.refused(auth, Failure::Overflow)
        } else if self.timestamp + interval > u64::MAX {
            self.refused(auth + counted, Failure::Overflow)
        } else if full(self.storage.subs_of(subscriber).len()) {
            self.refused(auth + counted + recorded, Failure::Overflow)
        } else {
            let sub = Subscription {
                subscriber,
                creator,
                amount,
                interval,
                next_payment: (self.timestamp + interval) as u64,
                active: true,
            };
            Step {
                storage: StorageView {
                    sub_counter: Some(id),
                    subscriptions: self.storage.subscriptions.insert(id, sub),
                    subscriber_subs: self.storage.subscriber_subs.insert(
                        subscriber,
                        self.storage.subs_of(subscriber).push(id),
                    ),
                    ..self.storage
                },
                effects: auth + counted + recorded + seq![
                    EffectView::Store(DataKey::SubscriberSubs(subscriber)),
                ],
                result: Ok(id),
            }
        }
    }

    /// A due payment is made. The schedule goes on from the time at which the
    /// payment was due, whatever the time is now.
    pub open spec fn process_subscription_payment_step(self, sub_id: u64) -> Step<()> {
        let sub = self.storage.subscriptions[sub_id];
        let auth = seq![EffectView::RequireAuth(sub.subscriber)];
        if self.storage.is_paused() {
            self.refused(seq![], Failure::Paused)
        } else if !self.storage.subscriptions.contains_key(sub_id) {
            self.refused(seq![], Failure::Error(TipJarError::SubscriptionNotFound))
        } else if !sub.active {
            self.refused(seq![], Failure::Error(TipJarError::SubscriptionNotActive))
        } else if self.timestamp < sub.next_payment {
            self.refused(seq![], Failure::Error(TipJarError::NotDueYet))
        } else if self.storage.token is None {
            self.refused(auth, Failure::Error(TipJarError::TokenNotInitialized))
        } else {
            let to_escrow = seq![
                EffectView::Transfer {
                    token: self.storage.token->0,
                    from: sub.subscriber,
                    to: self.contract,
                    amount: sub.amount as int,
                },
            ];
            let credit = credit_effects(sub.subscriber, sub.creator, sub.amount as int);
            if !self.storage.can_credit(sub.creator, sub.amount as int) {
                self.refused(auth + to_escrow, Failure::Overflow)
            } else if sub.next_payment + sub.interval > u64::MAX {
                self.refused(auth + to_escrow + credit, Failure::Overflow)
            } else {
                let next = Subscription {
                    next_payment: (sub.next_payment + sub.interval) as u64,
                    ..sub
                };
                Step {
                    storage: StorageView {
                        subscriptions: self.storage.subscriptions.insert(sub_id, next),
                        ..self.storage.credit(sub.creator, sub.amount as int)
                    },
                    effects: auth + to_escrow + credit + seq![
                        EffectView::Store(DataKey::Subscription(sub_id)),
                    ],
                    result: Ok(()),
                }
            }
        }
    }

    /// The subscriber or the creator ends a recurring payment.
    pub open spec fn cancel_subscription_step(self, sub_id: u64, caller: Address) -> Step<()> {
        let sub = self.storage.subscriptions[sub_id];
        if self.storage.is_paused() {
            self.refused(seq![], Failure::Paused)
        } else if !self.storage.subscriptions.contains_key(sub_id) {
            self.refused(seq![], Failure::Error(TipJarError::SubscriptionNotFound))
        } else if !sub.active {
            self.refused(seq![], Failure::Error(TipJarError::SubscriptionNotActive))
        } else if caller != sub.subscriber && caller != sub.creator {
            self.refused(seq![], Failure::Unauthorized)
        } else {
            Step {
                storage: StorageView {
                    subscriptions: self.storage.subscriptions.insert(
                        sub_id,
                        Subscription { active: false, ..sub },
                    ),
                    ..self.storage
                },
                effects: seq![
                    EffectView::RequireAuth(caller),
                    EffectView::Store(DataKey::Subscription(sub_id)),
                ],
                result: Ok(()),
            }
        }
    }

    /// The administrator sets the platform fee and who receives it.
    pub open spec fn set_platform_fee_step(
        self,
        admin: Address,
        fee_bps: u32,
        treasury: Address,
    ) -> Step<()> {
        let auth = seq![EffectView::RequireAuth(admin)];
        if self.storage.admin is None {
            self.refused(auth, Failure::MissingEntry)
        } else if self.storage.admin != Some(admin) {
            self.refused(auth, Failure::Unauthorized)
        } else if fee_bps > 1_000 {
            self.refused(auth, Failure::Error(TipJarError::FeeTooHigh))
        } else {
            Step {
                storage: StorageView {
                    platform_fee: Some(fee_bps),
                    treasury: Some(treasury),
                    ..self.storage
                },
                effects: auth + seq![
                    EffectView::Store(DataKey::PlatformFee),
                    EffectView::Store(DataKey::TreasuryAddress),
                ],
                result: Ok(()),
            }
        }
    }

    /// The administrator pauses the contract, or ends the pause.
    pub open spec fn set_paused_step(self, admin: Address, paused: bool) -> Step<()> {
        let auth = seq![EffectView::RequireAuth(admin)];
        if self.storage.admin is None {
            self.refused(auth, Failure::MissingEntry)
        } else if self.storage.admin != Some(admin) {
            self.refused(auth, Failure::Unauthorized)
        } else {
            Step {
                storage: StorageView { paused: Some(paused), ..self.storage },
                effects: auth + seq![EffectView::Store(DataKey::Paused)],
                result: Ok(()),
            }
        }
    }
}

} // verus!
