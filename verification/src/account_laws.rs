//! What the contract announces, and how it accounts for what it keeps.

use crate::calls::Call;
use crate::ledger::LedgerView;
use crate::types::{Address, EffectView, EventView, TipSplit};
use vstd::prelude::*;

verus! {

/// What was announced of a creator and of the platform.
pub struct Account {
    /// What the creator was credited with.
    pub received: int,
    /// What the creator took out.
    pub withdrawn: int,
    /// What went to the treasury.
    pub fees: int,
}

impl Account {
    /// Nothing was announced.
    pub open spec fn empty() -> Account {
        Account { received: 0, withdrawn: 0, fees: 0 }
    }

    /// The two together.
    pub open spec fn plus(self, other: Account) -> Account {
        Account {
            received: self.received + other.received,
            withdrawn: self.withdrawn + other.withdrawn,
            fees: self.fees + other.fees,
        }
    }
}

/// What one effect announces of `creator` and of the platform.
pub open spec fn announced(effect: EffectView, creator: Address) -> Account {
    match effect {
        EffectView::Publish(EventView::Tip { creator: c, sender, amount }) if c == creator =>
            Account { received: amount, ..Account::empty() },
        EffectView::Publish(
            EventView::TipMessage { creator: c, sender, amount, message, metadata },
        ) if c == creator => Account { received: amount, ..Account::empty() },
        EffectView::Publish(EventView::Withdraw { creator: c, amount }) if c == creator =>
            Account { withdrawn: amount, ..Account::empty() },
        EffectView::Publish(EventView::FeeCollected { treasury, sender, fee }) => Account {
            fees: fee,
            ..Account::empty()
        },
        _ => Account::empty(),
    }
}

/// What the effects together announce of `creator` and of the platform.
pub open spec fn account(effects: Seq<EffectView>, creator: Address) -> Account
    decreases effects.len(),
{
    if effects.len() == 0 {
        Account::empty()
    } else {
        account(effects.drop_last(), creator).plus(announced(effects.last(), creator))
    }
}

/// What the accepted calls of a history announced of `creator` and of the
/// platform.
pub open spec fn history_account(
    contract: Address,
    history: Seq<(u64, Call)>,
    creator: Address,
) -> Account
    decreases history.len(),
{
    if history.len() == 0 {
        Account::empty()
    } else {
        let (timestamp, call) = history.last();
        let earlier = history.drop_last();
        let step = crate::laws::ledger_at(
            contract,
            timestamp,
            crate::laws::run(contract, earlier),
        ).call_step(call);
        history_account(contract, earlier, creator).plus(
            if step.result is Ok {
                account(step.effects, creator)
            } else {
                Account::empty()
            },
        )
    }
}

/// What is announced one after the other is announced together.
proof fn lemma_account_concat(s: Seq<EffectView>, t: Seq<EffectView>, creator: Address)
    ensures
        account(s + t, creator) == account(s, creator).plus(account(t, creator)),
    decreases t.len(),
{
    if t.len() == 0 {
        assert(s + t =~= s);
    } else {
        assert((s + t).drop_last() =~= s + t.drop_last());
        lemma_account_concat(s, t.drop_last(), creator);
    }
}

/// Where no event is published, nothing is announced.
proof fn lemma_silent(s: Seq<EffectView>, creator: Address)
    requires
        forall|i: int| 0 <= i < s.len() ==> !((#[trigger] s[i]) is Publish),
    ensures
        account(s, creator) == Account::empty(),
    decreases s.len(),
{
    if s.len() > 0 {
        assert(!(s[s.len() - 1] is Publish));
        lemma_silent(s.drop_last(), creator);
    }
}

/// Where one event is published, that one is announced.
proof fn lemma_announced_once(s: Seq<EffectView>, i: int, creator: Address)
    requires
        0 <= i < s.len(),
        forall|j: int| 0 <= j < s.len() && j != i ==> !((#[trigger] s[j]) is Publish),
    ensures
        account(s, creator) == announced(s[i], creator),
    decreases s.len(),
{
    if i == s.len() - 1 {
        lemma_silent(s.drop_last(), creator);
    } else {
        assert(!(s[s.len() - 1] is Publish));
        lemma_announced_once(s.drop_last(), i, creator);
    }
}

/// A tip is announced, and so is the fee on it.
proof fn lemma_tip_account(
    ledger: LedgerView,
    sender: Address,
    creator: Address,
    amount: int,
    c: Address,
)
    requires
        ledger.tip_step(sender, creator, amount).result is Ok,
    ensures
        account(ledger.tip_step(sender, creator, amount).effects, c) == (Account {
            received: if c == creator {
                amount - crate::model::basis_points(amount, ledger.storage.fee_bps())
            } else {
                0
            },
            withdrawn: 0,
            fees: if crate::model::basis_points(amount, ledger.storage.fee_bps()) > 0 {
                crate::model::basis_points(amount, ledger.storage.fee_bps())
            } else {
                0
            },
        }),
{
    let effects = ledger.tip_step(sender, creator, amount).effects;
    let n = effects.len() as int;
    if crate::model::basis_points(amount, ledger.storage.fee_bps()) > 0 {
        let front = effects.take(4);
        let back = effects.skip(4);
        assert(effects =~= front + back);
        lemma_account_concat(front, back, c);
        lemma_announced_once(front, 3, c);
        lemma_announced_once(back, 3, c);
    } else {
        lemma_announced_once(effects, n - 1, c);
    }
}

/// Each share of a split tip is announced.
proof fn lemma_split_account(
    sender: Address,
    total: int,
    splits: Seq<TipSplit>,
    creator: Address,
    n: int,
)
    requires
        0 <= n <= splits.len(),
    ensures
        account(crate::model::split_effects(sender, total, splits, n), creator) == (Account {
            received: crate::model::credited(total, splits, creator, n),
            ..Account::empty()
        }),
    decreases n,
{
    if n > 0 {
        let earlier = crate::model::split_effects(sender, total, splits, n - 1);
        let handed = crate::model::credit_effects(
            sender,
            splits[n - 1].creator,
            crate::model::share(total, splits, n - 1),
        );
        lemma_split_account(sender, total, splits, creator, n - 1);
        lemma_account_concat(earlier, handed, creator);
        lemma_announced_once(handed, 2, creator);
    }
}

/// An accepted call announces all that it does to a creator's tips and to the
/// fees, and nothing that it does not do.
pub proof fn law_calls_announce_what_they_do(ledger: LedgerView, call: Call, creator: Address)
    requires
        ledger.call_step(call).result is Ok,
    ensures
        ({
            let before = ledger.storage;
            let step = ledger.call_step(call);
            let told = account(step.effects, creator);
            &&& step.storage.total(creator) == before.total(creator) + told.received
            &&& step.storage.balance(creator) == before.balance(creator) + told.received
                - told.withdrawn
            &&& step.storage.fees_collected() == before.fees_collected() + told.fees
        }),
{
    let effects = ledger.call_step(call).effects;
    match call {
        Call::Tip { sender, creator: c, amount } => {
            assert(amount * ledger.storage.fee_bps() >= 0) by (nonlinear_arith)
                requires
                    amount > 0,
                    ledger.storage.fee_bps() >= 0,
            ;
            lemma_tip_account(ledger, sender, c, amount as int, creator);
        },
        Call::TipWithMessage { sender, creator: c, amount, message, metadata } => {
            lemma_announced_once(effects, 5, creator);
        },
        Call::Withdraw { creator: c } => {
            lemma_announced_once(effects, 3, creator);
        },
        Call::TipSplit { sender, splits, total_amount } => {
            let total = total_amount as int;
            let n = splits.len() as int;
            crate::split::lemma_reach_within(ledger.storage, total, splits, n);
            let handed = crate::model::split_effects(sender, total, splits, n);
            assert(effects =~= effects.take(2) + handed);
            lemma_silent(effects.take(2), creator);
            lemma_account_concat(effects.take(2), handed, creator);
            lemma_split_account(sender, total, splits, creator, n);
            if !crate::model::named(splits, creator, n) {
                crate::split::lemma_credited_named(total, splits, creator, n);
            }
        },
        Call::ProcessSubscriptionPayment { sub_id } => {
            lemma_announced_once(effects, 4, creator);
        },
        _ => {
            lemma_silent(effects, creator);
        },
    }
}

/// After every history, a creator's total is all that they were ever credited
/// with, their balance is that less what they took out, and the fees are all
/// that ever went to the treasury.
pub proof fn law_history_accounts_for_every_tip(
    contract: Address,
    history: Seq<(u64, Call)>,
    creator: Address,
)
    ensures
        ({
            let storage = crate::laws::run(contract, history);
            let told = history_account(contract, history, creator);
            &&& storage.total(creator) == told.received
            &&& storage.balance(creator) == told.received - told.withdrawn
            &&& storage.fees_collected() == told.fees
        }),
    decreases history.len(),
{
    if history.len() > 0 {
        let (timestamp, call) = history.last();
        let earlier = history.drop_last();
        law_history_accounts_for_every_tip(contract, earlier, creator);
        let ledger = crate::laws::ledger_at(
            contract,
            timestamp,
            crate::laws::run(contract, earlier),
        );
        if ledger.call_step(call).result is Ok {
            law_calls_announce_what_they_do(ledger, call, creator);
        } else {
            crate::laws::law_refused_call_changes_nothing(ledger, call);
        }
    }
}

} // verus!
