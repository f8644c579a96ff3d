//! How a split tip is handed out.

use crate::model::{credited, named, parts, percentages, share};
use crate::storage::{fits, StorageView};
use crate::types::{Address, TipSplit};
use vstd::prelude::*;

verus! {

/// The sum of the shares of the first `n` recipients.
pub open spec fn shares(total: int, splits: Seq<TipSplit>, n: int) -> int
    decreases n,
{
    if n <= 0 {
        0
    } else {
        shares(total, splits, n - 1) + share(total, splits, n - 1)
    }
}

/// Percentages that do not pass 10_000 hand out no more than the total.
pub(crate) proof fn lemma_parts_bound(total: int, splits: Seq<TipSplit>, n: int)
    requires
        total >= 0,
        0 <= n,
    ensures
        0 <= parts(total, splits, n),
        parts(total, splits, n) * 10_000 <= total * percentages(splits, n),
    decreases n,
{
    if n > 0 {
        lemma_parts_bound(total, splits, n - 1);
        let p = splits[n - 1].percentage as int;
        let before = percentages(splits, n - 1);
        assert(total * (before + p) == total * before + total * p) by (nonlinear_arith);
        assert(0 <= total * p) by (nonlinear_arith)
            requires
                total >= 0,
                p >= 0,
        ;
    } else {
        assert(total * 0 == 0);
    }
}

/// More recipients, more percentages.
pub(crate) proof fn lemma_percentages_grow(splits: Seq<TipSplit>, i: int, n: int)
    requires
        0 <= i <= n,
    ensures
        0 <= percentages(splits, i) <= percentages(splits, n),
    decreases n,
{
    if i < n {
        lemma_percentages_grow(splits, i, n - 1);
    } else if n > 0 {
        lemma_percentages_grow(splits, i - 1, n - 1);
    }
}

/// What goes to the first recipients leaves something to hand out.
pub(crate) proof fn lemma_parts_within_total(total: int, splits: Seq<TipSplit>, i: int)
    requires
        total >= 0,
        0 <= i <= splits.len(),
        percentages(splits, splits.len() as int) == 10_000,
    ensures
        0 <= parts(total, splits, i) <= total,
{
    lemma_parts_bound(total, splits, i);
    lemma_percentages_grow(splits, i, splits.len() as int);
    let p = percentages(splits, i);
    assert(total * p <= total * 10_000) by (nonlinear_arith)
        requires
            total >= 0,
            p <= 10_000,
    ;
}

/// Nobody's share is less than nothing.
pub(crate) proof fn lemma_share_positive(total: int, splits: Seq<TipSplit>, i: int)
    requires
        total >= 0,
        0 <= i < splits.len(),
        percentages(splits, splits.len() as int) == 10_000,
    ensures
        0 <= share(total, splits, i),
{
    lemma_parts_within_total(total, splits, i);
    let p = splits[i].percentage as int;
    assert(0 <= total * p) by (nonlinear_arith)
        requires
            total >= 0,
            p >= 0,
    ;
}

/// Before the last recipient, shares are parts.
pub(crate) proof fn lemma_shares_are_parts(total: int, splits: Seq<TipSplit>, n: int)
    requires
        0 <= n < splits.len(),
    ensures
        shares(total, splits, n) == parts(total, splits, n),
    decreases n,
{
    if n > 0 {
        lemma_shares_are_parts(total, splits, n - 1);
    }
}

/// Who is not named gets nothing.
pub(crate) proof fn lemma_credited_named(
    total: int,
    splits: Seq<TipSplit>,
    creator: Address,
    n: int,
)
    requires
        !named(splits, creator, n),
    ensures
        credited(total, splits, creator, n) == 0,
    decreases n,
{
    if n > 0 {
        assert(splits[n - 1].creator != creator);
        assert forall|i: int| 0 <= i < n - 1 implies (#[trigger] splits[i]).creator
            != creator by {}
        lemma_credited_named(total, splits, creator, n - 1);
    }
}

/// One more recipient gets their share.
pub(crate) proof fn lemma_split_next(
    storage: StorageView,
    total: int,
    splits: Seq<TipSplit>,
    i: int,
)
    requires
        0 <= i < splits.len(),
    ensures
        storage.split(total, splits, i).credit(
            splits[i].creator,
            share(total, splits, i),
        ) == storage.split(total, splits, i + 1),
        storage.split(total, splits, i).can_credit(
            splits[i].creator,
            share(total, splits, i),
        ) == (fits(
            storage.balance(splits[i].creator) + credited(
                total,
                splits,
                splits[i].creator,
                i + 1,
            ),
        ) && fits(
            storage.total(splits[i].creator) + credited(
                total,
                splits,
                splits[i].creator,
                i + 1,
            ),
        )),
{
    let creator = splits[i].creator;
    let before = storage.split(total, splits, i);
    let after = storage.split(total, splits, i + 1);
    if !named(splits, creator, i) {
        lemma_credited_named(total, splits, creator, i);
    }
    assert forall|c: Address|
        named(splits, c, i + 1) == (named(splits, c, i) || c
            == creator) by {
        if named(splits, c, i) {
            let j = choose|j: int| 0 <= j < i && (#[trigger] splits[j]).creator == c;
            assert(splits[j].creator == c);
        }
        if c == creator {
            assert(splits[i].creator == c);
        }
    }
    assert(before.credit(creator, share(total, splits, i)) =~= after);
}

/// Once a recipient cannot get their share, no later one does.
pub(crate) proof fn lemma_reach_stays(
    storage: StorageView,
    total: int,
    splits: Seq<TipSplit>,
    i: int,
    n: int,
)
    requires
        0 <= i < n,
        storage.split_reach(total, splits, i) == i,
        !storage.split_fits(total, splits, i),
    ensures
        storage.split_reach(total, splits, n) == i,
    decreases n,
{
    if i + 1 < n {
        lemma_reach_stays(storage, total, splits, i, n - 1);
    }
}

/// No more recipients are reached than there are.
pub(crate) proof fn lemma_reach_within(
    storage: StorageView,
    total: int,
    splits: Seq<TipSplit>,
    n: int,
)
    requires
        0 <= n,
    ensures
        0 <= storage.split_reach(total, splits, n) <= n,
    decreases n,
{
    if n > 0 {
        lemma_reach_within(storage, total, splits, n - 1);
    }
}

/// Rounding down takes less than one token off each part.
pub(crate) proof fn lemma_rounding(total: int, splits: Seq<TipSplit>, n: int)
    requires
        total >= 0,
        0 <= n,
    ensures
        total * percentages(splits, n) - 9_999 * n <= parts(total, splits, n) * 10_000,
    decreases n,
{
    if n > 0 {
        lemma_rounding(total, splits, n - 1);
        let p = splits[n - 1].percentage as int;
        let before = percentages(splits, n - 1);
        assert(total * (before + p) == total * before + total * p) by (nonlinear_arith);
        assert(0 <= total * p) by (nonlinear_arith)
            requires
                total >= 0,
                p >= 0,
        ;
    } else {
        assert(total * 0 == 0);
    }
}

/// Who is named once gets one share.
pub(crate) proof fn lemma_credited_once(
    total: int,
    splits: Seq<TipSplit>,
    creator: Address,
    i: int,
    n: int,
)
    requires
        0 <= i < n <= splits.len(),
        splits[i].creator == creator,
        forall|j: int| 0 <= j < n && j != i ==> (#[trigger] splits[j]).creator != creator,
    ensures
        credited(total, splits, creator, n) == share(total, splits, i),
    decreases n,
{
    if i == n - 1 {
        assert(!named(splits, creator, n - 1));
        lemma_credited_named(total, splits, creator, n - 1);
    } else {
        assert(splits[n - 1].creator != creator);
        lemma_credited_once(total, splits, creator, i, n - 1);
    }
}

} // verus!
