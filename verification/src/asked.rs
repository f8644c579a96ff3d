//! What a call asks of the ledger, taken apart: whom it asks, what it moves and
//! what it announces.

use crate::sums::{gain, net};
use crate::types::{Address, EffectView, EventView, TipSplit};
use vstd::prelude::*;

verus! {

/// Tells requests for an authorization.
pub open spec fn is_auth() -> spec_fn(EffectView) -> bool {
    |e: EffectView| e is RequireAuth
}

/// Tells transfers.
pub open spec fn is_transfer() -> spec_fn(EffectView) -> bool {
    |e: EffectView| e is Transfer
}

/// Tells announcements.
pub open spec fn is_event() -> spec_fn(EffectView) -> bool {
    |e: EffectView| e is Publish
}

/// The requests for an authorization among the effects, in order.
#[verifier::opaque]
pub open spec fn auths(effects: Seq<EffectView>) -> Seq<EffectView> {
    effects.filter(is_auth())
}

/// The transfers among the effects, in order.
#[verifier::opaque]
pub open spec fn transfers(effects: Seq<EffectView>) -> Seq<EffectView> {
    effects.filter(is_transfer())
}

/// The announcements among the effects, in order.
#[verifier::opaque]
pub open spec fn events(effects: Seq<EffectView>) -> Seq<EffectView> {
    effects.filter(is_event())
}

/// The announcement of a tip.
pub open spec fn tip_event(creator: Address, sender: Address, amount: int) -> EffectView {
    EffectView::Publish(EventView::Tip { creator, sender, amount })
}

/// Where nothing is of a sort, the list of that sort is empty.
pub(crate) proof fn lemma_none(s: Seq<EffectView>, p: spec_fn(EffectView) -> bool)
    requires
        forall|i: int| 0 <= i < s.len() ==> !p(#[trigger] s[i]),
    ensures
        s.filter(p) == Seq::<EffectView>::empty(),
    decreases s.len(),
{
    reveal(Seq::filter);
    if s.len() > 0 {
        assert(!p(s[s.len() - 1]));
        lemma_none(s.drop_last(), p);
    }
}

/// Where one is of a sort, the list of that sort holds that one.
pub(crate) proof fn lemma_one(s: Seq<EffectView>, p: spec_fn(EffectView) -> bool, i: int)
    requires
        0 <= i < s.len(),
        p(s[i]),
        forall|j: int| 0 <= j < s.len() && j != i ==> !p(#[trigger] s[j]),
    ensures
        s.filter(p) == seq![s[i]],
    decreases s.len(),
{
    reveal(Seq::filter);
    if i == s.len() - 1 {
        lemma_none(s.drop_last(), p);
    } else {
        assert(!p(s[s.len() - 1]));
        lemma_one(s.drop_last(), p, i);
    }
    assert(s.filter(p) =~= seq![s[i]]);
}

/// Where two are of a sort, the list of that sort holds those, in order.
pub(crate) proof fn lemma_two(s: Seq<EffectView>, p: spec_fn(EffectView) -> bool, i: int, j: int)
    requires
        0 <= i < j < s.len(),
        p(s[i]),
        p(s[j]),
        forall|k: int| 0 <= k < s.len() && k != i && k != j ==> !p(#[trigger] s[k]),
    ensures
        s.filter(p) == seq![s[i], s[j]],
    decreases s.len(),
{
    reveal(Seq::filter);
    if j == s.len() - 1 {
        lemma_one(s.drop_last(), p, i);
    } else {
        assert(!p(s[s.len() - 1]));
        lemma_two(s.drop_last(), p, i, j);
    }
    assert(s.filter(p) =~= seq![s[i], s[j]]);
}

/// What stands in two parts is listed part by part.
pub(crate) proof fn lemma_parts(
    s: Seq<EffectView>,
    t: Seq<EffectView>,
    p: spec_fn(EffectView) -> bool,
)
    ensures
        (s + t).filter(p) == s.filter(p) + t.filter(p),
    decreases t.len(),
{
    reveal(Seq::filter);
    if t.len() == 0 {
        assert(s + t =~= s);
        assert(s.filter(p) + t.filter(p) =~= s.filter(p));
    } else {
        assert((s + t).drop_last() =~= s + t.drop_last());
        assert((s + t).last() == t.last());
        lemma_parts(s, t.drop_last(), p);
        assert((s + t).filter(p) =~= s.filter(p) + t.filter(p));
    }
}

/// What moves is what the transfers move.
pub(crate) proof fn lemma_net_of_transfers(effects: Seq<EffectView>, x: Address)
    ensures
        net(effects, x) == net(transfers(effects), x),
        transfers(effects).len() == 0 ==> net(effects, x) == 0,
        transfers(effects).len() == 1 ==> net(effects, x) == gain(transfers(effects)[0], x),
        transfers(effects).len() == 2 ==> net(effects, x) == gain(transfers(effects)[0], x) + gain(
            transfers(effects)[1],
            x,
        ),
    decreases effects.len(),
{
    reveal(auths);
    reveal(transfers);
    reveal(events);
    reveal(Seq::filter);
    if effects.len() > 0 {
        let earlier = effects.drop_last();
        lemma_net_of_transfers(earlier, x);
        if effects.last() is Transfer {
            assert(transfers(effects).drop_last() =~= transfers(earlier));
        }
    }
    let moved = transfers(effects);
    if moved.len() == 1 {
        assert(net(moved.drop_last(), x) == 0);
    }
    if moved.len() == 2 {
        assert(net(moved.drop_last().drop_last(), x) == 0);
        assert(net(moved.drop_last(), x) == gain(moved[0], x));
    }
}

/// A call that only stores.
pub(crate) proof fn lemma_unasked(effects: Seq<EffectView>)
    requires
        forall|i: int| 0 <= i < effects.len() ==> (#[trigger] effects[i]) is Store,
    ensures
        auths(effects).len() == 0,
        transfers(effects).len() == 0,
        events(effects).len() == 0,
{
    reveal(auths);
    reveal(transfers);
    reveal(events);
    lemma_none(effects, is_auth());
    lemma_none(effects, is_transfer());
    lemma_none(effects, is_event());
}

/// A call that asks its signer and then only stores.
pub(crate) proof fn lemma_storing(effects: Seq<EffectView>, auth: EffectView)
    requires
        effects.len() > 0,
        effects[0] == auth,
        auth is RequireAuth,
        forall|i: int| 0 < i < effects.len() ==> (#[trigger] effects[i]) is Store,
    ensures
        auths(effects) == seq![auth],
        transfers(effects).len() == 0,
        events(effects).len() == 0,
{
    reveal(auths);
    reveal(transfers);
    reveal(events);
    lemma_one(effects, is_auth(), 0);
    lemma_none(effects, is_transfer());
    lemma_none(effects, is_event());
}

/// A call that asks its signer, moves tokens once, announces once, and
/// otherwise stores.
pub(crate) proof fn lemma_paying(
    effects: Seq<EffectView>,
    auth: EffectView,
    transfer: EffectView,
    event: EffectView,
    announced: int,
)
    requires
        2 <= announced < effects.len(),
        effects[0] == auth,
        effects[1] == transfer,
        effects[announced] == event,
        auth is RequireAuth,
        transfer is Transfer,
        event is Publish,
        forall|i: int|
            1 < i < effects.len() && i != announced ==> (#[trigger] effects[i]) is Store,
    ensures
        auths(effects) == seq![auth],
        transfers(effects) == seq![transfer],
        events(effects) == seq![event],
{
    reveal(auths);
    reveal(transfers);
    reveal(events);
    lemma_one(effects, is_auth(), 0);
    lemma_one(effects, is_transfer(), 1);
    lemma_one(effects, is_event(), announced);
}

/// A call that asks its signer, moves tokens and announces twice, and otherwise
/// stores.
pub(crate) proof fn lemma_paying_twice(
    effects: Seq<EffectView>,
    auth: EffectView,
    first: (EffectView, EffectView),
    second: (EffectView, EffectView),
)
    requires
        effects.len() == 8,
        effects[0] == auth,
        effects[1] == first.0,
        effects[2] is Store,
        effects[3] == first.1,
        effects[4] == second.0,
        effects[5] is Store,
        effects[6] is Store,
        effects[7] == second.1,
        auth is RequireAuth,
        first.0 is Transfer,
        first.1 is Publish,
        second.0 is Transfer,
        second.1 is Publish,
    ensures
        auths(effects) == seq![auth],
        transfers(effects) == seq![first.0, second.0],
        events(effects) == seq![first.1, second.1],
{
    reveal(auths);
    reveal(transfers);
    reveal(events);
    lemma_one(effects, is_auth(), 0);
    lemma_two(effects, is_transfer(), 1, 4);
    lemma_two(effects, is_event(), 3, 7);
}

/// A call that asks its signer, moves tokens once, and then hands out shares.
pub(crate) proof fn lemma_splitting(
    effects: Seq<EffectView>,
    auth: EffectView,
    transfer: EffectView,
    sender: Address,
    total: int,
    splits: Seq<TipSplit>,
)
    requires
        effects == seq![auth, transfer] + crate::model::split_effects(
            sender,
            total,
            splits,
            splits.len() as int,
        ),
        auth is RequireAuth,
        transfer is Transfer,
    ensures
        auths(effects) == seq![auth],
        transfers(effects) == seq![transfer],
        events(effects).len() == splits.len(),
        forall|i: int|
            0 <= i < splits.len() ==> #[trigger] events(effects)[i] == tip_event(
                splits[i].creator,
                sender,
                crate::model::share(total, splits, i),
            ),
{
    reveal(auths);
    reveal(transfers);
    reveal(events);
    let front = seq![auth, transfer];
    let n = splits.len() as int;
    let handed = crate::model::split_effects(sender, total, splits, n);
    lemma_split_lists(sender, total, splits, n);
    lemma_parts(front, handed, is_auth());
    lemma_parts(front, handed, is_transfer());
    lemma_parts(front, handed, is_event());
    lemma_one(front, is_auth(), 0);
    lemma_one(front, is_transfer(), 1);
    lemma_none(front, is_event());
    assert(auths(effects) =~= seq![auth]);
    assert(transfers(effects) =~= seq![transfer]);
    assert(events(effects) =~= events(handed));
}

/// What is handed out to recipients asks nobody, moves nothing, and announces
/// one share after the other.
pub(crate) proof fn lemma_split_lists(sender: Address, total: int, splits: Seq<TipSplit>, n: int)
    requires
        0 <= n <= splits.len(),
    ensures
        ({
            let handed = crate::model::split_effects(sender, total, splits, n);
            &&& auths(handed) == Seq::<EffectView>::empty()
            &&& transfers(handed) == Seq::<EffectView>::empty()
            &&& events(handed) == Seq::new(
                n as nat,
                |i: int|
                    tip_event(splits[i].creator, sender, crate::model::share(total, splits, i)),
            )
        }),
    decreases n,
{
    reveal(auths);
    reveal(transfers);
    reveal(events);
    let handed = crate::model::split_effects(sender, total, splits, n);
    if n == 0 {
        lemma_none(handed, is_auth());
        lemma_none(handed, is_transfer());
        lemma_none(handed, is_event());
    } else {
        let earlier = crate::model::split_effects(sender, total, splits, n - 1);
        let share = crate::model::share(total, splits, n - 1);
        let next = crate::model::credit_effects(sender, splits[n - 1].creator, share);
        lemma_split_lists(sender, total, splits, n - 1);
        lemma_parts(earlier, next, is_auth());
        lemma_parts(earlier, next, is_transfer());
        lemma_parts(earlier, next, is_event());
        lemma_none(next, is_auth());
        lemma_none(next, is_transfer());
        lemma_one(next, is_event(), 2);
    }
    assert(auths(handed) =~= Seq::<EffectView>::empty());
    assert(transfers(handed) =~= Seq::<EffectView>::empty());
    assert(events(handed) =~= Seq::new(
        n as nat,
        |i: int| tip_event(splits[i].creator, sender, crate::model::share(total, splits, i)),
    ));
}

} // verus!
