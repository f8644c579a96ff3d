//! Sums over what is kept per address, and over what moves.

use crate::types::{Address, EffectView};
use vstd::prelude::*;

verus! {

/// The sum of the values of a finite map.
pub open spec fn sum(m: Map<Address, int>) -> int
    decreases m.dom().len(),
    when m.dom().finite()
{
    if m.dom().len() == 0 {
        0
    } else {
        let k = m.dom().choose();
        m[k] + sum(m.remove(k))
    }
}

/// An entry can be taken out of the sum.
proof fn lemma_sum_remove(m: Map<Address, int>, k: Address)
    requires
        m.dom().finite(),
        m.contains_key(k),
    ensures
        sum(m) == m[k] + sum(m.remove(k)),
    decreases m.dom().len(),
{
    let c = m.dom().choose();
    if c != k {
        assert(m.remove(c).remove(k) =~= m.remove(k).remove(c));
        lemma_sum_remove(m.remove(c), k);
        lemma_sum_remove(m.remove(k), c);
    }
}

/// When the value of one key changes, the sum changes by as much; a missing
/// value counts as zero.
pub(crate) proof fn lemma_sum_insert(m: Map<Address, int>, k: Address, v: int)
    requires
        m.dom().finite(),
    ensures
        m.insert(k, v).dom().finite(),
        sum(m.insert(k, v)) == sum(m) + v - (if m.contains_key(k) {
            m[k]
        } else {
            0
        }),
{
    let n = m.insert(k, v);
    lemma_sum_remove(n, k);
    if m.contains_key(k) {
        assert(n.remove(k) =~= m.remove(k));
        lemma_sum_remove(m, k);
    } else {
        assert(n.remove(k) =~= m);
    }
}

/// What one effect brings to `a`, less what it takes from `a`.
pub open spec fn gain(effect: EffectView, a: Address) -> int {
    match effect {
        EffectView::Transfer { token, from, to, amount } => (if to == a {
            amount
        } else {
            0
        }) - (if from == a {
            amount
        } else {
            0
        }),
        _ => 0,
    }
}

/// What the effects together bring to `a`, less what they take from `a`.
pub open spec fn net(effects: Seq<EffectView>, a: Address) -> int
    decreases effects.len(),
{
    if effects.len() == 0 {
        0
    } else {
        net(effects.drop_last(), a) + gain(effects.last(), a)
    }
}

pub(crate) broadcast proof fn lemma_net_push(s: Seq<EffectView>, e: EffectView, a: Address)
    ensures
        #[trigger] net(s.push(e), a) == net(s, a) + gain(e, a),
{
    assert(s.push(e).drop_last() =~= s);
}

pub(crate) broadcast proof fn lemma_net_concat(s: Seq<EffectView>, t: Seq<EffectView>, a: Address)
    ensures
        #[trigger] net(s + t, a) == net(s, a) + net(t, a),
    decreases t.len(),
{
    if t.len() == 0 {
        assert(s + t =~= s);
    } else {
        assert((s + t).drop_last() =~= s + t.drop_last());
        lemma_net_concat(s, t.drop_last(), a);
    }
}

pub(crate) broadcast proof fn lemma_net_empty(a: Address)
    ensures
        #[trigger] net(Seq::<EffectView>::empty(), a) == 0,
{
}

/// Effects without a transfer move nothing.
pub(crate) proof fn lemma_net_still(s: Seq<EffectView>, a: Address)
    requires
        forall|i: int| 0 <= i < s.len() ==> !((#[trigger] s[i]) is Transfer),
    ensures
        net(s, a) == 0,
    decreases s.len(),
{
    if s.len() > 0 {
        assert(!(s[s.len() - 1] is Transfer));
        lemma_net_still(s.drop_last(), a);
    }
}

pub(crate) broadcast group group_net {
    lemma_net_empty,
    lemma_net_push,
    lemma_net_concat,
}

} // verus!
