//! That the views say what the values hold.

use crate::ledger::Ledger;
use crate::storage::Storage;
use crate::types::{Address, DataKey, Effect, EffectView, Event, EventView, TipWithMessage};
use vstd::prelude::*;

verus! {

/// The view of a storage has the entries that the storage has, each as it is
/// stored.
pub proof fn law_storage_is_seen_as_it_is(storage: Storage, a: Address, id: u64)
    ensures
        storage@.token == storage.token,
        storage@.admin == storage.admin,
        storage@.paused == storage.paused,
        storage@.platform_fee == storage.platform_fee,
        storage@.treasury == storage.treasury,
        storage@.sub_counter == storage.sub_counter,
        storage@.total_fees is Some <==> storage.total_fees is Some,
        storage.total_fees is Some ==> storage@.total_fees->0 == storage.total_fees->0,
        storage@.balances.contains_key(a) <==> storage.balances@.contains_key(a),
        storage.balances@.contains_key(a) ==> storage@.balances[a] == storage.balances@[a],
        storage@.totals.contains_key(a) <==> storage.totals@.contains_key(a),
        storage.totals@.contains_key(a) ==> storage@.totals[a] == storage.totals@[a],
        storage@.subscriptions == storage.subscriptions@,
        storage@.subscriber_subs.contains_key(a) <==> storage.subscriber_subs@.contains_key(a),
        storage.subscriber_subs@.contains_key(a) ==> storage@.subscriber_subs[a]
            == crate::host::id_list(storage.subscriber_subs@[a]),
        storage@.messages.contains_key(a) <==> storage.messages@.contains_key(a),
        storage.messages@.contains_key(a) ==> {
            let list = storage.messages@[a]@;
            &&& storage@.messages[a].len() == list.len()
            &&& forall|i: int|
                0 <= i < list.len() ==> #[trigger] storage@.messages[a][i] == list[i]@
        },
{
}

/// The view of a ledger has its contract, its time, its storage and all that
/// was asked of it, in order.
pub proof fn law_ledger_is_seen_as_it_is(ledger: Ledger)
    ensures
        ledger@.contract == ledger.contract,
        ledger@.timestamp == ledger.timestamp,
        ledger@.storage == ledger.storage@,
        ledger@.effects.len() == ledger.effects@.len(),
        forall|i: int|
            0 <= i < ledger.effects@.len() ==> #[trigger] ledger@.effects[i]
                == ledger.effects@[i]@,
{
}

/// The view of a note has all that it says, the message by its bytes and the
/// metadata by its entries.
pub proof fn law_note_is_seen_as_it_is(note: TipWithMessage)
    ensures
        note@.sender == note.sender,
        note@.creator == note.creator,
        note@.amount == note.amount,
        note@.message == crate::host::string_bytes(note.message),
        note@.metadata == crate::host::metadata_entries(note.metadata),
        note@.timestamp == note.timestamp,
{
}

/// The view of an effect asks for the same: the same authorization, the same
/// transfer, the same entry to store, the same announcement.
pub proof fn law_effects_are_seen_as_they_are(
    a: Address,
    b: Address,
    c: Address,
    amount: i128,
    key: DataKey,
    note: TipWithMessage,
)
    ensures
        Effect::RequireAuth(a)@ == EffectView::RequireAuth(a),
        Effect::Store(key)@ == EffectView::Store(key),
        (Effect::Transfer { token: a, from: b, to: c, amount })@ == (EffectView::Transfer {
            token: a,
            from: b,
            to: c,
            amount: amount as int,
        }),
        Effect::Publish(Event::FeeCollected { treasury: a, sender: b, fee: amount })@
            == EffectView::Publish(
            EventView::FeeCollected { treasury: a, sender: b, fee: amount as int },
        ),
        Effect::Publish(Event::Tip { creator: a, sender: b, amount })@ == EffectView::Publish(
            EventView::Tip { creator: a, sender: b, amount: amount as int },
        ),
        Effect::Publish(
            Event::TipMessage {
                creator: a,
                sender: b,
                amount,
                message: note.message,
                metadata: note.metadata,
            },
        )@ == EffectView::Publish(
            EventView::TipMessage {
                creator: a,
                sender: b,
                amount: amount as int,
                message: note@.message,
                metadata: note@.metadata,
            },
        ),
        Effect::Publish(Event::Withdraw { creator: a, amount })@ == EffectView::Publish(
            EventView::Withdraw { creator: a, amount: amount as int },
        ),
{
}

} // verus!
