//! What a call of the contract sees of the ledger, and what it asks of it.

use crate::storage::{Storage, StorageView};
use crate::types::{Address, Effect, EffectView, Failure};
use vstd::prelude::*;

verus! {

/// The ledger as a call of the contract finds it and leaves it.
pub struct Ledger {
    /// The handle through which host values are made.
    pub host: soroban_sdk::Env,
    /// The address of this contract.
    pub contract: Address,
    /// The time of the ledger, in seconds.
    pub timestamp: u64,
    /// What the contract keeps between calls.
    pub storage: Storage,
    /// What was asked of the ledger so far, in order.
    pub effects: Vec<Effect>,
}

/// What a [`Ledger`] holds.
#[verifier::ext_equal]
pub struct LedgerView {
    pub contract: Address,
    pub timestamp: u64,
    pub storage: StorageView,
    pub effects: Seq<EffectView>,
}

impl View for Ledger {
    type V = LedgerView;

    open spec fn view(&self) -> LedgerView {
        LedgerView {
            contract: self.contract,
            timestamp: self.timestamp,
            storage: self.storage@,
            effects: self.effects@.map_values(|e: Effect| e@),
        }
    }
}

/// What a call comes to: the storage that it leaves, what it asked of the
/// ledger, and what it returned.
pub struct Step<T> {
    pub storage: StorageView,
    pub effects: Seq<EffectView>,
    pub result: Result<T, Failure>,
}

impl LedgerView {
    /// The ledger after a call that came to `step`.
    pub open spec fn after<T>(self, step: Step<T>) -> LedgerView {
        LedgerView { storage: step.storage, effects: self.effects + step.effects, ..self }
    }

    /// A call that is refused, after it asked for `effects`: the storage stays
    /// as it was.
    pub open spec fn refused<T>(self, effects: Seq<EffectView>, failure: Failure) -> Step<T> {
        Step { storage: self.storage, effects, result: Err(failure) }
    }
}

impl Ledger {
    /// A ledger on which the contract at `contract` has stored nothing yet.
    pub fn new(host: soroban_sdk::Env, contract: Address, timestamp: u64) -> (r: Ledger)
        ensures
            r@ == (LedgerView {
                contract,
                timestamp,
                storage: StorageView::empty(),
                effects: Seq::empty(),
            }),
            r.host == host,
    {
        let r = Ledger { host, contract, timestamp, storage: Storage::new(), effects: Vec::new() };
        assert(r@.effects =~= Seq::empty());
        r
    }

    /// Asks `effect` of the ledger.
    pub(crate) fn emit(&mut self, effect: Effect)
        ensures
            final(self)@ == (LedgerView {
                effects: old(self)@.effects.push(effect@),
                ..old(self)@
            }),
            final(self).storage == old(self).storage,
            final(self).host == old(self).host,
    {
        let ghost before = self@;
        let ghost asked = effect@;
        self.effects.push(effect);
        assert(self@.effects =~= before.effects.push(asked));
    }
}

} // verus!
