//! The values of the ledger host that the contract handles: strings, string
//! maps and lists of subscription numbers. They live in the host and are held
//! here by their SDK handles; what is trusted of the SDK is stated in this file.
//!
//! The host meters its work and ends the whole contract call when the budget of
//! the call is used up. That can happen at any of these functions and is not
//! spoken of in their contracts.

use vstd::prelude::*;

verus! {

/// The handle of the ledger host.
#[verifier::external_type_specification]
#[verifier::external_body]
pub struct ExHostEnv(soroban_sdk::Env);

/// A byte string held by the host.
#[verifier::external_type_specification]
#[verifier::external_body]
pub struct ExHostString(soroban_sdk::String);

/// A map held by the host.
#[verifier::external_type_specification]
#[verifier::external_body]
#[verifier::reject_recursive_types(K)]
#[verifier::reject_recursive_types(V)]
pub struct ExHostMap<K, V>(soroban_sdk::Map<K, V>);

/// A list held by the host.
#[verifier::external_type_specification]
#[verifier::external_body]
#[verifier::reject_recursive_types(T)]
pub struct ExHostVec<T>(soroban_sdk::Vec<T>);

/// The bytes that a host string holds.
pub uninterp spec fn string_bytes(s: soroban_sdk::String) -> Seq<u8>;

/// The entries that a host map from strings to strings holds, keys and values
/// by their bytes.
pub uninterp spec fn metadata_entries(
    m: soroban_sdk::Map<soroban_sdk::String, soroban_sdk::String>,
) -> Map<Seq<u8>, Seq<u8>>;

/// The numbers that a host list of `u64` holds, front to back.
pub uninterp spec fn id_list(v: soroban_sdk::Vec<u64>) -> Seq<u64>;

/// `soroban_sdk::String::len`: the number of bytes of the string, not of its
/// characters.
#[verifier::external_body]
pub(crate) fn message_len(s: &soroban_sdk::String) -> (n: u32)
    ensures
        n == string_bytes(*s).len(),
{
    s.len()
}

/// `soroban_sdk::String::clone`: a second handle to the same bytes.
#[verifier::external_body]
pub(crate) fn copy_string(s: &soroban_sdk::String) -> (r: soroban_sdk::String)
    ensures
        string_bytes(r) == string_bytes(*s),
{
    s.clone()
}

/// `soroban_sdk::Map::clone`: a second handle to the same entries.
#[verifier::external_body]
pub(crate) fn copy_metadata(
    m: &soroban_sdk::Map<soroban_sdk::String, soroban_sdk::String>,
) -> (r: soroban_sdk::Map<soroban_sdk::String, soroban_sdk::String>)
    ensures
        metadata_entries(r) == metadata_entries(*m),
{
    m.clone()
}

/// `soroban_sdk::Vec::new`: a list that holds nothing.
#[verifier::external_body]
pub(crate) fn new_id_list(host: &soroban_sdk::Env) -> (r: soroban_sdk::Vec<u64>)
    ensures
        id_list(r) == Seq::<u64>::empty(),
{
    soroban_sdk::Vec::new(host)
}

/// `soroban_sdk::Vec::len`: how many numbers the list holds.
#[verifier::external_body]
pub(crate) fn id_count(list: &soroban_sdk::Vec<u64>) -> (n: u32)
    ensures
        n == id_list(*list).len(),
{
    list.len()
}

/// `soroban_sdk::Vec::push_back`: the number goes behind those that the list
/// already holds. The host refuses it on a list whose length is `u32::MAX`.
#[verifier::external_body]
pub(crate) fn push_id(list: &mut soroban_sdk::Vec<u64>, id: u64)
    requires
        id_list(*old(list)).len() < u32::MAX,
    ensures
        id_list(*final(list)) == id_list(*old(list)).push(id),
{
    list.push_back(id)
}

} // verus!
