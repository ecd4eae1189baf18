use vstd::prelude::*;

use std::collections::HashMap;

use crate::business::store::Store;
use crate::model::{Account, ClientID, TxID, TxState};

verus! {

broadcast use vstd::std_specs::hash::group_hash_axioms;

/// The account layer's store: accounts keyed by client.
impl Store<ClientID, Account> for HashMap<ClientID, Account> {
    open spec fn entries(&self) -> Map<ClientID, Account> {
        self@
    }

    fn remove(&mut self, key: &ClientID) -> (r: Option<Account>) {
        HashMap::remove(self, key)
    }

    fn insert(&mut self, key: ClientID, val: Account) {
        HashMap::insert(self, key, val);
    }
}

/// The transaction layer's store: transaction states keyed by client and
/// transaction.
impl Store<(ClientID, TxID), TxState> for HashMap<(ClientID, TxID), TxState> {
    open spec fn entries(&self) -> Map<(ClientID, TxID), TxState> {
        self@
    }

    fn remove(&mut self, key: &(ClientID, TxID)) -> (r: Option<TxState>) {
        pair_keyed_remove(self, key)
    }

    fn insert(&mut self, key: (ClientID, TxID), val: TxState) {
        pair_keyed_insert(self, key, val);
    }
}

/// Calls `std::collections::HashMap::remove` on a map keyed by pairs of
/// integers. vstd states what `HashMap` does only for keys it knows to hash
/// and compare lawfully, and a pair is not among them, so this is trusted:
/// std documents that `remove` returns the value at the key if the key was in
/// the map, and takes the key out; the contract claims that over the map's
/// view. The key's `Eq` and `Hash` are those std derives for a pair of
/// integers.
#[verifier::external_body]
fn pair_keyed_remove(
    m: &mut HashMap<(ClientID, TxID), TxState>,
    key: &(ClientID, TxID),
) -> (r: Option<TxState>)
    ensures
        r == old(m)@.get(*key),
        final(m)@ == old(m)@.remove(*key),
{
    m.remove(key)
}

/// Calls `std::collections::HashMap::insert` on a map keyed by pairs of
/// integers (trusted for the reason given at `pair_keyed_remove`): std
/// documents that `insert` puts the value under the key, replacing the value
/// there if the key was present; the contract claims that over the map's view.
#[verifier::external_body]
fn pair_keyed_insert(m: &mut HashMap<(ClientID, TxID), TxState>, key: (ClientID, TxID), val: TxState)
    ensures
        final(m)@ == old(m)@.insert(key, val),
{
    m.insert(key, val);
}

} // verus!
