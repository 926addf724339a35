//! The accounts of a world state, by address, in a hashbrown hash map.
use vstd::prelude::*;
use crate::state::{EvmAccount, AccountView};

verus! {

/// A hash map from addresses to accounts.
#[verifier::external_body]
#[derive(Debug)]
pub struct AccountTable {
    inner: hashbrown::HashMap<Vec<u8>, EvmAccount>,
}

/// What an account table holds, by address.
pub uninterp spec fn table_accounts(t: AccountTable) -> Map<Seq<u8>, AccountView>;

/// The empty map of accounts.
pub open spec fn no_accounts() -> Map<Seq<u8>, AccountView> {
    Map::empty()
}

impl AccountTable {
    /// Relies on hashbrown::HashMap::new: the map is empty.
    #[verifier::external_body]
    pub(crate) fn new() -> (r: AccountTable)
        ensures
            table_accounts(r) == no_accounts(),
    {
        AccountTable { inner: hashbrown::HashMap::new() }
    }

    /// Relies on hashbrown::HashMap::insert: afterwards the key maps to the
    /// value, replacing what it mapped to, and no other key changes. Keys are
    /// byte vectors, whose equality is that of their contents.
    #[verifier::external_body]
    pub(crate) fn insert(&mut self, k: Vec<u8>, v: EvmAccount)
        ensures
            table_accounts(*final(self)) == table_accounts(*old(self)).insert(k@, v@),
    {
        self.inner.insert(k, v);
    }

    /// Relies on hashbrown::HashMap::get: the value the key maps to, if any.
    #[verifier::external_body]
    pub(crate) fn get(&self, k: &Vec<u8>) -> (r: Option<&EvmAccount>)
        ensures
            r is Some <==> table_accounts(*self).contains_key(k@),
            r is Some ==> r->0@ == table_accounts(*self)[k@],
    {
        self.inner.get(k)
    }

    /// Relies on hashbrown::HashMap::len: the number of keys.
    #[verifier::external_body]
    pub(crate) fn len(&self) -> (r: usize)
        ensures
            r == table_accounts(*self).dom().len(),
    {
        self.inner.len()
    }

    /// Relies on hashbrown::HashMap::keys: every key once, in the map's own
    /// order.
    #[verifier::external_body]
    pub(crate) fn keys(&self) -> (r: Vec<Vec<u8>>)
        ensures
            r@.len() == table_accounts(*self).dom().len(),
            forall|i: int| 0 <= i < r@.len() ==> table_accounts(*self).contains_key(#[trigger] r@[i]@),
            forall|k: Seq<u8>| #[trigger] table_accounts(*self).contains_key(k)
                ==> exists|i: int| 0 <= i < r@.len() && r@[i]@ == k,
    {
        self.inner.keys().cloned().collect()
    }
}

} // verus!
