//! The world state a trial starts from: accounts by address, bytecode by
//! content hash, and block hashes by number.
use vstd::prelude::*;
use crate::words::{Word, Slot};
use crate::table::{AccountTable, table_accounts};
use crate::keyed::{pairs_to_map, keys_distinct, has_key, bytes_eq, lemma_push, lemma_domain,
    lemma_at, lemma_update};

verus! {

/// Keccak-256 of a byte string, as 32 bytes.
pub uninterp spec fn keccak_of(b: Seq<u8>) -> Seq<u8>;

/// Relies on alloy_primitives::keccak256: the Keccak-256 digest of the bytes,
/// 32 bytes long, which depends on the bytes alone.
#[verifier::external_body]
fn keccak(b: &Vec<u8>) -> (r: Vec<u8>)
    ensures
        r@ == keccak_of(b@),
        r@.len() == 32,
{
    alloy_primitives::keccak256(b.as_slice()).to_vec()
}

/// An account of a fixture's pre-state.
#[derive(Debug)]
pub struct AccountRecord {
    pub nonce: u64,
    pub balance: Word,
    /// Empty for an externally owned account.
    pub code: Vec<u8>,
    /// Storage key and value pairs.
    pub storage: Vec<(Word, Word)>,
}

pub struct AccountRecordView {
    pub nonce: u64,
    pub balance: Word,
    pub code: Seq<u8>,
    pub storage: Seq<(Word, Word)>,
}

impl View for AccountRecord {
    type V = AccountRecordView;

    open spec fn view(&self) -> AccountRecordView {
        AccountRecordView {
            nonce: self.nonce,
            balance: self.balance,
            code: self.code@,
            storage: self.storage@,
        }
    }
}

/// An account as the executor holds it.
#[derive(Debug)]
pub struct EvmAccount {
    pub nonce: u64,
    pub balance: Word,
    pub code: Option<Vec<u8>>,
    pub code_hash: Vec<u8>,
    pub storage: Vec<(Word, Slot)>,
}

pub struct AccountView {
    pub nonce: u64,
    pub balance: Word,
    pub code: Option<Seq<u8>>,
    pub code_hash: Seq<u8>,
    pub storage: Seq<(Word, Slot)>,
}

impl View for EvmAccount {
    type V = AccountView;

    open spec fn view(&self) -> AccountView {
        AccountView {
            nonce: self.nonce,
            balance: self.balance,
            code: match self.code {
                Some(c) => Some(c@),
                None => None,
            },
            code_hash: self.code_hash@,
            storage: self.storage@,
        }
    }
}

/// A storage slot freshly read from a fixture: unchanged so far and cold.
pub open spec fn fresh_slot(v: Word) -> Slot {
    Slot { original_value: v, present_value: v, is_cold: true }
}

/// The executor's account for a pre-state account record.
pub open spec fn account_of(r: AccountRecordView) -> AccountView {
    AccountView {
        nonce: r.nonce,
        balance: r.balance,
        code: if r.code.len() > 0 { Some(r.code) } else { None },
        code_hash: keccak_of(r.code),
        storage: r.storage.map_values(|p: (Word, Word)| (p.0, fresh_slot(p.1))),
    }
}

/// The pre-state as a list of (address, record) views.
pub open spec fn pre_view(pre: Seq<(Vec<u8>, AccountRecord)>) -> Seq<(Seq<u8>, AccountRecordView)> {
    pre.map_values(|p: (Vec<u8>, AccountRecord)| (p.0@, p.1@))
}

/// The accounts that a pre-state yields, by address.
pub open spec fn accounts_of(pre: Seq<(Seq<u8>, AccountRecordView)>) -> Map<Seq<u8>, AccountView> {
    pairs_to_map(pre.map_values(|p: (Seq<u8>, AccountRecordView)| (p.0, account_of(p.1))))
}

/// The bytecode table that a pre-state yields: each non-empty code under its
/// hash, a later account winning over an earlier one with the same hash.
pub open spec fn codes_of(pre: Seq<(Seq<u8>, AccountRecordView)>) -> Map<Seq<u8>, Seq<u8>>
    decreases pre.len(),
{
    if pre.len() == 0 {
        Map::empty()
    } else {
        let rest = codes_of(pre.drop_last());
        let c = pre.last().1.code;
        if c.len() > 0 {
            rest.insert(keccak_of(c), c)
        } else {
            rest
        }
    }
}

/// The addresses of a pre-state are distinct: it is a mapping.
pub open spec fn addresses_distinct(pre: Seq<(Seq<u8>, AccountRecordView)>) -> bool {
    forall|i: int, j: int|
        0 <= i < pre.len() && 0 <= j < pre.len() && i != j ==> pre[i].0 != pre[j].0
}

/// The working set of one trial.
#[derive(Debug)]
pub struct WorldState {
    pub accounts: AccountTable,
    pub bytecodes: Vec<(Vec<u8>, Vec<u8>)>,
    pub block_hashes: Vec<(u64, Vec<u8>)>,
}

pub open spec fn code_pairs(s: Seq<(Vec<u8>, Vec<u8>)>) -> Seq<(Seq<u8>, Seq<u8>)> {
    s.map_values(|p: (Vec<u8>, Vec<u8>)| (p.0@, p.1@))
}

impl WorldState {
    /// The accounts by address.
    pub open spec fn accounts_map(&self) -> Map<Seq<u8>, AccountView> {
        table_accounts(self.accounts)
    }

    /// The bytecode table by code hash.
    pub open spec fn codes_map(&self) -> Map<Seq<u8>, Seq<u8>> {
        pairs_to_map(code_pairs(self.bytecodes@))
    }

    /// Each code hash is held once.
    pub open spec fn wf(&self) -> bool {
        keys_distinct(code_pairs(self.bytecodes@))
    }

    /// An empty world state.
    pub fn new() -> (r: WorldState)
        ensures
            r.wf(),
            r.accounts_map() == Map::<Seq<u8>, AccountView>::empty(),
            r.codes_map() == Map::<Seq<u8>, Seq<u8>>::empty(),
            r.block_hashes@.len() == 0,
    {
        let r = WorldState { accounts: AccountTable::new(), bytecodes: Vec::new(), block_hashes: Vec::new() };
        assert(code_pairs(r.bytecodes@).len() == 0);
        r
    }

    /// The account at an address, if there is one.
    pub fn account(&self, addr: &Vec<u8>) -> (r: Option<&EvmAccount>)
        ensures
            r is Some <==> self.accounts_map().contains_key(addr@),
            r is Some ==> r->0@ == self.accounts_map()[addr@],
    {
        self.accounts.get(addr)
    }

    /// The number of accounts.
    pub fn num_accounts(&self) -> (r: usize)
        ensures
            r == self.accounts_map().dom().len(),
    {
        self.accounts.len()
    }

    /// The addresses that hold an account, each once.
    pub fn addresses(&self) -> (r: Vec<Vec<u8>>)
        ensures
            r@.len() == self.accounts_map().dom().len(),
            forall|i: int| 0 <= i < r@.len() ==> self.accounts_map().contains_key(#[trigger] r@[i]@),
            forall|a: Seq<u8>| #[trigger] self.accounts_map().contains_key(a)
                ==> exists|i: int| 0 <= i < r@.len() && r@[i]@ == a,
    {
        self.accounts.keys()
    }

    /// Sets the account at an address, replacing any account held there.
    pub fn insert_account(&mut self, addr: Vec<u8>, acct: EvmAccount)
        requires
            old(self).wf(),
        ensures
            final(self).wf(),
            final(self).accounts_map() == old(self).accounts_map().insert(addr@, acct@),
            final(self).codes_map() == old(self).codes_map(),
            final(self).block_hashes == old(self).block_hashes,
    {
        self.accounts.insert(addr, acct);
    }

    /// The position of the code under a hash.
    fn find_code(&self, hash: &Vec<u8>) -> (r: Option<usize>)
        ensures
            match r {
                Some(i) => i < self.bytecodes@.len() && self.bytecodes@[i as int].0@ == hash@,
                None => !has_key(code_pairs(self.bytecodes@), hash@),
            },
    {
        let mut i: usize = 0;
        while i < self.bytecodes.len()
            invariant
                0 <= i <= self.bytecodes@.len(),
                forall|j: int| 0 <= j < i ==> code_pairs(self.bytecodes@)[j].0 != hash@,
            decreases self.bytecodes@.len() - i,
        {
            if bytes_eq(&self.bytecodes[i].0, hash) {
                return Some(i);
            }
            i += 1;
        }
        None
    }

    /// The code under a hash, if there is one.
    pub fn bytecode(&self, hash: &Vec<u8>) -> (r: Option<&Vec<u8>>)
        requires
            self.wf(),
        ensures
            r is Some <==> self.codes_map().contains_key(hash@),
            r is Some ==> r->0@ == self.codes_map()[hash@],
    {
        proof {
            lemma_domain(code_pairs(self.bytecodes@), hash@);
        }
        match self.find_code(hash) {
            Some(i) => {
                proof {
                    lemma_at(code_pairs(self.bytecodes@), i as int);
                }
                Some(&self.bytecodes[i].1)
            },
            None => None,
        }
    }

    /// Sets the code under a hash, replacing any code held there.
    pub fn insert_code(&mut self, hash: Vec<u8>, code: Vec<u8>)
        requires
            old(self).wf(),
        ensures
            final(self).wf(),
            final(self).codes_map() == old(self).codes_map().insert(hash@, code@),
            final(self).accounts_map() == old(self).accounts_map(),
            final(self).block_hashes == old(self).block_hashes,
    {
        let ghost s = code_pairs(self.bytecodes@);
        let ghost k = hash@;
        let ghost v = code@;
        match self.find_code(&hash) {
            Some(i) => {
                self.bytecodes.set(i, (hash, code));
                proof {
                    assert(code_pairs(self.bytecodes@) == s.update(i as int, (s[i as int].0, v)));
                    lemma_update(s, i as int, v);
                }
            },
            None => {
                self.bytecodes.push((hash, code));
                proof {
                    assert(code_pairs(self.bytecodes@) == s.push((k, v)));
                    lemma_push(s, (k, v));
                    assert forall|i: int, j: int|
                        0 <= i < s.len() + 1 && 0 <= j < s.len() + 1 && i != j implies
                        #[trigger] s.push((k, v))[i].0 != #[trigger] s.push((k, v))[j].0 by {
                        if i == s.len() {
                            assert(s[j].0 != k);
                        } else if j == s.len() {
                            assert(s[i].0 != k);
                        }
                    }
                }
            },
        }
    }
}

/// A copy of a byte string.
pub fn copy_bytes(b: &Vec<u8>) -> (r: Vec<u8>)
    ensures
        r@ == b@,
{
    let r = b.clone();
    assert(r@ =~= b@);
    r
}

/// The storage of a pre-state account as fresh, cold slots.
fn fresh_storage(s: &Vec<(Word, Word)>) -> (r: Vec<(Word, Slot)>)
    ensures
        r@ == s@.map_values(|p: (Word, Word)| (p.0, fresh_slot(p.1))),
{
    let mut r: Vec<(Word, Slot)> = Vec::new();
    let mut i: usize = 0;
    while i < s.len()
        invariant
            0 <= i <= s@.len(),
            r@ == s@.take(i as int).map_values(|p: (Word, Word)| (p.0, fresh_slot(p.1))),
        decreases s@.len() - i,
    {
        let (k, v) = s[i];
        r.push((k, Slot { original_value: v, present_value: v, is_cold: true }));
        i += 1;
        assert(s@.take(i as int).drop_last() == s@.take(i - 1));
    }
    assert(s@.take(s@.len() as int) == s@);
    r
}

/// A copy of a list of storage slots.
fn copy_storage(s: &Vec<(Word, Slot)>) -> (r: Vec<(Word, Slot)>)
    ensures
        r@ == s@,
{
    let mut r: Vec<(Word, Slot)> = Vec::new();
    let mut i: usize = 0;
    while i < s.len()
        invariant
            0 <= i <= s@.len(),
            r@ == s@.take(i as int),
        decreases s@.len() - i,
    {
        r.push(s[i]);
        i += 1;
    }
    assert(s@.take(s@.len() as int) == s@);
    r
}

impl EvmAccount {
    /// The executor's account for a pre-state record: the code hash is taken
    /// of the code, empty code stands for no code, and every storage value
    /// becomes a cold slot whose original and present values are that value.
    pub fn from_record(rec: &AccountRecord) -> (r: EvmAccount)
        ensures
            r@ == account_of(rec@),
    {
        let code_hash = keccak(&rec.code);
        let code = if rec.code.len() > 0 { Some(copy_bytes(&rec.code)) } else { None };
        EvmAccount {
            nonce: rec.nonce,
            balance: rec.balance,
            code,
            code_hash,
            storage: fresh_storage(&rec.storage),
        }
    }

    /// A copy of the account.
    pub fn duplicate(&self) -> (r: EvmAccount)
        ensures
            r@ == self@,
    {
        let code = match &self.code {
            Some(c) => Some(copy_bytes(c)),
            None => None,
        };
        EvmAccount {
            nonce: self.nonce,
            balance: self.balance,
            code,
            code_hash: copy_bytes(&self.code_hash),
            storage: copy_storage(&self.storage),
        }
    }
}

/// Builds the world state of a pre-state: one account per address, the code
/// of every account with code in the bytecode table under its hash, and no
/// block hashes.
pub fn build_world(pre: &Vec<(Vec<u8>, AccountRecord)>) -> (w: WorldState)
    ensures
        w.wf(),
        w.accounts_map() == accounts_of(pre_view(pre@)),
        w.codes_map() == codes_of(pre_view(pre@)),
        w.block_hashes@.len() == 0,
{
    let mut w = WorldState::new();
    let ghost pv = pre_view(pre@);
    let mut i: usize = 0;
    while i < pre.len()
        invariant
            0 <= i <= pre@.len(),
            pv == pre_view(pre@),
            w.wf(),
            w.accounts_map() == accounts_of(pv.take(i as int)),
            w.codes_map() == codes_of(pv.take(i as int)),
            w.block_hashes@.len() == 0,
        decreases pre@.len() - i,
    {
        let addr = copy_bytes(&pre[i].0);
        let rec = &pre[i].1;
        let acct = EvmAccount::from_record(rec);
        let code_hash = copy_bytes(&acct.code_hash);
        let code = copy_bytes(&rec.code);
        w.insert_account(addr, acct);
        if code.len() > 0 {
            w.insert_code(code_hash, code);
        }
        proof {
            let t = pv.take(i + 1);
            let f = |p: (Seq<u8>, AccountRecordView)| (p.0, account_of(p.1));
            assert(t.drop_last() == pv.take(i as int));
            assert(t.map_values(f).drop_last() == pv.take(i as int).map_values(f));
        }
        i += 1;
    }
    assert(pv.take(pre@.len() as int) == pv);
    w
}

/// Every account of a pre-state with non-empty code has an entry in the
/// bytecode table under the hash of its code, and every entry of the table
/// is the non-empty code of some account, under that code's hash: accounts
/// without code contribute no entry.
pub proof fn lemma_bytecode_table(pre: Seq<(Seq<u8>, AccountRecordView)>)
    ensures
        forall|i: int| 0 <= i < pre.len() && #[trigger] pre[i].1.code.len() > 0
            ==> codes_of(pre).contains_key(keccak_of(pre[i].1.code)),
        forall|h: Seq<u8>| #[trigger] codes_of(pre).contains_key(h) ==> exists|i: int|
            0 <= i < pre.len() && pre[i].1.code.len() > 0 && keccak_of(pre[i].1.code) == h
                && codes_of(pre)[h] == pre[i].1.code,
    decreases pre.len(),
{
    if pre.len() > 0 {
        let t = pre.drop_last();
        lemma_bytecode_table(t);
        assert forall|i: int| 0 <= i < pre.len() && #[trigger] pre[i].1.code.len() > 0
            implies codes_of(pre).contains_key(keccak_of(pre[i].1.code)) by {
            if i < pre.len() - 1 {
                assert(t[i] == pre[i]);
            }
        }
        assert forall|h: Seq<u8>| #[trigger] codes_of(pre).contains_key(h) implies exists|i: int|
            0 <= i < pre.len() && pre[i].1.code.len() > 0 && keccak_of(pre[i].1.code) == h
                && codes_of(pre)[h] == pre[i].1.code by {
            let c = pre.last().1.code;
            if c.len() > 0 && keccak_of(c) == h {
                assert(pre[pre.len() - 1].1.code == c);
            } else {
                let i = choose|i: int|
                    0 <= i < t.len() && t[i].1.code.len() > 0 && keccak_of(t[i].1.code) == h
                        && codes_of(t)[h] == t[i].1.code;
                assert(pre[i] == t[i]);
            }
        }
    }
}

/// With distinct addresses, the accounts a pre-state yields are those of
/// its records, each at its address.
pub proof fn lemma_accounts_of(pre: Seq<(Seq<u8>, AccountRecordView)>)
    requires
        addresses_distinct(pre),
    ensures
        forall|a: Seq<u8>| #[trigger] accounts_of(pre).contains_key(a)
            <==> exists|i: int| 0 <= i < pre.len() && pre[i].0 == a,
        forall|i: int| 0 <= i < pre.len() ==> accounts_of(pre).contains_key(#[trigger] pre[i].0)
            && accounts_of(pre)[pre[i].0] == account_of(pre[i].1),
{
    let f = |p: (Seq<u8>, AccountRecordView)| (p.0, account_of(p.1));
    let m = pre.map_values(f);
    assert forall|a: Seq<u8>| #[trigger] accounts_of(pre).contains_key(a)
        <==> exists|i: int| 0 <= i < pre.len() && pre[i].0 == a by {
        lemma_domain(m, a);
        if has_key(m, a) {
            let i = choose|i: int| 0 <= i < m.len() && m[i].0 == a;
            assert(pre[i].0 == a);
        }
        if exists|i: int| 0 <= i < pre.len() && pre[i].0 == a {
            let i = choose|i: int| 0 <= i < pre.len() && pre[i].0 == a;
            assert(m[i].0 == a);
        }
    }
    assert forall|i: int| 0 <= i < pre.len() implies accounts_of(pre).contains_key(#[trigger] pre[i].0)
        && accounts_of(pre)[pre[i].0] == account_of(pre[i].1) by {
        assert(keys_distinct(m));
        lemma_at(m, i);
    }
}

/// Building the world state of one pre-state gives the same accounts and the
/// same code hashes whatever order its records come in: two lists that hold
/// the same (address, record) entries, each address once, yield the same
/// accounts by address and bytecode tables over the same hashes.
pub proof fn lemma_build_order_independent(
    p: Seq<(Seq<u8>, AccountRecordView)>,
    q: Seq<(Seq<u8>, AccountRecordView)>,
)
    requires
        addresses_distinct(p),
        addresses_distinct(q),
        p.to_set() == q.to_set(),
    ensures
        accounts_of(p) == accounts_of(q),
        codes_of(p).dom() == codes_of(q).dom(),
{
    lemma_accounts_of(p);
    lemma_accounts_of(q);
    lemma_bytecode_table(p);
    lemma_bytecode_table(q);
    assert forall|a: Seq<u8>| accounts_of(p).contains_key(a) implies accounts_of(q).contains_key(a)
        && accounts_of(p)[a] == accounts_of(q)[a] by {
        let i = choose|i: int| 0 <= i < p.len() && p[i].0 == a;
        assert(p.to_set().contains(p[i]));
        assert(q.contains(p[i]));
        let j = choose|j: int| 0 <= j < q.len() && q[j] == p[i];
        assert(q[j].0 == a);
    }
    assert forall|a: Seq<u8>| accounts_of(q).contains_key(a) implies accounts_of(p).contains_key(a) by {
        let j = choose|j: int| 0 <= j < q.len() && q[j].0 == a;
        assert(q.to_set().contains(q[j]));
        assert(p.contains(q[j]));
        let i = choose|i: int| 0 <= i < p.len() && p[i] == q[j];
        assert(p[i].0 == a);
    }
    assert(accounts_of(p) =~= accounts_of(q));
    assert forall|h: Seq<u8>| codes_of(p).contains_key(h) implies codes_of(q).contains_key(h) by {
        let i = choose|i: int|
            0 <= i < p.len() && p[i].1.code.len() > 0 && keccak_of(p[i].1.code) == h
                && codes_of(p)[h] == p[i].1.code;
        assert(p.to_set().contains(p[i]));
        assert(q.contains(p[i]));
        let j = choose|j: int| 0 <= j < q.len() && q[j] == p[i];
        assert(q[j].1.code.len() > 0);
    }
    assert forall|h: Seq<u8>| codes_of(q).contains_key(h) implies codes_of(p).contains_key(h) by {
        let j = choose|j: int|
            0 <= j < q.len() && q[j].1.code.len() > 0 && keccak_of(q[j].1.code) == h
                && codes_of(q)[h] == q[j].1.code;
        assert(q.to_set().contains(q[j]));
        assert(p.contains(q[j]));
        let i = choose|i: int| 0 <= i < p.len() && p[i] == q[j];
        assert(p[i].1.code.len() > 0);
    }
    assert(codes_of(p).dom() =~= codes_of(q).dom());
}

} // verus!
