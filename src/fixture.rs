//! The parts of a state-test fixture the workload is made from, and the
//! transaction template and block environment derived from them.
use vstd::prelude::*;
use crate::words::{Word, word_value};
use crate::state::copy_bytes;
use vstd::arithmetic::power2::pow2;

verus! {

/// Why a benchmark run stops.
#[derive(Clone, Copy, Debug, PartialEq, Eq, Structural)]
pub enum BenchError {
    /// The fixture document is malformed, empty, or holds a value out of range.
    FixtureFormat,
    /// The fixture's transaction lacks a field that the template needs.
    TemplateIncomplete,
    /// The executor rejected or failed the batch.
    EngineExecution,
}

/// The environment descriptor of a fixture.
#[derive(Debug)]
pub struct EnvDescriptor {
    pub current_coinbase: Vec<u8>,
    pub current_difficulty: Word,
    pub current_gas_limit: Word,
    pub current_number: Word,
    pub current_timestamp: Word,
    pub current_base_fee: Option<Word>,
}

/// The block a batch executes in.
#[derive(Debug)]
pub struct BlockEnvironment {
    pub number: Word,
    pub coinbase: Vec<u8>,
    pub timestamp: Word,
    pub gas_limit: Word,
    pub basefee: Word,
    pub difficulty: Word,
}

/// The block environment of a fixture: its fields copied over. A fixture
/// without a base fee is malformed.
pub fn block_environment(env: &EnvDescriptor) -> (r: Result<BlockEnvironment, BenchError>)
    ensures
        r is Err <==> env.current_base_fee is None,
        r is Err ==> r->Err_0 == BenchError::FixtureFormat,
        r matches Ok(b) ==> b.basefee == env.current_base_fee->0 && b.number == env.current_number
            && b.coinbase@ == env.current_coinbase@ && b.timestamp == env.current_timestamp
            && b.gas_limit == env.current_gas_limit && b.difficulty == env.current_difficulty,
{
    match env.current_base_fee {
        None => Err(BenchError::FixtureFormat),
        Some(basefee) => Ok(BlockEnvironment {
            number: env.current_number,
            coinbase: copy_bytes(&env.current_coinbase),
            timestamp: env.current_timestamp,
            gas_limit: env.current_gas_limit,
            basefee,
            difficulty: env.current_difficulty,
        }),
    }
}

/// The transaction descriptor of a fixture. `data`, `gas_limit` and `value`
/// hold one entry per post-state index.
#[derive(Debug)]
pub struct TxDescriptor {
    pub sender: Option<Vec<u8>>,
    pub gas_price: Option<Word>,
    pub max_priority_fee_per_gas: Option<Word>,
    pub blob_versioned_hashes: Vec<Vec<u8>>,
    pub max_fee_per_blob_gas: Option<Word>,
    pub data: Vec<Vec<u8>>,
    pub gas_limit: Vec<Word>,
    pub value: Vec<Word>,
    pub nonce: Word,
    /// `None` marks a contract creation.
    pub to: Option<Vec<u8>>,
}

/// Where a transaction goes.
#[derive(Debug)]
pub enum TxKind {
    Call(Vec<u8>),
    Create,
}

/// A transaction ready for the executor.
#[derive(Debug)]
pub struct Tx {
    pub caller: Vec<u8>,
    pub gas_limit: u64,
    pub gas_price: Word,
    pub gas_priority_fee: Option<Word>,
    pub transact_to: TxKind,
    pub value: Word,
    pub data: Vec<u8>,
    pub nonce: u64,
    pub blob_hashes: Vec<Vec<u8>>,
    pub max_fee_per_blob_gas: Option<Word>,
}

pub struct TxView {
    pub caller: Seq<u8>,
    pub gas_limit: u64,
    pub gas_price: Word,
    pub gas_priority_fee: Option<Word>,
    /// `None` for a contract creation.
    pub to: Option<Seq<u8>>,
    pub value: Word,
    pub data: Seq<u8>,
    pub nonce: u64,
    pub blob_hashes: Seq<Seq<u8>>,
    pub max_fee_per_blob_gas: Option<Word>,
}

pub open spec fn bytes_list_view(s: Seq<Vec<u8>>) -> Seq<Seq<u8>> {
    s.map_values(|b: Vec<u8>| b@)
}

pub open spec fn to_view(to: Option<Vec<u8>>) -> Option<Seq<u8>> {
    match to {
        Some(a) => Some(a@),
        None => None,
    }
}

impl View for Tx {
    type V = TxView;

    open spec fn view(&self) -> TxView {
        TxView {
            caller: self.caller@,
            gas_limit: self.gas_limit,
            gas_price: self.gas_price,
            gas_priority_fee: self.gas_priority_fee,
            to: match self.transact_to {
                TxKind::Call(a) => Some(a@),
                TxKind::Create => None,
            },
            value: self.value,
            data: self.data@,
            nonce: self.nonce,
            blob_hashes: bytes_list_view(self.blob_hashes@),
            max_fee_per_blob_gas: self.max_fee_per_blob_gas,
        }
    }
}

/// The descriptor lacks the sender, the gas price, or the first entry of
/// its data, gas limit or value lists.
pub open spec fn template_incomplete(d: &TxDescriptor) -> bool {
    d.sender is None || d.gas_price is None || d.data@.len() == 0 || d.gas_limit@.len() == 0
        || d.value@.len() == 0
}

/// The first gas limit or the nonce does not fit in 64 bits.
pub open spec fn template_out_of_range(d: &TxDescriptor) -> bool {
    word_value(d.gas_limit@[0]) >= pow2(64) || word_value(d.nonce) >= pow2(64)
}

/// The template of a complete descriptor, built from index 0 of each list.
pub open spec fn template_of(d: &TxDescriptor) -> TxView {
    TxView {
        caller: d.sender->0@,
        gas_limit: word_value(d.gas_limit@[0]) as u64,
        gas_price: d.gas_price->0,
        gas_priority_fee: d.max_priority_fee_per_gas,
        to: to_view(d.to),
        value: d.value@[0],
        data: d.data@[0]@,
        nonce: word_value(d.nonce) as u64,
        blob_hashes: bytes_list_view(d.blob_versioned_hashes@),
        max_fee_per_blob_gas: d.max_fee_per_blob_gas,
    }
}

/// A copy of a list of byte strings.
fn copy_bytes_list(s: &Vec<Vec<u8>>) -> (r: Vec<Vec<u8>>)
    ensures
        bytes_list_view(r@) == bytes_list_view(s@),
{
    let mut r: Vec<Vec<u8>> = Vec::new();
    let mut i: usize = 0;
    while i < s.len()
        invariant
            0 <= i <= s@.len(),
            bytes_list_view(r@) == bytes_list_view(s@.take(i as int)),
        decreases s@.len() - i,
    {
        r.push(copy_bytes(&s[i]));
        i += 1;
        assert(s@.take(i as int).drop_last() == s@.take(i - 1));
        assert(bytes_list_view(s@.take(i as int)) == bytes_list_view(s@.take(i - 1)).push(s@[i - 1]@));
    }
    assert(s@.take(s@.len() as int) == s@);
    r
}

/// The transaction template of a fixture: the descriptor's fields, with
/// entry 0 of each per-index list, a call to the destination or a contract
/// creation where there is none.
pub fn build_template(d: &TxDescriptor) -> (r: Result<Tx, BenchError>)
    ensures
        r == Err::<Tx, BenchError>(BenchError::TemplateIncomplete) <==> template_incomplete(d),
        r == Err::<Tx, BenchError>(BenchError::FixtureFormat)
            <==> !template_incomplete(d) && template_out_of_range(d),
        r is Ok <==> !template_incomplete(d) && !template_out_of_range(d),
        r matches Ok(t) ==> t@ == template_of(d),
{
    let caller = match &d.sender {
        Some(s) => copy_bytes(s),
        None => { return Err(BenchError::TemplateIncomplete); },
    };
    let gas_price = match d.gas_price {
        Some(p) => p,
        None => { return Err(BenchError::TemplateIncomplete); },
    };
    if d.data.len() == 0 || d.gas_limit.len() == 0 || d.value.len() == 0 {
        return Err(BenchError::TemplateIncomplete);
    }
    let gas_limit = match d.gas_limit[0].to_u64() {
        Some(g) => g,
        None => { return Err(BenchError::FixtureFormat); },
    };
    let nonce = match d.nonce.to_u64() {
        Some(n) => n,
        None => { return Err(BenchError::FixtureFormat); },
    };
    let transact_to = match &d.to {
        Some(a) => TxKind::Call(copy_bytes(a)),
        None => TxKind::Create,
    };
    Ok(Tx {
        caller,
        gas_limit,
        gas_price,
        gas_priority_fee: d.max_priority_fee_per_gas,
        transact_to,
        value: d.value[0],
        data: copy_bytes(&d.data[0]),
        nonce,
        blob_hashes: copy_bytes_list(&d.blob_versioned_hashes),
        max_fee_per_blob_gas: d.max_fee_per_blob_gas,
    })
}

impl Tx {
    /// A copy of the transaction.
    pub fn duplicate(&self) -> (r: Tx)
        ensures
            r@ == self@,
    {
        let transact_to = match &self.transact_to {
            TxKind::Call(a) => TxKind::Call(copy_bytes(a)),
            TxKind::Create => TxKind::Create,
        };
        Tx {
            caller: copy_bytes(&self.caller),
            gas_limit: self.gas_limit,
            gas_price: self.gas_price,
            gas_priority_fee: self.gas_priority_fee,
            transact_to,
            value: self.value,
            data: copy_bytes(&self.data),
            nonce: self.nonce,
            blob_hashes: copy_bytes_list(&self.blob_hashes),
            max_fee_per_blob_gas: self.max_fee_per_blob_gas,
        }
    }
}

} // verus!
