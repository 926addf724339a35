//! The benchmark sweep: the declared table of fixtures and batch sizes, the
//! (fixture, batch size) pairs it yields, the name each measurement is
//! reported under, the executor's concurrency budget, and the inputs of one
//! trial.
use vstd::prelude::*;
use vstd::string::StringExecFns;
use crate::fixture::{Tx, TxDescriptor, EnvDescriptor, BlockEnvironment, BenchError,
    build_template, block_environment, template_incomplete, template_out_of_range, template_of};
use crate::state::{AccountRecord, WorldState, build_world, accounts_of, codes_of, pre_view};
use crate::workload::{nonce_sequence, sender_fanout, with_nonce, with_caller};

verus! {

/// The most worker threads the executor is given.
pub const MAX_CONCURRENCY: usize = 8;

/// One fixture file and the batch sizes it is benchmarked at.
#[derive(Debug)]
pub struct TestCase {
    pub filename: String,
    pub txs_nums: Vec<usize>,
}

/// The declared table of fixtures and the batch sizes each is run at.
pub fn benchmark_table() -> (r: Vec<TestCase>)
    ensures
        r@.len() == 5,
        r@[0].filename@ == "erc20_transfer_basic_usdt.json"@,
        r@[0].txs_nums@ == seq![1usize, 10, 100, 200, 2000],
        r@[1].filename@ == "erc20_transfer_proxy_usdc.json"@,
        r@[1].txs_nums@ == seq![1usize, 10, 100, 200, 2000],
        r@[2].filename@ == "uniswap2_single.json"@,
        r@[2].txs_nums@ == seq![1usize, 10, 100],
        r@[3].filename@ == "uniswap2_multiple.json"@,
        r@[3].txs_nums@ == seq![1usize],
        r@[4].filename@ == "uniswap3_single.json"@,
        r@[4].txs_nums@ == seq![1usize],
{
    let large: Vec<usize> = vec![1, 10, 100, 200, 2000];
    let large2: Vec<usize> = vec![1, 10, 100, 200, 2000];
    let small: Vec<usize> = vec![1, 10, 100];
    let r = vec![
        TestCase { filename: String::from_str("erc20_transfer_basic_usdt.json"), txs_nums: large },
        TestCase { filename: String::from_str("erc20_transfer_proxy_usdc.json"), txs_nums: large2 },
        TestCase { filename: String::from_str("uniswap2_single.json"), txs_nums: small },
        TestCase { filename: String::from_str("uniswap2_multiple.json"), txs_nums: vec![1] },
        TestCase { filename: String::from_str("uniswap3_single.json"), txs_nums: vec![1] },
    ];
    assert(r@[0].txs_nums@ == seq![1usize, 10, 100, 200, 2000]);
    r
}

/// The (file name, batch size) pairs of a table, in order: each file with
/// each of its sizes.
pub open spec fn plan_of(cases: Seq<(Seq<char>, Seq<usize>)>) -> Seq<(Seq<char>, usize)>
    decreases cases.len(),
{
    if cases.len() == 0 {
        Seq::empty()
    } else {
        let last = cases.last();
        plan_of(cases.drop_last()) + last.1.map_values(|n: usize| (last.0, n))
    }
}

pub open spec fn cases_view(cases: Seq<TestCase>) -> Seq<(Seq<char>, Seq<usize>)> {
    cases.map_values(|c: TestCase| (c.filename@, c.txs_nums@))
}

pub open spec fn plan_view(r: Seq<(String, usize)>) -> Seq<(Seq<char>, usize)> {
    r.map_values(|p: (String, usize)| (p.0@, p.1))
}

/// Every (fixture, batch size) pair of a table, in order.
pub fn sweep_plan(cases: &Vec<TestCase>) -> (r: Vec<(String, usize)>)
    ensures
        plan_view(r@) == plan_of(cases_view(cases@)),
{
    let mut r: Vec<(String, usize)> = Vec::new();
    let mut i: usize = 0;
    while i < cases.len()
        invariant
            0 <= i <= cases@.len(),
            plan_view(r@) == plan_of(cases_view(cases@.take(i as int))),
        decreases cases@.len() - i,
    {
        let case = &cases[i];
        let ghost base = plan_view(r@);
        let ghost name = case.filename@;
        let mut j: usize = 0;
        while j < case.txs_nums.len()
            invariant
                0 <= j <= case.txs_nums@.len(),
                name == case.filename@,
                plan_view(r@) == base + case.txs_nums@.take(j as int).map_values(|n: usize| (name, n)),
            decreases case.txs_nums@.len() - j,
        {
            let ghost prev = r@;
            let fname = case.filename.clone();
            assert(fname == case.filename);
            r.push((fname, case.txs_nums[j]));
            proof {
                let g = |n: usize| (name, n);
                assert(fname@ == name);
                assert(r@ == prev.push((fname, case.txs_nums@[j as int])));
                assert(plan_view(r@).len() == plan_view(prev).len() + 1);
                assert(plan_view(r@)[prev.len() as int] == (name, case.txs_nums@[j as int]));
                assert(plan_view(r@) =~= plan_view(prev).push((name, case.txs_nums@[j as int])));
                assert(case.txs_nums@.take(j + 1).map_values(g)
                    == case.txs_nums@.take(j as int).map_values(g).push((name, case.txs_nums@[j as int])));
                assert(plan_view(r@) == base + case.txs_nums@.take(j + 1).map_values(g));
            }
            j += 1;
        }
        proof {
            assert(case.txs_nums@.take(case.txs_nums@.len() as int) == case.txs_nums@);
            let cv = cases_view(cases@.take(i + 1));
            assert(cv.drop_last() == cases_view(cases@.take(i as int)));
            assert(cv.last() == (name, case.txs_nums@));
        }
        i += 1;
    }
    assert(cases@.take(cases@.len() as int) == cases@);
    r
}

/// The decimal digits of a number, most significant first.
pub open spec fn decimal(n: nat) -> Seq<char>
    decreases n,
{
    let d = (('0' as nat) + n % 10) as char;
    if n < 10 {
        seq![d]
    } else {
        decimal(n / 10).push(d)
    }
}

/// Relies on `ToString` for `usize`, that is `Display`: the number in
/// decimal, without sign or leading zeros.
#[verifier::external_body]
fn decimal_string(n: usize) -> (r: String)
    ensures
        r@ == decimal(n as nat),
{
    n.to_string()
}

/// The name a measurement is reported under:
/// `<file name> (<n> transactions per iteration)`.
pub fn bench_name(filename: &str, n: usize) -> (r: String)
    ensures
        r@ == filename@ + " ("@ + decimal(n as nat) + " transactions per iteration)"@,
{
    let digits = decimal_string(n);
    String::from_str(filename).concat(" (").concat(digits.as_str()).concat(" transactions per iteration)")
}

/// The executor's concurrency budget: the machine's available parallelism,
/// at least one and at most `MAX_CONCURRENCY`.
pub fn concurrency_budget(available: usize) -> (r: usize)
    ensures
        1 <= r <= MAX_CONCURRENCY,
        r == if available == 0 { 1 } else if available > MAX_CONCURRENCY { MAX_CONCURRENCY } else { available },
{
    if available == 0 {
        1
    } else if available > MAX_CONCURRENCY {
        MAX_CONCURRENCY
    } else {
        available
    }
}

/// How a template becomes a batch.
#[derive(Clone, Copy, Debug, PartialEq, Eq, Structural)]
pub enum Policy {
    /// One sender, consecutive nonces.
    NonceSequence,
    /// One fresh sender per transaction, all with the template's nonce.
    SenderFanout,
}

/// Everything one (fixture, batch size) trial hands the executor.
#[derive(Debug)]
pub struct Trial {
    pub world: WorldState,
    pub block: BlockEnvironment,
    pub txs: Vec<Tx>,
}

/// Builds the inputs of one trial from a fixture's parts: the world state of
/// the pre-state, the block environment, and `n` transactions expanded from
/// the template under the policy.
pub fn prepare_trial(
    pre: &Vec<(Vec<u8>, AccountRecord)>,
    tx: &TxDescriptor,
    env: &EnvDescriptor,
    n: usize,
    policy: Policy,
) -> (r: Result<Trial, BenchError>)
    ensures
        r == Err::<Trial, BenchError>(BenchError::TemplateIncomplete) <==> template_incomplete(tx),
        r == Err::<Trial, BenchError>(BenchError::FixtureFormat) <==> !template_incomplete(tx) && (
            template_out_of_range(tx) || env.current_base_fee is None
                || (policy == Policy::NonceSequence && template_of(tx).nonce + n > u64::MAX + 1)
                || (policy == Policy::SenderFanout
                    && !accounts_of(pre_view(pre@)).contains_key(template_of(tx).caller))),
        r is Ok || r == Err::<Trial, BenchError>(BenchError::TemplateIncomplete)
            || r == Err::<Trial, BenchError>(BenchError::FixtureFormat),
        r matches Ok(t) ==> {
            &&& t.txs@.len() == n
            &&& t.world.wf()
            &&& t.world.codes_map() == codes_of(pre_view(pre@))
            &&& t.world.block_hashes@.len() == 0
            &&& t.block.basefee == env.current_base_fee->0
            &&& policy == Policy::NonceSequence ==> {
                &&& t.world.accounts_map() == accounts_of(pre_view(pre@))
                &&& forall|i: int| 0 <= i < n ==> #[trigger] t.txs@[i]@
                    == with_nonce(template_of(tx), (template_of(tx).nonce + i) as u64)
            }
            &&& policy == Policy::SenderFanout ==> forall|i: int| 0 <= i < n ==> {
                &&& #[trigger] t.txs@[i]@ == with_caller(template_of(tx), t.txs@[i].caller@)
                &&& t.world.accounts_map().contains_key(t.txs@[i].caller@)
                &&& t.world.accounts_map()[t.txs@[i].caller@]
                    == accounts_of(pre_view(pre@))[template_of(tx).caller]
            }
        },
{
    let template = match build_template(tx) {
        Ok(t) => t,
        Err(e) => { return Err(e); },
    };
    let block = match block_environment(env) {
        Ok(b) => b,
        Err(e) => { return Err(e); },
    };
    let mut world = build_world(pre);
    let txs = match policy {
        Policy::NonceSequence => {
            if template.nonce as u128 + n as u128 > u64::MAX as u128 + 1 {
                return Err(BenchError::FixtureFormat);
            }
            nonce_sequence(&template, n)
        },
        Policy::SenderFanout => match sender_fanout(&template, &mut world, n) {
            Ok(b) => b,
            Err(e) => { return Err(e); },
        },
    };
    let trial = Trial { world, block, txs };
    assert(policy == Policy::SenderFanout ==> forall|i: int| 0 <= i < n ==> {
                &&& #[trigger] trial.txs@[i]@ == with_caller(template_of(tx), trial.txs@[i].caller@)
                &&& trial.world.accounts_map().contains_key(trial.txs@[i].caller@)
                &&& trial.world.accounts_map()[trial.txs@[i].caller@]
                    == accounts_of(pre_view(pre@))[template_of(tx).caller]
            });
    assert(policy == Policy::NonceSequence ==> forall|i: int| 0 <= i < n ==> #[trigger] trial.txs@[i]@
                    == with_nonce(template_of(tx), (template_of(tx).nonce + i) as u64));
    Ok(trial)
}

} // verus!
