use fixture_bench::fixture::{
    block_environment, build_template, BenchError, EnvDescriptor, Tx, TxDescriptor, TxKind,
};
use fixture_bench::state::{build_world, AccountRecord, EvmAccount};
use fixture_bench::sweep::{
    bench_name, benchmark_table, concurrency_budget, prepare_trial, sweep_plan, Policy, TestCase,
};
use fixture_bench::words::Word;
use fixture_bench::workload::{fanout_with_senders, nonce_sequence, random_addresses, sender_fanout};

fn w(v: u64) -> Word {
    Word::from_u64(v)
}

fn sender() -> Vec<u8> {
    vec![0x11; 20]
}

fn contract() -> Vec<u8> {
    vec![0x22; 20]
}

fn two_byte_code() -> Vec<u8> {
    vec![0x60, 0x00]
}

fn eoa(nonce: u64, balance: u64) -> AccountRecord {
    AccountRecord { nonce, balance: w(balance), code: vec![], storage: vec![] }
}

fn fixture_pre() -> Vec<(Vec<u8>, AccountRecord)> {
    vec![
        (sender(), eoa(5, 10)),
        (
            contract(),
            AccountRecord { nonce: 1, balance: w(0), code: two_byte_code(), storage: vec![(w(1), w(7))] },
        ),
    ]
}

fn descriptor() -> TxDescriptor {
    TxDescriptor {
        sender: Some(sender()),
        gas_price: Some(w(3)),
        max_priority_fee_per_gas: Some(w(2)),
        blob_versioned_hashes: vec![vec![0xaa; 32]],
        max_fee_per_blob_gas: None,
        data: vec![vec![0xa9, 0x05], vec![0xff]],
        gas_limit: vec![w(100_000), w(5)],
        value: vec![w(0), w(9)],
        nonce: w(5),
        to: Some(contract()),
    }
}

fn env() -> EnvDescriptor {
    EnvDescriptor {
        current_coinbase: vec![0x33; 20],
        current_difficulty: w(0x20000),
        current_gas_limit: w(30_000_000),
        current_number: w(1),
        current_timestamp: w(1000),
        current_base_fee: Some(w(7)),
    }
}

fn keccak(b: &[u8]) -> Vec<u8> {
    alloy_primitives::keccak256(b).to_vec()
}

fn account<'a>(world: &'a fixture_bench::state::WorldState, addr: &Vec<u8>) -> &'a EvmAccount {
    world.account(addr).expect("account present")
}

fn template() -> Tx {
    build_template(&descriptor()).expect("complete template")
}

#[test]
fn nonce_sequence_scenario() {
    let world = build_world(&fixture_pre());
    let batch = nonce_sequence(&template(), 3);
    let nonces: Vec<u64> = batch.iter().map(|t| t.nonce).collect();
    assert_eq!(nonces, vec![5, 6, 7]);
    assert!(batch.iter().all(|t| t.caller == sender()));

    assert_eq!(world.bytecodes.len(), 1);
    assert_eq!(world.bytecodes[0].0, keccak(&two_byte_code()));
    assert_eq!(world.bytecodes[0].1, two_byte_code());
    assert_eq!(world.bytecode(&keccak(&two_byte_code())), Some(&two_byte_code()));

    let c = account(&world, &contract());
    assert_eq!(c.storage.len(), 1);
    let (k, slot) = c.storage[0];
    assert_eq!(k, w(1));
    assert_eq!(slot.original_value, w(7));
    assert_eq!(slot.present_value, w(7));
    assert!(slot.is_cold);
}

#[test]
fn sender_fanout_scenario() {
    let mut world = build_world(&fixture_pre());
    let batch = sender_fanout(&template(), &mut world, 3).expect("sender has an account");
    assert_eq!(batch.len(), 3);
    assert_eq!(world.num_accounts(), 5);
    for t in &batch {
        assert_eq!(t.nonce, 5);
        assert_eq!(t.caller.len(), 20);
        let a = account(&world, &t.caller);
        assert_eq!(a.balance, w(10));
        assert_eq!(a.nonce, 5);
        assert!(a.storage.is_empty());
    }
    assert_ne!(batch[0].caller, batch[1].caller);
    assert_ne!(batch[0].caller, batch[2].caller);
    assert_ne!(batch[1].caller, batch[2].caller);
    assert!(world.account(&sender()).is_some());
    assert!(world.account(&contract()).is_some());
}

#[test]
fn fanout_with_given_senders_copies_sender_record() {
    let mut world = build_world(&fixture_pre());
    let senders = vec![vec![1u8; 20], vec![2u8; 20]];
    let batch = fanout_with_senders(&template(), &mut world, &senders).expect("sender present");
    assert_eq!(batch.len(), 2);
    assert_eq!(batch[0].caller, senders[0]);
    assert_eq!(batch[1].caller, senders[1]);
    assert!(batch.iter().all(|t| t.nonce == 5 && t.gas_limit == 100_000));
    for s in &senders {
        let a = account(&world, s);
        assert_eq!((a.nonce, a.balance), (5, w(10)));
        assert_eq!(a.code, None);
        assert_eq!(a.code_hash, keccak(&[]));
    }
    assert_eq!(world.num_accounts(), 4);
}

#[test]
fn fanout_without_sender_account_fails_and_keeps_world() {
    let mut world = build_world(&vec![(contract(), eoa(0, 0))]);
    let r = fanout_with_senders(&template(), &mut world, &vec![vec![9u8; 20]]);
    assert_eq!(r.err(), Some(BenchError::FixtureFormat));
    assert_eq!(world.num_accounts(), 1);
    let r = sender_fanout(&template(), &mut world, 2);
    assert_eq!(r.err(), Some(BenchError::FixtureFormat));
}

#[test]
fn fanout_of_zero_is_empty() {
    let mut world = build_world(&fixture_pre());
    let batch = sender_fanout(&template(), &mut world, 0).expect("sender present");
    assert!(batch.is_empty());
    assert_eq!(world.num_accounts(), 2);
    assert!(nonce_sequence(&template(), 0).is_empty());
}

#[test]
fn random_addresses_are_twenty_bytes() {
    let a = random_addresses(4);
    assert_eq!(a.len(), 4);
    assert!(a.iter().all(|x| x.len() == 20));
}

#[test]
fn bytecode_table_dedups_and_skips_empty_code() {
    let code_b = vec![0x60, 0x01, 0x60, 0x02];
    let pre = vec![
        (vec![1u8; 20], AccountRecord { nonce: 0, balance: w(0), code: two_byte_code(), storage: vec![] }),
        (vec![2u8; 20], eoa(1, 1)),
        (vec![3u8; 20], AccountRecord { nonce: 0, balance: w(0), code: two_byte_code(), storage: vec![] }),
        (vec![4u8; 20], AccountRecord { nonce: 0, balance: w(0), code: code_b.clone(), storage: vec![] }),
    ];
    let world = build_world(&pre);
    assert_eq!(world.num_accounts(), 4);
    assert_eq!(world.bytecodes.len(), 2);
    assert_eq!(world.bytecode(&keccak(&two_byte_code())), Some(&two_byte_code()));
    assert_eq!(world.bytecode(&keccak(&code_b)), Some(&code_b));
    assert_eq!(world.bytecode(&keccak(&[])), None);
    let e = account(&world, &vec![2u8; 20]);
    assert_eq!(e.code, None);
    assert_eq!(e.code_hash, keccak(&[]));
    let c = account(&world, &vec![4u8; 20]);
    assert_eq!(c.code_hash, keccak(&code_b));
    assert_ne!(c.code_hash, code_b);
    assert!(world.block_hashes.is_empty());
}

#[test]
fn building_twice_gives_identical_worlds() {
    let a = build_world(&fixture_pre());
    let b = build_world(&fixture_pre());
    let mut reversed = fixture_pre();
    reversed.reverse();
    let c = build_world(&reversed);
    for other in [&b, &c] {
        assert_eq!(a.num_accounts(), other.num_accounts());
        for addr in a.addresses() {
            assert_eq!(format!("{:?}", account(&a, &addr)), format!("{:?}", account(other, &addr)));
        }
        assert_eq!(a.bytecodes, other.bytecodes);
        assert_eq!(a.block_hashes, other.block_hashes);
    }
}

#[test]
fn later_record_wins_for_repeated_address() {
    let pre = vec![(sender(), eoa(1, 1)), (sender(), eoa(2, 2))];
    let world = build_world(&pre);
    assert_eq!(world.num_accounts(), 1);
    assert_eq!(account(&world, &sender()).nonce, 2);
}

#[test]
fn template_takes_index_zero() {
    let t = template();
    assert_eq!(t.caller, sender());
    assert_eq!(t.gas_limit, 100_000);
    assert_eq!(t.gas_price, w(3));
    assert_eq!(t.gas_priority_fee, Some(w(2)));
    assert_eq!(t.value, w(0));
    assert_eq!(t.data, vec![0xa9, 0x05]);
    assert_eq!(t.nonce, 5);
    assert_eq!(t.blob_hashes, vec![vec![0xaa; 32]]);
    assert_eq!(t.max_fee_per_blob_gas, None);
    assert!(matches!(t.transact_to, TxKind::Call(ref a) if *a == contract()));
}

#[test]
fn template_without_destination_creates() {
    let mut d = descriptor();
    d.to = None;
    let t = build_template(&d).expect("complete");
    assert!(matches!(t.transact_to, TxKind::Create));
}

#[test]
fn template_missing_fields_are_incomplete() {
    let mut d = descriptor();
    d.sender = None;
    assert_eq!(build_template(&d).err(), Some(BenchError::TemplateIncomplete));
    let mut d = descriptor();
    d.gas_price = None;
    assert_eq!(build_template(&d).err(), Some(BenchError::TemplateIncomplete));
    let mut d = descriptor();
    d.data.clear();
    assert_eq!(build_template(&d).err(), Some(BenchError::TemplateIncomplete));
    let mut d = descriptor();
    d.gas_limit.clear();
    assert_eq!(build_template(&d).err(), Some(BenchError::TemplateIncomplete));
    let mut d = descriptor();
    d.value.clear();
    assert_eq!(build_template(&d).err(), Some(BenchError::TemplateIncomplete));
}

#[test]
fn template_values_out_of_range_are_malformed() {
    let mut d = descriptor();
    d.gas_limit[0] = Word { l0: 0, l1: 1, l2: 0, l3: 0 };
    assert_eq!(build_template(&d).err(), Some(BenchError::FixtureFormat));
    let mut d = descriptor();
    d.nonce = Word { l0: 5, l1: 0, l2: 0, l3: 1 };
    assert_eq!(build_template(&d).err(), Some(BenchError::FixtureFormat));
}

#[test]
fn word_to_u64() {
    assert_eq!(w(u64::MAX).to_u64(), Some(u64::MAX));
    assert_eq!(Word { l0: 0, l1: 0, l2: 1, l3: 0 }.to_u64(), None);
}

#[test]
fn block_environment_copies_fields() {
    let b = block_environment(&env()).expect("base fee present");
    assert_eq!(b.basefee, w(7));
    assert_eq!(b.number, w(1));
    assert_eq!(b.timestamp, w(1000));
    assert_eq!(b.gas_limit, w(30_000_000));
    assert_eq!(b.difficulty, w(0x20000));
    assert_eq!(b.coinbase, vec![0x33; 20]);
    let mut e = env();
    e.current_base_fee = None;
    assert_eq!(block_environment(&e).err(), Some(BenchError::FixtureFormat));
}

#[test]
fn nonce_sequence_up_to_largest_nonce() {
    let mut t = template();
    t.nonce = u64::MAX - 1;
    let batch = nonce_sequence(&t, 2);
    assert_eq!(batch[1].nonce, u64::MAX);
}

#[test]
fn trial_under_each_policy() {
    let t = prepare_trial(&fixture_pre(), &descriptor(), &env(), 3, Policy::NonceSequence).expect("ok");
    assert_eq!(t.txs.iter().map(|x| x.nonce).collect::<Vec<_>>(), vec![5, 6, 7]);
    assert_eq!(t.world.num_accounts(), 2);
    assert_eq!(t.block.basefee, w(7));
    let t = prepare_trial(&fixture_pre(), &descriptor(), &env(), 3, Policy::SenderFanout).expect("ok");
    assert_eq!(t.world.num_accounts(), 5);
    assert!(t.txs.iter().all(|x| x.nonce == 5));
}

#[test]
fn trial_errors() {
    let mut d = descriptor();
    d.sender = None;
    let r = prepare_trial(&fixture_pre(), &d, &env(), 1, Policy::NonceSequence);
    assert_eq!(r.err(), Some(BenchError::TemplateIncomplete));
    let mut e = env();
    e.current_base_fee = None;
    let r = prepare_trial(&fixture_pre(), &descriptor(), &e, 1, Policy::NonceSequence);
    assert_eq!(r.err(), Some(BenchError::FixtureFormat));
    let mut d = descriptor();
    d.nonce = w(u64::MAX);
    let r = prepare_trial(&fixture_pre(), &d, &env(), 2, Policy::NonceSequence);
    assert_eq!(r.err(), Some(BenchError::FixtureFormat));
    let r = prepare_trial(&vec![(contract(), eoa(0, 0))], &descriptor(), &env(), 2, Policy::SenderFanout);
    assert_eq!(r.err(), Some(BenchError::FixtureFormat));
}

#[test]
fn measurement_name() {
    assert_eq!(bench_name("uniswap2_single.json", 100), "uniswap2_single.json (100 transactions per iteration)");
    assert_eq!(bench_name("a.json", 0), "a.json (0 transactions per iteration)");
}

#[test]
fn concurrency_is_capped() {
    assert_eq!(concurrency_budget(0), 1);
    assert_eq!(concurrency_budget(4), 4);
    assert_eq!(concurrency_budget(8), 8);
    assert_eq!(concurrency_budget(64), 8);
}

#[test]
fn plan_walks_table_in_order() {
    let cases = vec![
        TestCase { filename: "a.json".to_string(), txs_nums: vec![1, 10] },
        TestCase { filename: "b.json".to_string(), txs_nums: vec![] },
        TestCase { filename: "c.json".to_string(), txs_nums: vec![2] },
    ];
    let plan = sweep_plan(&cases);
    assert_eq!(
        plan,
        vec![("a.json".to_string(), 1), ("a.json".to_string(), 10), ("c.json".to_string(), 2)]
    );
}

#[test]
fn declared_table() {
    let table = benchmark_table();
    assert_eq!(table.len(), 5);
    assert_eq!(table[0].filename, "erc20_transfer_basic_usdt.json");
    assert_eq!(table[0].txs_nums, vec![1, 10, 100, 200, 2000]);
    assert_eq!(table[2].filename, "uniswap2_single.json");
    assert_eq!(table[2].txs_nums, vec![1, 10, 100]);
    assert_eq!(table[4].filename, "uniswap3_single.json");
    assert_eq!(sweep_plan(&table).len(), 15);
}
