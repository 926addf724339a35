//! Expanding one transaction template into a batch, under one of two
//! explicitly chosen policies.
use vstd::prelude::*;
use crate::fixture::{Tx, TxView, BenchError};
use crate::state::{WorldState, AccountView};

verus! {

/// The template with another nonce.
pub open spec fn with_nonce(t: TxView, nonce: u64) -> TxView {
    TxView { nonce, ..t }
}

/// The template with another sender.
pub open spec fn with_caller(t: TxView, caller: Seq<u8>) -> TxView {
    TxView { caller, ..t }
}

/// The accounts after each of `addrs` has been given a copy of `acct`.
pub open spec fn with_clones(
    m: Map<Seq<u8>, AccountView>,
    addrs: Seq<Seq<u8>>,
    acct: AccountView,
) -> Map<Seq<u8>, AccountView> {
    Map::new(
        |a: Seq<u8>| m.contains_key(a) || addrs.contains(a),
        |a: Seq<u8>| if addrs.contains(a) { acct } else { m[a] },
    )
}

/// Nonce-sequence policy: `n` copies of the template from one sender, the
/// `i`-th with the template's nonce plus `i`. Each transaction depends on the
/// one before it, so the executor has to run them in order.
pub fn nonce_sequence(template: &Tx, n: usize) -> (batch: Vec<Tx>)
    requires
        template.nonce + n <= u64::MAX + 1,
    ensures
        batch@.len() == n,
        forall|i: int| 0 <= i < n ==> #[trigger] batch@[i]@ == with_nonce(template@, (template.nonce + i) as u64),
        forall|i: int| 0 <= i < n ==> #[trigger] batch@[i].caller@ == template.caller@,
        forall|i: int, j: int| 0 <= i < j < n ==> batch@[i].nonce < batch@[j].nonce,
{
    let mut batch: Vec<Tx> = Vec::new();
    let mut i: usize = 0;
    while i < n
        invariant
            0 <= i <= n,
            template.nonce + n <= u64::MAX + 1,
            batch@.len() == i,
            forall|j: int| 0 <= j < i ==> #[trigger] batch@[j]@ == with_nonce(template@, (template.nonce + j) as u64),
        decreases n - i,
    {
        let mut tx = template.duplicate();
        tx.nonce = template.nonce + i as u64;
        batch.push(tx);
        i += 1;
    }
    assert forall|i: int| 0 <= i < n implies #[trigger] batch@[i].caller@ == template.caller@ by {
        assert(batch@[i]@ == with_nonce(template@, (template.nonce + i) as u64));
    }
    assert forall|i: int, j: int| 0 <= i < j < n implies batch@[i].nonce < batch@[j].nonce by {
        assert(batch@[i]@ == with_nonce(template@, (template.nonce + i) as u64));
        assert(batch@[j]@ == with_nonce(template@, (template.nonce + j) as u64));
    }
    batch
}

/// Sender-fanout policy over given addresses: for each address, the world
/// state gets a copy of the template sender's account under it, and the
/// batch a copy of the template sent from it with the template's nonce.
/// Fails, leaving the world state alone, when the sender has no account.
pub fn fanout_with_senders(
    template: &Tx,
    world: &mut WorldState,
    senders: &Vec<Vec<u8>>,
) -> (r: Result<Vec<Tx>, BenchError>)
    requires
        old(world).wf(),
    ensures
        final(world).wf(),
        r is Err <==> !old(world).accounts_map().contains_key(template.caller@),
        r is Err ==> r->Err_0 == BenchError::FixtureFormat && *final(world) == *old(world),
        r matches Ok(batch) ==> {
            &&& batch@.len() == senders@.len()
            &&& forall|i: int| 0 <= i < senders@.len()
                ==> #[trigger] batch@[i]@ == with_caller(template@, senders@[i]@)
            &&& forall|i: int| 0 <= i < senders@.len() ==> #[trigger] batch@[i].nonce == template.nonce
            &&& final(world).accounts_map() == with_clones(
                old(world).accounts_map(),
                senders@.map_values(|s: Vec<u8>| s@),
                old(world).accounts_map()[template.caller@],
            )
            &&& forall|i: int| 0 <= i < senders@.len()
                ==> #[trigger] final(world).accounts_map().contains_key(batch@[i].caller@)
                    && final(world).accounts_map()[batch@[i].caller@]
                        == old(world).accounts_map()[template.caller@]
            &&& (forall|i: int, j: int| 0 <= i < senders@.len() && 0 <= j < senders@.len() && i != j
                ==> senders@[i]@ != senders@[j]@) ==> (forall|i: int, j: int|
                0 <= i < senders@.len() && 0 <= j < senders@.len() && i != j
                ==> batch@[i].caller@ != batch@[j].caller@)
            &&& final(world).codes_map() == old(world).codes_map()
            &&& final(world).block_hashes == old(world).block_hashes
        },
{
    let sender_account = match world.account(&template.caller) {
        Some(a) => a.duplicate(),
        None => { return Err(BenchError::FixtureFormat); },
    };
    let ghost m0 = old(world).accounts_map();
    let ghost acct = sender_account@;
    let ghost addrs = senders@.map_values(|s: Vec<u8>| s@);
    let mut batch: Vec<Tx> = Vec::new();
    let mut i: usize = 0;
    while i < senders.len()
        invariant
            0 <= i <= senders@.len(),
            world.wf(),
            m0.contains_key(template.caller@),
            acct == m0[template.caller@],
            sender_account@ == acct,
            addrs == senders@.map_values(|s: Vec<u8>| s@),
            world.accounts_map() == with_clones(m0, addrs.take(i as int), acct),
            world.codes_map() == old(world).codes_map(),
            world.block_hashes == old(world).block_hashes,
            batch@.len() == i,
            forall|j: int| 0 <= j < i ==> #[trigger] batch@[j]@ == with_caller(template@, senders@[j]@),
        decreases senders@.len() - i,
    {
        let addr = crate::state::copy_bytes(&senders[i]);
        let mut tx = template.duplicate();
        tx.caller = crate::state::copy_bytes(&senders[i]);
        world.insert_account(addr, sender_account.duplicate());
        batch.push(tx);
        proof {
            let prev = addrs.take(i as int);
            let next = addrs.take(i + 1);
            assert(next == prev.push(senders@[i as int]@));
            assert forall|a: Seq<u8>| #[trigger] next.contains(a) <==> prev.contains(a) || a == senders@[i as int]@ by {
                if next.contains(a) {
                    let k = choose|k: int| 0 <= k < next.len() && next[k] == a;
                    if k < i {
                        assert(prev[k] == a);
                    }
                }
                if prev.contains(a) {
                    let k = choose|k: int| 0 <= k < prev.len() && prev[k] == a;
                    assert(next[k] == a);
                }
                if a == senders@[i as int]@ {
                    assert(next[i as int] == a);
                }
            }
            assert(world.accounts_map() =~= with_clones(m0, next, acct));
        }
        i += 1;
    }
    proof {
        assert(addrs.take(senders@.len() as int) == addrs);
        assert forall|i: int| 0 <= i < senders@.len()
            implies #[trigger] world.accounts_map().contains_key(batch@[i].caller@)
                && world.accounts_map()[batch@[i].caller@] == acct by {
            assert(batch@[i]@ == with_caller(template@, senders@[i]@));
            assert(addrs[i] == senders@[i]@);
            assert(addrs.contains(senders@[i]@));
        }
        assert forall|i: int| 0 <= i < senders@.len() implies #[trigger] batch@[i].nonce == template.nonce by {
            assert(batch@[i]@ == with_caller(template@, senders@[i]@));
        }
        if forall|i: int, j: int| 0 <= i < senders@.len() && 0 <= j < senders@.len() && i != j
            ==> senders@[i]@ != senders@[j]@ {
            assert forall|i: int, j: int| 0 <= i < senders@.len() && 0 <= j < senders@.len() && i != j
                implies batch@[i].caller@ != batch@[j].caller@ by {
                assert(batch@[i]@ == with_caller(template@, senders@[i]@));
                assert(batch@[j]@ == with_caller(template@, senders@[j]@));
            }
        }
    }
    Ok(batch)
}

/// Relies on rand::random: twenty bytes drawn from the thread-local
/// generator; nothing is known of their values.
#[verifier::external_body]
fn random_address() -> (r: Vec<u8>)
    ensures
        r@.len() == 20,
{
    rand::random::<[u8; 20]>().to_vec()
}

/// Twenty-byte addresses drawn at random. Collisions are not checked for:
/// for the batch sizes benchmarked, their probability is negligible.
pub fn random_addresses(n: usize) -> (r: Vec<Vec<u8>>)
    ensures
        r@.len() == n,
        forall|i: int| 0 <= i < n ==> (#[trigger] r@[i])@.len() == 20,
{
    let mut r: Vec<Vec<u8>> = Vec::new();
    let mut i: usize = 0;
    while i < n
        invariant
            0 <= i <= n,
            r@.len() == i,
            forall|j: int| 0 <= j < i ==> (#[trigger] r@[j])@.len() == 20,
        decreases n - i,
    {
        r.push(random_address());
        i += 1;
    }
    r
}

/// Sender-fanout policy: `n` copies of the template, each from a freshly
/// drawn address that the world state gives a copy of the template sender's
/// account; every copy keeps the template's nonce. Fails, leaving the world
/// state alone, when the sender has no account.
pub fn sender_fanout(template: &Tx, world: &mut WorldState, n: usize) -> (r: Result<Vec<Tx>, BenchError>)
    requires
        old(world).wf(),
    ensures
        final(world).wf(),
        r is Err <==> !old(world).accounts_map().contains_key(template.caller@),
        r is Err ==> r->Err_0 == BenchError::FixtureFormat && *final(world) == *old(world),
        r matches Ok(batch) ==> {
            &&& batch@.len() == n
            &&& forall|i: int| 0 <= i < n
                ==> #[trigger] batch@[i]@ == with_caller(template@, batch@[i].caller@)
            &&& forall|i: int| 0 <= i < n ==> (#[trigger] batch@[i]).caller@.len() == 20
            &&& forall|i: int| 0 <= i < n ==> #[trigger] batch@[i].nonce == template.nonce
            &&& forall|i: int| 0 <= i < n
                ==> #[trigger] final(world).accounts_map().contains_key(batch@[i].caller@)
                    && final(world).accounts_map()[batch@[i].caller@]
                        == old(world).accounts_map()[template.caller@]
            &&& forall|a: Seq<u8>| #[trigger] old(world).accounts_map().contains_key(a)
                ==> final(world).accounts_map().contains_key(a)
            &&& final(world).codes_map() == old(world).codes_map()
            &&& final(world).block_hashes == old(world).block_hashes
        },
{
    let senders = random_addresses(n);
    let r = fanout_with_senders(template, world, &senders);
    proof {
        if r is Ok {
            let batch = r->Ok_0;
            assert forall|i: int| 0 <= i < n implies
                #[trigger] batch@[i]@ == with_caller(template@, batch@[i].caller@) by {
                assert(batch@[i]@ == with_caller(template@, senders@[i]@));
            }
            assert forall|i: int| 0 <= i < n implies (#[trigger] batch@[i]).caller@.len() == 20 by {
                assert(batch@[i]@ == with_caller(template@, senders@[i]@));
                assert(senders@[i]@.len() == 20);
            }
            assert forall|a: Seq<u8>| #[trigger] old(world).accounts_map().contains_key(a)
                implies world.accounts_map().contains_key(a) by {
            }
        }
    }
    r
}

} // verus!
