//! 256-bit machine words as four 64-bit limbs, and storage slots.
use vstd::prelude::*;
use vstd::arithmetic::power2::pow2;

verus! {

/// An unsigned 256-bit word, least significant limb first.
#[derive(Clone, Copy, Debug, PartialEq, Eq, Structural)]
pub struct Word {
    pub l0: u64,
    pub l1: u64,
    pub l2: u64,
    pub l3: u64,
}

/// The number a word stands for.
pub open spec fn word_value(w: Word) -> nat {
    w.l0 as nat + w.l1 as nat * pow2(64) + w.l2 as nat * pow2(128) + w.l3 as nat * pow2(192)
}

/// One storage slot as the executor expects it at the start of a trial.
#[derive(Clone, Copy, Debug, PartialEq, Eq, Structural)]
pub struct Slot {
    pub original_value: Word,
    pub present_value: Word,
    pub is_cold: bool,
}

impl Word {
    /// The word holding a 64-bit value.
    pub fn from_u64(v: u64) -> (r: Word)
        ensures
            r == (Word { l0: v, l1: 0, l2: 0, l3: 0 }),
            word_value(r) == v as nat,
    {
        Word { l0: v, l1: 0, l2: 0, l3: 0 }
    }

    /// The value as a `u64`, when it fits in one.
    pub fn to_u64(&self) -> (r: Option<u64>)
        ensures
            r is Some <==> word_value(*self) < pow2(64),
            r is Some ==> r->0 as nat == word_value(*self),
    {
        proof {
            lemma_word_bounds(*self);
        }
        if self.l1 == 0 && self.l2 == 0 && self.l3 == 0 {
            Some(self.l0)
        } else {
            None
        }
    }
}

/// A word is below `2^64` exactly when its three upper limbs are zero.
pub proof fn lemma_word_bounds(w: Word)
    ensures
        word_value(w) < pow2(64) <==> (w.l1 == 0 && w.l2 == 0 && w.l3 == 0),
        (w.l1 == 0 && w.l2 == 0 && w.l3 == 0) ==> word_value(w) == w.l0 as nat,
{
    vstd::arithmetic::power2::lemma2_to64();
    vstd::arithmetic::power2::lemma_pow2_pos(128);
    vstd::arithmetic::power2::lemma_pow2_pos(192);
    vstd::arithmetic::power2::lemma_pow2_strictly_increases(64, 128);
    vstd::arithmetic::power2::lemma_pow2_strictly_increases(64, 192);
    let p = pow2(64);
    assert(w.l1 != 0 ==> w.l1 as nat * pow2(64) >= p) by (nonlinear_arith)
        requires p == pow2(64);
    assert(w.l2 != 0 ==> w.l2 as nat * pow2(128) >= p) by (nonlinear_arith)
        requires p < pow2(128);
    assert(w.l3 != 0 ==> w.l3 as nat * pow2(192) >= p) by (nonlinear_arith)
        requires p < pow2(192);
    assert(w.l1 as nat * pow2(64) >= 0) by (nonlinear_arith);
    assert(w.l2 as nat * pow2(128) >= 0) by (nonlinear_arith);
    assert(w.l3 as nat * pow2(192) >= 0) by (nonlinear_arith);
}

} // verus!
