//! Proof payload shapes and the explicit universal-setup cache.
//!
//! Proof generation itself is an out-of-scope collaborator consuming the
//! block's binary payload; this module holds the settlement-layer shape of
//! an encoded proof and the cache of expensive setup artifacts, modelled as
//! an explicit object with get/put rather than ambient global state.

use vstd::prelude::*;

verus! {

/// A 256-bit settlement-layer word, as four 64-bit limbs, most significant
/// first.
#[derive(Clone, Copy, Debug, PartialEq, Eq, Structural)]
pub struct U256(pub u64, pub u64, pub u64, pub u64);

impl Default for U256 {
    fn default() -> (r: Self)
        ensures
            r == U256(0, 0, 0, 0),
    {
        U256(0, 0, 0, 0)
    }
}

/// A proof encoded for the settlement contract: one public input word and a
/// fixed-length proof word list.
#[derive(Clone, Debug, PartialEq)]
pub struct EncodedProofPlonk {
    pub inputs: Vec<U256>,
    pub proof: Vec<U256>,
}

/// The number of proof words of an encoded proof.
pub const ENCODED_PROOF_WORDS: usize = 33;

impl Default for EncodedProofPlonk {
    fn default() -> (r: Self)
        ensures
            r.inputs@.len() == 1,
            r.proof@.len() == ENCODED_PROOF_WORDS,
            forall|i: int| 0 <= i < r.inputs@.len() ==> r.inputs@[i] == U256(0, 0, 0, 0),
            forall|i: int| 0 <= i < r.proof@.len() ==> r.proof@[i] == U256(0, 0, 0, 0),
    {
        let mut inputs: Vec<U256> = Vec::new();
        inputs.push(U256(0, 0, 0, 0));
        let mut proof: Vec<U256> = Vec::new();
        let mut i: usize = 0;
        while i < ENCODED_PROOF_WORDS
            invariant
                i <= ENCODED_PROOF_WORDS,
                proof@.len() == i,
                forall|j: int| 0 <= j < i ==> proof@[j] == U256(0, 0, 0, 0),
            decreases ENCODED_PROOF_WORDS - i,
        {
            proof.push(U256(0, 0, 0, 0));
            i += 1;
        }
        Self { inputs, proof }
    }
}

/// A proof covering several consecutive blocks at once.
#[derive(Clone, Debug, PartialEq)]
pub struct EncodedMultiblockProofPlonk {
    pub proven_blocks: u32,
    pub proof: EncodedProofPlonk,
}

/// The first cache entry with the given key, searching from `i`.
pub open spec fn find_power_from<T>(entries: Seq<(u32, T)>, key: u32, i: nat) -> Option<nat>
    decreases entries.len() - i,
{
    if i >= entries.len() {
        None
    } else if entries[i as int].0 == key {
        Some(i)
    } else {
        find_power_from(entries, key, i + 1)
    }
}

/// A cache of expensive setup artifacts, keyed by setup power, reused
/// across size classes. Held and passed explicitly; `take` removes the
/// entry so one artifact is in use at a time.
#[derive(Debug)]
pub struct UniversalSetupCache<T> {
    pub entries: Vec<(u32, T)>,
}

impl<T> UniversalSetupCache<T> {
    pub fn new() -> (r: Self)
        ensures
            r.entries@.len() == 0,
    {
        UniversalSetupCache { entries: Vec::new() }
    }

    /// Removes and returns the cached artifact for the given power, if any.
    pub fn take_setup_struct(&mut self, setup_power: u32) -> (r: Option<T>)
        ensures
            match find_power_from(old(self).entries@, setup_power, 0) {
                Some(i) => {
                    &&& r matches Some(v) && v == old(self).entries@[i as int].1
                    &&& final(self).entries@ == old(self).entries@.remove(i as int)
                },
                None => {
                    &&& r is None
                    &&& final(self).entries@ == old(self).entries@
                },
            },
    {
        let n = self.entries.len();
        let mut i: usize = 0;
        while i < n
            invariant
                n == self.entries@.len(),
                i <= n,
                forall|q: int| 0 <= q < i ==> (#[trigger] self.entries@[q]).0 != setup_power,
                find_power_from(self.entries@, setup_power, 0) == find_power_from(
                    self.entries@,
                    setup_power,
                    i as nat,
                ),
                self.entries@ == old(self).entries@,
            decreases n - i,
        {
            if self.entries[i].0 == setup_power {
                let (_power, value) = self.entries.remove(i);
                return Some(value);
            }
            i += 1;
        }
        None
    }

    /// Caches an artifact for the given power, replacing any previous one.
    pub fn put_setup_struct(&mut self, setup_power: u32, setup: T)
        ensures
            final(self).entries@ == (match find_power_from(old(self).entries@, setup_power, 0) {
                Some(i) => old(self).entries@.remove(i as int),
                None => old(self).entries@,
            }).push((setup_power, setup)),
    {
        let _previous = self.take_setup_struct(setup_power);
        self.entries.push((setup_power, setup));
    }
}

} // verus!
