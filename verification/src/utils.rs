//! A seeded pseudo-random number, from which asset ids are drawn, and
//! in-place access to a map entry.
use vstd::prelude::*;
use rand::rngs::SmallRng;
use rand::RngCore;
use rand::SeedableRng;
use std::collections::BTreeMap;

verus! {

/// Draws one `u32` from `rand`'s `SmallRng` seeded by `seed`
/// (`SmallRng::seed_from_u64`, then `RngCore::next_u32`).  Nothing is stated
/// of the value: `SmallRng` is a different generator on 32-bit and on
/// 64-bit platforms, and `rand` documents it as not reproducible, so the
/// value is not a function of `seed` alone.
#[verifier::external_body]
pub fn generate_random_number(seed: u64) -> (r: u32) {
    let mut random = SmallRng::seed_from_u64(seed);
    random.next_u32()
}

/// `BTreeMap::get_mut`: a mutable reference to the value under `k`, if there
/// is one.  The contract claims what the std documentation says: the result
/// is `Some` exactly when the key is present, it refers to that key's value,
/// and writing through it changes that value and nothing else.
#[verifier::external_body]
pub(crate) fn btree_get_mut<'a, A>(m: &'a mut BTreeMap<u32, A>, k: &u32) -> (r: Option<&'a mut A>)
    ensures
        match r {
            Some(v) => {
                &&& old(m)@.contains_key(*k)
                &&& *v == old(m)@[*k]
                &&& final(m)@ == old(m)@.insert(*k, *final(v))
            },
            None => !old(m)@.contains_key(*k) && final(m)@ == old(m)@,
        },
{
    m.get_mut(k)
}

} // verus!
