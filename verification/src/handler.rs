//! An asset registry that files each asset under a random id, drawing a new
//! id from the next seed while the drawn one is taken.
//!
//! Opening the asset's file and reading the clock for the seed happen before
//! [`AssetHandler::add`] is called; downcasting a queried asset to its
//! concrete type happens after.
use vstd::prelude::*;
use std::collections::BTreeMap;
use crate::utils::{generate_random_number, btree_get_mut};

verus! {

/// An asset's id.
pub type Uid = u32;

pub struct AssetHandler<A> {
    pub assets: BTreeMap<Uid, A>,
}

impl<A> AssetHandler<A> {
    /// Creates an empty registry.
    pub fn new() -> (r: AssetHandler<A>)
        ensures
            r.assets@ == Map::<Uid, A>::empty(),
    {
        AssetHandler { assets: BTreeMap::new() }
    }

    /// Files `asset` under `uid` if that id is free; if it is taken, the
    /// registry is left as it was and `asset` is handed back.
    pub fn try_insert(&mut self, uid: Uid, asset: A) -> (r: Result<(), A>)
        ensures
            !old(self).assets@.contains_key(uid) ==> {
                &&& r is Ok
                &&& final(self).assets@ == old(self).assets@.insert(uid, asset)
            },
            old(self).assets@.contains_key(uid) ==> {
                &&& r == Err::<(), A>(asset)
                &&& final(self).assets@ == old(self).assets@
            },
    {
        if self.assets.contains_key(&uid) {
            Err(asset)
        } else {
            self.assets.insert(uid, asset);
            Ok(())
        }
    }

    /// Files `asset` under the id drawn from `seed`, or, while that id is
    /// taken, under the id drawn from the next seed.  The second result
    /// records each draw as a seed and the id it gave: the seeds run from
    /// `seed` upward one by one, every draw but the last gave a taken id, and
    /// the call succeeds with the last draw's id, which was free.  It fails
    /// only after drawing from every seed up to `u64::MAX`, leaving the
    /// registry unchanged.
    pub fn add(&mut self, seed: u64, asset: A) -> (r: (Result<Uid, &'static str>, Ghost<Seq<(u64, Uid)>>))
        ensures
            ({
                let draws = r.1@;
                &&& draws.len() >= 1
                &&& forall|i: int| 0 <= i < draws.len() ==> #[trigger] draws[i].0 == seed + i
                &&& forall|i: int|
                    0 <= i < draws.len() - 1 ==> old(self).assets@.contains_key(#[trigger] draws[i].1)
                &&& match r.0 {
                    Ok(uid) => {
                        &&& uid == draws.last().1
                        &&& !old(self).assets@.contains_key(uid)
                        &&& final(self).assets@ == old(self).assets@.insert(uid, asset)
                    },
                    Err(e) => {
                        &&& e == "No free asset id left to draw."
                        &&& draws.len() == u64::MAX - seed + 1
                        &&& old(self).assets@.contains_key(draws.last().1)
                        &&& final(self).assets@ == old(self).assets@
                    },
                }
            }),
    {
        let mut current = seed;
        let mut pending = asset;
        let ghost mut draws: Seq<(u64, Uid)> = Seq::empty();
        loop
            invariant
                seed <= current,
                self.assets@ == old(self).assets@,
                pending == asset,
                draws.len() == current - seed,
                forall|i: int| 0 <= i < draws.len() ==> #[trigger] draws[i].0 == seed + i,
                forall|i: int|
                    0 <= i < draws.len() ==> old(self).assets@.contains_key(#[trigger] draws[i].1),
            decreases u64::MAX - current,
        {
            let uid = generate_random_number(current);
            proof {
                draws = draws.push((current, uid));
            }
            match self.try_insert(uid, pending) {
                Ok(()) => {
                    return (Ok(uid), Ghost(draws));
                },
                Err(a) => {
                    pending = a;
                    if current == u64::MAX {
                        return (Err("No free asset id left to draw."), Ghost(draws));
                    }
                    current = current + 1;
                },
            }
        }
    }

    /// The asset filed under `uid`.
    pub fn query(&self, uid: Uid) -> (r: Result<&A, &'static str>)
        ensures
            match r {
                Ok(a) => self.assets@.contains_key(uid) && *a == self.assets@[uid],
                Err(e) => !self.assets@.contains_key(uid) && e == "Query failed to find asset.",
            },
    {
        match self.assets.get(&uid) {
            None => Err("Query failed to find asset."),
            Some(x) => Ok(x),
        }
    }

    /// The asset filed under `uid`, for changing it in place.
    pub fn query_mut(&mut self, uid: Uid) -> (r: Result<&mut A, &'static str>)
        ensures
            match r {
                Ok(a) => {
                    &&& old(self).assets@.contains_key(uid)
                    &&& *a == old(self).assets@[uid]
                    &&& final(self).assets@ == old(self).assets@.insert(uid, *final(a))
                },
                Err(e) => {
                    &&& !old(self).assets@.contains_key(uid)
                    &&& e == "Query failed to find asset"
                    &&& final(self).assets@ == old(self).assets@
                },
            },
    {
        match btree_get_mut(&mut self.assets, &uid) {
            None => Err("Query failed to find asset"),
            Some(x) => Ok(x),
        }
    }
}

/// Law: an asset just filed under `uid` is what a query of `uid` finds, and
/// a query of any other id finds what it found before.
pub proof fn law_query_after_add<A>(assets: Map<Uid, A>, uid: Uid, asset: A, other: Uid)
    ensures
        assets.insert(uid, asset).contains_key(uid),
        assets.insert(uid, asset)[uid] == asset,
        other != uid ==> assets.insert(uid, asset).contains_key(other) == assets.contains_key(
            other,
        ),
        other != uid && assets.contains_key(other) ==> assets.insert(uid, asset)[other]
            == assets[other],
{
}

} // verus!
