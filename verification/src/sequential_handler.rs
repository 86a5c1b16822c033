//! An asset registry that files each asset under the first free id at or
//! after a random one.
//!
//! Reading the clock for the seed and opening the asset's file happen before
//! [`AssetHandler::add`] is called; downcasting a queried asset happens after.
use vstd::prelude::*;
use std::collections::BTreeMap;
use crate::utils::{generate_random_number, btree_get_mut};

verus! {

/// An asset's id.
pub type Uid = u32;

pub struct AssetHandler<A> {
    pub assets: BTreeMap<Uid, A>,
}

impl<A> AssetHandler<A> {
    /// Creates an empty registry.
    pub fn new() -> (r: AssetHandler<A>)
        ensures
            r.assets@ == Map::<Uid, A>::empty(),
    {
        AssetHandler { assets: BTreeMap::new() }
    }

    /// Files `asset` under the smallest free id at or after `start`.  When
    /// every id from `start` up to `u32::MAX` is taken, nothing changes and
    /// the result is an error.
    pub fn add_from(&mut self, start: Uid, asset: A) -> (r: Result<Uid, &'static str>)
        ensures
            match r {
                Ok(uid) => {
                    &&& start <= uid
                    &&& !old(self).assets@.contains_key(uid)
                    &&& forall|u: Uid| start <= u < uid ==> old(self).assets@.contains_key(u)
                    &&& final(self).assets@ == old(self).assets@.insert(uid, asset)
                },
                Err(e) => {
                    &&& e == "No free asset id left."
                    &&& forall|u: Uid| start <= u ==> old(self).assets@.contains_key(u)
                    &&& final(self).assets@ == old(self).assets@
                },
            },
    {
        let mut uid = start;
        while self.assets.contains_key(&uid)
            invariant
                start <= uid,
                self.assets@ == old(self).assets@,
                forall|u: Uid| start <= u < uid ==> old(self).assets@.contains_key(u),
            decreases u32::MAX - uid,
        {
            if uid == u32::MAX {
                return Err("No free asset id left.");
            }
            uid = uid + 1;
        }
        self.assets.insert(uid, asset);
        Ok(uid)
    }

    /// Files `asset` under the first free id at or after the id drawn from
    /// `seed`; see [`AssetHandler::add_from`].  Whatever id is drawn, a
    /// success files the asset under an id that was free and leaves every
    /// other entry alone.
    pub fn add(&mut self, seed: u64, asset: A) -> (r: Result<Uid, &'static str>)
        ensures
            match r {
                Ok(uid) => {
                    &&& !old(self).assets@.contains_key(uid)
                    &&& final(self).assets@ == old(self).assets@.insert(uid, asset)
                },
                Err(e) => {
                    &&& e == "No free asset id left."
                    &&& old(self).assets@.contains_key(u32::MAX)
                    &&& final(self).assets@ == old(self).assets@
                },
            },
    {
        let start = generate_random_number(seed);
        self.add_from(start, asset)
    }

    /// The asset filed under `uid`.
    pub fn query(&self, uid: Uid) -> (r: Result<&A, &'static str>)
        ensures
            match r {
                Ok(a) => self.assets@.contains_key(uid) && *a == self.assets@[uid],
                Err(e) => !self.assets@.contains_key(uid) && e == "Query failed to find asset.",
            },
    {
        match self.assets.get(&uid) {
            None => Err("Query failed to find asset."),
            Some(x) => Ok(x),
        }
    }

    /// The asset filed under `uid`, for changing it in place.
    pub fn query_mut(&mut self, uid: Uid) -> (r: Result<&mut A, &'static str>)
        ensures
            match r {
                Ok(a) => {
                    &&& old(self).assets@.contains_key(uid)
                    &&& *a == old(self).assets@[uid]
                    &&& final(self).assets@ == old(self).assets@.insert(uid, *final(a))
                },
                Err(e) => {
                    &&& !old(self).assets@.contains_key(uid)
                    &&& e == "Query failed to find asset"
                    &&& final(self).assets@ == old(self).assets@
                },
            },
    {
        match btree_get_mut(&mut self.assets, &uid) {
            None => Err("Query failed to find asset"),
            Some(x) => Ok(x),
        }
    }
}

} // verus!
