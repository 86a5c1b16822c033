//! An asset registry that records each asset with its file path and id,
//! filing it under the id drawn from the seed (an asset already there is
//! replaced), next to a byte store for the assets' data.
//!
//! Reading the clock for the seed and opening the asset's file happen before
//! [`AssetHandler::add`] is called; loading an asset's data and downcasting
//! a queried asset happen outside.
use vstd::prelude::*;
use std::collections::BTreeMap;
use crate::abump::ABump;
use crate::utils::{generate_random_number, btree_get_mut};

verus! {

/// An asset's id.
pub type Uid = u32;

struct AssetRef<A> {
    file_path: String,
    uuid: Uid,
    asset: A,
}

pub struct AssetHandler<A> {
    length: usize,
    assets: BTreeMap<Uid, AssetRef<A>>,
    assets_data: ABump,
}

impl<A> AssetHandler<A> {
    /// Each entry: the asset's file path, its recorded id, and the asset.
    pub closed spec fn entries(&self) -> Map<Uid, (Seq<char>, Uid, A)> {
        self.assets@.map_values(|r: AssetRef<A>| (r.file_path@, r.uuid, r.asset))
    }

    /// The count that [`AssetHandler::len`] reports.
    pub closed spec fn count(&self) -> usize {
        self.length
    }

    /// The byte store kept for the assets' data.
    pub closed spec fn store(&self) -> ABump {
        self.assets_data
    }

    /// Creates an empty registry with an empty byte store and a count of 0.
    pub fn new() -> (r: AssetHandler<A>)
        ensures
            r.entries() == Map::<Uid, (Seq<char>, Uid, A)>::empty(),
            r.count() == 0,
            r.store().wf(),
            r.store().entry_count() == 0,
            r.store().bytes() == Seq::<u8>::empty(),
    {
        let r = AssetHandler { length: 0, assets: BTreeMap::new(), assets_data: ABump::new() };
        assert(r.entries() =~= Map::<Uid, (Seq<char>, Uid, A)>::empty());
        r
    }

    /// The count kept by the registry; adding an asset does not change it.
    pub fn len(&self) -> (r: usize)
        ensures
            r == self.count(),
    {
        self.length
    }

    /// Files `asset`, with `filepath`, under the id drawn from `seed`,
    /// replacing whatever was filed there.  It always succeeds.
    pub fn add(&mut self, seed: u64, filepath: &str, asset: A) -> (r: Result<Uid, &'static str>)
        ensures
            r matches Ok(uid) && final(self).entries() == old(self).entries().insert(
                uid,
                (filepath@, uid, asset),
            ),
            final(self).count() == old(self).count(),
            final(self).store() == old(self).store(),
    {
        let uid = generate_random_number(seed);
        self.add_at(uid, filepath, asset);
        Ok(uid)
    }

    /// Files `asset`, with `filepath`, under the drawn id `uid`, replacing
    /// whatever was filed there.
    pub fn add_at(&mut self, uid: Uid, filepath: &str, asset: A)
        ensures
            final(self).entries() == old(self).entries().insert(uid, (filepath@, uid, asset)),
            final(self).count() == old(self).count(),
            final(self).store() == old(self).store(),
    {
        let aref = AssetRef { file_path: filepath.to_string(), uuid: uid, asset };
        let _ = self.assets.insert(uid, aref);
        proof {
            assert(self.entries() =~= old(self).entries().insert(uid, (filepath@, uid, asset)));
        }
    }

    /// The asset filed under `uid`.
    pub fn query(&self, uid: Uid) -> (r: Result<&A, &'static str>)
        ensures
            match r {
                Ok(a) => self.entries().contains_key(uid) && *a == self.entries()[uid].2,
                Err(e) => !self.entries().contains_key(uid) && e == "Query failed to find asset.",
            },
    {
        match self.assets.get(&uid) {
            None => Err("Query failed to find asset."),
            Some(x) => Ok(&x.asset),
        }
    }

    /// The asset filed under `uid`, for changing it in place.
    pub fn query_mut(&mut self, uid: Uid) -> (r: Result<&mut A, &'static str>)
        ensures
            match r {
                Ok(a) => {
                    &&& old(self).entries().contains_key(uid)
                    &&& *a == old(self).entries()[uid].2
                    &&& final(self).entries() == old(self).entries().insert(
                        uid,
                        (old(self).entries()[uid].0, old(self).entries()[uid].1, *final(a)),
                    )
                },
                Err(e) => {
                    &&& !old(self).entries().contains_key(uid)
                    &&& e == "Query failed to find asset"
                    &&& final(self).entries() == old(self).entries()
                },
            },
            final(self).count() == old(self).count(),
            final(self).store() == old(self).store(),
    {
        match btree_get_mut(&mut self.assets, &uid) {
            None => Err("Query failed to find asset"),
            Some(x) => Ok(&mut x.asset),
        }
    }
}

/// Law: two assets filed one after the other under different ids are both
/// kept, each with its own path and id; filed under the same id, the later
/// one replaces the earlier.
pub proof fn law_two_adds<A>(
    entries: Map<Uid, (Seq<char>, Uid, A)>,
    u1: Uid,
    p1: Seq<char>,
    a1: A,
    u2: Uid,
    p2: Seq<char>,
    a2: A,
)
    ensures
        ({
            let after = entries.insert(u1, (p1, u1, a1)).insert(u2, (p2, u2, a2));
            &&& after.contains_key(u1) && after.contains_key(u2)
            &&& after[u2] == (p2, u2, a2)
            &&& u1 != u2 ==> after[u1] == (p1, u1, a1)
            &&& u1 == u2 ==> after[u1] == (p2, u2, a2)
        }),
{
}

} // verus!
