//! `ABump`: a byte store that grows by appending named chunks.
//!
//! Every chunk's bytes go to the end of one [`AVec<u8>`]; a table maps each
//! chunk's name to an [`Element`] that records a position in the store and
//! the chunk's size.  Appending under a name that is already present replaces
//! that name's entry.
use vstd::prelude::*;
use crate::avec::{AVec, can_reserve_exact, reserved_exact_capacity};

verus! {

/// A position in the store and a size.
#[derive(Debug, Clone, Copy)]
pub struct Element(usize, usize);

impl View for Element {
    type V = (usize, usize);

    closed spec fn view(&self) -> (usize, usize) {
        (self.0, self.1)
    }
}

impl Element {
    /// The size of the chunk.
    pub fn size(&self) -> (r: usize)
        ensures
            r == self@.1,
    {
        self.1
    }

    /// The chunk's recorded position, as an offset from the start of the store.
    pub fn pointer(&self) -> (r: usize)
        ensures
            r == self@.0,
    {
        self.0
    }
}

#[derive(Debug, Clone)]
pub struct ABump {
    data: AVec<u8>,
    meta: Vec<(String, Element)>,
}

impl ABump {
    /// The store is well formed and no name has two entries.
    pub closed spec fn wf(&self) -> bool {
        &&& self.data.wf()
        &&& forall|i: int, j: int|
            0 <= i < j < self.meta@.len() ==> #[trigger] self.meta@[i].0@ != #[trigger] self.meta@[j].0@
    }

    /// The bytes appended so far, in order.
    pub closed spec fn bytes(&self) -> Seq<u8> {
        self.data@
    }

    /// The capacity of the underlying byte vector.
    pub closed spec fn cap(&self) -> nat {
        self.data.cap()
    }

    /// The number of entries in the table.
    pub closed spec fn entry_count(&self) -> nat {
        self.meta@.len()
    }

    /// Whether `name` has an entry.
    pub closed spec fn has_entry(&self, name: Seq<char>) -> bool {
        exists|i: int| 0 <= i < self.meta@.len() && #[trigger] self.meta@[i].0@ == name
    }

    /// The position and size recorded for `name`, if it has an entry.
    pub closed spec fn lookup(&self, name: Seq<char>) -> Option<(usize, usize)> {
        if self.has_entry(name) {
            let i = choose|i: int| 0 <= i < self.meta@.len() && #[trigger] self.meta@[i].0@ == name;
            Some(self.meta@[i].1@)
        } else {
            None
        }
    }

    proof fn lemma_lookup_at(&self, i: int)
        requires
            self.wf(),
            0 <= i < self.meta@.len(),
        ensures
            self.has_entry(self.meta@[i].0@),
            self.lookup(self.meta@[i].0@) == Some(self.meta@[i].1@),
    {
        let name = self.meta@[i].0@;
        assert(self.meta@[i].0@ == name);
        let j = choose|j: int| 0 <= j < self.meta@.len() && #[trigger] self.meta@[j].0@ == name;
        if j < i {
            assert(self.meta@[j].0@ != self.meta@[i].0@);
        } else if i < j {
            assert(self.meta@[i].0@ != self.meta@[j].0@);
        }
    }

    /// A name has an entry exactly when a lookup of it finds one.
    pub proof fn lemma_has_entry_iff_lookup(&self, name: Seq<char>)
        ensures
            self.has_entry(name) <==> self.lookup(name) is Some,
    {
    }

    /// The names that have an entry.
    pub closed spec fn names(&self) -> Set<Seq<char>> {
        Set::new(|name: Seq<char>| self.has_entry(name))
    }

    /// Law: the number of entries is the number of distinct names that have
    /// one.
    pub proof fn law_entry_count_is_distinct_names(&self)
        requires
            self.wf(),
        ensures
            self.names().finite(),
            self.entry_count() == self.names().len(),
    {
        let s = self.meta@.map_values(|e: (String, Element)| e.0@);
        assert(s.no_duplicates()) by {
            assert forall|i: int, j: int| 0 <= i < s.len() && 0 <= j < s.len() && i != j implies s[i] != s[j] by {
                if i < j {
                    assert(self.meta@[i].0@ != self.meta@[j].0@);
                } else {
                    assert(self.meta@[j].0@ != self.meta@[i].0@);
                }
            }
        }
        s.unique_seq_to_set();
        assert forall|name: Seq<char>| self.names().contains(name) <==> s.to_set().contains(name) by {
            if self.has_entry(name) {
                let i = choose|i: int| 0 <= i < self.meta@.len() && #[trigger] self.meta@[i].0@ == name;
                assert(s[i] == name);
            }
            if s.to_set().contains(name) {
                let i = choose|i: int| 0 <= i < s.len() && s[i] == name;
                assert(self.meta@[i].0@ == name);
            }
        }
        assert(self.names() =~= s.to_set());
    }

    /// Law: the bytes appended so far never exceed the capacity.
    pub proof fn law_bytes_fit_capacity(&self)
        requires
            self.wf(),
        ensures
            self.bytes().len() <= self.cap(),
    {
        self.data.lemma_len_le_cap();
    }

    /// Creates an empty store.
    pub fn new() -> (r: ABump)
        ensures
            r.wf(),
            r.bytes() == Seq::<u8>::empty(),
            r.cap() == 0,
            r.entry_count() == 0,
            forall|name: Seq<char>|
                #![trigger r.has_entry(name)]
                #![trigger r.lookup(name)]
                !r.has_entry(name) && r.lookup(name) is None,
            r.names() == Set::<Seq<char>>::empty(),
    {
        let r = ABump { meta: Vec::new(), data: AVec::new() };
        assert(r.names() =~= Set::<Seq<char>>::empty());
        r
    }

    /// Appends `bytes` to the store under `name`, after reserving room for
    /// them exactly, and returns the number of entries.  The entry records
    /// the position `bytes.len()` from the start of the store, and the size
    /// `bytes.len()`.
    pub fn append(&mut self, name: String, bytes: &[u8]) -> (r: Result<usize, String>)
        requires
            old(self).wf(),
            can_reserve_exact::<u8>(
                old(self).cap() as int,
                old(self).bytes().len() as int,
                bytes@.len() as int,
            ),
        ensures
            final(self).wf(),
            r == Ok::<usize, String>(final(self).entry_count() as usize),
            final(self).bytes() == old(self).bytes() + bytes@,
            final(self).cap() == reserved_exact_capacity(
                old(self).cap() as int,
                old(self).bytes().len() as int,
                bytes@.len() as int,
            ),
            final(self).lookup(name@) == Some((bytes@.len() as usize, bytes@.len() as usize)),
            forall|other: Seq<char>| other != name@ ==> final(self).lookup(other) == old(self).lookup(other),
            final(self).has_entry(name@),
            forall|other: Seq<char>|
                other != name@ ==> final(self).has_entry(other) == old(self).has_entry(other),
            final(self).names() == old(self).names().insert(name@),
            final(self).entry_count() == old(self).entry_count() + if old(self).has_entry(name@) {
                0int
            } else {
                1int
            },
    {
        broadcast use vstd::layout::layout_of_primitives;

        let size = bytes.len();
        self.data.reserve_exact(size);
        proof {
            old(self).data.lemma_len_le_cap();
            crate::avec::law_reserve_makes_room(
                old(self).cap() as int,
                old(self).bytes().len() as int,
                size as int,
            );
        }
        let ghost start = self.data@;
        let mut k: usize = 0;
        while k < size
            invariant
                0 <= k <= size,
                size == bytes@.len(),
                self.data.wf(),
                self.data@ == start + bytes@.subrange(0, k as int),
                self.data.cap() - start.len() >= size,
                self.data.cap() == reserved_exact_capacity(
                    old(self).cap() as int,
                    old(self).bytes().len() as int,
                    size as int,
                ),
                self.meta == old(self).meta,
                start == old(self).bytes(),
            decreases size - k,
        {
            self.data.push(bytes[k]);
            k = k + 1;
            assert(self.data@ =~= start + bytes@.subrange(0, k as int));
        }
        assert(bytes@.subrange(0, size as int) =~= bytes@);

        let e = Element(size, size);
        let mut i: usize = 0;
        let mut found = false;
        while i < self.meta.len()
            invariant_except_break
                !found,
            invariant
                0 <= i <= self.meta@.len(),
                self.meta == old(self).meta,
                forall|j: int| 0 <= j < i ==> #[trigger] self.meta@[j].0@ != name@,
            ensures
                i <= self.meta@.len(),
                found ==> i < self.meta@.len() && self.meta@[i as int].0@ == name@,
                !found ==> forall|j: int| 0 <= j < self.meta@.len() ==> #[trigger] self.meta@[j].0@ != name@,
            decreases self.meta@.len() - i,
        {
            if self.meta[i].0 == name {
                found = true;
                break;
            }
            i = i + 1;
        }
        let ghost old_meta = self.meta@;
        if found {
            self.meta[i] = (name, e);
            proof {
                assert(old(self).has_entry(name@)) by {
                    assert(old(self).meta@[i as int].0@ == name@);
                }
                assert forall|a: int, b: int|
                    0 <= a < b < self.meta@.len() implies #[trigger] self.meta@[a].0@ != #[trigger] self.meta@[b].0@ by {
                    assert(old_meta[a].0@ != old_meta[b].0@);
                }
                self.lemma_lookup_at(i as int);
                assert forall|other: Seq<char>| other != name@ implies self.lookup(other) == old(self).lookup(other) by {
                    if old(self).has_entry(other) {
                        let j = choose|j: int| 0 <= j < old_meta.len() && #[trigger] old_meta[j].0@ == other;
                        old(self).lemma_lookup_at(j);
                        self.lemma_lookup_at(j);
                    } else {
                        if self.has_entry(other) {
                            let j = choose|j: int| 0 <= j < self.meta@.len() && #[trigger] self.meta@[j].0@ == other;
                            assert(old_meta[j].0@ == other);
                        }
                    }
                }
            }
        } else {
            self.meta.push((name, e));
            proof {
                assert(!old(self).has_entry(name@));
                let n = old_meta.len() as int;
                self.lemma_lookup_at(n);
                assert forall|other: Seq<char>| other != name@ implies self.lookup(other) == old(self).lookup(other) by {
                    if old(self).has_entry(other) {
                        let j = choose|j: int| 0 <= j < old_meta.len() && #[trigger] old_meta[j].0@ == other;
                        old(self).lemma_lookup_at(j);
                        assert(self.meta@[j] == old_meta[j]);
                        self.lemma_lookup_at(j);
                    } else {
                        if self.has_entry(other) {
                            let j = choose|j: int| 0 <= j < self.meta@.len() && #[trigger] self.meta@[j].0@ == other;
                            if j < n {
                                assert(old_meta[j].0@ == other);
                            }
                        }
                    }
                }
            }
        }
        proof {
            assert forall|other: Seq<char>| other != name@ implies self.has_entry(other) == old(
                self,
            ).has_entry(other) by {
                self.lemma_has_entry_iff_lookup(other);
                old(self).lemma_has_entry_iff_lookup(other);
            }
            self.lemma_has_entry_iff_lookup(name@);
            assert(self.names() =~= old(self).names().insert(name@));
        }
        Ok(self.meta.len())
    }

    /// The position and size recorded for `name`, if it has an entry.
    pub fn get(&mut self, name: &String) -> (r: Option<(usize, usize)>)
        requires
            old(self).wf(),
        ensures
            *final(self) == *old(self),
            r == old(self).lookup(name@),
    {
        let mut i: usize = 0;
        while i < self.meta.len()
            invariant
                0 <= i <= self.meta@.len(),
                self.wf(),
                forall|j: int| 0 <= j < i ==> #[trigger] self.meta@[j].0@ != name@,
            decreases self.meta@.len() - i,
        {
            if self.meta[i].0 == *name {
                proof {
                    self.lemma_lookup_at(i as int);
                }
                let e = &self.meta[i].1;
                return Some((e.pointer(), e.size()));
            }
            i = i + 1;
        }
        None
    }

    /// The number of entries.
    pub fn len(&self) -> (r: usize)
        ensures
            r == self.entry_count(),
    {
        self.meta.len()
    }

    /// The capacity of the underlying byte vector.
    pub fn capacity(&self) -> (r: usize)
        ensures
            r == self.cap(),
    {
        self.data.capacity()
    }

    /// The bytes appended so far, which the recorded positions refer to.
    pub fn as_slice(&self) -> (r: &[u8])
        ensures
            r@ == self.bytes(),
    {
        self.data.as_slice()
    }

    /// The number of bytes appended so far.
    pub fn raw_len(&self) -> (r: usize)
        ensures
            r == self.bytes().len(),
    {
        self.data.len()
    }
}

} // verus!
