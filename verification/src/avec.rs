//! `AVec<T>`: a growable vector whose capacity follows an explicit policy.
//!
//! Pushing onto an empty vector reserves four slots; pushing onto a full one
//! grows it by four more.  `reserve` rounds the request up to a multiple of
//! four, `reserve_exact` does not.  The elements are kept in order, and the
//! length never exceeds the capacity.
use vstd::prelude::*;
use vstd::layout::size_of;
use vstd::std_specs::cmp::PartialEqSpec;
use vstd::std_specs::cmp::PartialEqSpecImpl;

verus! {

/// `n` rounded up to the next multiple of four.
pub open spec fn round_up4(n: int) -> int {
    n + (4 - n % 4) % 4
}

/// Whether an allocation of `count` elements of `T`, aligned to 16 bytes,
/// is a valid layout (its byte size, rounded up to 16, fits in `isize`).
pub open spec fn layout_fits<T>(count: int) -> bool {
    size_of::<T>() * count <= isize::MAX - isize::MAX % 16
}

/// The capacity after `reserve(additional)` on a vector of capacity `cap`
/// holding `len` elements.
pub open spec fn reserved_capacity(cap: int, len: int, additional: int) -> int {
    if cap == 0 {
        round_up4(additional)
    } else if cap - len > additional {
        cap
    } else {
        cap + round_up4(additional)
    }
}

/// The capacity after `reserve_exact(additional)`.
pub open spec fn reserved_exact_capacity(cap: int, len: int, additional: int) -> int {
    if cap == 0 {
        additional
    } else if cap - len > additional {
        cap
    } else {
        cap + additional
    }
}

/// The capacity after one `push`.
pub open spec fn pushed_capacity(cap: int, len: int) -> int {
    if cap == 0 {
        4
    } else if len < cap {
        cap
    } else {
        cap + 4
    }
}

/// The inputs on which `reserve(additional)` computes its sizes without
/// overflow and with valid layouts.
pub open spec fn can_reserve<T>(cap: int, len: int, additional: int) -> bool {
    (cap == 0 || cap - len <= additional) ==> {
        &&& reserved_capacity(cap, len, additional) <= usize::MAX
        &&& layout_fits::<T>(reserved_capacity(cap, len, additional))
    }
}

/// The inputs on which `reserve_exact(additional)` computes its sizes without
/// overflow and with valid layouts.  When it grows an allocated vector, the
/// size it asks for counts `additional` twice.
pub open spec fn can_reserve_exact<T>(cap: int, len: int, additional: int) -> bool {
    if cap == 0 {
        layout_fits::<T>(additional)
    } else if cap - len > additional {
        true
    } else {
        &&& cap + additional <= usize::MAX
        &&& layout_fits::<T>(cap + 2 * additional)
    }
}

/// The inputs on which `push` neither rejects a zero-sized element type nor
/// overflows its size computations.
pub open spec fn can_push<T>(cap: int, len: int) -> bool {
    &&& size_of::<T>() != 0
    &&& cap == 0 ==> layout_fits::<T>(4)
    &&& (cap != 0 && len >= cap) ==> layout_fits::<T>(cap + 4)
}

#[derive(Debug, Clone)]
pub struct AVec<T> {
    data: Vec<T>,
    capacity: usize,
}

impl<T> View for AVec<T> {
    type V = Seq<T>;

    closed spec fn view(&self) -> Seq<T> {
        self.data@
    }
}

impl<T> AVec<T> {
    /// The number of elements the vector has room for.
    pub closed spec fn cap(&self) -> nat {
        self.capacity as nat
    }

    /// The length never exceeds the capacity.
    pub closed spec fn wf(&self) -> bool {
        self.data@.len() <= self.capacity
    }

    /// A well-formed vector's length does not exceed its capacity.
    pub proof fn lemma_len_le_cap(&self)
        requires
            self.wf(),
        ensures
            self@.len() <= self.cap(),
    {
    }

    /// Creates a new, empty [`AVec<T>`] with no room reserved.
    pub fn new() -> (r: AVec<T>)
        ensures
            r.wf(),
            r@ == Seq::<T>::empty(),
            r.cap() == 0,
    {
        AVec { data: Vec::new(), capacity: 0 }
    }

    /// Creates an empty vector with room for exactly `capacity` elements.
    pub fn with_capacity(capacity: usize) -> (r: AVec<T>)
        requires
            layout_fits::<T>(capacity as int),
        ensures
            r.wf(),
            r@ == Seq::<T>::empty(),
            r.cap() == capacity,
    {
        AVec { data: Vec::with_capacity(capacity), capacity }
    }

    /// Makes room for `additional` more elements, rounding the growth up to a
    /// multiple of four.
    pub fn reserve(&mut self, additional: usize)
        requires
            old(self).wf(),
            can_reserve::<T>(old(self).cap() as int, old(self)@.len() as int, additional as int),
        ensures
            final(self).wf(),
            final(self)@ == old(self)@,
            final(self).cap() == reserved_capacity(
                old(self).cap() as int,
                old(self)@.len() as int,
                additional as int,
            ),
    {
        let len = self.data.len();
        if self.capacity == 0 {
            let size = additional + ((4 - additional % 4) % 4);
            self.data.reserve(size);
            self.capacity = size;
        } else if self.capacity - len > additional {
            return ;
        } else {
            let adj_add = additional + ((4 - additional % 4) % 4);
            let new_capacity = self.capacity + adj_add;
            self.data.reserve(new_capacity - len);
            self.capacity = new_capacity;
        }
    }

    /// Makes room for `additional` more elements, growing by exactly that
    /// many when it grows.
    pub fn reserve_exact(&mut self, additional: usize)
        requires
            old(self).wf(),
            can_reserve_exact::<T>(
                old(self).cap() as int,
                old(self)@.len() as int,
                additional as int,
            ),
        ensures
            final(self).wf(),
            final(self)@ == old(self)@,
            final(self).cap() == reserved_exact_capacity(
                old(self).cap() as int,
                old(self)@.len() as int,
                additional as int,
            ),
    {
        let len = self.data.len();
        if self.capacity == 0 {
            self.data.reserve(additional);
            self.capacity = additional;
        } else if self.capacity - len > additional {
            return ;
        } else {
            let new_capacity = self.capacity + additional;
            self.data.reserve(new_capacity - len);
            self.capacity = new_capacity;
        }
    }

    /// The element at `index`, if there is one.
    pub fn get(&self, index: usize) -> (r: Option<&T>)
        ensures
            match r {
                Some(x) => index < self@.len() && *x == self@[index as int],
                None => index >= self@.len(),
            },
    {
        if index >= self.data.len() {
            return None;
        }
        Some(&self.data[index])
    }

    /// Appends `value`, growing the capacity by four when the vector is full.
    pub fn push(&mut self, value: T)
        requires
            old(self).wf(),
            can_push::<T>(old(self).cap() as int, old(self)@.len() as int),
        ensures
            final(self).wf(),
            final(self)@ == old(self)@.push(value),
            final(self).cap() == pushed_capacity(old(self).cap() as int, old(self)@.len() as int),
    {
        let len = self.data.len();
        if self.capacity == 0 {
            self.data.reserve(4);
            self.capacity = 4;
        } else if len < self.capacity {
        } else {
            proof {
                let ghost n: int = self.capacity + 4;
                assert(size_of::<T>() * n >= n) by (nonlinear_arith)
                    requires
                        size_of::<T>() >= 1,
                        n >= 0,
                ;
            }
            self.data.reserve(4);
            self.capacity = self.capacity + 4;
        }
        self.data.push(value);
    }

    /// Removes and returns the last element, if any.
    pub fn pop(&mut self) -> (r: Option<T>)
        requires
            old(self).wf(),
        ensures
            final(self).wf(),
            final(self).cap() == old(self).cap(),
            old(self)@.len() == 0 ==> r is None && final(self)@ == old(self)@,
            old(self)@.len() > 0 ==> r == Some(old(self)@.last()) && final(self)@
                == old(self)@.drop_last(),
    {
        self.data.pop()
    }

    /// Inserts `value` at `index`, shifting the later elements up.  A full
    /// vector first reserves room for one more element.
    pub fn insert(&mut self, index: usize, value: T)
        requires
            old(self).wf(),
            index <= old(self)@.len(),
            old(self)@.len() == old(self).cap() ==> can_reserve::<T>(
                old(self).cap() as int,
                old(self)@.len() as int,
                1,
            ),
        ensures
            final(self).wf(),
            final(self)@ == old(self)@.insert(index as int, value),
            final(self).cap() == if old(self)@.len() == old(self).cap() {
                reserved_capacity(old(self).cap() as int, old(self)@.len() as int, 1)
            } else {
                old(self).cap() as int
            },
    {
        if self.data.len() == self.capacity {
            self.reserve(1);
        }
        self.data.insert(index, value);
    }

    /// Removes and returns the element at `index`, shifting the later
    /// elements down.
    pub fn remove(&mut self, index: usize) -> (r: T)
        requires
            old(self).wf(),
            index < old(self)@.len(),
        ensures
            final(self).wf(),
            final(self).cap() == old(self).cap(),
            r == old(self)@[index as int],
            final(self)@ == old(self)@.remove(index as int),
    {
        self.data.remove(index)
    }

    /// Removes and returns the element at `index`, moving the last element
    /// into its place.
    pub fn swap_remove(&mut self, index: usize) -> (r: T)
        requires
            old(self).wf(),
            index < old(self)@.len(),
        ensures
            final(self).wf(),
            final(self).cap() == old(self).cap(),
            r == old(self)@[index as int],
            final(self)@ == old(self)@.update(index as int, old(self)@.last()).drop_last(),
    {
        self.data.swap_remove(index)
    }

    /// The number of elements.
    pub fn len(&self) -> (r: usize)
        ensures
            r == self@.len(),
    {
        self.data.len()
    }

    /// The number of elements the vector has room for.
    pub fn capacity(&self) -> (r: usize)
        ensures
            r == self.cap(),
    {
        self.capacity
    }

    /// The elements, in order.
    pub fn as_slice(&self) -> (r: &[T])
        ensures
            r@ == self@,
    {
        self.data.as_slice()
    }

    /// Overwrites the element at `index`, as a write through the mutable
    /// slice of the elements does.
    pub fn set(&mut self, index: usize, value: T)
        requires
            old(self).wf(),
            index < old(self)@.len(),
        ensures
            final(self).wf(),
            final(self).cap() == old(self).cap(),
            final(self)@ == old(self)@.update(index as int, value),
    {
        self.data.set(index, value);
    }
}

impl<T: Copy> AVec<T> {
    /// Builds a vector by pushing the elements of `value` in order.
    pub fn from_slice(value: &[T]) -> (r: AVec<T>)
        requires
            size_of::<T>() != 0,
            layout_fits::<T>(round_up4(value@.len() as int)),
        ensures
            r.wf(),
            r@ == value@,
            r.cap() == round_up4(value@.len() as int),
    {
        let mut r: AVec<T> = AVec::new();
        let mut i: usize = 0;
        while i < value.len()
            invariant
                0 <= i <= value@.len(),
                r.wf(),
                r@ == value@.subrange(0, i as int),
                r.cap() == round_up4(i as int),
                size_of::<T>() != 0,
                layout_fits::<T>(round_up4(value@.len() as int)),
            decreases value@.len() - i,
        {
            proof {
                lemma_round_up4_step(i as int);
                lemma_round_up4_monotone(i as int + 1, value@.len() as int);
                if r.cap() != 0 && r@.len() >= r.cap() {
                    lemma_layout_fits_monotone::<T>(r.cap() as int + 4, round_up4(value@.len() as int));
                }
                if r.cap() == 0 {
                    lemma_layout_fits_monotone::<T>(4, round_up4(value@.len() as int));
                }
            }
            r.push(value[i]);
            i = i + 1;
            assert(r@ =~= value@.subrange(0, i as int));
        }
        assert(value@.subrange(0, value@.len() as int) =~= value@);
        r
    }
}

impl<T> core::ops::Deref for AVec<T> {
    type Target = [T];

    fn deref(&self) -> (r: &[T])
        ensures
            r@ == self@,
    {
        self.data.as_slice()
    }
}

impl<T: PartialEq> PartialEq for AVec<T> {
    fn ne(&self, other: &Self) -> (r: bool) {
        !self.eq(other)
    }

    fn eq(&self, other: &Self) -> (r: bool) {
        if self.data.len() != other.data.len() {
            return false;
        }
        let mut r = true;
        let mut i: usize = 0;
        while i < self.data.len()
            invariant
                0 <= i <= self@.len(),
                self@.len() == other@.len(),
                <T as PartialEqSpec>::obeys_eq_spec() ==> (r <==> forall|j: int|
                    0 <= j < i ==> #[trigger] self@[j].eq_spec(&other@[j])),
            decreases self@.len() - i,
        {
            if self.data[i] != other.data[i] {
                r = false;
            }
            i = i + 1;
        }
        r
    }
}

impl<T: PartialEq> PartialEqSpecImpl for AVec<T> {
    open spec fn obeys_eq_spec() -> bool {
        <T as PartialEqSpec>::obeys_eq_spec()
    }

    open spec fn eq_spec(&self, other: &AVec<T>) -> bool {
        &&& self@.len() == other@.len()
        &&& forall|i: int| 0 <= i < self@.len() ==> #[trigger] self@[i].eq_spec(&other@[i])
    }
}

/// Rounding up to four adds at most three, and one more element needs at
/// most four more slots.
pub proof fn lemma_round_up4_step(n: int)
    requires
        n >= 0,
    ensures
        n <= round_up4(n) <= n + 3,
        round_up4(n) % 4 == 0,
        round_up4(n + 1) == if n % 4 == 0 { n + 4 } else { round_up4(n) },
{
}

/// Rounding up to four is monotone.
pub proof fn lemma_round_up4_monotone(a: int, b: int)
    requires
        0 <= a <= b,
    ensures
        round_up4(a) <= round_up4(b),
{
}

/// A layout that fits for `b` elements fits for fewer.
pub proof fn lemma_layout_fits_monotone<T>(a: int, b: int)
    requires
        0 <= a <= b,
        layout_fits::<T>(b),
    ensures
        layout_fits::<T>(a),
{
    assert(size_of::<T>() * a <= size_of::<T>() * b) by (nonlinear_arith)
        requires
            0 <= a <= b,
    ;
}

/// The capacity of a new vector after `n` pushes.
pub open spec fn capacity_after_pushes(n: nat) -> int
    decreases n,
{
    if n == 0 {
        0
    } else {
        pushed_capacity(capacity_after_pushes((n - 1) as nat), n - 1)
    }
}

/// Law: after `n` pushes onto a new vector, its capacity is `n` rounded up
/// to a multiple of four (so 200 pushes give 200, and 5 give 8), and the
/// length never exceeds it.
pub proof fn law_capacity_after_pushes(n: nat)
    ensures
        capacity_after_pushes(n) == round_up4(n as int),
        n <= capacity_after_pushes(n),
    decreases n,
{
    if n > 0 {
        law_capacity_after_pushes((n - 1) as nat);
        lemma_round_up4_step(n - 1);
    }
}

/// Law: `reserve(additional)` and `reserve_exact(additional)` leave room
/// for at least `additional` more elements, and neither shrinks the
/// capacity; neither does a push, after which the length still fits.
pub proof fn law_reserve_makes_room(cap: int, len: int, additional: int)
    requires
        0 <= len <= cap,
        additional >= 0,
    ensures
        reserved_capacity(cap, len, additional) - len >= additional,
        reserved_exact_capacity(cap, len, additional) - len >= additional,
        reserved_capacity(cap, len, additional) >= cap,
        reserved_exact_capacity(cap, len, additional) >= cap,
        pushed_capacity(cap, len) >= cap,
        pushed_capacity(cap, len) >= len + 1,
{
    lemma_round_up4_step(additional);
}

/// Law: popping right after a push gives back the pushed value and the
/// earlier contents (`pop` keeps the capacity).
pub proof fn law_pop_undoes_push<T>(s: Seq<T>, x: T)
    ensures
        s.push(x).len() > 0,
        s.push(x).last() == x,
        s.push(x).drop_last() == s,
{
    assert(s.push(x).drop_last() =~= s);
}

/// Law: removing at the index just inserted at gives back the inserted
/// value and the earlier contents.
pub proof fn law_remove_undoes_insert<T>(s: Seq<T>, i: int, x: T)
    requires
        0 <= i <= s.len(),
    ensures
        s.insert(i, x)[i] == x,
        s.insert(i, x).remove(i) == s,
{
    assert(s.insert(i, x).remove(i) =~= s);
}

/// Law: `swap_remove` and `remove` take out the same element and leave the
/// same elements behind, as a multiset.
pub proof fn law_swap_remove_keeps_the_rest<T>(s: Seq<T>, i: int)
    requires
        0 <= i < s.len(),
    ensures
        s.update(i, s.last()).drop_last().to_multiset() == s.remove(i).to_multiset(),
{
    broadcast use vstd::seq_lib::group_to_multiset_ensures;
    let n = s.len() - 1;
    if i == n {
        assert(s.update(i, s.last()).drop_last() =~= s.remove(i));
    } else {
        let t = s.remove(i);
        let u = s.update(i, s.last()).drop_last();
        assert(u =~= t.insert(i, s.last()).drop_last());
        assert(t =~= t.drop_last().push(s.last()));
        assert(t.insert(i, s.last()).drop_last() =~= t.drop_last().insert(i, s.last()));
        assert(t.drop_last().insert(i, s.last()).to_multiset() =~= t.drop_last().to_multiset().insert(s.last()));
        assert(t.drop_last().push(s.last()).to_multiset() =~= t.drop_last().to_multiset().insert(s.last()));
    }
}

} // verus!
