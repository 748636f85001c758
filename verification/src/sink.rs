use vstd::prelude::*;

verus! {

/// A destination that a snapshot of the ring is copied into.
///
/// `Vec<T>` grows as values arrive; a slice or an array has a fixed room and
/// receives value `i` of a snapshot at index `i`.
pub trait Sink {
    type Item: Copy;

    /// What the sink holds.
    spec fn items(&self) -> Seq<Self::Item>;

    /// The number `len` reports.
    spec fn reported_len(&self) -> nat;

    /// `Some(room)` for a sink that cannot grow and holds exactly `room` places;
    /// `None` for a sink that grows on demand.
    spec fn fixed_room(&self) -> Option<nat>;

    /// What the sink holds after `push(value, index)`, given what it held before.
    spec fn pushed(items: Seq<Self::Item>, value: Self::Item, index: int) -> Seq<Self::Item>;

    /// Whether `after` may be what the sink holds after `truncate(len)`, given `before`.
    spec fn truncation(before: Seq<Self::Item>, len: int, after: Seq<Self::Item>) -> bool;

    /// The current length of the sink: for a `Vec`, its length; for a slice or
    /// an array, the length of the slice or array.
    fn len(&self) -> (r: usize)
        ensures
            r == self.reported_len(),
    ;

    /// The room left in the sink.
    fn remain(&self) -> (r: usize)
        ensures
            self.fixed_room() matches Some(room) ==> r == room,
    ;

    /// Makes room for `additional` more values; only a growing sink allows it.
    fn reserve(&mut self, additional: usize)
        requires
            old(self).fixed_room() is None,
        ensures
            final(self).items() == old(self).items(),
            final(self).fixed_room() == old(self).fixed_room(),
    ;

    /// Drops what lies at or past `len`; a sink of fixed room cannot be cut
    /// past its end.
    fn truncate(&mut self, len: usize)
        requires
            old(self).fixed_room() is Some ==> len <= old(self).items().len(),
        ensures
            Self::truncation(old(self).items(), len as int, final(self).items()),
            final(self).fixed_room() == old(self).fixed_room(),
    ;

    /// Receives `value` as the `index`-th value of a snapshot.
    fn push(&mut self, value: Self::Item, index: usize)
        requires
            old(self).fixed_room() matches Some(room) ==> index < room,
        ensures
            final(self).items() == Self::pushed(old(self).items(), value, index as int),
            final(self).fixed_room() == old(self).fixed_room(),
    ;
}

/// What a sink holding `items` holds after receiving `vals[0]`, `vals[1]`, ...
/// at indices 0, 1, ...
pub open spec fn pushed_all<S: Sink + ?Sized>(items: Seq<S::Item>, vals: Seq<S::Item>) -> Seq<S::Item>
    decreases vals.len(),
{
    if vals.len() == 0 {
        items
    } else {
        S::pushed(pushed_all::<S>(items, vals.drop_last()), vals.last(), vals.len() - 1)
    }
}

/// Whether `v` is a value that `T::default()` may return.
pub open spec fn is_default<T: Default>(v: T) -> bool {
    call_ensures(T::default, (), v)
}

/// `Vec::capacity`, which is never below the length.
#[verifier::external_body]
fn vec_capacity<T>(v: &Vec<T>) -> (r: usize)
    ensures
        r >= v@.len(),
{
    v.capacity()
}

impl<T: Copy> Sink for Vec<T> {
    type Item = T;

    open spec fn items(&self) -> Seq<T> {
        self@
    }

    open spec fn reported_len(&self) -> nat {
        self@.len()
    }

    open spec fn fixed_room(&self) -> Option<nat> {
        None
    }

    open spec fn pushed(items: Seq<T>, value: T, index: int) -> Seq<T> {
        items.push(value)
    }

    open spec fn truncation(before: Seq<T>, len: int, after: Seq<T>) -> bool {
        after == if len <= before.len() {
            before.take(len)
        } else {
            before
        }
    }

    fn len(&self) -> (r: usize) {
        Vec::len(self)
    }

    fn remain(&self) -> (r: usize) {
        vec_capacity(self) - Vec::len(self)
    }

    fn reserve(&mut self, additional: usize) {
        Vec::reserve(self, additional);
    }

    fn truncate(&mut self, len: usize) {
        Vec::truncate(self, len);
    }

    fn push(&mut self, value: T, index: usize) {
        Vec::push(self, value);
    }
}

impl<T: Copy + Default> Sink for [T] {
    type Item = T;

    open spec fn items(&self) -> Seq<T> {
        self@
    }

    open spec fn reported_len(&self) -> nat {
        self@.len()
    }

    open spec fn fixed_room(&self) -> Option<nat> {
        Some(self@.len())
    }

    open spec fn pushed(items: Seq<T>, value: T, index: int) -> Seq<T> {
        items.update(index, value)
    }

    open spec fn truncation(before: Seq<T>, len: int, after: Seq<T>) -> bool {
        &&& after.len() == before.len()
        &&& after.take(len) == before.take(len)
        &&& forall|i: int| len <= i < after.len() ==> is_default::<T>(#[trigger] after[i])
    }

    fn len(&self) -> (r: usize) {
        <[T]>::len(self)
    }

    fn remain(&self) -> (r: usize) {
        <[T]>::len(self)
    }

    fn reserve(&mut self, additional: usize) {
        // A fixed room cannot grow.
        vstd::pervasive::unreached()
    }

    fn truncate(&mut self, len: usize) {
        let n = <[T]>::len(self);
        let mut i: usize = len;
        while i < n
            invariant
                len <= i <= n,
                n == self@.len(),
                n == old(self)@.len(),
                self@.take(len as int) == old(self)@.take(len as int),
                forall|j: int| len <= j < i ==> is_default::<T>(#[trigger] self@[j]),
            decreases n - i,
        {
            self[i] = T::default();
            i = i + 1;
        }
    }

    fn push(&mut self, value: T, index: usize) {
        self[index] = value;
    }
}

impl<T: Copy + Default, const N: usize> Sink for [T; N] {
    type Item = T;

    open spec fn items(&self) -> Seq<T> {
        self@
    }

    open spec fn reported_len(&self) -> nat {
        self@.len()
    }

    open spec fn fixed_room(&self) -> Option<nat> {
        Some(N as nat)
    }

    open spec fn pushed(items: Seq<T>, value: T, index: int) -> Seq<T> {
        items.update(index, value)
    }

    open spec fn truncation(before: Seq<T>, len: int, after: Seq<T>) -> bool {
        &&& after.len() == before.len()
        &&& after.take(len) == before.take(len)
        &&& forall|i: int| len <= i < after.len() ==> is_default::<T>(#[trigger] after[i])
    }

    fn len(&self) -> (r: usize) {
        N
    }

    fn remain(&self) -> (r: usize) {
        N
    }

    fn reserve(&mut self, additional: usize) {
        // A fixed room cannot grow.
        vstd::pervasive::unreached()
    }

    fn truncate(&mut self, len: usize) {
        let mut i: usize = len;
        while i < N
            invariant
                len <= i <= N,
                self@.len() == N,
                self@.take(len as int) == old(self)@.take(len as int),
                forall|j: int| len <= j < i ==> is_default::<T>(#[trigger] self@[j]),
            decreases N - i,
        {
            self[i] = T::default();
            i = i + 1;
        }
    }

    fn push(&mut self, value: T, index: usize) {
        self[index] = value;
    }
}

} // verus!
