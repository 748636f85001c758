use vstd::prelude::*;
use vstd::arithmetic::div_mod::{
    lemma_add_mod_noop, lemma_sub_mod_noop, lemma_small_mod, lemma_mod_sub_multiples_vanish,
};
use vstd::arithmetic::power2::{pow2, lemma_pow2_pos};
use vstd::bits::{lemma_u64_low_bits_mask_is_mod, lemma_u64_pow2_no_overflow};

use crate::model::{
    valid_capacity, value_at, positions_served, window, snapshot, range_first, range_last, takes,
    served, range_len,
};
use crate::range::{Edge, PositionRange};
use crate::sink::{Sink, pushed_all};

verus! {

/// One cell of the ring: empty until the first value lands in it.
pub struct Slot<T> {
    value: Option<T>,
}

impl<T> Slot<T> {
    /// The value held, if any was ever written.
    pub closed spec fn content(&self) -> Option<T> {
        self.value
    }
}

impl<T: Copy> Slot<T> {
    /// Creates an empty slot.
    pub fn new() -> (s: Self)
        ensures
            s.content() is None,
    {
        Slot { value: None }
    }

    /// Stores `value`, replacing what was there.
    pub fn write(&mut self, value: T)
        ensures
            final(self).content() == Some(value),
    {
        self.value = Some(value);
    }

    /// Returns the stored value; the slot must have been written.
    pub fn read(&self) -> (v: T)
        requires
            self.content() is Some,
        ensures
            self.content() == Some(v),
    {
        self.value.unwrap()
    }
}

/// Creates `N` empty slots.
pub fn init_slots<T: Copy, const N: usize>() -> (v: Vec<Slot<T>>)
    ensures
        v@.len() == N,
        forall|i: int| 0 <= i < N ==> (#[trigger] v@[i]).content() is None,
{
    let mut v: Vec<Slot<T>> = Vec::new();
    let mut i: usize = 0;
    while i < N
        invariant
            i <= N,
            v@.len() == i,
            forall|j: int| 0 <= j < i ==> (#[trigger] v@[j]).content() is None,
        decreases N - i,
    {
        v.push(Slot::new());
        i = i + 1;
    }
    v
}

/// `pos % m + k`, taken modulo `m`, is `(pos + k) % m`; two positions less
/// than `m` apart share a slot only when they are equal.
proof fn lemma_ring_index(pos: int, k: int, m: int)
    requires
        0 < m,
        0 <= pos,
        0 <= k < m,
    ensures
        (pos + k) % m == (pos % m + k) % m,
        0 < k ==> (pos + k) % m != pos % m,
{
    lemma_add_mod_noop(pos, k, m);
    lemma_small_mod(k as nat, m as nat);
    if 0 < k && (pos + k) % m == pos % m {
        lemma_sub_mod_noop(pos + k, pos, m);
        lemma_small_mod(0, m as nat);
        assert(((pos + k) - pos) % m == 0);
    }
}

/// A position `x` with `m <= x < 2 * m` lands in slot `x - m`.
proof fn lemma_wrapped_index(x: int, m: int)
    requires
        0 < m <= x < 2 * m,
    ensures
        x % m == x - m,
{
    lemma_mod_sub_multiples_vanish(x, m);
    lemma_small_mod((x - m) as nat, m as nat);
}

/// The first and the last position `range` names in a ring of `cap` slots,
/// when the ring serves them all; `None` when the range names no position or
/// reaches position `cap - 1` or beyond.
pub fn range_positions<R: PositionRange>(range: &R, cap: usize) -> (r: Option<(usize, usize)>)
    requires
        2 <= cap,
    ensures
        r is Some <==> served(range, cap as nat),
        r matches Some(p) ==> p.0 == range_first(range) && p.1 == range_last(range, cap as nat),
{
    let (lo, hi) = range.edges();
    let start = match lo {
        Edge::Included(n) => n,
        Edge::Excluded(n) => match n.checked_add(1) {
            Some(s) => s,
            None => return None,
        },
        Edge::Unbounded => 0,
    };
    let end = match hi {
        Edge::Included(n) => n,
        Edge::Excluded(n) => match n.checked_sub(1) {
            Some(e) => e,
            None => return None,
        },
        Edge::Unbounded => cap - 2,
    };
    // An empty range, or one reaching the slot the next write goes to.
    if start > end || end >= cap - 1 {
        return None;
    }
    Some((start, end))
}

/// The outcome of one attempt at a read that waits for the writer.
#[derive(PartialEq, Eq, Debug)]
pub enum ReadStep<R> {
    /// The read is done, with this result.
    Ready(R),
    /// Not all the values asked for were written yet: try again later.
    Wait,
}

/// A ring of `N` slots holding the latest values written to it.
///
/// Position `n` is the value written `n` writes before the latest one. Only
/// positions below `N - 1` are served: the slot after them is the one the next
/// write goes to.
pub struct Buffer<T, const N: usize> {
    data: Vec<Slot<T>>,
    tail: u64,
    written: Ghost<Seq<T>>,
}

impl<T, const N: usize> View for Buffer<T, N> {
    type V = Seq<T>;

    /// Every value written so far, oldest first.
    closed spec fn view(&self) -> Seq<T> {
        self.written@
    }
}

impl<T, const N: usize> Buffer<T, N> {
    /// The internal invariant: slot `p % N` holds the value written at each of
    /// the last `N` positions `p`, and the write count leaves room for the
    /// index arithmetic.
    pub closed spec fn wf(&self) -> bool {
        &&& valid_capacity(N as nat)
        &&& self.data@.len() == N
        &&& self.tail == self.written@.len()
        &&& self.tail + N <= u64::MAX
        &&& forall|p: int|
            #![trigger self.written@[p]]
            0 <= p < self.tail && self.tail - N <= p ==> self.data@[p % (N as int)].content() == Some(
                self.written@[p],
            )
    }

    /// A well-formed ring has a valid capacity.
    pub proof fn lemma_capacity(&self)
        requires
            self.wf(),
        ensures
            valid_capacity(N as nat),
    {
    }

    /// Whether one more value can be counted without running the write count
    /// into the top of `u64`.
    pub open spec fn has_room(&self) -> bool {
        self@.len() + N < u64::MAX
    }

}

impl<T: Copy, const N: usize> Buffer<T, N> {
    /// The slot that position `pos` of the ring lives in.
    fn slot_of(pos: u64) -> (i: usize)
        requires
            valid_capacity(N as nat),
        ensures
            i == pos % (N as u64),
            i < N,
    {
        proof {
            let k = choose|k: nat| k < 64 && pow2(k) == N as nat;
            lemma_u64_low_bits_mask_is_mod(pos, k);
            lemma_u64_pow2_no_overflow(k);
            lemma_pow2_pos(k);
        }
        (pos & ((N as u64) - 1)) as usize
    }

    /// Creates an empty ring.
    pub fn new() -> (b: Self)
        requires
            valid_capacity(N as nat),
        ensures
            b.wf(),
            b@ == Seq::<T>::empty(),
    {
        Buffer { data: init_slots::<T, N>(), tail: 0, written: Ghost(Seq::empty()) }
    }

    /// Whether nothing was written yet.
    pub fn is_empty(&self) -> (r: bool)
        requires
            self.wf(),
        ensures
            r == (self@.len() == 0),
    {
        self.tail == 0
    }

    /// The slot holding position `n` back from the latest value, when the
    /// position is written and served.
    proof fn lemma_position_slot(&self, read: int)
        requires
            self.wf(),
            0 <= read < self.tail,
            self.tail - (N - 1) <= read,
        ensures
            self.data@[read % (N as int)].content() == Some(self@[read]),
    {
        assert(self.written@[read] == self@[read]);
    }

    /// The value `n` positions back from the latest one. `None` when fewer than
    /// `n + 1` values were written or when `n` is not below `N - 1`.
    pub fn get(&self, n: usize) -> (r: Option<T>)
        requires
            self.wf(),
        ensures
            r == value_at(self@, N as nat, n as int),
    {
        // Position N - 1 lives in the slot the next write goes to.
        if n >= N - 1 {
            return None;
        }
        let n = n as u64;
        let tail = self.tail;
        // Fewer than n + 1 values were written.
        let read = match tail.checked_sub(n + 1) {
            Some(r) => r,
            None => return None,
        };
        let slot = Self::slot_of(read);
        proof {
            self.lemma_position_slot(read as int);
        }
        let value = self.data[slot].read();
        // The slot still holds position `read` unless N further writes came in.
        if self.tail < read + N as u64 {
            Some(value)
        } else {
            None
        }
    }

    /// The latest value; `None` when nothing was written yet.
    pub fn get_latest(&self) -> (r: Option<T>)
        requires
            self.wf(),
        ensures
            r == value_at(self@, N as nat, 0),
    {
        self.get(0)
    }

    /// The value `n` positions back from the latest one, which must have been
    /// written already when `n` is below `N - 1`; `None` when `n` is not
    /// below `N - 1`.
    pub fn read(&self, n: usize) -> (r: Option<T>)
        requires
            self.wf(),
            n + 1 < N ==> n < self@.len(),
        ensures
            r == value_at(self@, N as nat, n as int),
            n + 1 < N ==> r is Some,
    {
        if n >= N - 1 {
            return None;
        }
        let n = n as u64;
        let read = self.tail - (n + 1);
        let slot = Self::slot_of(read);
        proof {
            self.lemma_position_slot(read as int);
        }
        Some(self.data[slot].read())
    }

    /// The latest value, which must have been written already.
    pub fn read_latest(&self) -> (r: T)
        requires
            self.wf(),
            self@.len() > 0,
        ensures
            r == self@.last(),
    {
        self.read(0).unwrap()
    }

    /// Pushes the values in slots `from..=to` into `buf`, at indices from
    /// `index` on; returns the index after the last one used.
    fn copy_slots<S: Sink<Item = T> + ?Sized>(
        &self,
        from: usize,
        to: usize,
        buf: &mut S,
        index: usize,
        Ghost(base): Ghost<Seq<T>>,
        Ghost(done): Ghost<Seq<T>>,
        Ghost(vals): Ghost<Seq<T>>,
    ) -> (next: usize)
        requires
            self.wf(),
            from <= to < N,
            vals.len() == to - from + 1,
            forall|k: int|
                0 <= k < vals.len() ==> #[trigger] self.data@[from + k].content() == Some(vals[k]),
            index == done.len(),
            index + vals.len() < N,
            old(buf).items() == pushed_all::<S>(base, done),
            takes(&*old(buf), index + vals.len()),
        ensures
            next == index + vals.len(),
            final(buf).items() == pushed_all::<S>(base, done + vals),
            final(buf).fixed_room() == old(buf).fixed_room(),
    {
        let mut j = from;
        let mut i = index;
        while j <= to
            invariant
                from <= j <= to + 1,
                to < N,
                vals.len() == to - from + 1,
                forall|k: int|
                    0 <= k < vals.len() ==> #[trigger] self.data@[from + k].content() == Some(
                        vals[k],
                    ),
                self.data@.len() == N,
                i == index + (j - from),
                index == done.len(),
                index + vals.len() < N,
                buf.items() == pushed_all::<S>(base, done + vals.take(j - from)),
                buf.fixed_room() == old(buf).fixed_room(),
                takes(&*old(buf), index + vals.len()),
            decreases to + 1 - j,
        {
            let ghost m = j - from;
            assert(self.data@[from + m].content() == Some(vals[m]));
            let value = self.data[j].read();
            buf.push(value, i);
            proof {
                let prev = done + vals.take(m);
                let next = done + vals.take(m + 1);
                assert(next.drop_last() =~= prev);
                assert(next.last() == vals[m]);
                assert(next.len() - 1 == i);
            }
            j = j + 1;
            i = i + 1;
        }
        assert(vals.take(vals.len() as int) =~= vals);
        i
    }

    /// Copies the snapshot of the positions that `range` names into `buf`,
    /// oldest first: value `k` of the snapshot goes to index `k`. `None`, with
    /// `buf` holding what it held, when the positions are not served or not all
    /// of them were written yet.
    ///
    /// The positions run from the range's start to its end, as Rust ranges
    /// have them (`0..2` names positions 0 and 1, `0..=2` also position 2),
    /// and `..` names positions `0` to `N - 2`.
    #[must_use]
    pub fn get_range<S: Sink<Item = T> + ?Sized, R: PositionRange>(&self, range: R, buf: &mut S) -> (r: Option<()>)
        requires
            self.wf(),
            served(&range, N as nat) ==> takes(&*old(buf), range_len(&range, N as nat)),
        ensures
            final(buf).fixed_room() == old(buf).fixed_room(),
            match snapshot(self@, N as nat, range_first(&range), range_last(&range, N as nat)) {
                Some(vals) => r is Some && final(buf).items() == pushed_all::<S>(
                    old(buf).items(),
                    vals,
                ),
                None => r is None && final(buf).items() == old(buf).items(),
            },
    {
        let (start, end) = match range_positions(&range, N) {
            Some(p) => p,
            None => return None,
        };
        let diff = end - start;
        let len = buf.len();
        let cap = buf.remain();
        if let Some(lack) = diff.checked_sub(cap) {
            buf.reserve(lack);
        }
        let ghost base = old(buf).items();
        let tail = self.tail;
        // Fewer than end + 1 values were written.
        let read_old = match tail.checked_sub(end as u64 + 1) {
            Some(r) => r,
            None => return None,
        };
        let read_latest = tail - (start as u64 + 1);
        let slot_old = Self::slot_of(read_old);
        let slot_latest = Self::slot_of(read_latest);
        let ghost vals = window(self@, start as int, end as int);
        let ghost n = N as int;
        proof {
            assert(vals =~= self@.subrange(read_old as int, read_latest + 1));
            lemma_ring_index(read_old as int, diff as int, n);
            assert forall|k: int| 0 <= k <= diff implies #[trigger] self.data@[(read_old + k) % n].content()
                == Some(vals[k]) by {
                self.lemma_position_slot(read_old + k);
            }
            assert(pushed_all::<S>(base, Seq::empty()) == base);
        }
        if slot_latest < slot_old {
            // The positions wrap past the end of the slots.
            let ghost first = vals.take(n - slot_old);
            let ghost second = vals.skip(n - slot_old);
            proof {
                if slot_old + diff < n {
                    lemma_small_mod((slot_old + diff) as nat, N as nat);
                }
                lemma_wrapped_index(slot_old + diff, n);
                assert forall|k: int| 0 <= k < first.len() implies #[trigger] self.data@[slot_old + k].content()
                    == Some(first[k]) by {
                    lemma_ring_index(read_old as int, k, n);
                    lemma_small_mod((slot_old + k) as nat, N as nat);
                }
                assert forall|k: int| 0 <= k < second.len() implies #[trigger] self.data@[0 + k].content()
                    == Some(second[k]) by {
                    let kk = n - slot_old + k;
                    lemma_ring_index(read_old as int, kk, n);
                    lemma_wrapped_index(slot_old + kk, n);
                }
                assert(Seq::<T>::empty() + first =~= first);
            }
            let i = self.copy_slots(slot_old, N - 1, buf, 0, Ghost(base), Ghost(Seq::empty()), Ghost(first));
            self.copy_slots(0, slot_latest, buf, i, Ghost(base), Ghost(Seq::<T>::empty() + first), Ghost(second));
            assert(Seq::<T>::empty() + first + second =~= vals);
        } else {
            proof {
                if slot_old + diff >= n {
                    lemma_wrapped_index(slot_old + diff, n);
                } else {
                    lemma_small_mod((slot_old + diff) as nat, N as nat);
                }
                assert forall|k: int| 0 <= k < vals.len() implies #[trigger] self.data@[slot_old + k].content()
                    == Some(vals[k]) by {
                    lemma_ring_index(read_old as int, k, n);
                    lemma_small_mod((slot_old + k) as nat, N as nat);
                }
                assert(Seq::<T>::empty() + vals =~= vals);
            }
            self.copy_slots(slot_old, slot_latest, buf, 0, Ghost(base), Ghost(Seq::empty()), Ghost(vals));
        }
        // The snapshot is whole unless N further writes came in while copying.
        if self.tail < read_old + N as u64 {
            Some(())
        } else {
            buf.truncate(len);
            None
        }
    }

    /// Copies the snapshot of the positions that `range` names into `buf`, as
    /// `get_range` does; every position named must have been written already.
    /// `None`, with `buf` holding what it held, when the positions are not
    /// served.
    #[must_use]
    pub fn read_range<S: Sink<Item = T> + ?Sized, R: PositionRange>(&self, range: R, buf: &mut S) -> (r: Option<()>)
        requires
            self.wf(),
            served(&range, N as nat) ==> takes(&*old(buf), range_len(&range, N as nat)),
            served(&range, N as nat) ==> range_last(&range, N as nat) < self@.len(),
        ensures
            final(buf).fixed_room() == old(buf).fixed_room(),
            served(&range, N as nat) ==> {
                &&& r is Some
                &&& final(buf).items() == pushed_all::<S>(
                    old(buf).items(),
                    window(self@, range_first(&range), range_last(&range, N as nat)),
                )
            },
            !served(&range, N as nat) ==> {
                &&& r is None
                &&& final(buf).items() == old(buf).items()
            },
    {
        self.get_range(range, buf)
    }

    /// One attempt at `read`: `Ready(None)` when `n` is not below `N - 1`,
    /// `Wait` while fewer than `n + 1` values were written, and otherwise the
    /// value `n` positions back from the latest one.
    pub fn poll_read(&self, n: usize) -> (r: ReadStep<Option<T>>)
        requires
            self.wf(),
        ensures
            r == if n + 1 >= N {
                ReadStep::Ready(None)
            } else if n < self@.len() {
                ReadStep::Ready(value_at(self@, N as nat, n as int))
            } else {
                ReadStep::Wait
            },
    {
        if n >= N - 1 {
            ReadStep::Ready(None)
        } else if (n as u64) < self.tail {
            ReadStep::Ready(self.read(n))
        } else {
            ReadStep::Wait
        }
    }

    /// One attempt at `read_range`: `Ready(None)`, with `buf` unchanged, when
    /// the range is not served; `Wait`, with `buf` unchanged, while not all of
    /// its positions were written; otherwise `Ready(Some(()))` with the
    /// snapshot copied into `buf` as `get_range` copies it.
    pub fn poll_read_range<S: Sink<Item = T> + ?Sized, R: PositionRange>(&self, range: R, buf: &mut S) -> (r: ReadStep<Option<()>>)
        requires
            self.wf(),
            served(&range, N as nat) ==> takes(&*old(buf), range_len(&range, N as nat)),
        ensures
            final(buf).fixed_room() == old(buf).fixed_room(),
            !served(&range, N as nat) ==> r == ReadStep::<Option<()>>::Ready(None) && final(buf).items()
                == old(buf).items(),
            served(&range, N as nat) && range_last(&range, N as nat) >= self@.len() ==> r
                == ReadStep::<Option<()>>::Wait && final(buf).items() == old(buf).items(),
            served(&range, N as nat) && range_last(&range, N as nat) < self@.len() ==> r
                == ReadStep::<Option<()>>::Ready(Some(())) && final(buf).items() == pushed_all::<S>(
                old(buf).items(),
                window(self@, range_first(&range), range_last(&range, N as nat)),
            ),
    {
        proof {
            self.lemma_capacity();
        }
        match range_positions(&range, N) {
            None => ReadStep::Ready(None),
            Some((_, end)) => if (end as u64) < self.tail {
                let out = self.read_range(range, buf);
                assert(out == Some(()));
                ReadStep::Ready(out)
            } else {
                ReadStep::Wait
            },
        }
    }

    /// Whether one more value can be counted (see `has_room`).
    pub fn can_write(&self) -> (r: bool)
        requires
            self.wf(),
        ensures
            r == self.has_room(),
    {
        self.tail < u64::MAX - N as u64
    }

    /// Writes `value` as the latest value, overwriting the oldest slot.
    pub fn write(&mut self, value: T)
        requires
            old(self).wf(),
            old(self).has_room(),
        ensures
            final(self).wf(),
            final(self)@ == old(self)@.push(value),
    {
        let tail = self.tail;
        let slot = Self::slot_of(tail);
        self.data[slot].write(value);
        self.tail = tail + 1;
        self.written = Ghost(self.written@.push(value));
        proof {
            let n = N as int;
            assert forall|p: int|
                0 <= p < self.tail && self.tail - n <= p implies self.data@[p % n].content() == Some(
                self.written@[p],
            ) by {
                if p < tail {
                    lemma_ring_index(p, tail - p, n);
                    assert(old(self).written@[p] == self.written@[p]);
                }
            }
        }
    }
}

} // verus!
