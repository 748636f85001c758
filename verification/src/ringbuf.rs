use std::sync::Arc;
use vstd::prelude::*;
use vstd::rwlock::{RwLock, RwLockPredicate};

use crate::buffer::{Buffer, ReadStep};
use crate::model::{valid_capacity, served, range_first, range_last, range_len, takes};
use crate::range::PositionRange;
use crate::sink::{Sink, pushed_all};

verus! {

/// The invariant the shared ring keeps between accesses.
pub struct WellFormed;

impl<T, const N: usize> RwLockPredicate<Buffer<T, N>> for WellFormed {
    open spec fn inv(self, v: Buffer<T, N>) -> bool {
        v.wf()
    }
}

/// The value `n` positions back from the latest one, from the ring behind the
/// lock. `None` when `n` is not below `N - 1`.
pub(crate) fn locked_get<T: Copy, const N: usize>(ring: &RwLock<Buffer<T, N>, WellFormed>, n: usize) -> (r: Option<T>)
    ensures
        n + 1 >= N ==> r is None,
{
    let handle = ring.acquire_read();
    let r = handle.borrow().get(n);
    handle.release_read();
    r
}

/// Whether nothing was written to the ring behind the lock.
pub(crate) fn locked_is_empty<T: Copy, const N: usize>(ring: &RwLock<Buffer<T, N>, WellFormed>) -> (r: bool) {
    let handle = ring.acquire_read();
    let r = handle.borrow().is_empty();
    handle.release_read();
    r
}

/// Writes `value` to the ring behind the lock; once the write count would run
/// into the top of `u64` (after about 2^64 writes) further values are dropped.
pub(crate) fn locked_write<T: Copy, const N: usize>(ring: &RwLock<Buffer<T, N>, WellFormed>, value: T) {
    let (mut b, handle) = ring.acquire_write();
    if b.can_write() {
        b.write(value);
    }
    handle.release_write(b);
}

/// A snapshot of the ring behind the lock into `buf`, as `Buffer::get_range`
/// takes it: `None`, with `buf` unchanged, when the positions are not served
/// or not written yet; otherwise `buf` receives `last - first + 1` values.
pub(crate) fn locked_get_range<T: Copy, const N: usize, S: Sink<Item = T> + ?Sized, R: PositionRange>(
    ring: &RwLock<Buffer<T, N>, WellFormed>,
    range: R,
    buf: &mut S,
) -> (r: Option<()>)
    requires
        served(&range, N as nat) ==> takes(&*old(buf), range_len(&range, N as nat)),
    ensures
        final(buf).fixed_room() == old(buf).fixed_room(),
        !served(&range, N as nat) ==> r is None,
        r is None ==> final(buf).items() == old(buf).items(),
        r is Some ==> exists|vals: Seq<T>|
            {
                &&& vals.len() == range_len(&range, N as nat)
                &&& #[trigger] final(buf).items() == pushed_all::<S>(old(buf).items(), vals)
            },
{
    let ghost first = range_first(&range);
    let ghost last = range_last(&range, N as nat);
    let handle = ring.acquire_read();
    let b = handle.borrow();
    let ghost seen = b@;
    let r = b.get_range(range, buf);
    handle.release_read();
    proof {
        if r is Some {
            let vals = seen.subrange(seen.len() - 1 - last, seen.len() - first);
            assert(final(buf).items() == pushed_all::<S>(old(buf).items(), vals));
        }
    }
    r
}

/// One attempt at reading the value `n` positions back from the latest one
/// from the ring behind the lock: `Ready(None)` when `n` is not below `N - 1`,
/// `Wait` while fewer than `n + 1` values were written, and the value otherwise.
pub(crate) fn locked_poll_read<T: Copy, const N: usize>(ring: &RwLock<Buffer<T, N>, WellFormed>, n: usize) -> (r: ReadStep<Option<T>>)
    ensures
        n + 1 >= N ==> r == ReadStep::<Option<T>>::Ready(None),
        n + 1 < N ==> (r is Wait || r matches ReadStep::Ready(Some(_))),
{
    let handle = ring.acquire_read();
    let b = handle.borrow();
    proof {
        b.lemma_capacity();
    }
    let r = b.poll_read(n);
    handle.release_read();
    r
}

/// One attempt at a snapshot that waits for the writer, from the ring behind
/// the lock: `Ready(None)`, with `buf` unchanged, when the positions are not
/// served; `Wait`, with `buf` unchanged, while not all of them were written;
/// otherwise `Ready(Some(()))` and `buf` receives `last - first + 1` values.
pub(crate) fn locked_poll_read_range<T: Copy, const N: usize, S: Sink<Item = T> + ?Sized, R: PositionRange>(
    ring: &RwLock<Buffer<T, N>, WellFormed>,
    range: R,
    buf: &mut S,
) -> (r: ReadStep<Option<()>>)
    requires
        served(&range, N as nat) ==> takes(&*old(buf), range_len(&range, N as nat)),
    ensures
        final(buf).fixed_room() == old(buf).fixed_room(),
        !served(&range, N as nat) ==> r
            == ReadStep::<Option<()>>::Ready(None),
        served(&range, N as nat) ==> (r is Wait
            || r == ReadStep::<Option<()>>::Ready(Some(()))),
        !(r == ReadStep::<Option<()>>::Ready(Some(()))) ==> final(buf).items() == old(buf).items(),
        r == ReadStep::<Option<()>>::Ready(Some(())) ==> exists|vals: Seq<T>|
            {
                &&& vals.len() == range_len(&range, N as nat)
                &&& #[trigger] final(buf).items() == pushed_all::<S>(old(buf).items(), vals)
            },
{
    let ghost first = range_first(&range);
    let ghost last = range_last(&range, N as nat);
    let handle = ring.acquire_read();
    let b = handle.borrow();
    proof {
        b.lemma_capacity();
    }
    let ghost seen = b@;
    let r = b.poll_read_range(range, buf);
    handle.release_read();
    proof {
        if r == ReadStep::<Option<()>>::Ready(Some(())) {
            let vals = seen.subrange(seen.len() - 1 - last, seen.len() - first);
            assert(final(buf).items() == pushed_all::<S>(old(buf).items(), vals));
        }
    }
    r
}

/// Creates a ring of `N` slots and returns its writer and a reader of it.
///
/// `N` must be greater than 1, because the writer must not write to the slot
/// that a reader reads, and a power of two.
pub fn create_buffer<T: Copy, const N: usize>() -> (r: (BufWriter<T, N>, BufReader<T, N>))
    requires
        valid_capacity(N as nat),
    ensures
        r.0.ring() == r.1.ring(),
{
    let buf = Arc::new(RwLock::new(Buffer::new(), Ghost(WellFormed)));
    (BufWriter { buf: buf.clone() }, BufReader { buf })
}

/// The writer of a ring; there is one per ring.
pub struct BufWriter<T, const N: usize> {
    buf: Arc<RwLock<Buffer<T, N>, WellFormed>>,
}

impl<T, const N: usize> BufWriter<T, N> {
    /// The ring written to.
    pub closed spec fn ring(&self) -> RwLock<Buffer<T, N>, WellFormed> {
        *self.buf
    }
}

impl<T: Copy, const N: usize> BufWriter<T, N> {
    /// Writes `value` as the latest value of the ring, overwriting the oldest
    /// one when the ring is full. Once the write count would run into the top
    /// of `u64` (after about 2^64 writes), further values are dropped.
    pub fn write(&self, value: T) {
        locked_write(&self.buf, value)
    }
}

/// A reader of a ring; readers are cloned cheaply and share the ring.
pub struct BufReader<T, const N: usize> {
    buf: Arc<RwLock<Buffer<T, N>, WellFormed>>,
}

impl<T, const N: usize> BufReader<T, N> {
    /// The ring read from.
    pub closed spec fn ring(&self) -> RwLock<Buffer<T, N>, WellFormed> {
        *self.buf
    }
}

impl<T, const N: usize> Clone for BufReader<T, N> {
    /// Another reader of the same ring.
    fn clone(&self) -> (r: Self)
        ensures
            r.ring() == self.ring(),
    {
        BufReader { buf: self.buf.clone() }
    }
}

impl<T: Copy, const N: usize> BufReader<T, N> {
    /// Whether nothing was written yet.
    pub fn is_empty(&self) -> (r: bool) {
        locked_is_empty(&self.buf)
    }

    /// The value `n` positions back from the latest one; `None` when `n` is not
    /// below `N - 1`, and when the value was not written yet.
    pub fn get(&self, n: usize) -> (r: Option<T>)
        ensures
            n + 1 >= N ==> r is None,
    {
        locked_get(&self.buf, n)
    }

    /// The latest value; `None` when nothing was written yet.
    pub fn get_latest(&self) -> (r: Option<T>) {
        self.get(0)
    }

    /// A snapshot of the positions `range` names into `buf`, oldest first (see
    /// `Buffer::get_range`): `None`, with `buf` unchanged, when the positions
    /// are not served or not all written yet.
    #[must_use]
    pub fn get_range<S: Sink<Item = T> + ?Sized, R: PositionRange>(&self, range: R, buf: &mut S) -> (r: Option<()>)
        requires
            served(&range, N as nat) ==> takes(&*old(buf), range_len(&range, N as nat)),
        ensures
            final(buf).fixed_room() == old(buf).fixed_room(),
            !served(&range, N as nat) ==> r is None,
            r is None ==> final(buf).items() == old(buf).items(),
            r is Some ==> exists|vals: Seq<T>|
                {
                    &&& vals.len() == range_len(&range, N as nat)
                    &&& #[trigger] final(buf).items() == pushed_all::<S>(old(buf).items(), vals)
                },
    {
        locked_get_range(&self.buf, range, buf)
    }

    /// One attempt at `read`: the value `n` positions back from the latest
    /// one, `Ready(None)` when `n` is not below `N - 1`, and `Wait` while the
    /// value was not written yet.
    pub fn poll_read(&self, n: usize) -> (r: ReadStep<Option<T>>)
        ensures
            n + 1 >= N ==> r == ReadStep::<Option<T>>::Ready(None),
            n + 1 < N ==> (r is Wait || r matches ReadStep::Ready(Some(_))),
    {
        locked_poll_read(&self.buf, n)
    }

    /// One attempt at `read_range`: `Ready(None)`, with `buf` unchanged, when
    /// the positions are not served; `Wait`, with `buf` unchanged, while not
    /// all of them were written; otherwise `Ready(Some(()))` with the snapshot
    /// in `buf`.
    pub fn poll_read_range<S: Sink<Item = T> + ?Sized, R: PositionRange>(&self, range: R, buf: &mut S) -> (r: ReadStep<Option<()>>)
        requires
            served(&range, N as nat) ==> takes(&*old(buf), range_len(&range, N as nat)),
        ensures
            final(buf).fixed_room() == old(buf).fixed_room(),
            !served(&range, N as nat) ==> r
                == ReadStep::<Option<()>>::Ready(None),
            served(&range, N as nat) ==> (r is Wait
                || r == ReadStep::<Option<()>>::Ready(Some(()))),
            !(r == ReadStep::<Option<()>>::Ready(Some(()))) ==> final(buf).items() == old(buf).items(),
            r == ReadStep::<Option<()>>::Ready(Some(())) ==> exists|vals: Seq<T>|
                {
                    &&& vals.len() == range_len(&range, N as nat)
                    &&& #[trigger] final(buf).items() == pushed_all::<S>(old(buf).items(), vals)
                },
    {
        locked_poll_read_range(&self.buf, range, buf)
    }
}

} // verus!
