use core::sync::atomic::AtomicBool;
use core::sync::atomic::Ordering;
use vstd::prelude::*;
use vstd::rwlock::RwLock;

use crate::buffer::{Buffer, ReadStep};
use crate::model::{valid_capacity, served, range_len, takes};
use crate::range::PositionRange;
use crate::ringbuf::{
    WellFormed, locked_get, locked_get_range, locked_is_empty, locked_poll_read,
    locked_poll_read_range, locked_write,
};
use crate::sink::{Sink, pushed_all};

verus! {

/// A ring meant to live in a `static`, with at most one writer at a time.
pub struct StaticBuffer<T, const N: usize> {
    buf: RwLock<Buffer<T, N>, WellFormed>,
    writer: AtomicBool,
}

impl<T: Copy, const N: usize> StaticBuffer<T, N> {
    /// Creates an empty ring with no writer.
    ///
    /// `N` must be greater than 1 and a power of two.
    pub fn new() -> (r: Self)
        requires
            valid_capacity(N as nat),
    {
        StaticBuffer { buf: RwLock::new(Buffer::new(), Ghost(WellFormed)), writer: AtomicBool::new(false) }
    }

    /// Whether nothing was written yet.
    pub fn is_empty(&self) -> (r: bool) {
        locked_is_empty(&self.buf)
    }

    /// Takes the writer role: `None` when another writer holds it.
    pub fn get_writer(&'static self) -> (r: Option<Writer<T, N>>)
        ensures
            r matches Some(w) ==> w.owner() == self,
    {
        if self.writer.compare_exchange(false, true, Ordering::AcqRel, Ordering::Relaxed).is_ok() {
            Some(Writer { buf: self })
        } else {
            None
        }
    }

    /// Writes `value` as the latest value, taking the writer role for the
    /// duration of the write; `None`, with nothing written, when another writer
    /// holds the role.
    #[must_use]
    pub fn write(&self, value: T) -> (r: Option<()>) {
        let acquired = self.writer.compare_exchange(false, true, Ordering::AcqRel, Ordering::Relaxed).is_ok();
        self.write_as_writer(acquired, value)
    }

    /// The rest of `write` once the attempt to take the writer role is over:
    /// when `acquired` (the role was taken), writes `value`, gives the role
    /// back and answers `Some(())`; otherwise writes nothing and answers `None`.
    pub fn write_as_writer(&self, acquired: bool, value: T) -> (r: Option<()>)
        ensures
            r is Some <==> acquired,
    {
        if acquired {
            locked_write(&self.buf, value);
            release_role(&self.writer);
            Some(())
        } else {
            None
        }
    }

    /// The value `n` positions back from the latest one; `None` when `n` is not
    /// below `N - 1`, and when the value was not written yet.
    pub fn get(&self, n: usize) -> (r: Option<T>)
        ensures
            n + 1 >= N ==> r is None,
    {
        locked_get(&self.buf, n)
    }

    /// The latest value; `None` when nothing was written yet.
    pub fn get_latest(&self) -> (r: Option<T>) {
        self.get(0)
    }

    /// A snapshot of the positions `range` names into `buf`, oldest first (see
    /// `Buffer::get_range`): `None`, with `buf` unchanged, when the positions
    /// are not served or not all written yet.
    #[must_use]
    pub fn get_range<R: PositionRange, S: Sink<Item = T> + ?Sized>(&self, range: R, buf: &mut S) -> (r: Option<()>)
        requires
            served(&range, N as nat) ==> takes(&*old(buf), range_len(&range, N as nat)),
        ensures
            final(buf).fixed_room() == old(buf).fixed_room(),
            !served(&range, N as nat) ==> r is None,
            r is None ==> final(buf).items() == old(buf).items(),
            r is Some ==> exists|vals: Seq<T>|
                {
                    &&& vals.len() == range_len(&range, N as nat)
                    &&& #[trigger] final(buf).items() == pushed_all::<S>(old(buf).items(), vals)
                },
    {
        locked_get_range(&self.buf, range, buf)
    }

    /// One attempt at `read`: the value `n` positions back from the latest
    /// one, `Ready(None)` when `n` is not below `N - 1`, and `Wait` while the
    /// value was not written yet.
    pub fn poll_read(&self, n: usize) -> (r: ReadStep<Option<T>>)
        ensures
            n + 1 >= N ==> r == ReadStep::<Option<T>>::Ready(None),
            n + 1 < N ==> (r is Wait || r matches ReadStep::Ready(Some(_))),
    {
        locked_poll_read(&self.buf, n)
    }

    /// One attempt at `read_range`: `Ready(None)`, with `buf` unchanged, when
    /// the positions are not served; `Wait`, with `buf` unchanged, while not
    /// all of them were written; otherwise `Ready(Some(()))` with the snapshot
    /// in `buf`.
    pub fn poll_read_range<R: PositionRange, S: Sink<Item = T> + ?Sized>(&self, range: R, buf: &mut S) -> (r: ReadStep<Option<()>>)
        requires
            served(&range, N as nat) ==> takes(&*old(buf), range_len(&range, N as nat)),
        ensures
            final(buf).fixed_room() == old(buf).fixed_room(),
            !served(&range, N as nat) ==> r
                == ReadStep::<Option<()>>::Ready(None),
            served(&range, N as nat) ==> (r is Wait
                || r == ReadStep::<Option<()>>::Ready(Some(()))),
            !(r == ReadStep::<Option<()>>::Ready(Some(()))) ==> final(buf).items() == old(buf).items(),
            r == ReadStep::<Option<()>>::Ready(Some(())) ==> exists|vals: Seq<T>|
                {
                    &&& vals.len() == range_len(&range, N as nat)
                    &&& #[trigger] final(buf).items() == pushed_all::<S>(old(buf).items(), vals)
                },
    {
        locked_poll_read_range(&self.buf, range, buf)
    }
}

/// The writer role of a `StaticBuffer`; dropping it gives the role back.
pub struct Writer<T: 'static, const N: usize> {
    buf: &'static StaticBuffer<T, N>,
}

impl<T: 'static, const N: usize> Writer<T, N> {
    /// The ring written to.
    pub closed spec fn owner(&self) -> &'static StaticBuffer<T, N> {
        self.buf
    }
}

impl<T: Copy + 'static, const N: usize> Writer<T, N> {
    /// Writes `value` as the latest value of the ring (see `BufWriter::write`).
    pub fn write(&self, value: T) {
        locked_write(&self.buf.buf, value)
    }
}

impl<T: 'static, const N: usize> Drop for Writer<T, N> {
    fn drop(&mut self)
        opens_invariants none
        no_unwind
    {
        release_role(&self.buf.writer);
    }
}

/// `AtomicBool::store(false, Ordering::Release)`: clears the flag. A store
/// with `Release` ordering does not panic (only `Acquire` and `AcqRel` do),
/// and it opens no Verus invariant.
#[verifier::external_body]
fn release_role(flag: &AtomicBool)
    opens_invariants none
    no_unwind
{
    flag.store(false, Ordering::Release)
}

} // verus!
