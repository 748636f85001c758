use vstd::prelude::*;

use crate::model::{valid_capacity, value_at, snapshot, window};
use crate::sink::{Sink, pushed_all};

verus! {

/// After a write, the latest value is the one written.
pub proof fn lemma_latest_is_last_written<T>(written: Seq<T>, value: T, cap: nat)
    requires
        valid_capacity(cap),
    ensures
        value_at(written.push(value), cap, 0) == Some(value),
{
}

/// Writing `more` values moves every value `more.len()` positions back: it
/// stays readable while its position is below `cap - 1`, and is lost (the
/// ring overwrote it) from there on.
pub proof fn lemma_writes_shift_positions<T>(written: Seq<T>, more: Seq<T>, cap: nat, n: int)
    requires
        0 <= n,
    ensures
        n + more.len() + 1 < cap ==> value_at(written + more, cap, n + more.len()) == value_at(
            written,
            cap,
            n,
        ),
        n + more.len() + 1 >= cap ==> value_at(written + more, cap, n + more.len()) is None,
{
    let all = written + more;
    if n + more.len() + 1 < cap && n < written.len() {
        assert(all[all.len() - 1 - (n + more.len())] == written[written.len() - 1 - n]);
    }
}

/// No position from `cap - 1` on is ever served, whatever was written.
pub proof fn lemma_old_positions_unserved<T>(written: Seq<T>, cap: nat, n: int)
    requires
        n + 1 >= cap,
    ensures
        value_at(written, cap, n) is None,
{
}

/// A ring is empty exactly when it has no latest value.
pub proof fn lemma_empty_iff_no_latest<T>(written: Seq<T>, cap: nat)
    requires
        valid_capacity(cap),
    ensures
        (written.len() == 0) == (value_at(written, cap, 0) is None),
{
}

/// Once a value was written, the ring stays non-empty and always has a
/// latest value, whatever is written after.
pub proof fn lemma_nonempty_stays_nonempty<T>(written: Seq<T>, more: Seq<T>, cap: nat)
    requires
        valid_capacity(cap),
        written.len() > 0,
    ensures
        (written + more).len() > 0,
        value_at(written + more, cap, 0) is Some,
{
}

/// A snapshot agrees with single reads: its `k`-th value (oldest first) is
/// the value at position `end - k`.
pub proof fn lemma_snapshot_matches_reads<T>(written: Seq<T>, cap: nat, start: int, end: int, k: int)
    requires
        snapshot(written, cap, start, end) is Some,
        0 <= k <= end - start,
    ensures
        snapshot(written, cap, start, end)->0.len() == end - start + 1,
        value_at(written, cap, end - k) == Some(snapshot(written, cap, start, end)->0[k]),
{
}

/// The snapshot of the whole served range, `0..=cap - 2`, is the last
/// `cap - 1` values written, oldest first, once that many were written.
pub proof fn lemma_full_snapshot_is_latest_values<T>(written: Seq<T>, cap: nat)
    requires
        valid_capacity(cap),
        written.len() >= cap - 1,
    ensures
        snapshot(written, cap, 0, cap - 2) == Some(written.skip(written.len() - (cap - 1))),
{
    assert(window(written, 0, cap - 2) =~= written.skip(written.len() - (cap - 1)));
}

/// A vector receiving a snapshot appends it to what it held.
pub proof fn lemma_vec_sink_appends<T: Copy>(items: Seq<T>, vals: Seq<T>)
    ensures
        pushed_all::<Vec<T>>(items, vals) == items + vals,
    decreases vals.len(),
{
    if vals.len() > 0 {
        lemma_vec_sink_appends::<T>(items, vals.drop_last());
        assert(items + vals.drop_last() + seq![vals.last()] =~= items + vals);
    } else {
        assert(items + vals =~= items);
    }
}

/// A slice receiving a snapshot holds it at its start, followed by what it
/// held past the snapshot's length.
pub proof fn lemma_slice_sink_overwrites_front<T: Copy + Default>(items: Seq<T>, vals: Seq<T>)
    requires
        vals.len() <= items.len(),
    ensures
        pushed_all::<[T]>(items, vals) == vals + items.skip(vals.len() as int),
    decreases vals.len(),
{
    if vals.len() > 0 {
        lemma_slice_sink_overwrites_front::<T>(items, vals.drop_last());
        let prev = vals.drop_last() + items.skip(vals.len() - 1);
        assert(prev.update(vals.len() - 1, vals.last()) =~= vals + items.skip(vals.len() as int));
    } else {
        assert(vals + items.skip(0) =~= items);
    }
}

/// An array receiving a snapshot holds it at its start, followed by what it
/// held past the snapshot's length.
pub proof fn lemma_array_sink_overwrites_front<T: Copy + Default, const N: usize>(
    items: Seq<T>,
    vals: Seq<T>,
)
    requires
        vals.len() <= items.len(),
    ensures
        pushed_all::<[T; N]>(items, vals) == vals + items.skip(vals.len() as int),
    decreases vals.len(),
{
    if vals.len() > 0 {
        lemma_array_sink_overwrites_front::<T, N>(items, vals.drop_last());
        let prev = vals.drop_last() + items.skip(vals.len() - 1);
        assert(prev.update(vals.len() - 1, vals.last()) =~= vals + items.skip(vals.len() as int));
    } else {
        assert(vals + items.skip(0) =~= items);
    }
}

} // verus!
