use vstd::prelude::*;
use vstd::arithmetic::power2::pow2;

use crate::range::{Edge, PositionRange};
use crate::sink::Sink;

verus! {

/// Whether `n` is a power of two that fits in 64 bits.
pub open spec fn is_pow2(n: nat) -> bool {
    exists|k: nat| k < 64 && pow2(k) == n
}

/// Whether a ring of `cap` slots can be built: more than one slot, a power of two.
pub open spec fn valid_capacity(cap: nat) -> bool {
    1 < cap && is_pow2(cap)
}

/// The value `n` positions back from the latest one among the values
/// `written` (oldest first), as a ring of `cap` slots serves it: a ring keeps
/// the latest `cap - 1` values readable, since the slot after them is the one
/// the next write goes to.
pub open spec fn value_at<T>(written: Seq<T>, cap: nat, n: int) -> Option<T> {
    if 0 <= n && n + 1 < cap && n < written.len() {
        Some(written[written.len() - 1 - n])
    } else {
        None
    }
}

/// The first position a range reads, from its start edge.
pub open spec fn first_position(e: Edge) -> int {
    match e {
        Edge::Included(n) => n as int,
        Edge::Excluded(n) => n + 1,
        Edge::Unbounded => 0,
    }
}

/// The last position a range reads, from its end edge: an included end is
/// read, an excluded end stops one position short of it, and an open end stops
/// at the oldest position a ring of `cap` slots serves.
pub open spec fn last_position(e: Edge, cap: nat) -> int {
    match e {
        Edge::Included(n) => n as int,
        Edge::Excluded(n) => n - 1,
        Edge::Unbounded => cap - 2,
    }
}

/// Whether positions `start..=end` lie in what a ring of `cap` slots serves.
pub open spec fn positions_served(start: int, end: int, cap: nat) -> bool {
    0 <= start <= end && end + 1 < cap
}

/// The values at positions `end` down to `start`, oldest first.
pub open spec fn window<T>(written: Seq<T>, start: int, end: int) -> Seq<T> {
    written.subrange(written.len() - 1 - end, written.len() - start)
}

/// The snapshot of positions `start..=end`: `None` when the positions are not
/// served or not all of them were written yet.
pub open spec fn snapshot<T>(written: Seq<T>, cap: nat, start: int, end: int) -> Option<Seq<T>> {
    if positions_served(start, end, cap) && end < written.len() {
        Some(window(written, start, end))
    } else {
        None
    }
}

/// The first position `range` reads.
pub open spec fn range_first<R: PositionRange>(range: &R) -> int {
    first_position(range.start_edge())
}

/// The last position `range` reads from a ring of `cap` slots.
pub open spec fn range_last<R: PositionRange>(range: &R, cap: nat) -> int {
    last_position(range.end_edge(), cap)
}

/// Whether a ring of `cap` slots serves every position `range` names, and
/// the range names at least one.
pub open spec fn served<R: PositionRange>(range: &R, cap: nat) -> bool {
    positions_served(range_first(range), range_last(range, cap), cap)
}

/// How many positions `range` names in a ring of `cap` slots.
pub open spec fn range_len<R: PositionRange>(range: &R, cap: nat) -> int {
    range_last(range, cap) - range_first(range) + 1
}

/// Whether a sink takes `count` values at indices `0..count` without
/// growing; a sink that grows takes any number.
pub open spec fn takes<S: Sink + ?Sized>(buf: &S, count: int) -> bool {
    buf.fixed_room() matches Some(room) ==> count <= room
}

} // verus!
