use vstd::prelude::*;
use core::ops::{
    Bound, Range, RangeBounds, RangeFrom, RangeFull, RangeInclusive, RangeTo, RangeToInclusive,
};

verus! {

/// `core::ops::RangeFull`, the range `..`.
#[verifier::external_type_specification]
#[verifier::external_body]
pub struct ExRangeFull(RangeFull);

/// `core::ops::RangeFrom`, the range `start..`.
#[verifier::external_type_specification]
#[verifier::external_body]
#[verifier::reject_recursive_types(Idx)]
pub struct ExRangeFrom<Idx>(RangeFrom<Idx>);

/// `core::ops::RangeTo`, the range `..end`.
#[verifier::external_type_specification]
#[verifier::external_body]
#[verifier::reject_recursive_types(Idx)]
pub struct ExRangeTo<Idx>(RangeTo<Idx>);

/// `core::ops::RangeToInclusive`, the range `..=end`.
#[verifier::external_type_specification]
#[verifier::external_body]
#[verifier::reject_recursive_types(Idx)]
pub struct ExRangeToInclusive<Idx>(RangeToInclusive<Idx>);

/// `core::ops::Bound`, one end of a range.
#[verifier::external_type_specification]
#[verifier::external_body]
#[verifier::reject_recursive_types(T)]
pub struct ExBound<T>(Bound<T>);

/// One end of a range of positions, as `core::ops::Bound` has it.
#[derive(Clone, Copy, PartialEq, Eq, Structural, Debug)]
pub enum Edge {
    Included(usize),
    Excluded(usize),
    Unbounded,
}

/// A range of positions counted back from the latest value (position 0).
pub trait PositionRange {
    /// The start edge.
    spec fn start_edge(&self) -> Edge;

    /// The end edge.
    spec fn end_edge(&self) -> Edge;

    /// Both edges.
    fn edges(&self) -> (r: (Edge, Edge))
        ensures
            r.0 == self.start_edge(),
            r.1 == self.end_edge(),
    ;
}

impl PositionRange for RangeFull {
    open spec fn start_edge(&self) -> Edge {
        Edge::Unbounded
    }

    open spec fn end_edge(&self) -> Edge {
        Edge::Unbounded
    }

    fn edges(&self) -> (r: (Edge, Edge)) {
        (Edge::Unbounded, Edge::Unbounded)
    }
}

impl PositionRange for Range<usize> {
    open spec fn start_edge(&self) -> Edge {
        Edge::Included(self.start)
    }

    open spec fn end_edge(&self) -> Edge {
        Edge::Excluded(self.end)
    }

    fn edges(&self) -> (r: (Edge, Edge)) {
        (Edge::Included(self.start), Edge::Excluded(self.end))
    }
}

/// `RangeInclusive::start`: the lower bound of the range, included.
pub assume_specification<Idx>[ RangeInclusive::<Idx>::start ](r: &RangeInclusive<Idx>) -> (s: &Idx)
    ensures
        *s == r@.start,
;

/// The end edge of an inclusive range: its end, included, unless the range
/// was iterated to exhaustion, in which case the end is excluded.
pub open spec fn inclusive_end_edge(r: RangeInclusive<usize>) -> Edge {
    if r@.exhausted {
        Edge::Excluded(r@.end)
    } else {
        Edge::Included(r@.end)
    }
}

/// `RangeBounds::end_bound` on an inclusive range: `Included(end)`, or
/// `Excluded(end)` once the range was iterated to exhaustion.
#[verifier::external_body]
fn inclusive_end(r: &RangeInclusive<usize>) -> (out: Edge)
    ensures
        out == inclusive_end_edge(*r),
{
    match RangeBounds::end_bound(r) {
        Bound::Included(&n) => Edge::Included(n),
        Bound::Excluded(&n) => Edge::Excluded(n),
        Bound::Unbounded => Edge::Unbounded,
    }
}

impl PositionRange for RangeInclusive<usize> {
    open spec fn start_edge(&self) -> Edge {
        Edge::Included(self@.start)
    }

    open spec fn end_edge(&self) -> Edge {
        inclusive_end_edge(*self)
    }

    fn edges(&self) -> (r: (Edge, Edge)) {
        (Edge::Included(*self.start()), inclusive_end(self))
    }
}

/// The `start` field of a `start..` range.
pub uninterp spec fn from_start(r: RangeFrom<usize>) -> usize;

/// Reads the `start` field of a `start..` range.
#[verifier::external_body]
fn start_of(r: &RangeFrom<usize>) -> (out: usize)
    ensures
        out == from_start(*r),
{
    r.start
}

impl PositionRange for RangeFrom<usize> {
    open spec fn start_edge(&self) -> Edge {
        Edge::Included(from_start(*self))
    }

    open spec fn end_edge(&self) -> Edge {
        Edge::Unbounded
    }

    fn edges(&self) -> (r: (Edge, Edge)) {
        (Edge::Included(start_of(self)), Edge::Unbounded)
    }
}

/// The `end` field of a `..end` range.
pub uninterp spec fn to_end(r: RangeTo<usize>) -> usize;

/// Reads the `end` field of a `..end` range.
#[verifier::external_body]
fn end_of(r: &RangeTo<usize>) -> (out: usize)
    ensures
        out == to_end(*r),
{
    r.end
}

impl PositionRange for RangeTo<usize> {
    open spec fn start_edge(&self) -> Edge {
        Edge::Unbounded
    }

    open spec fn end_edge(&self) -> Edge {
        Edge::Excluded(to_end(*self))
    }

    fn edges(&self) -> (r: (Edge, Edge)) {
        (Edge::Unbounded, Edge::Excluded(end_of(self)))
    }
}

/// The `end` field of a `..=end` range.
pub uninterp spec fn to_inclusive_end(r: RangeToInclusive<usize>) -> usize;

/// Reads the `end` field of a `..=end` range.
#[verifier::external_body]
fn inclusive_end_of(r: &RangeToInclusive<usize>) -> (out: usize)
    ensures
        out == to_inclusive_end(*r),
{
    r.end
}

impl PositionRange for RangeToInclusive<usize> {
    open spec fn start_edge(&self) -> Edge {
        Edge::Unbounded
    }

    open spec fn end_edge(&self) -> Edge {
        Edge::Included(to_inclusive_end(*self))
    }

    fn edges(&self) -> (r: (Edge, Edge)) {
        (Edge::Unbounded, Edge::Included(inclusive_end_of(self)))
    }
}

/// The edge a `Bound<usize>` stands for.
pub uninterp spec fn bound_edge(b: Bound<usize>) -> Edge;

/// Converts a `Bound<usize>` into the edge it stands for, variant by variant.
#[verifier::external_body]
fn edge_of(b: &Bound<usize>) -> (out: Edge)
    ensures
        out == bound_edge(*b),
{
    match b {
        Bound::Included(n) => Edge::Included(*n),
        Bound::Excluded(n) => Edge::Excluded(*n),
        Bound::Unbounded => Edge::Unbounded,
    }
}

impl PositionRange for (Bound<usize>, Bound<usize>) {
    open spec fn start_edge(&self) -> Edge {
        bound_edge(self.0)
    }

    open spec fn end_edge(&self) -> Edge {
        bound_edge(self.1)
    }

    fn edges(&self) -> (r: (Edge, Edge)) {
        (edge_of(&self.0), edge_of(&self.1))
    }
}

} // verus!
