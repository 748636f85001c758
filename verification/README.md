# cyclotrace

A ring buffer that keeps the most recent values written to it. One writer adds
values; readers peek at a value by its position counted back from the latest
one (position 0 is the latest), or copy a snapshot of several positions into a
sink (`Vec`, slice or array). Reading does not consume: a value stays readable
until the writer has gone once around the ring.

## Layout

- `src/` — the library, verified with Verus.
  - `buffer.rs`: `Slot` and `Buffer<T, N>`, the ring itself. Its view is the
    sequence of every value written; `get`, `get_range`, `read`, `read_range`
    are specified exactly against it.
  - `model.rs`: the mathematical model — which positions a ring of `N` slots
    serves, and what a snapshot of a range of positions holds.
  - `laws.rs`: properties of the model proved once: read-after-write, how
    writes move values back and finally overwrite them, agreement of snapshots
    with single reads, and what each kind of sink holds after a snapshot.
  - `sink.rs`: the `Sink` trait and its implementations for `Vec<T>`, `[T]`
    and `[T; N]`.
  - `range.rs`: `PositionRange`, the ranges of positions a snapshot takes
    (`..`, `a..b`, `a..=b`, `a..`, `..b`, `..=b`, and a pair of `Bound`s).
    A range names positions as Rust ranges do: `0..2` is positions 0 and 1.
  - `ringbuf.rs`: `create_buffer`, `BufWriter`, `BufReader` — a writer and
    readers sharing one ring through a lock.
  - `statically.rs`: `StaticBuffer` and its `Writer` role.
- `app/` — what is not verified: the `static_buffer!` macro and the reads that
  wait for the writer (`read`, `read_latest`, `read_range`), which loop on the
  library's one-attempt `poll_read` and `poll_read_range`.
- `tests/` — the tests.

A ring of `N` slots needs `N > 1` and `N` a power of two. It serves positions
`0` to `N - 2`: the slot after them is the one the next write goes to.
