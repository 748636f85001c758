//! A ring buffer that keeps the most recent values written to it: one writer
//! adds values, readers peek at them by position counted back from the latest
//! value, or copy a snapshot of several positions into a sink.
mod buffer;
mod laws;
mod model;
mod range;
mod ringbuf;
mod sink;
mod statically;

pub use buffer::{Buffer, ReadStep, Slot, init_slots, range_positions};
pub use laws::{
    lemma_latest_is_last_written, lemma_writes_shift_positions, lemma_old_positions_unserved,
    lemma_empty_iff_no_latest, lemma_nonempty_stays_nonempty, lemma_snapshot_matches_reads, lemma_full_snapshot_is_latest_values,
    lemma_vec_sink_appends, lemma_slice_sink_overwrites_front, lemma_array_sink_overwrites_front,
};
pub use model::{
    is_pow2, valid_capacity, value_at, first_position, last_position, positions_served,
    window, snapshot, range_first, range_last, range_len, served, takes,
};
pub use range::{Edge, PositionRange};
pub use ringbuf::{create_buffer, BufReader, BufWriter, WellFormed};
pub use sink::{Sink, is_default, pushed_all};
pub use statically::{StaticBuffer, Writer};
