use core::ops::Bound;
use cyclotrace::{create_buffer, init_slots, Buffer, ReadStep, Sink, Slot, StaticBuffer};

#[test]
fn latest_is_last_written() {
    let mut ring = Buffer::<u64, 8>::new();
    for i in 1..=20u64 {
        ring.write(i * 10);
        assert_eq!(ring.get_latest(), Some(i * 10));
        assert_eq!(ring.get(0), Some(i * 10));
    }
}

#[test]
fn writes_shift_positions() {
    let mut ring = Buffer::<u32, 8>::new();
    ring.write(1);
    ring.write(2);
    assert_eq!(ring.get(1), Some(1));
    ring.write(3);
    assert_eq!(ring.get(2), Some(1));
    assert_eq!(ring.get(1), Some(2));
    // Position 7 is never served in a ring of eight slots.
    for v in 4..=10 {
        ring.write(v);
    }
    assert_eq!(ring.get(6), Some(4));
    assert_eq!(ring.get(7), None);
    assert_eq!(ring.get(100), None);
}

#[test]
fn many_writes_wrap() {
    let mut ring = Buffer::<u32, 4>::new();
    for v in 1..=100 {
        ring.write(v);
    }
    assert_eq!(ring.get(0), Some(100));
    assert_eq!(ring.get(1), Some(99));
    assert_eq!(ring.get(2), Some(98));
    assert_eq!(ring.get(3), None);
    assert_eq!(ring.read(2), Some(98));
    assert_eq!(ring.read(3), None);
}

#[test]
fn empty_iff_no_latest() {
    let mut ring = Buffer::<u8, 2>::new();
    assert!(ring.is_empty());
    assert_eq!(ring.get_latest(), None);
    ring.write(7);
    assert!(!ring.is_empty());
    assert_eq!(ring.get_latest(), Some(7));

    let (writer, reader) = create_buffer::<u8, 2>();
    assert!(reader.is_empty());
    writer.write(1);
    assert!(!reader.is_empty());
    assert_eq!(reader.get_latest(), Some(1));
}

#[test]
fn snapshot_matches_gets() {
    let mut ring = Buffer::<u32, 8>::new();
    for v in 1..=9 {
        ring.write(v);
    }
    let mut buf = Vec::new();
    assert_eq!(ring.get_range(1..4, &mut buf), Some(()));
    // Positions 1 to 3, oldest first.
    assert_eq!(buf, vec![6, 7, 8]);
    for (k, v) in buf.iter().enumerate() {
        assert_eq!(ring.get(3 - k), Some(*v));
    }
}

#[test]
fn explicit_ranges() {
    let mut ring = Buffer::<u32, 8>::new();
    for v in 1..=6 {
        ring.write(v);
    }
    // `0..2` names positions 0 and 1.
    let mut buf = Vec::new();
    assert_eq!(ring.get_range(0..2, &mut buf), Some(()));
    assert_eq!(buf, vec![5, 6]);
    // `1..=2` names positions 1 and 2.
    let mut buf = Vec::new();
    assert_eq!(ring.get_range(1..=2, &mut buf), Some(()));
    assert_eq!(buf, vec![4, 5]);
    // Bounds given one by one.
    let mut buf = Vec::new();
    assert_eq!(ring.get_range((Bound::Excluded(0), Bound::Included(2)), &mut buf), Some(()));
    assert_eq!(buf, vec![4, 5]);
    // A reversed range and an empty one.
    let mut buf = vec![9];
    assert_eq!(ring.get_range(3..1, &mut buf), None);
    assert_eq!(ring.get_range(2..2, &mut buf), None);
    assert_eq!(buf, vec![9]);
    // A range reaching the slot the next write goes to, and one at the top of usize.
    assert_eq!(ring.get_range(0..8, &mut buf), None);
    assert_eq!(ring.get_range((Bound::Included(0), Bound::Included(usize::MAX)), &mut buf), None);
    assert_eq!(ring.get_range((Bound::Excluded(usize::MAX), Bound::Unbounded), &mut buf), None);
    assert_eq!(buf, vec![9]);
    // A served range past what was written.
    assert_eq!(ring.get_range(0..=6, &mut buf), None);
    assert_eq!(ring.get_range(.., &mut buf), None);
    assert_eq!(buf, vec![9]);
}

#[test]
fn vec_sink_appends() {
    let (writer, reader) = create_buffer::<u32, 4>();
    writer.write(1);
    writer.write(2);
    writer.write(3);
    let mut buf = vec![9, 8];
    assert_eq!(reader.get_range(.., &mut buf), Some(()));
    assert_eq!(buf, vec![9, 8, 1, 2, 3]);
}

#[test]
fn slice_sink_overwrites_front() {
    let (writer, reader) = create_buffer::<u32, 4>();
    writer.write(1);
    writer.write(2);
    writer.write(3);
    let mut buf = [7; 5];
    assert_eq!(reader.get_range(.., buf.as_mut_slice()), Some(()));
    assert_eq!(buf, [1, 2, 3, 7, 7]);
    let mut arr = [7; 4];
    assert_eq!(reader.get_range(.., &mut arr), Some(()));
    assert_eq!(arr, [1, 2, 3, 7]);
}

#[test]
fn sink_operations() {
    let mut v: Vec<u32> = Vec::with_capacity(10);
    v.push(1);
    v.push(2);
    assert_eq!(Sink::len(&v), 2);
    assert!(Sink::remain(&v) >= 8);
    Sink::reserve(&mut v, 20);
    assert!(Sink::remain(&v) >= 20);
    Sink::push(&mut v, 3, 0);
    assert_eq!(v, vec![1, 2, 3]);
    Sink::truncate(&mut v, 1);
    assert_eq!(v, vec![1]);
    // Cutting a vector past its end leaves it as it is.
    Sink::truncate(&mut v, 10);
    assert_eq!(v, vec![1]);

    let mut a = [5u32; 4];
    assert_eq!(Sink::len(&a), 4);
    assert_eq!(Sink::remain(&a), 4);
    Sink::push(&mut a, 9, 2);
    assert_eq!(a, [5, 5, 9, 5]);
    Sink::truncate(&mut a, 1);
    assert_eq!(a, [5, 0, 0, 0]);

    let mut s = [5u32; 3];
    let slice = s.as_mut_slice();
    assert_eq!(Sink::len(slice), 3);
    assert_eq!(Sink::remain(slice), 3);
    Sink::push(slice, 9, 0);
    Sink::truncate(slice, 2);
    assert_eq!(s, [9, 5, 0]);
}

#[test]
fn poll_read_steps() {
    let (writer, reader) = create_buffer::<u32, 4>();
    assert_eq!(reader.poll_read(0), ReadStep::Wait);
    assert_eq!(reader.poll_read(3), ReadStep::Ready(None));
    writer.write(42);
    assert_eq!(reader.poll_read(0), ReadStep::Ready(Some(42)));
    assert_eq!(reader.poll_read(1), ReadStep::Wait);

    let mut buf = Vec::new();
    assert_eq!(reader.poll_read_range(.., &mut buf), ReadStep::Wait);
    assert!(buf.is_empty());
    assert_eq!(reader.poll_read_range(2..1, &mut buf), ReadStep::Ready(None));
    writer.write(43);
    writer.write(44);
    assert_eq!(reader.poll_read_range(.., &mut buf), ReadStep::Ready(Some(())));
    assert_eq!(buf, vec![42, 43, 44]);
}

#[test]
fn static_writer_role() {
    let ring: &'static StaticBuffer<u32, 4> = Box::leak(Box::new(StaticBuffer::new()));
    assert!(ring.is_empty());
    assert_eq!(ring.write(1), Some(()));
    assert_eq!(ring.get_latest(), Some(1));
    let writer = ring.get_writer().unwrap();
    assert!(ring.get_writer().is_none());
    assert_eq!(ring.write(2), None);
    writer.write(3);
    assert_eq!(ring.get(0), Some(3));
    assert_eq!(ring.get(1), Some(1));
    drop(writer);
    assert_eq!(ring.write(4), Some(()));
    assert!(ring.get_writer().is_some());
    let mut buf = Vec::new();
    assert_eq!(ring.get_range(.., &mut buf), Some(()));
    assert_eq!(buf, vec![1, 3, 4]);
    assert_eq!(ring.poll_read(1), ReadStep::Ready(Some(3)));
}

#[test]
fn slots_and_init() {
    let mut slot = Slot::<u32>::new();
    slot.write(5);
    assert_eq!(slot.read(), 5);
    slot.write(6);
    assert_eq!(slot.read(), 6);
    let slots = init_slots::<u32, 8>();
    assert_eq!(slots.len(), 8);
}

#[test]
fn open_ended_ranges() {
    let mut ring = Buffer::<u32, 8>::new();
    for v in 1..=6 {
        ring.write(v);
    }
    let mut buf = Vec::new();
    assert_eq!(ring.get_range(2.., &mut buf), None);
    assert!(buf.is_empty());
    ring.write(7);
    assert_eq!(ring.get_range(2.., &mut buf), Some(()));
    assert_eq!(buf, vec![1, 2, 3, 4, 5]);
    let mut buf = Vec::new();
    assert_eq!(ring.get_range(..3, &mut buf), Some(()));
    assert_eq!(buf, vec![5, 6, 7]);
    let mut buf = Vec::new();
    assert_eq!(ring.get_range(..=2, &mut buf), Some(()));
    assert_eq!(buf, vec![5, 6, 7]);
    let mut buf = Vec::new();
    assert_eq!(ring.read_range(0..=0, &mut buf), Some(()));
    assert_eq!(buf, vec![7]);
}

#[test]
fn buffer_poll_steps() {
    let mut ring = Buffer::<u32, 4>::new();
    assert_eq!(ring.poll_read(0), ReadStep::Wait);
    assert_eq!(ring.poll_read(3), ReadStep::Ready(None));
    ring.write(1);
    assert_eq!(ring.poll_read(0), ReadStep::Ready(Some(1)));
    let mut buf = Vec::new();
    assert_eq!(ring.poll_read_range(0..2, &mut buf), ReadStep::Wait);
    assert!(buf.is_empty());
    assert_eq!(ring.poll_read_range(0..4, &mut buf), ReadStep::Ready(None));
    ring.write(2);
    assert_eq!(ring.poll_read_range(0..2, &mut buf), ReadStep::Ready(Some(())));
    assert_eq!(buf, vec![1, 2]);
}

#[test]
fn write_as_writer_answers() {
    let ring: &'static StaticBuffer<u32, 4> = Box::leak(Box::new(StaticBuffer::new()));
    assert_eq!(ring.write_as_writer(false, 5), None);
    assert!(ring.is_empty());
    let writer = ring.get_writer().unwrap();
    assert_eq!(ring.write_as_writer(true, 6), Some(()));
    assert_eq!(ring.get_latest(), Some(6));
    drop(writer);
}
