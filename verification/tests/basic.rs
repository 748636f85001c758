use cyclotrace::{create_buffer, Buffer, ReadStep};

#[test]
fn test_loom() {
    let (writer, reader) = create_buffer::<u32, 2>();
    writer.write(42);
    let r1 = reader.clone();
    if let Some(v) = r1.get(0) {
        assert_eq!(v, 42);
    }
    let v = reader.get(0);
    assert_eq!(v, Some(42));
}

#[test]
fn get_consistency() {
    let (writer, reader) = create_buffer::<u32, 2>();
    writer.write(1);
    writer.write(2);
    if let Some(v) = reader.get(0) {
        assert!(v == 1 || v == 2);
    }
    if let Some(v) = reader.get(1) {
        assert!(v == 1 || v == 2);
    }
}

#[test]
fn basic_wraparound() {
    // Three writes to a ring of two slots.
    let (writer, reader) = create_buffer::<u32, 2>();
    writer.write(1);
    writer.write(2);
    writer.write(3);
    for i in 0..3 {
        if let Some(v) = reader.get(i) {
            assert!(v <= 3);
        }
    }

    // Three writes to a ring of four slots.
    let (writer, reader) = create_buffer::<u32, 4>();
    writer.write(1);
    writer.write(2);
    writer.write(3);
    assert_eq!(reader.get(0), Some(3));
    assert_eq!(reader.get(1), Some(2));
}

#[test]
fn basic_multiple_get() {
    let (writer, reader) = create_buffer::<u32, 2>();
    writer.write(42);
    assert_eq!(reader.get(0), Some(42));
    assert_eq!(reader.get(0), Some(42));

    // Two readers of one ring.
    let (writer, reader) = create_buffer::<u32, 2>();
    writer.write(42);
    let r1 = reader.clone();
    if let Some(v) = r1.get(0) {
        assert_eq!(v, 42);
    }
    let r2 = reader;
    if let Some(v) = r2.get(0) {
        assert_eq!(v, 42);
    }
}

#[test]
fn basic_range_get() {
    let (writer, reader) = create_buffer::<u32, 4>();
    writer.write(1);
    writer.write(2);
    writer.write(3);
    let mut buf = Vec::new();
    let _ = reader.get_range(.., &mut buf);
    assert_eq!(buf, vec![1, 2, 3]);

    // Snapshots taken repeatedly hold only written values.
    for _ in 0..3 {
        let mut buf = Vec::new();
        if reader.get_range(.., &mut buf).is_some() {
            assert!(buf.iter().all(|&x| x <= 3));
        }
    }
}

#[test]
fn read() {
    let mut ring = Buffer::<u32, 4>::new();
    ring.write(1);
    ring.write(2);
    ring.write(3);
    let v = ring.read_latest();
    assert!(v <= 3);

    // One attempt at the same read through a reader of a shared ring.
    let (writer, reader) = create_buffer::<u32, 4>();
    writer.write(1);
    writer.write(2);
    writer.write(3);
    match reader.poll_read(0) {
        ReadStep::Ready(Some(v)) => assert!(v <= 3),
        other => panic!("unexpected {:?}", other),
    }
}

#[test]
fn basic_read_range() {
    let mut ring = Buffer::<u32, 4>::new();
    ring.write(1);
    ring.write(2);
    ring.write(3);
    let mut buf = Vec::new();
    ring.read_range(.., &mut buf).unwrap();
    assert!(buf.iter().all(|&x| x <= 3));
    assert_eq!(buf, vec![1, 2, 3]);

    let (writer, reader) = create_buffer::<u32, 4>();
    writer.write(1);
    writer.write(2);
    writer.write(3);
    let mut buf = Vec::new();
    assert_eq!(reader.poll_read_range(.., &mut buf), ReadStep::Ready(Some(())));
    assert_eq!(buf, vec![1, 2, 3]);
}

#[test]
fn empty() {
    let (_, reader) = create_buffer::<u32, 2>();
    assert_eq!(reader.get(0), None);
}

#[test]
fn get() {
    let (writer, reader) = create_buffer::<u32, 2>();
    writer.write(42);
    assert_eq!(reader.get(0), Some(42));
    assert_eq!(reader.get(1), None);
}

#[test]
fn range_get_wraparound() {
    let (writer, reader) = create_buffer::<u32, 4>();
    writer.write(1);
    writer.write(2);
    writer.write(3);
    writer.write(4);
    writer.write(5);
    let mut buf = Vec::new();
    let _ = reader.get_range(.., &mut buf);
    assert_eq!(buf, vec![3, 4, 5]);
}

#[test]
fn range_get_empty() {
    let (_writer, reader) = create_buffer::<u32, 2>();
    let mut buf = Vec::new();
    let _ = reader.get_range(.., &mut buf);
    assert!(buf.is_empty());
}

#[test]
fn range_get_slice() {
    let (writer, reader) = create_buffer::<u32, 4>();
    writer.write(1);
    writer.write(2);
    writer.write(3);
    let mut buf = [0; 3];
    let _ = reader.get_range(.., buf.as_mut_slice());
    assert_eq!(buf, [1, 2, 3]);
}

#[test]
fn range_get_array() {
    let (writer, reader) = create_buffer::<u32, 4>();
    writer.write(1);
    writer.write(2);
    writer.write(3);
    let mut buf = [0; 3];
    let _ = reader.get_range(.., &mut buf);
    assert_eq!(buf, [1, 2, 3]);
}

#[test]
fn read_latest() {
    let mut ring = Buffer::<u32, 4>::new();
    ring.write(42);
    assert_eq!(ring.read_latest(), 42);

    let (writer, reader) = create_buffer::<u32, 4>();
    writer.write(42);
    assert_eq!(reader.poll_read(0), ReadStep::Ready(Some(42)));
}

#[test]
fn read_overwrite() {
    let mut ring = Buffer::<u32, 4>::new();
    ring.write(1);
    ring.write(2);
    ring.write(3);
    ring.write(4);
    ring.write(5);
    let mut buf = Vec::new();
    ring.read_range(.., &mut buf).unwrap();
    assert_eq!(buf, vec![3, 4, 5]);

    let (writer, reader) = create_buffer::<u32, 4>();
    for v in 1..=5 {
        writer.write(v);
    }
    let mut buf = Vec::new();
    assert_eq!(reader.poll_read_range(.., &mut buf), ReadStep::Ready(Some(())));
    assert_eq!(buf, vec![3, 4, 5]);
}
