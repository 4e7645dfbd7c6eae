use bluetooth_getty::buffer::{Buffer, ReadOutcome, ReadResult, WriteOutcome, BUF_SIZE};

#[test]
fn new_buffer_is_empty() {
    let mut b = Buffer::new();
    assert!(b.has_space());
    assert!(!b.has_data());
    assert!(b.pending().is_empty());
    assert_eq!(b.make_room(), 4096);
    assert_eq!(BUF_SIZE, 4096);
}

#[test]
fn bytes_come_out_in_order() {
    let mut b = Buffer::new();
    b.make_room();
    assert_eq!(
        b.read_from(ReadOutcome::Bytes(vec![1, 2, 3, 4])),
        ReadResult::Progress
    );
    assert!(b.has_data());
    b.write_to(WriteOutcome::Written(2));
    assert_eq!(b.pending(), [3, 4]);
    assert_eq!(b.make_room(), 4096 - 4);
    b.read_from(ReadOutcome::Bytes(vec![5]));
    assert_eq!(b.pending(), [3, 4, 5]);
    b.write_to(WriteOutcome::Failed(libc::EAGAIN));
    assert_eq!(b.pending(), [3, 4, 5]);
    b.write_to(WriteOutcome::Written(3));
    assert!(!b.has_data());
    assert_eq!(b.make_room(), 4096);
}

#[test]
fn full_buffer_is_compacted_only_when_needed() {
    let mut b = Buffer::new();
    let all: Vec<u8> = (0..BUF_SIZE).map(|i| i as u8).collect();
    b.read_from(ReadOutcome::Bytes(all.clone()));
    assert!(!b.has_space());
    assert_eq!(b.make_room(), 0);
    assert_eq!(b.read_from(ReadOutcome::Bytes(vec![])), ReadResult::Progress);
    b.write_to(WriteOutcome::Written(10));
    assert!(b.has_space());
    assert_eq!(b.make_room(), 10);
    assert_eq!(b.pending(), &all[10..]);
    b.read_from(ReadOutcome::Bytes(vec![7; 10]));
    assert_eq!(b.pending().len(), BUF_SIZE);
    assert_eq!(&b.pending()[..BUF_SIZE - 10], &all[10..]);
    assert_eq!(&b.pending()[BUF_SIZE - 10..], [7; 10]);
}

#[test]
fn reads_without_bytes() {
    let mut b = Buffer::new();
    assert_eq!(b.read_from(ReadOutcome::Bytes(vec![])), ReadResult::Eof);
    assert_eq!(
        b.read_from(ReadOutcome::Failed(libc::EAGAIN)),
        ReadResult::WouldBlock
    );
    assert_eq!(b.read_from(ReadOutcome::Failed(libc::EIO)), ReadResult::Eio);
    assert_eq!(
        b.read_from(ReadOutcome::Failed(libc::EBADF)),
        ReadResult::Error
    );
    assert_eq!(
        b.read_from(ReadOutcome::Failed(libc::EINTR)),
        ReadResult::Error
    );
    assert!(!b.has_data());
}
