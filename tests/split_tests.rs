use rmk::{next_read_step, CodecError, ReadStep, SplitDriverError, WriteProgress};

fn payload(step: ReadStep) -> Option<Vec<u8>> {
    match step {
        ReadStep::Deliver(m) => Some(m),
        _ => None,
    }
}

#[test]
fn complete_frame_is_delivered() {
    assert_eq!(payload(next_read_step(5, Ok(Some(vec![1, 2, 3])))), Some(vec![1, 2, 3]));
    // a message already buffered is delivered by the empty probe too
    assert_eq!(payload(next_read_step(0, Ok(Some(vec![9])))), Some(vec![9]));
}

#[test]
fn unfinished_frame_reads_more() {
    assert!(matches!(next_read_step(3, Ok(None)), ReadStep::ReadMore));
}

#[test]
fn recoverable_errors_read_more() {
    for e in [CodecError::InvalidCrc, CodecError::InvalidFrame, CodecError::InvalidPriority, CodecError::InvalidData] {
        assert!(e.is_recoverable());
        assert!(matches!(next_read_step(8, Err(e)), ReadStep::ReadMore));
    }
}

#[test]
fn buffer_too_small_is_fatal() {
    assert!(!CodecError::BufferTooSmall.is_recoverable());
    assert!(matches!(
        next_read_step(8, Err(CodecError::BufferTooSmall)),
        ReadStep::Fail(SplitDriverError::SerializeError)
    ));
}

#[test]
fn empty_read_without_message_is_empty() {
    assert!(matches!(next_read_step(0, Ok(None)), ReadStep::Fail(SplitDriverError::EmptyMessage)));
    assert!(matches!(
        next_read_step(0, Err(CodecError::InvalidCrc)),
        ReadStep::Fail(SplitDriverError::EmptyMessage)
    ));
}

#[test]
fn corrupted_then_valid_yields_one_message() {
    let outcomes = vec![
        (4usize, Err(CodecError::InvalidCrc)),
        (2usize, Ok(None)),
        (3usize, Ok(Some(vec![0x42, 0x43]))),
        (3usize, Ok(Some(vec![0x99]))),
    ];
    let mut delivered = Vec::new();
    for (n, outcome) in outcomes {
        match next_read_step(n, outcome) {
            ReadStep::ReadMore => continue,
            ReadStep::Deliver(m) => {
                delivered.push(m);
                break;
            }
            ReadStep::Fail(e) => panic!("read loop failed: {:?}", e),
        }
    }
    assert_eq!(delivered, vec![vec![0x42, 0x43]]);
}

#[test]
fn partial_writes_advance() {
    let mut progress = WriteProgress::new(10);
    assert_eq!(progress.offset(), 0);
    assert!(!progress.is_done());
    progress.record(4);
    assert_eq!(progress.offset(), 4);
    progress.record(0);
    assert_eq!(progress.offset(), 4);
    progress.record(6);
    assert!(progress.is_done());
    assert_eq!(progress.offset(), 10);
    assert_eq!(progress.written(), 10);
    assert!(WriteProgress::new(0).is_done());
}
