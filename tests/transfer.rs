use smithay_clipboard::transfer::{ReadOrigin, ReadOutcome, ReadStep, ReadTransfer, WriteOutcome, WriteStep, WriteTransfer};
use smithay_clipboard::ClipboardError;

#[test]
fn throttled_write_completes_once() {
    let payload: Vec<u8> = (0..10_000u32).map(|i| (i % 251) as u8).collect();
    let mut t = WriteTransfer::new(payload.clone());
    let mut sink: Vec<u8> = Vec::new();
    let mut done = 0;
    let mut blocked = false;
    for _ in 0..100_000 {
        let outcome = if blocked {
            WriteOutcome::WouldBlock
        } else {
            let rest = t.remaining();
            let n = rest.len().min(7);
            sink.extend_from_slice(&rest[..n]);
            WriteOutcome::Wrote(n)
        };
        blocked = !blocked;
        match t.on_write(outcome) {
            WriteStep::Done => {
                done += 1;
                break;
            },
            WriteStep::Abort => panic!("aborted"),
            WriteStep::WriteAgain | WriteStep::Wait => {},
        }
    }
    assert_eq!(done, 1);
    assert_eq!(sink, payload);
    assert_eq!(t.written_len(), 10_000);
}

#[test]
fn write_errors_abort() {
    let mut t = WriteTransfer::new(vec![1, 2, 3]);
    assert_eq!(t.on_write(WriteOutcome::Wrote(0)), WriteStep::Abort);
    assert_eq!(t.on_write(WriteOutcome::Wrote(2)), WriteStep::WriteAgain);
    assert_eq!(t.remaining(), &[3]);
    assert_eq!(t.on_write(WriteOutcome::Failed), WriteStep::Abort);
    assert_eq!(t.on_write(WriteOutcome::Wrote(1)), WriteStep::Done);
    let mut empty = WriteTransfer::new(Vec::new());
    assert_eq!(empty.on_write(WriteOutcome::Wrote(0)), WriteStep::Done);
}

#[test]
fn read_normalizes_on_completion() {
    let mut r = ReadTransfer::new("text/plain".to_string(), ReadOrigin::DndPeek, true);
    assert!(matches!(r.on_read(ReadOutcome::Chunk(b"a\r".to_vec())), ReadStep::ReadAgain));
    assert!(matches!(r.on_read(ReadOutcome::Chunk(b"\nb\r".to_vec())), ReadStep::ReadAgain));
    match r.on_read(ReadOutcome::Eof) {
        ReadStep::Complete { data, origin } => {
            assert_eq!(data.data, b"a\nb\n".to_vec());
            assert_eq!(origin, ReadOrigin::DndPeek);
        },
        _ => panic!("not complete"),
    }
    let mut raw = ReadTransfer::new("image/png".to_string(), ReadOrigin::Selection, false);
    raw.on_read(ReadOutcome::Chunk(b"a\r\n".to_vec()));
    match raw.on_read(ReadOutcome::Eof) {
        ReadStep::Complete { data, .. } => assert_eq!(data.data, b"a\r\n".to_vec()),
        _ => panic!("not complete"),
    }
}

#[test]
fn read_error_is_io() {
    let mut r = ReadTransfer::new("text/plain".to_string(), ReadOrigin::Selection, true);
    match r.on_read(ReadOutcome::Failed("broken pipe".to_string())) {
        ReadStep::Fail(ClipboardError::Io(m)) => assert_eq!(m, "broken pipe"),
        _ => panic!("expected an I/O error"),
    }
}

#[test]
fn bounded_pipe_write_varying_chunks() {
    let payload: Vec<u8> = (0..5000u32).map(|i| (i * 7 % 256) as u8).collect();
    let mut t = WriteTransfer::new(payload.clone());
    let mut sink: Vec<u8> = Vec::new();
    let mut removals = 0;
    let mut call = 0usize;
    loop {
        call += 1;
        let outcome = if call % 3 == 0 {
            WriteOutcome::WouldBlock
        } else {
            let rest = t.remaining();
            let n = rest.len().min(1 + call % 5);
            sink.extend_from_slice(&rest[..n]);
            WriteOutcome::Wrote(n)
        };
        match t.on_write(outcome) {
            WriteStep::Done => {
                removals += 1;
                break;
            },
            WriteStep::Abort => panic!("aborted"),
            WriteStep::WriteAgain | WriteStep::Wait => assert!(t.written_len() <= payload.len()),
        }
    }
    assert_eq!(removals, 1);
    assert_eq!(sink, payload);
}
