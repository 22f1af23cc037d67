use qc_interop::batch::decode_batch;
use qc_interop::errors::InteropError;
use qc_interop::lifecycle::HandleTable;

fn frame(payloads: &[&[u8]]) -> Vec<u8> {
    let mut out = Vec::new();
    for p in payloads {
        let n = p.len() as u32;
        out.extend_from_slice(&[n as u8, (n >> 8) as u8, (n >> 16) as u8, (n >> 24) as u8]);
        out.extend_from_slice(p);
    }
    out
}

#[test]
fn decode_preserves_order_and_contents() {
    let buf = frame(&[b"alpha", b"", b"beta"]);
    let records = decode_batch(&buf).unwrap();
    assert_eq!(records.len(), 3);
    assert_eq!(records[0].payload, b"alpha".to_vec());
    assert_eq!(records[1].payload, Vec::<u8>::new());
    assert_eq!(records[2].payload, b"beta".to_vec());
}

#[test]
fn decode_empty_buffer_is_empty_batch() {
    let records = decode_batch(&[]).unwrap();
    assert_eq!(records.len(), 0);
}

#[test]
fn decode_rejects_truncated_length() {
    assert_eq!(decode_batch(&[1, 0]), Err(InteropError::MalformedBatch));
}

#[test]
fn decode_rejects_overrunning_payload() {
    assert_eq!(decode_batch(&[5, 0, 0, 0, 1]), Err(InteropError::MalformedBatch));
}

#[test]
fn deliver_before_initialize_fails() {
    let mut table = HandleTable::new();
    let h = table.init();
    let buf = frame(&[b"x"]);
    assert_eq!(table.OnData(h, &buf), Err(InteropError::InvalidHandleState));
    assert_eq!(table.points_of(h), Some(0));
}

#[test]
fn operations_after_destroy_fail() {
    let mut table = HandleTable::new();
    let h = table.init();
    table.Initialize(h).unwrap();
    table.finalize(h).unwrap();
    assert_eq!(table.Initialize(h), Err(InteropError::InvalidHandleState));
    assert_eq!(table.OnData(h, &frame(&[b"x"])), Err(InteropError::InvalidHandleState));
    assert_eq!(table.finalize(h), Err(InteropError::InvalidHandleState));
    assert_eq!(table.points_of(h), None);
}

#[test]
fn initialize_is_idempotent() {
    let mut table = HandleTable::new();
    let h = table.init();
    assert_eq!(table.Initialize(h), Ok(h));
    assert_eq!(table.Initialize(h), Ok(h));
}

#[test]
fn unknown_handle_is_rejected() {
    let mut table = HandleTable::new();
    assert_eq!(table.Initialize(7), Err(InteropError::InvalidHandleState));
}

#[test]
fn deliver_counts_records_in_order() {
    let mut table = HandleTable::new();
    let h = table.init();
    table.Initialize(h).unwrap();
    assert_eq!(table.OnData(h, &frame(&[b"a", b"bb", b"ccc"])), Ok(h));
    assert_eq!(table.points_of(h), Some(3));
    assert_eq!(table.OnData(h, &frame(&[b"d", b"e"])), Ok(h));
    assert_eq!(table.points_of(h), Some(5));
}

#[test]
fn empty_batch_applies_no_record() {
    let mut table = HandleTable::new();
    let h = table.init();
    table.Initialize(h).unwrap();
    assert_eq!(table.OnData(h, &[]), Ok(h));
    assert_eq!(table.points_of(h), Some(0));
}

#[test]
fn malformed_batch_applies_nothing() {
    let mut table = HandleTable::new();
    let h = table.init();
    table.Initialize(h).unwrap();
    assert_eq!(table.OnData(h, &[9, 0, 0, 0]), Err(InteropError::MalformedBatch));
    assert_eq!(table.points_of(h), Some(0));
}

#[test]
fn allocation_balance_returns_to_start() {
    let mut table = HandleTable::new();
    assert_eq!(table.live_instances(), 0);
    let h1 = table.init();
    assert_eq!(table.live_instances(), 1);
    let h2 = table.init();
    assert_eq!(table.live_instances(), 2);
    table.Initialize(h2).unwrap();
    table.OnData(h2, &frame(&[b"r"])).unwrap();
    table.finalize(h2).unwrap();
    assert_eq!(table.live_instances(), 1);
    table.finalize(h1).unwrap();
    assert_eq!(table.live_instances(), 0);
}

#[test]
fn handles_are_never_reused() {
    let mut table = HandleTable::new();
    let h1 = table.init();
    table.finalize(h1).unwrap();
    let h2 = table.init();
    assert_ne!(h1, h2);
    assert_eq!(table.Initialize(h1), Err(InteropError::InvalidHandleState));
    assert_eq!(table.Initialize(h2), Ok(h2));
}
