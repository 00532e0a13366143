use file_store::buffer::{ReadBuffer, DEFAULT_INITIAL_BUFFER_SIZE, DEFAULT_MIN_BUFFER_SIZE};
use file_store::file::FileWriter;

/// Drains `data` through the adaptive buffer policy as a read loop would:
/// each read takes at most the buffer's remaining capacity, the emitted
/// chunks are reassembled, and a zero-length read ends the stream.
fn chunk_through(data: &[u8], mut rb: ReadBuffer, source_chunk: usize) -> Vec<u8> {
    let mut out = Vec::new();
    let mut pos = 0;
    loop {
        let want = rb.request_size().min(source_chunk);
        let take = want.min(data.len() - pos);
        if take == 0 {
            break;
        }
        let chunk = rb.absorb(data[pos..pos + take].to_vec());
        pos += take;
        out.extend_from_slice(&chunk);
    }
    out
}

#[test]
fn test_policy_shrinks_then_replaces() {
    let mut rb = ReadBuffer::new(10, 4);
    assert_eq!(rb.request_size(), 10);
    let c = rb.absorb(vec![1, 2, 3]);
    assert_eq!(c, vec![1, 2, 3]);
    assert_eq!(rb.request_size(), 7);
    let _ = rb.absorb(vec![4, 5, 6]);
    // Four bytes remain: exactly the minimum, so the buffer is kept.
    assert_eq!(rb.request_size(), 4);
    let _ = rb.absorb(vec![7]);
    // Three remain, under the minimum: a fresh full buffer is next.
    assert_eq!(rb.request_size(), 10);
}

#[test]
fn test_defaults() {
    let rb = ReadBuffer::with_defaults();
    assert_eq!(rb.request_size(), DEFAULT_INITIAL_BUFFER_SIZE);
    assert_eq!(DEFAULT_INITIAL_BUFFER_SIZE, 20 * 1024 * 1024);
    assert_eq!(DEFAULT_MIN_BUFFER_SIZE, 1024 * 1024);
}

#[test]
fn test_round_trip_empty() {
    let data: Vec<u8> = Vec::new();
    let mut w = FileWriter::new();
    for chunk in data.chunks(7) {
        w.write_chunk(chunk.to_vec());
    }
    let stored = w.into_contents();
    assert_eq!(stored, data);
    let back = chunk_through(&stored, ReadBuffer::with_defaults(), usize::MAX);
    assert_eq!(back, data);
}

#[test]
fn test_round_trip_small() {
    let data: Vec<u8> = (0..27u8).collect();
    let mut w = FileWriter::new();
    for chunk in data.chunks(5) {
        w.write_chunk(chunk.to_vec());
    }
    let stored = w.into_contents();
    assert_eq!(stored, data);
    let back = chunk_through(&stored, ReadBuffer::new(8, 3), 6);
    assert_eq!(back, data);
}

#[test]
fn test_round_trip_large_crosses_low_water() {
    // 25 MiB exceeds the default 20 MiB buffer and drives the remaining
    // capacity under the 1 MiB low-water mark, forcing a reallocation
    // mid-stream.
    let len = 25 * 1024 * 1024;
    let data: Vec<u8> = (0..len).map(|i| (i * 31 % 251) as u8).collect();
    let mut w = FileWriter::new();
    for chunk in data.chunks(3 * 1024 * 1024) {
        w.write_chunk(chunk.to_vec());
    }
    let stored = w.into_contents();
    assert_eq!(stored.len(), data.len());
    let back = chunk_through(&stored, ReadBuffer::with_defaults(), 7 * 1024 * 1024 + 13);
    assert_eq!(back, data);
}
