use httptunnel::adapter::{chunk_stream, copy_chunks, push_chunk};

/// Deterministic byte soup, seeded.
fn pseudo_random_bytes(seed: u64, len: usize) -> Vec<u8> {
    let mut state = seed;
    let mut out = Vec::with_capacity(len);
    for _ in 0..len {
        state = state.wrapping_mul(6364136223846793005).wrapping_add(1442695040888963407);
        out.push((state >> 56) as u8);
    }
    out
}

const BIG: usize = 10 * 1024 * 1024 + 42;

#[test]
fn exact_chunking() {
    let chunks = chunk_stream(&[1, 2, 3, 4, 5], 2);
    assert_eq!(chunks, vec![vec![1, 2], vec![3, 4], vec![5]]);
    let chunks = chunk_stream(&[1, 2, 3, 4], 4);
    assert_eq!(chunks, vec![vec![1, 2, 3, 4]]);
}

#[test]
fn large_payload_streams_through_unchanged() {
    let data = pseudo_random_bytes(7, BIG);
    let chunks = chunk_stream(&data, 8192);
    let mut sink = Vec::new();
    copy_chunks(&chunks, &mut sink);
    assert!(sink == data);
}

#[test]
fn both_directions_carry_their_own_buffer() {
    let upload = pseudo_random_bytes(1, BIG);
    let download = pseudo_random_bytes(2, BIG);
    let up_chunks = chunk_stream(&upload, 16384);
    let down_chunks = chunk_stream(&download, 4096);
    let mut backend = Vec::new();
    let mut client = Vec::new();
    copy_chunks(&up_chunks, &mut backend);
    copy_chunks(&down_chunks, &mut client);
    assert!(backend == upload);
    assert!(client == download);
}

#[test]
fn zero_byte_payload_ends_immediately() {
    let chunks = chunk_stream(&[], 4096);
    assert_eq!(chunks.len(), 0);
    let mut sink = Vec::new();
    copy_chunks(&chunks, &mut sink);
    assert_eq!(sink.len(), 0);
}

#[test]
fn valve_cuts_at_chunk_boundary() {
    let data = pseudo_random_bytes(3, 100_000);
    let chunks = chunk_stream(&data, 1024);
    let delivered: Vec<Vec<u8>> = chunks[..40].to_vec();
    let mut sink = Vec::new();
    copy_chunks(&delivered, &mut sink);
    assert_eq!(sink.len(), 40 * 1024);
    assert!(sink == data[..40 * 1024].to_vec());
}

#[test]
fn chunks_append_in_order() {
    let mut sink = vec![1u8, 2];
    push_chunk(&mut sink, &[3, 4]);
    push_chunk(&mut sink, &[]);
    push_chunk(&mut sink, &[5]);
    assert_eq!(sink, vec![1, 2, 3, 4, 5]);
}
