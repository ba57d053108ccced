use hgwire::chunk::{should_chunk, ChunkStream, InvalidSize, SizeGuard};

/// Feeds `in_chunks` to a chunker the way a stream would, and checks what
/// comes out.
fn do_check_chunk_stream(in_chunks: Vec<Vec<u8>>, size: usize) -> bool {
    let mut chunker = ChunkStream::new(size);
    let mut out_chunks: Vec<Vec<u8>> = vec![];
    for chunk in &in_chunks {
        chunker.extend(chunk);
        while let Some(c) = chunker.next_chunk() {
            out_chunks.push(c);
        }
    }
    if let Some(c) = chunker.finish() {
        out_chunks.push(c);
    }

    let expected_bytes: Vec<u8> = in_chunks.concat();
    let got_bytes: Vec<u8> = out_chunks.concat();

    // The contents should be the same
    if expected_bytes != got_bytes {
        return false;
    }

    // If there were no contents, then just return that.
    if expected_bytes.len() == 0 {
        return true;
    }

    // All chunks except for the last one must equal chunk size
    for chunk in out_chunks[0..out_chunks.len() - 1].iter() {
        if chunk.len() != size {
            return false;
        }
    }

    // The last chunk must smaller than the chunk size
    if out_chunks[out_chunks.len() - 1].len() > size {
        return false;
    }

    true
}

#[test]
fn test_make_chunks_no_chunking() {
    assert!(!should_chunk(10, 100));
}

#[test]
fn test_make_chunks_no_chunking_limit() {
    assert!(!should_chunk(100, 100));
}

#[test]
fn test_make_chunks_chunking() {
    assert!(should_chunk(1000, 100));
}

#[test]
fn test_make_chunks_overflow_inline() {
    // More content than announced stops the upload.
    let mut guard = SizeGuard::new(10);
    assert_eq!(guard.observe(5), Ok(()));
    assert_eq!(guard.observe(5), Ok(()));
    assert_eq!(
        guard.observe(5),
        Err(InvalidSize {
            expected: 10,
            observed: 15
        })
    );
}

#[test]
fn test_make_chunks_overflow_chunked() {
    let mut guard = SizeGuard::new(10);
    let results: Vec<_> = [5u64, 5, 5, 5].iter().map(|l| guard.observe(*l)).collect();
    assert!(results.iter().any(|r| r.is_err()));
    assert_eq!(guard.observe(u64::MAX).unwrap_err().observed, u64::MAX);
}

#[test]
fn test_bigger_incoming_chunks() {
    // Explicitly test that ChunkStream handles splitting chunks.
    let chunks = vec![vec![1; 10], vec![1; 10]];
    assert!(do_check_chunk_stream(chunks, 5))
}

#[test]
fn test_smaller_incoming_chunks() {
    // Explicitly test that ChunkStream handles putting chunks together.
    let chunks = vec![vec![1; 10], vec![1; 10]];
    assert!(do_check_chunk_stream(chunks, 15))
}

#[test]
fn chunk_stream_edges() {
    assert!(do_check_chunk_stream(vec![], 3));
    assert!(do_check_chunk_stream(vec![vec![], vec![7; 3], vec![8]], 1));
    assert!(do_check_chunk_stream(vec![vec![2; 9]], 3));
    let mut chunker = ChunkStream::new(4);
    chunker.extend(&[1, 2, 3]);
    assert_eq!(chunker.next_chunk(), None);
    chunker.extend(&[4, 5]);
    assert_eq!(chunker.next_chunk(), Some(vec![1, 2, 3, 4]));
    assert_eq!(chunker.finish(), Some(vec![5]));
    assert_eq!(chunker.finish(), None);
}
