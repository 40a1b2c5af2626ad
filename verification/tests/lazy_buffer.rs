use http_vfs::buffer::{LazyBlock, LazyBuffer};
use http_vfs::VfsError;

fn mock_fetch(_offset: usize, size: usize) -> Result<Vec<u8>, VfsError> {
    Ok(vec![1; size])
}

fn failing_fetch(_offset: usize, _size: usize) -> Result<Vec<u8>, VfsError> {
    Err(VfsError::Unavailable)
}

fn short_fetch(_offset: usize, size: usize) -> Result<Vec<u8>, VfsError> {
    Ok(vec![1; size / 2])
}

#[test]
fn test_lazy_buffer() {
    let block_size = 16;
    let total_size = 64;

    let mut lazy_buffer = LazyBuffer::new(total_size, block_size, 0);

    let mut buf1 = vec![0u8; 16];
    lazy_buffer.read(&mut buf1, 0, mock_fetch).unwrap();
    assert_eq!(buf1, vec![1; 16]);

    let mut buf2 = vec![0u8; 16];
    lazy_buffer.read(&mut buf2, 0, mock_fetch).unwrap();
    assert_eq!(buf2, vec![1; 16]);

    let mut buf3 = vec![0u8; 16];
    lazy_buffer.read(&mut buf3, 16, mock_fetch).unwrap();
    assert_eq!(buf3, vec![1; 16]);

    // should not read across block
    let mut buf4 = vec![0u8; 32];
    let result = lazy_buffer.read(&mut buf4, 32, mock_fetch);
    assert!(result.is_err());

    // should not read across block
    let mut buf5 = vec![0u8; 16];
    let result = lazy_buffer.read(&mut buf5, 24, mock_fetch);
    assert!(result.is_err());

    // should not read out of bounds
    let mut buf = vec![0u8; 16];
    let result = lazy_buffer.read(&mut buf, 70, mock_fetch);
    assert!(result.is_err());
}

#[test]
fn test_scenario_sequence() {
    // block size 16, total length 64, threshold 0, fetch returns ones
    let mut b = LazyBuffer::new(64, 16, 0);

    // read 16 at 0: 16 ones, cache holds block 0
    let mut buf = vec![0u8; 16];
    b.read(&mut buf, 0, mock_fetch).unwrap();
    assert_eq!(buf, vec![1u8; 16]);
    assert!(b.cached(0));
    assert!(!b.cached(1));

    // same read again: same bytes, cache unchanged (served from memory:
    // even a failing fetch is never consulted)
    let mut buf2 = vec![0u8; 16];
    b.read(&mut buf2, 0, failing_fetch).unwrap();
    assert_eq!(buf2, vec![1u8; 16]);
    assert!(b.cached(0));

    // read 16 at 16: cache holds blocks 0 and 1
    let mut buf3 = vec![0u8; 16];
    b.read(&mut buf3, 16, mock_fetch).unwrap();
    assert_eq!(buf3, vec![1u8; 16]);
    assert!(b.cached(0));
    assert!(b.cached(1));

    // read 32 at 32 straddles blocks 2 and 3
    let mut buf4 = vec![0u8; 32];
    assert_eq!(b.read(&mut buf4, 32, mock_fetch), Err(VfsError::OutOfBounds));

    // read 16 at 24 straddles blocks 1 and 2, cached or not
    let mut buf5 = vec![0u8; 16];
    assert_eq!(b.read(&mut buf5, 24, mock_fetch), Err(VfsError::OutOfBounds));

    // read 16 at 70 is past end-of-file at 64
    let mut buf6 = vec![0u8; 16];
    assert_eq!(b.read(&mut buf6, 70, mock_fetch), Err(VfsError::OutOfBounds));
}

#[test]
fn test_zero_length_read() {
    let mut b = LazyBuffer::new(64, 16, 0);
    let mut empty = Vec::new();
    // zero-length read succeeds at any offset up to the length, without
    // any fetch (a failing fetch is never consulted)
    assert!(b.read(&mut empty, 0, failing_fetch).is_ok());
    assert!(b.read(&mut empty, 64, failing_fetch).is_ok());
    assert!(!b.cached(0));
    // past the end it fails
    assert_eq!(b.read(&mut empty, 65, failing_fetch), Err(VfsError::OutOfBounds));
}

#[test]
fn test_last_byte_hits_short_block() {
    // total length 60: the last block (index 3) holds only 12 bytes
    let mut b = LazyBuffer::new(60, 16, 0);
    let mut buf = vec![0u8; 1];
    b.read(&mut buf, 59, mock_fetch).unwrap();
    assert_eq!(buf, vec![1u8]);
    assert!(b.cached(3));
    assert!(!b.cached(0));
}

#[test]
fn test_download_threshold_boundary() {
    // reads of at most the threshold are served by a narrow fetch and
    // leave the cache empty; one byte more populates the cache
    let mut b = LazyBuffer::new(64, 16, 4);
    let mut small = vec![0u8; 4];
    b.read(&mut small, 0, mock_fetch).unwrap();
    assert_eq!(small, vec![1u8; 4]);
    assert!(!b.cached(0));

    let mut larger = vec![0u8; 5];
    b.read(&mut larger, 0, mock_fetch).unwrap();
    assert_eq!(larger, vec![1u8; 5]);
    assert!(b.cached(0));
}

#[test]
fn test_short_narrow_fetch_is_out_of_bounds() {
    let mut b = LazyBuffer::new(64, 16, 8);
    let mut buf = vec![0u8; 4];
    assert_eq!(b.read(&mut buf, 0, short_fetch), Err(VfsError::OutOfBounds));
    assert!(!b.cached(0));
}

#[test]
fn test_short_block_fetch_is_fetch_failure() {
    let mut b = LazyBuffer::new(64, 16, 0);
    let mut buf = vec![0u8; 4];
    assert_eq!(b.read(&mut buf, 0, short_fetch), Err(VfsError::FetchFailed));
    assert!(!b.cached(0));
}

#[test]
fn test_fetch_error_passes_through() {
    let mut b = LazyBuffer::new(64, 16, 0);
    let mut buf = vec![0u8; 4];
    assert_eq!(b.read(&mut buf, 0, failing_fetch), Err(VfsError::Unavailable));
    assert!(!b.cached(0));
}

#[test]
fn test_fetched_bytes_are_positional() {
    // the fetch hands back the byte offsets themselves, so what a read
    // returns shows exactly which range was requested
    fn positional(offset: usize, size: usize) -> Result<Vec<u8>, VfsError> {
        Ok((offset..offset + size).map(|i| i as u8).collect())
    }
    let mut b = LazyBuffer::new(64, 16, 0);
    let mut buf = vec![0u8; 4];
    b.read(&mut buf, 20, positional).unwrap();
    // the full block starting at 16 was fetched; bytes 20..24 come back
    assert_eq!(buf, vec![20, 21, 22, 23]);
    assert!(b.cached(1));
}

#[test]
fn test_lazy_block_read() {
    let block = LazyBlock { data: vec![7u8, 8, 9, 10], size: 4 };
    let mut buf = vec![0u8; 2];
    assert_eq!(block.read(&mut buf, 1), Ok(2));
    assert_eq!(buf, vec![8u8, 9]);

    let mut empty = Vec::new();
    assert_eq!(block.read(&mut empty, 4), Ok(0));

    let mut too_far = vec![0u8; 2];
    assert_eq!(block.read(&mut too_far, 3), Err(VfsError::OutOfBounds));
    assert_eq!(block.read(&mut too_far, 4), Err(VfsError::OutOfBounds));
    assert_eq!(LazyBlock::eof(), VfsError::OutOfBounds);
}

#[test]
fn test_buffer_size() {
    let b = LazyBuffer::new(64, 16, 0);
    assert_eq!(b.size(), 64);
    assert_eq!(http_vfs::min_usize(3, 5), 3);
    assert_eq!(http_vfs::min_usize(5, 3), 3);
}
