use disk_indexer::hashing::{sample_ranges, SampleHasher, FullHasher, FULL_HASH_ALGORITHM, SAMPLE_HASH_ALGORITHM};

#[test]
fn small_file_uses_one_complete_range() {
    assert_eq!(sample_ranges(10, 8), vec![(0, 10)]);
}

#[test]
fn large_file_uses_head_middle_tail() {
    assert_eq!(sample_ranges(100, 10), vec![(0, 10), (45, 10), (90, 10)]);
}

#[test]
fn sample_ranges_edge_sizes() {
    assert_eq!(sample_ranges(0, 8), vec![(0, 0)]);
    assert_eq!(sample_ranges(24, 8), vec![(0, 24)]);
    assert_eq!(sample_ranges(25, 8), vec![(0, 8), (8, 8), (17, 8)]);
}

#[test]
fn algorithm_names_are_stable() {
    assert_eq!(FULL_HASH_ALGORITHM, "blake3");
    assert_eq!(SAMPLE_HASH_ALGORITHM, "blake3-sample-v1");
}

#[test]
fn full_hasher_matches_blake3_of_all_chunks() {
    let mut hasher = FullHasher::new();
    hasher.update(b"hello ");
    hasher.update(b"world");
    let result = hasher.finish();
    assert_eq!(result.hex, blake3::hash(b"hello world").to_hex().to_string());
    assert_eq!(result.bytes_read, 11);
}

#[test]
fn empty_full_hash_is_normal_blake3() {
    let hasher = FullHasher::new();
    let result = hasher.finish();
    assert_eq!(result.hex, blake3::hash(&[]).to_hex().to_string());
    assert_eq!(result.bytes_read, 0);
}

fn stream_sample(data: &[u8], sample_bytes: usize, chunk: usize) -> disk_indexer::hashing::HashResult {
    let mut hasher = SampleHasher::start(data.len() as u64, sample_bytes);
    while let Some((offset, wanted)) = hasher.next_read() {
        let take = wanted.min(chunk);
        let start = offset as usize;
        hasher.feed(&data[start..start + take]);
    }
    hasher.finish()
}

#[test]
fn sample_fingerprint_frames_size_and_ranges() {
    let data: Vec<u8> = (0..100u8).collect();
    let ranges = sample_ranges(100, 10);
    let mut expected = blake3::Hasher::new();
    expected.update(b"blake3-sample-v1");
    expected.update(&100u64.to_le_bytes());
    for (offset, length) in ranges.iter() {
        expected.update(&offset.to_le_bytes());
        expected.update(&(*length as u64).to_le_bytes());
        expected.update(&data[*offset as usize..*offset as usize + *length]);
    }
    let expected = expected.finalize().to_hex().to_string();
    for chunk in [1, 3, 10, 4096] {
        let result = stream_sample(&data, 10, chunk);
        assert_eq!(result.hex, expected);
        assert_eq!(result.bytes_read, 30);
        assert_ne!(result.hex, blake3::hash(&data).to_hex().to_string());
    }
}

#[test]
fn sample_of_small_and_empty_files_covers_them_whole() {
    let small: Vec<u8> = (0..20u8).collect();
    let mut expected = blake3::Hasher::new();
    expected.update(b"blake3-sample-v1");
    expected.update(&20u64.to_le_bytes());
    expected.update(&0u64.to_le_bytes());
    expected.update(&20u64.to_le_bytes());
    expected.update(&small);
    assert_eq!(stream_sample(&small, 10, 7).hex, expected.finalize().to_hex().to_string());
    assert_eq!(stream_sample(&small, 10, 7).bytes_read, 20);
    let empty = stream_sample(&[], 10, 7);
    let mut expected = blake3::Hasher::new();
    expected.update(b"blake3-sample-v1");
    expected.update(&0u64.to_le_bytes());
    expected.update(&0u64.to_le_bytes());
    expected.update(&0u64.to_le_bytes());
    assert_eq!(empty.hex, expected.finalize().to_hex().to_string());
    assert_eq!(empty.bytes_read, 0);
    let zero_amount = stream_sample(&small, 0, 7);
    assert_eq!(zero_amount.bytes_read, 0);
}
