//! Tests for the 31-bit right-shift chunker.

use fastcdc::config::ConfigError;
use fastcdc::ronomon::{center_size, mask, Chunk, FastCDC};

fn collect_chunks(chunker: &mut FastCDC) -> Vec<Chunk> {
    let mut results: Vec<Chunk> = Vec::new();
    while let Some(entry) = chunker.next_chunk() {
        results.push(entry);
    }
    results
}

#[test]
fn test_center_size() {
    assert_eq!(center_size(50, 100, 50), 0);
    assert_eq!(center_size(200, 100, 50), 50);
    assert_eq!(center_size(200, 100, 40), 40);
}

#[test]
fn test_mask() {
    assert_eq!(mask(24), 16_777_215);
    assert_eq!(mask(16), 65535);
    assert_eq!(mask(10), 1023);
    assert_eq!(mask(8), 255);
}

#[test]
fn test_ronomon_bounds_rejection() {
    let array = [0u8; 2048];
    assert_eq!(
        FastCDC::new(&array, 63, 256, 1024).err(),
        Some(ConfigError::MinimumTooLow)
    );
    assert_eq!(
        FastCDC::new(&array, 67_108_867, 256, 1024).err(),
        Some(ConfigError::MinimumTooHigh)
    );
    assert_eq!(
        FastCDC::new(&array, 64, 255, 1024).err(),
        Some(ConfigError::AverageTooLow)
    );
    assert_eq!(
        FastCDC::new(&array, 64, 268_435_457, 1024).err(),
        Some(ConfigError::AverageTooHigh)
    );
    assert_eq!(
        FastCDC::new(&array, 64, 256, 1023).err(),
        Some(ConfigError::MaximumTooLow)
    );
    assert_eq!(
        FastCDC::new(&array, 64, 256, 1_073_741_825).err(),
        Some(ConfigError::MaximumTooHigh)
    );
    // values exactly at the bounds are accepted
    assert!(FastCDC::new(&array, 64, 256, 1024).is_ok());
    assert!(FastCDC::new(&array, 67_108_864, 268_435_456, 1_073_741_824).is_ok());
}

#[test]
fn test_all_zeros() {
    // for all zeros, always returns chunks of maximum size
    let array = [0u8; 10240];
    let mut chunker = FastCDC::new(&array, 64, 256, 1024).unwrap();
    let results = collect_chunks(&mut chunker);
    assert_eq!(results.len(), 10);
    for entry in results {
        assert_eq!(entry.hash, 3106636015);
        assert_eq!(entry.offset % 1024, 0);
        assert_eq!(entry.length, 1024);
    }
}

#[test]
fn test_ronomon_sum_to_total() {
    let data = pattern_bytes(37_231);
    let mut chunker = FastCDC::new(&data, 64, 256, 1024).unwrap();
    let results = collect_chunks(&mut chunker);
    assert!(!results.is_empty());
    assert_eq!(results[0].offset, 0);
    for pair in results.windows(2) {
        assert_eq!(pair[1].offset, pair[0].offset + pair[0].length);
    }
    let last = results.last().unwrap();
    assert_eq!(last.offset + last.length, data.len());
    let total: usize = results.iter().map(|c| c.length).sum();
    assert_eq!(total, data.len());
}

#[test]
fn test_ronomon_min_size_floor() {
    let data = pattern_bytes(50_000);
    let mut chunker = FastCDC::new(&data, 64, 256, 1024).unwrap();
    let results = collect_chunks(&mut chunker);
    for entry in results.iter().take(results.len() - 1) {
        assert!(entry.length >= 64);
    }
}

#[test]
fn test_ronomon_determinism() {
    let data = pattern_bytes(20_000);
    let mut first = FastCDC::new(&data, 64, 256, 1024).unwrap();
    let mut second = FastCDC::new(&data, 64, 256, 1024).unwrap();
    let a = collect_chunks(&mut first);
    let b = collect_chunks(&mut second);
    assert_eq!(a, b);
}

#[test]
fn test_ronomon_nonterminal_waits_for_data() {
    // a non-terminal buffer shorter than the maximum ends with "no
    // boundary yet" instead of a short chunk
    let array = [0u8; 2000];
    let mut chunker = FastCDC::with_eof(&array, 64, 256, 1024, false).unwrap();
    let first = chunker.next_chunk().unwrap();
    assert_eq!(first.offset, 0);
    assert_eq!(first.length, 1024);
    // 976 zero bytes remain: no boundary fits, and more data may follow
    assert!(chunker.next_chunk().is_none());
    assert_eq!(chunker.bytes_remaining, 976);
}

#[test]
fn test_ronomon_size_hint() {
    let array = [0u8; 10240];
    let chunker = FastCDC::new(&array, 64, 256, 1024).unwrap();
    assert_eq!(chunker.size_hint(), (160, Some(160)));
}

fn pattern_bytes(len: usize) -> Vec<u8> {
    let mut state: u64 = 0x2545_f491_4f6c_dd1d;
    let mut data = Vec::with_capacity(len);
    for _ in 0..len {
        state = state
            .wrapping_mul(6364136223846793005)
            .wrapping_add(1442695040888963407);
        data.push((state >> 56) as u8);
    }
    data
}
