//! Tests for the 2016 gear-hash chunker.

use fastcdc::config::ConfigError;
use fastcdc::source::{ByteSource, MemorySource};
use fastcdc::v2016::{logarithm2, Chunk, ChunkData, Error, FastCDC, Normalization, StreamCDC, MASKS};

fn pattern_bytes(len: usize) -> Vec<u8> {
    let mut state: u64 = 0x9e37_79b9_7f4a_7c15;
    let mut data = Vec::with_capacity(len);
    for _ in 0..len {
        state = state
            .wrapping_mul(6364136223846793005)
            .wrapping_add(1442695040888963407);
        data.push((state >> 56) as u8);
    }
    data
}

fn collect_chunks(chunker: &mut FastCDC) -> Vec<Chunk> {
    let mut results: Vec<Chunk> = Vec::new();
    while let Some(entry) = chunker.next_chunk() {
        results.push(entry);
    }
    results
}

fn collect_stream<S: ByteSource>(chunker: &mut StreamCDC<S>) -> Vec<ChunkData> {
    let mut results: Vec<ChunkData> = Vec::new();
    while let Some(item) = chunker.next_chunk() {
        results.push(item.expect("source never fails"));
    }
    results
}

/// A byte source that hands out its data in ragged portions, never more
/// than `step` bytes at a time, to exercise arbitrary read boundaries.
struct ChoppySource {
    data: Vec<u8>,
    pos: usize,
    step: usize,
}

impl ByteSource for ChoppySource {
    fn read_up_to(&mut self, want: usize) -> Result<Vec<u8>, String> {
        let avail = self.data.len() - self.pos;
        let take = want.min(avail).min(self.step);
        let part = self.data[self.pos..self.pos + take].to_vec();
        self.pos += take;
        Ok(part)
    }
}

/// A byte source that fails after delivering a prefix of its data.
struct FlakySource {
    data: Vec<u8>,
    pos: usize,
    fail_after: usize,
}

impl ByteSource for FlakySource {
    fn read_up_to(&mut self, want: usize) -> Result<Vec<u8>, String> {
        if self.pos >= self.fail_after {
            return Err(String::from("device unplugged"));
        }
        let avail = self.data.len().min(self.fail_after) - self.pos;
        let take = want.min(avail);
        let part = self.data[self.pos..self.pos + take].to_vec();
        self.pos += take;
        Ok(part)
    }
}

#[test]
fn test_logarithm2() {
    assert_eq!(logarithm2(0), 0);
    assert_eq!(logarithm2(1), 0);
    assert_eq!(logarithm2(2), 1);
    assert_eq!(logarithm2(3), 2);
    assert_eq!(logarithm2(5), 2);
    assert_eq!(logarithm2(6), 3);
    assert_eq!(logarithm2(11), 3);
    assert_eq!(logarithm2(12), 4);
    assert_eq!(logarithm2(19), 4);
    assert_eq!(logarithm2(64), 6);
    assert_eq!(logarithm2(128), 7);
    assert_eq!(logarithm2(256), 8);
    assert_eq!(logarithm2(512), 9);
    assert_eq!(logarithm2(1024), 10);
    assert_eq!(logarithm2(16383), 14);
    assert_eq!(logarithm2(16384), 14);
    assert_eq!(logarithm2(16385), 14);
    assert_eq!(logarithm2(32767), 15);
    assert_eq!(logarithm2(32768), 15);
    assert_eq!(logarithm2(32769), 15);
    assert_eq!(logarithm2(65535), 16);
    assert_eq!(logarithm2(65536), 16);
    assert_eq!(logarithm2(65537), 16);
    assert_eq!(logarithm2(1_048_575), 20);
    assert_eq!(logarithm2(1_048_576), 20);
    assert_eq!(logarithm2(1_048_577), 20);
    assert_eq!(logarithm2(4_194_303), 22);
    assert_eq!(logarithm2(4_194_304), 22);
    assert_eq!(logarithm2(4_194_305), 22);
    assert_eq!(logarithm2(16_777_215), 24);
    assert_eq!(logarithm2(16_777_216), 24);
    assert_eq!(logarithm2(16_777_217), 24);
}

#[test]
fn test_v2016_bounds_rejection() {
    let array = [0u8; 1024];
    assert_eq!(
        FastCDC::new(&array, 63, 256, 1024).err(),
        Some(ConfigError::MinimumTooLow)
    );
    assert_eq!(
        FastCDC::new(&array, 67_108_867, 256, 1024).err(),
        Some(ConfigError::MinimumTooHigh)
    );
    assert_eq!(
        FastCDC::new(&array, 64, 255, 1024).err(),
        Some(ConfigError::AverageTooLow)
    );
    assert_eq!(
        FastCDC::new(&array, 64, 268_435_457, 1024).err(),
        Some(ConfigError::AverageTooHigh)
    );
    assert_eq!(
        FastCDC::new(&array, 64, 256, 1023).err(),
        Some(ConfigError::MaximumTooLow)
    );
    assert_eq!(
        FastCDC::new(&array, 64, 256, 1_073_741_825).err(),
        Some(ConfigError::MaximumTooHigh)
    );
    // values exactly at the bounds are accepted
    assert!(FastCDC::new(&array, 64, 256, 1024).is_ok());
    assert!(FastCDC::new(&array, 1_048_576, 4_194_304, 16_777_216).is_ok());
}

#[test]
fn test_masks() {
    let source = [0u8; 1024];
    let chunker = FastCDC::new(&source, 64, 256, 1024).unwrap();
    assert_eq!(chunker.mask_l, MASKS[7]);
    assert_eq!(chunker.mask_s, MASKS[9]);
    let chunker = FastCDC::new(&source, 8192, 16384, 32768).unwrap();
    assert_eq!(chunker.mask_l, MASKS[13]);
    assert_eq!(chunker.mask_s, MASKS[15]);
    let chunker = FastCDC::new(&source, 1_048_576, 4_194_304, 16_777_216).unwrap();
    assert_eq!(chunker.mask_l, MASKS[21]);
    assert_eq!(chunker.mask_s, MASKS[23]);
}

#[test]
fn test_cut_all_zeros() {
    // for all zeros, always returns chunks of maximum size
    let array = [0u8; 10240];
    let chunker = FastCDC::new(&array, 64, 256, 1024).unwrap();
    let mut cursor: usize = 0;
    for _ in 0..10 {
        let (hash, pos) = chunker.cut(cursor, 10240 - cursor);
        assert_eq!(hash, 14169102344523991076);
        assert_eq!(pos, cursor + 1024);
        cursor = pos;
    }
    // assert that nothing more should be returned
    let (_, pos) = chunker.cut(cursor, 10240 - cursor);
    assert_eq!(pos, 10240);
}

#[test]
fn test_error_fmt() {
    let err = Error::Empty;
    assert_eq!(err.message(), "chunker error: Empty");
}

#[test]
fn test_v2016_error_messages() {
    assert_eq!(
        Error::IoError(String::from("gone")).message(),
        "chunker error: IoError(gone)"
    );
    assert_eq!(
        Error::Other(String::from("odd")).message(),
        "chunker error: Other(odd)"
    );
}

#[test]
fn test_v2016_sum_to_total() {
    let data = pattern_bytes(41_113);
    let mut chunker = FastCDC::new(&data, 64, 256, 1024).unwrap();
    let results = collect_chunks(&mut chunker);
    assert!(!results.is_empty());
    assert_eq!(results[0].offset, 0);
    for pair in results.windows(2) {
        assert_eq!(pair[1].offset, pair[0].offset + pair[0].length);
    }
    let last = results.last().unwrap();
    assert_eq!(last.offset + last.length, data.len());
    let total: usize = results.iter().map(|c| c.length).sum();
    assert_eq!(total, data.len());
}

#[test]
fn test_v2016_min_size_floor() {
    let data = pattern_bytes(60_000);
    let mut chunker = FastCDC::new(&data, 64, 256, 1024).unwrap();
    let results = collect_chunks(&mut chunker);
    for entry in results.iter().take(results.len() - 1) {
        assert!(entry.length >= 64);
    }
}

#[test]
fn test_v2016_determinism() {
    let data = pattern_bytes(30_000);
    let mut first = FastCDC::with_level(&data, 64, 256, 1024, Normalization::Level2).unwrap();
    let mut second = FastCDC::with_level(&data, 64, 256, 1024, Normalization::Level2).unwrap();
    assert_eq!(collect_chunks(&mut first), collect_chunks(&mut second));
}

#[test]
fn test_v2016_stream_matches_in_memory() {
    let data = pattern_bytes(48_611);
    let mut in_memory = FastCDC::new(&data, 64, 256, 1024).unwrap();
    let expected = collect_chunks(&mut in_memory);

    // a well-behaved in-memory source
    let source = MemorySource::new(data.clone());
    let mut chunker = StreamCDC::new(source, 64, 256, 1024).unwrap();
    let streamed = collect_stream(&mut chunker);
    assert_eq!(streamed.len(), expected.len());
    for (got, want) in streamed.iter().zip(expected.iter()) {
        assert_eq!(got.hash, want.hash);
        assert_eq!(got.offset as usize, want.offset);
        assert_eq!(got.length, want.length);
        assert_eq!(&got.data[..], &data[want.offset..want.offset + want.length]);
    }

    // the same stream split across ragged read boundaries
    for step in [1usize, 7, 97, 1024, 5000] {
        let source = ChoppySource { data: data.clone(), pos: 0, step };
        let mut chunker = StreamCDC::new(source, 64, 256, 1024).unwrap();
        let streamed = collect_stream(&mut chunker);
        assert_eq!(streamed.len(), expected.len());
        for (got, want) in streamed.iter().zip(expected.iter()) {
            assert_eq!(got.hash, want.hash);
            assert_eq!(got.offset as usize, want.offset);
            assert_eq!(got.length, want.length);
        }
    }
}

#[test]
fn test_v2016_stream_io_error_surfaces() {
    let data = pattern_bytes(8_192);
    let source = FlakySource { data, pos: 0, fail_after: 3000 };
    let mut chunker = StreamCDC::new(source, 64, 256, 1024).unwrap();
    let mut saw_error = false;
    while let Some(item) = chunker.next_chunk() {
        match item {
            Ok(chunk) => assert!(chunk.length > 0),
            Err(err) => {
                assert_eq!(err.message(), "chunker error: IoError(device unplugged)");
                saw_error = true;
                break;
            }
        }
    }
    assert!(saw_error);
}
