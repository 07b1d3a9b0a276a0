//! This crate implements multiple variants of the FastCDC content defined
//! chunking algorithm in pure, verified Rust. A critical aspect of the
//! behavior of this algorithm is that it returns exactly the same results for
//! the same input: every chunker here carries a contract that pins its output
//! down as a mathematical function of the input bytes and the configuration.
//!
//! The `ronomon` module holds a variation of FastCDC that uses 31-bit hash
//! values and right shifts. The `v2016` module holds the canonical algorithm
//! from the 2016 paper, built on a 64-bit gear hash. The `v2020` module holds
//! the algorithm from the 2020 paper, which rolls two bytes per iteration and
//! optionally perturbs its gear tables with a caller-supplied seed.
//!
//! The streaming chunkers in `v2016` and `v2020` consume a [`source::ByteSource`]
//! incrementally through a bounded buffer of `max_size` bytes, and are proved
//! to emit the same cut points as the whole-buffer chunkers. The
//! `v2020::AsyncStreamCDC` state machine exposes the same chunking logic for
//! drivers that obtain their bytes asynchronously.

pub mod config;
pub mod log2;
pub mod model;
pub mod ronomon;
pub mod source;
pub mod v2016;
pub mod v2020;

mod tables;
