//! A short-link service core: a clock-based unique identifier generator,
//! a base-62 codec for public short codes, a content-addressed create/resolve
//! protocol over a durable store with an advisory cache, and a periodic
//! cleanup cycle that retires expired records.

pub mod cache;
pub mod cleanup;
pub mod codec;
pub mod config;
pub mod errors;
pub mod generator;
pub mod hashing;
pub mod options;
pub mod payload;
pub mod pojo;
pub mod seq_find;
pub mod service;
pub mod snow_worker;
pub mod store;
pub mod types;
