//! Configuration of the identifier generator.

use vstd::prelude::*;

verus! {

/// Tunable parameters of the identifier generator: the epoch the millisecond
/// offset is counted from, the worker identity and its bit width, the width
/// and admissible range of the per-millisecond sequence counter, and the cap
/// on virtual-tick drift.
pub struct IdGeneratorOptions {
    /// Generation method selector; 1 selects the drift-handling algorithm.
    pub method: u8,
    /// Epoch in epoch milliseconds; 0 selects a built-in default.
    pub base_time: i64,
    /// Worker identity; must fit in `worker_id_bit_length` bits.
    pub worker_id: u32,
    /// Bit width of the worker identity, between 1 and 21.
    pub worker_id_bit_length: u8,
    /// Bit width of the sequence counter, between 2 and 21; together with
    /// `worker_id_bit_length` it must not exceed 22.
    pub seq_bit_length: u8,
    /// Largest sequence number handed out, at most `2^seq_bit_length - 1`;
    /// 0 selects that maximum.
    pub max_seq_number: u32,
    /// Smallest sequence number handed out, at least 5: values 0 to 4 are
    /// reserved (0 for manual injection, 1 to 4 for turn-back rounds).
    pub min_seq_number: u32,
    /// How many virtual ticks the generator may run ahead of the clock.
    pub top_over_cost_count: u32,
}

impl IdGeneratorOptions {
    pub fn default() -> (r: IdGeneratorOptions)
        ensures
            r == (IdGeneratorOptions {
                method: 1u8,
                worker_id: 1u32,
                base_time: 1577808000000i64,
                worker_id_bit_length: 2u8,
                seq_bit_length: 6u8,
                max_seq_number: 0u32,
                min_seq_number: 5u32,
                top_over_cost_count: 2000u32,
            }),
    {
        IdGeneratorOptions {
            method: 1,
            worker_id: 1,
            base_time: 1577808000000,
            worker_id_bit_length: 2,
            seq_bit_length: 6,
            max_seq_number: 0,
            min_seq_number: 5,
            top_over_cost_count: 2000,
        }
    }

    pub fn new(worker_id: u32) -> (r: IdGeneratorOptions)
        ensures
            r == (IdGeneratorOptions {
                method: 1u8,
                worker_id: worker_id,
                base_time: 1577808000000i64,
                worker_id_bit_length: 6u8,
                seq_bit_length: 6u8,
                max_seq_number: 0u32,
                min_seq_number: 5u32,
                top_over_cost_count: 2000u32,
            }),
    {
        IdGeneratorOptions {
            method: 1,
            worker_id,
            base_time: 1577808000000,
            worker_id_bit_length: 6,
            seq_bit_length: 6,
            max_seq_number: 0,
            min_seq_number: 5,
            top_over_cost_count: 2000,
        }
    }
}

} // verus!
