use std::collections::HashSet;

use short_link::generator::{DefaultIdGenerator, YitIdHelper};
use short_link::options::IdGeneratorOptions;
use short_link::snow_worker::SnowWorkerM1;

#[test]
fn options_defaults() {
    let options = IdGeneratorOptions::default();
    assert_eq!(options.method, 1);
    assert_eq!(options.worker_id, 1);
    assert_eq!(options.base_time, 1577808000000);
    assert_eq!(options.worker_id_bit_length, 2);
    assert_eq!(options.seq_bit_length, 6);
    assert_eq!(options.max_seq_number, 0);
    assert_eq!(options.min_seq_number, 5);
    assert_eq!(options.top_over_cost_count, 2000);

    let with_worker = IdGeneratorOptions::new(9);
    assert_eq!(with_worker.worker_id, 9);
    assert_eq!(with_worker.worker_id_bit_length, 6);
}

#[test]
fn worker_default_configuration() {
    let worker = SnowWorkerM1::default();
    assert_eq!(worker.base_time, 1577808000000);
    assert_eq!(worker.worker_id, 1);
    assert_eq!(worker.worker_id_bit_length, 6);
    assert_eq!(worker.seq_bit_length, 6);
    assert_eq!(worker.max_seq_number, 63);
    assert_eq!(worker.min_seq_number, 5);
    assert_eq!(worker.top_over_cost_count, 2000);
}

#[test]
fn ids_are_unique_and_nonnegative() {
    let mut worker = SnowWorkerM1::default();
    let mut seen = HashSet::new();
    for _ in 0..5000 {
        let id = worker.next_id().expect("clock in admissible window");
        assert!(id > 0);
        assert!(seen.insert(id), "identifier repeated");
    }
}

#[test]
fn ids_embed_worker_identity() {
    let mut worker = SnowWorkerM1::new(IdGeneratorOptions::new(3)).expect("valid options");
    let id = worker.next_id().expect("clock in admissible window");
    // low 6 bits hold the sequence, the next 6 the worker identity
    assert_eq!((id >> 6) & 0x3f, 3);
    // the first sequence number of a fresh millisecond is the reserved floor
    assert!((id & 0x3f) >= 5);
}

#[test]
fn invalid_configurations_are_rejected() {
    let mut worker = SnowWorkerM1::default();

    let mut bad = IdGeneratorOptions::default();
    bad.worker_id_bit_length = 0;
    assert!(worker.set_options(bad).is_err());

    let mut bad = IdGeneratorOptions::default();
    bad.seq_bit_length = 1;
    assert!(worker.set_options(bad).is_err());

    let mut bad = IdGeneratorOptions::default();
    bad.worker_id_bit_length = 12;
    bad.seq_bit_length = 11;
    assert!(worker.set_options(bad).is_err());

    let mut bad = IdGeneratorOptions::default();
    bad.worker_id = 4;  // does not fit the default 2 bits
    assert!(worker.set_options(bad).is_err());

    let mut bad = IdGeneratorOptions::default();
    bad.min_seq_number = 4;
    assert!(worker.set_options(bad).is_err());

    let mut bad = IdGeneratorOptions::default();
    bad.max_seq_number = 64;  // beyond 2^6 - 1
    assert!(worker.set_options(bad).is_err());

    let mut bad = IdGeneratorOptions::default();
    bad.top_over_cost_count = 10001;
    assert!(worker.set_options(bad).is_err());

    let mut bad = IdGeneratorOptions::default();
    bad.base_time = 1;  // before the historical floor
    assert!(worker.set_options(bad).is_err());

    let mut bad = IdGeneratorOptions::default();
    bad.base_time = i64::MAX - 10;  // in the future
    assert!(worker.set_options(bad).is_err());
}

#[test]
fn clock_injected_configuration_is_exact() {
    let mut worker = SnowWorkerM1::default();
    let options = IdGeneratorOptions::default();
    // the clock sits before the base time: rejected
    assert!(worker.set_options_at(options, 631123200000).is_err());
    // the clock has passed it: accepted, with a fresh state
    let options = IdGeneratorOptions::default();
    assert!(worker.set_options_at(options, 1600000000000).is_ok());
    assert_eq!(worker.base_time, 1577808000000);
    assert_eq!(worker.max_seq_number, 63);
}

#[test]
fn zero_base_time_selects_default() {
    let mut worker = SnowWorkerM1::default();
    let mut options = IdGeneratorOptions::default();
    options.base_time = 0;
    assert!(worker.set_options(options).is_ok());
    assert_eq!(worker.base_time, 1582136402000);
}

#[test]
fn zero_max_seq_selects_field_maximum() {
    let mut worker = SnowWorkerM1::default();
    let mut options = IdGeneratorOptions::default();
    options.seq_bit_length = 8;
    options.worker_id_bit_length = 4;
    options.worker_id = 15;
    options.max_seq_number = 0;
    assert!(worker.set_options(options).is_ok());
    assert_eq!(worker.max_seq_number, 255);
}

#[test]
fn helper_serves_unique_ids() {
    let mut helper = YitIdHelper::new();
    assert!(helper.set_worker_id(2).is_ok());
    let a = helper.next_id().expect("clock in admissible window");
    let b = helper.next_id().expect("clock in admissible window");
    assert_ne!(a, b);
    // a worker identity beyond the default width is a startup error
    assert!(helper.set_worker_id(64).is_err());
}

#[test]
fn default_generator_is_ready() {
    let mut generator = DefaultIdGenerator::default();
    let id = generator.worker.next_id().expect("clock in admissible window");
    assert!(id > 0);
}

#[test]
fn turn_back_ids_stay_unique_across_a_rollback() {
    let mut worker = SnowWorkerM1::default();
    let mut seen = HashSet::new();

    // normal issues at tick 100
    for _ in 0..3 {
        let id = worker.next_id_at(100).expect("tick in admissible window");
        assert!(seen.insert(id));
    }
    // the clock moves backward: issues come from the reserved turn-back
    // sub-range against synthetic ticks
    for _ in 0..10 {
        let id = worker.next_id_at(40).expect("tick in admissible window");
        assert!((id & 0x3f) >= 1 && (id & 0x3f) <= 4, "reserved sub-range");
        assert!(seen.insert(id), "turn-back identifier repeated");
    }
    // the clock catches up; normal issue resumes without collision
    for _ in 0..3 {
        let id = worker.next_id_at(100).expect("tick in admissible window");
        assert!((id & 0x3f) >= 5);
        assert!(seen.insert(id));
    }
    // a second rollback uses the next reserved round
    let id = worker.next_id_at(60).expect("tick in admissible window");
    assert!(seen.insert(id));
}

#[test]
fn over_cost_mode_mints_against_virtual_ticks() {
    let mut worker = SnowWorkerM1::default();
    let mut seen = HashSet::new();
    // 59 usable sequence numbers per millisecond; hold the tick still and
    // the generator must drift onto virtual ticks without repeating
    for _ in 0..200 {
        let id = worker.next_id_at(7).expect("tick in admissible window");
        assert!(seen.insert(id));
    }
    // once real time has passed the virtual tick, normal mode resumes
    let id = worker.next_id_at(1000).expect("tick in admissible window");
    assert!(seen.insert(id));
}

#[test]
fn sequence_exhaustion_drifts_forward() {
    // a tiny sequence range forces over-cost mode quickly; identifiers must
    // keep increasing and stay unique
    let mut worker = SnowWorkerM1::default();
    let mut options = IdGeneratorOptions::default();
    options.seq_bit_length = 3;
    options.worker_id_bit_length = 2;
    options.worker_id = 1;
    options.max_seq_number = 7;
    options.min_seq_number = 5;
    options.top_over_cost_count = 100;
    assert!(worker.set_options(options).is_ok());
    let mut last = 0i64;
    for _ in 0..500 {
        let id = worker.next_id().expect("clock in admissible window");
        assert!(id > last, "normal and over-cost ids must increase");
        last = id;
    }
}
