//! The generator handle used by the service: one worker per process, owned
//! by the composition root and passed by reference to every caller.

use vstd::prelude::*;

use crate::errors::AppError;
use crate::options::IdGeneratorOptions;
use crate::snow_worker::{options_static_ok, SnowWorkerM1};
use vstd::arithmetic::power2::lemma2_to64;

verus! {

/// A generator with the built-in default configuration.
pub struct DefaultIdGenerator {
    pub worker: SnowWorkerM1,
}

impl DefaultIdGenerator {
    pub fn default() -> (r: DefaultIdGenerator)
        ensures
            r.worker.wf(),
            r.worker.issued_log().len() == 0,
            r.worker.turn_back_round() == 0,
            r.worker.base_time == 1577808000000i64,
            r.worker.worker_id == 1u32,
            r.worker.worker_id_bit_length == 6u8,
            r.worker.seq_bit_length == 6u8,
            r.worker.max_seq_number == 63u32,
            r.worker.min_seq_number == 5u32,
            r.worker.top_over_cost_count == 2000u32,
    {
        DefaultIdGenerator { worker: SnowWorkerM1::default() }
    }
}

/// The identifier service handle: an explicitly constructed generator object
/// standing in for process-wide singleton state, so that single-instance
/// semantics is a property of the composition root rather than of a hidden
/// global.
pub struct YitIdHelper {
    pub generator: DefaultIdGenerator,
}

impl YitIdHelper {
    pub fn new() -> (r: YitIdHelper)
        ensures
            r.generator.worker.wf(),
            r.generator.worker.issued_log().len() == 0,
            r.generator.worker.turn_back_round() == 0,
            r.generator.worker.base_time == 1577808000000i64,
            r.generator.worker.worker_id == 1u32,
            r.generator.worker.worker_id_bit_length == 6u8,
            r.generator.worker.seq_bit_length == 6u8,
            r.generator.worker.max_seq_number == 63u32,
            r.generator.worker.min_seq_number == 5u32,
            r.generator.worker.top_over_cost_count == 2000u32,
    {
        YitIdHelper { generator: DefaultIdGenerator::default() }
    }

    /// Adopts a full configuration; identifiers do not survive this.
    /// Success is owed whenever the structural constraints hold and the
    /// clock has no say (a base time of zero); see
    /// `SnowWorkerM1::set_options_at` for the exact decision.
    pub fn set_id_generator(&mut self, options: IdGeneratorOptions) -> (r: Result<(), AppError>)
        ensures
            r is Err ==> *final(self) == *old(self),
            r is Ok ==> final(self).generator.worker.wf() && final(self).generator.worker.freshly_configured(options),
            !options_static_ok(options) ==> r is Err,
            options_static_ok(options) && options.base_time == 0 ==> r is Ok,
    {
        self.generator.worker.set_options(options)
    }

    /// Adopts the default configuration for the given worker identity - six
    /// worker bits, six sequence bits, sequence floor 5 - so every later
    /// identifier carries `worker_id` in its worker field; identifiers do
    /// not survive this.  A worker identity beyond the six-bit width is
    /// rejected; for one within it, only a wall clock sitting before the
    /// built-in base time still refuses (see `SnowWorkerM1::set_options_at`).
    pub fn set_worker_id(&mut self, worker_id: u32) -> (r: Result<(), AppError>)
        ensures
            r is Err ==> *final(self) == *old(self),
            r is Ok ==> final(self).generator.worker.wf() && final(self).generator.worker.freshly_configured(
                (IdGeneratorOptions {
                    method: 1u8,
                    worker_id: worker_id,
                    base_time: 1577808000000i64,
                    worker_id_bit_length: 6u8,
                    seq_bit_length: 6u8,
                    max_seq_number: 0u32,
                    min_seq_number: 5u32,
                    top_over_cost_count: 2000u32,
                }),
            ),
            worker_id >= 64 ==> r is Err,
    {
        proof {
            lemma2_to64();
        }
        let options = IdGeneratorOptions::new(worker_id);
        self.generator.worker.set_options(options)
    }

    /// Produces the next identifier; see `SnowWorkerM1::next_id`.
    pub fn next_id(&mut self) -> (r: Option<i64>)
        requires
            old(self).generator.worker.wf(),
        ensures
            r is None ==> *final(self) == *old(self),
            r is Some ==> {
                &&& final(self).generator.worker.same_config(old(self).generator.worker)
                &&& final(self).generator.worker.wf_core()
                &&& final(self).generator.worker.issued_log().len() == old(self).generator.worker.issued_log().len() + 1
                &&& final(self).generator.worker.issued_log().drop_last() == old(self).generator.worker.issued_log()
                &&& r->0 == final(self).generator.worker.last_issued_id()
                &&& r->0 >= 0
            },
            (r is Some && (final(self).generator.worker.turn_back_round() == old(self).generator.worker.turn_back_round() || old(self).generator.worker.tb_next_fresh()))
                ==> (final(self).generator.worker.wf() && !old(self).generator.worker.issued_log().contains(
                final(self).generator.worker.issued_log().last(),
            )),
            r is Some ==> exists|t: int|
                0 <= t < old(self).generator.worker.now_limit() && #[trigger] old(
                    self,
                ).generator.worker.step_post(final(self).generator.worker, t, r),
    {
        let r = self.generator.worker.next_id();
        proof {
            if r is Some {
                let w0 = old(self).generator.worker;
                let t = choose|t: int|
                    0 <= t < w0.now_limit() && #[trigger] w0.step_post(
                        self.generator.worker,
                        t,
                        r,
                    );
                assert(0 <= t < w0.now_limit() && w0.step_post(self.generator.worker, t, r));
            }
        }
        r
    }
}

} // verus!
