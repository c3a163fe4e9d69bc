//! The drift-handling identifier generator.
//!
//! Each identifier packs a millisecond offset from a base time, a worker
//! identity and a per-millisecond sequence counter into one non-negative
//! 63-bit integer.  A ghost log records the (tick, sequence-field) pair of
//! every identifier handed out, and the well-formedness predicate carries
//! enough structure to show that no pair - and hence no identifier - is
//! ever repeated.

use vstd::arithmetic::power2::*;
use vstd::prelude::*;

use crate::errors::{AppError, ErrorKind};
use crate::options::IdGeneratorOptions;

verus! {

/// How often the clock is polled for one issue before giving up; a bound
/// this size is only reached when the clock stands still or runs outside
/// the admissible window.
pub const CLOCK_POLL_BOUND: u32 = 100000000;

/// Relies on chrono's `Utc::now`: the current wall-clock time in
/// milliseconds since the Unix epoch.  Nothing is assumed of the value.
#[verifier::external_body]
fn now_millis() -> i64 {
    chrono::Utc::now().timestamp_millis()
}

/// The structural constraints on a configuration that hold independently of
/// the wall clock.
pub open spec fn options_static_ok(options: IdGeneratorOptions) -> bool {
    &&& 1 <= options.worker_id_bit_length
    &&& 2 <= options.seq_bit_length <= 21
    &&& options.worker_id_bit_length + options.seq_bit_length <= 22
    &&& (options.worker_id as int) < pow2(options.worker_id_bit_length as nat)
    &&& (options.max_seq_number as int) < pow2(options.seq_bit_length as nat)
    &&& 5 <= options.min_seq_number
    &&& (options.min_seq_number as int) <= options_effective_max(options)
    &&& options.top_over_cost_count <= 10000
}

/// The sequence ceiling a configuration selects: the stated maximum, or the
/// full width of the sequence field when the stated maximum is zero.
pub open spec fn options_effective_max(options: IdGeneratorOptions) -> int {
    if options.max_seq_number == 0 {
        pow2(options.seq_bit_length as nat) - 1
    } else {
        options.max_seq_number as int
    }
}

/// A configuration is admissible at wall-clock time `now_ms` when its
/// structural constraints hold and its base time, unless zero, lies between
/// the historical floor and `now_ms`.
pub open spec fn options_admissible(options: IdGeneratorOptions, now_ms: int) -> bool {
    &&& options_static_ok(options)
    &&& (options.base_time == 0 || (631123200000 <= options.base_time <= now_ms))
}

/// Computes `2^k` exactly.
pub fn pow2_u64(k: u8) -> (r: u64)
    requires
        k < 64,
    ensures
        r as nat == pow2(k as nat),
{
    let mut r: u64 = 1;
    let mut i: u8 = 0;
    assert(pow2(0) == 1) by {
        lemma2_to64();
    }
    while i < k
        invariant
            i <= k < 64,
            r as nat == pow2(i as nat),
        decreases k - i,
    {
        proof {
            lemma_pow2_unfold((i + 1) as nat);
            lemma_pow2_strictly_increases((i + 1) as nat, 64);
            lemma2_to64_rest();
        }
        r = r * 2;
        i = i + 1;
    }
    r
}

/// The mutable state of one generator: the public configuration, the private
/// tick/sequence bookkeeping, and a ghost log of everything handed out.
pub struct SnowWorkerM1 {
    /// Epoch that ticks are counted from, in epoch milliseconds.
    pub base_time: i64,
    /// Worker identity.
    pub worker_id: u32,
    /// Bit width of the worker identity.
    pub worker_id_bit_length: u8,
    /// Bit width of the sequence counter.
    pub seq_bit_length: u8,
    /// Largest sequence number handed out (inclusive).
    pub max_seq_number: u32,
    /// Smallest sequence number handed out (inclusive), at least 5.
    pub min_seq_number: u32,
    /// How many virtual ticks the generator may run ahead of the clock.
    pub top_over_cost_count: u32,
    pub _timestamp_shift: u8,
    pub _current_seq_number: u32,
    pub _last_time_tick: i64,
    pub _turn_back_time_tick: i64,
    pub _turn_back_index: u8,
    pub _is_over_cost: bool,
    pub _over_cost_count_in_one_term: u32,
    pub _gen_count_in_one_term: u32,
    pub _term_index: u32,
    pub issued: Ghost<Seq<(int, int)>>,
}

impl SnowWorkerM1 {
    /// The total width of the worker and sequence fields.
    pub closed spec fn shift_width(self) -> nat {
        (self.worker_id_bit_length + self.seq_bit_length) as nat
    }

    /// Ticks must stay below this bound for an identifier to fit 63 bits.
    pub closed spec fn tick_limit(self) -> int {
        pow2((63 - self.shift_width()) as nat) as int
    }

    /// Clock readings accepted by the generator; the margin keeps the tick
    /// below `tick_limit` even after the worst admissible drift.
    pub closed spec fn now_limit(self) -> int {
        self.tick_limit() - self.top_over_cost_count - 2
    }

    /// The identifier packed from a tick and a sequence field.
    pub closed spec fn pack(self, t: int, s: int) -> int {
        t * pow2(self.shift_width()) + self.worker_id * pow2(self.seq_bit_length as nat) + s
    }

    /// The ghost log of (tick, sequence-field) pairs handed out, oldest first.
    pub closed spec fn issued_log(self) -> Seq<(int, int)> {
        self.issued@
    }

    /// The identifiers handed out, oldest first.
    pub closed spec fn issued_ids(self) -> Seq<int> {
        self.issued_log().map(|k: int, p: (int, int)| self.pack(p.0, p.1))
    }

    /// The identifier recorded last in the log.
    pub closed spec fn last_issued_id(self) -> int {
        self.pack(self.issued_log().last().0, self.issued_log().last().1)
    }

    /// The turn-back round that the next clock-rollback episode will use.
    pub closed spec fn turn_back_round(self) -> int {
        self._turn_back_index as int
    }

    /// No recorded turn-back issue of the coming round sits at or below the
    /// tick range a new rollback episode would start from.  This holds
    /// whenever the round has never been used, so it can only fail after
    /// the four reserved rounds have all been consumed and wrapped.
    pub closed spec fn tb_next_fresh(self) -> bool {
        let nxt = if self._turn_back_index >= 4 {
            1int
        } else {
            self._turn_back_index + 1
        };
        forall|k: int|
            0 <= k < self.issued@.len() && self.issued@[k].1 == nxt ==> self.issued@[k].0
                > self._last_time_tick - 1
    }

    /// The round a new rollback episode would adopt: the current round plus
    /// one, wrapping from 4 back to 1.
    pub open spec fn next_turn_back_round(self) -> int {
        if self._turn_back_index >= 4 {
            1int
        } else {
            self._turn_back_index + 1
        }
    }

    /// The transition one issue performs, case by case: on a fresh tick the
    /// generator adopts it and restarts the sequence; on the same tick it
    /// continues the sequence or, once the
    /// range is spent, enters over-cost against a virtual tick one ahead;
    /// on a rollback it mints from the reserved turn-back sub-range against
    /// a decrementing synthetic tick below the last normal tick; in
    /// over-cost mode it leaves as soon as real time has passed the virtual
    /// tick, keeps drifting while the budget lasts, and refuses (`None`,
    /// state untouched) exactly when the budget is spent and real time has
    /// not caught up.
    pub open spec fn step_post(self, post: Self, now: int, r: Option<i64>) -> bool {
        &&& post.same_config(self)
        &&& post._timestamp_shift == self._timestamp_shift
        &&& (r is None <==> (self._is_over_cost && now <= self._last_time_tick
            && self._over_cost_count_in_one_term >= self.top_over_cost_count))
        &&& (r is None ==> post == self)
        &&& (!self._is_over_cost && now > self._last_time_tick ==> {
            // a fresh tick is adopted and the sequence restarts
            &&& post._last_time_tick == now
            &&& post._current_seq_number == self.min_seq_number + 1
            &&& post._turn_back_time_tick == (if self._turn_back_time_tick > 0 {
                0int
            } else {
                self._turn_back_time_tick as int
            })
            &&& post._turn_back_index == self._turn_back_index
            &&& !post._is_over_cost
            &&& r == Some(self.pack(now, self.min_seq_number as int) as i64)
            &&& post.issued@ == self.issued@.push((now, self.min_seq_number as int))
        })
        &&& (!self._is_over_cost && now == self._last_time_tick && self._current_seq_number
            <= self.max_seq_number ==> {
            // the current millisecond continues
            &&& post._last_time_tick == self._last_time_tick
            &&& post._current_seq_number == self._current_seq_number + 1
            &&& post._turn_back_time_tick == (if self._turn_back_time_tick > 0 {
                0int
            } else {
                self._turn_back_time_tick as int
            })
            &&& post._turn_back_index == self._turn_back_index
            &&& !post._is_over_cost
            &&& r == Some(
                self.pack(self._last_time_tick as int, self._current_seq_number as int) as i64,
            )
            &&& post.issued@ == self.issued@.push(
                (self._last_time_tick as int, self._current_seq_number as int),
            )
        })
        &&& (!self._is_over_cost && now == self._last_time_tick && self._current_seq_number
            > self.max_seq_number ==> {
            // the sequence range is spent: over-cost begins one virtual tick ahead
            &&& post._last_time_tick == self._last_time_tick + 1
            &&& post._current_seq_number == self.min_seq_number + 1
            &&& post._turn_back_time_tick == (if self._turn_back_time_tick > 0 {
                0int
            } else {
                self._turn_back_time_tick as int
            })
            &&& post._turn_back_index == self._turn_back_index
            &&& post._is_over_cost
            &&& post._over_cost_count_in_one_term == 1
            &&& r == Some(
                self.pack(self._last_time_tick + 1, self.min_seq_number as int) as i64,
            )
            &&& post.issued@ == self.issued@.push(
                (self._last_time_tick + 1, self.min_seq_number as int),
            )
        })
        &&& (!self._is_over_cost && now < self._last_time_tick
            && self._turn_back_time_tick >= 1 ==> {
            // an active rollback episode continues down its synthetic ticks
            &&& post._last_time_tick == self._last_time_tick
            &&& post._current_seq_number == self._current_seq_number
            &&& post._turn_back_time_tick == self._turn_back_time_tick - 1
            &&& post._turn_back_index == self._turn_back_index
            &&& !post._is_over_cost
            &&& r == Some(
                self.pack(
                    self._turn_back_time_tick as int,
                    self._turn_back_index as int,
                ) as i64,
            )
            &&& post.issued@ == self.issued@.push(
                (self._turn_back_time_tick as int, self._turn_back_index as int),
            )
        })
        &&& (!self._is_over_cost && now < self._last_time_tick && self._turn_back_time_tick
            < 1 ==> {
            // a rollback episode begins: the next reserved round, one tick
            // below the last normal tick
            &&& post._last_time_tick == self._last_time_tick
            &&& post._current_seq_number == self._current_seq_number
            &&& post._turn_back_time_tick == self._last_time_tick - 2
            &&& post._turn_back_index == self.next_turn_back_round()
            &&& !post._is_over_cost
            &&& r == Some(
                self.pack(self._last_time_tick - 1, self.next_turn_back_round()) as i64,
            )
            &&& post.issued@ == self.issued@.push(
                (self._last_time_tick - 1, self.next_turn_back_round()),
            )
        })
        &&& (self._is_over_cost && now > self._last_time_tick ==> {
            // real time passed the virtual tick: over-cost ends
            &&& post._last_time_tick == now
            &&& post._current_seq_number == self.min_seq_number + 1
            &&& post._turn_back_time_tick == self._turn_back_time_tick
            &&& post._turn_back_index == self._turn_back_index
            &&& !post._is_over_cost
            &&& post._over_cost_count_in_one_term == 0
            &&& r == Some(self.pack(now, self.min_seq_number as int) as i64)
            &&& post.issued@ == self.issued@.push((now, self.min_seq_number as int))
        })
        &&& (self._is_over_cost && now <= self._last_time_tick
            && self._over_cost_count_in_one_term < self.top_over_cost_count
            && self._current_seq_number > self.max_seq_number ==> {
            // the virtual millisecond is spent: drift one more tick ahead
            &&& post._last_time_tick == self._last_time_tick + 1
            &&& post._current_seq_number == self.min_seq_number + 1
            &&& post._turn_back_time_tick == self._turn_back_time_tick
            &&& post._turn_back_index == self._turn_back_index
            &&& post._is_over_cost
            &&& post._over_cost_count_in_one_term == self._over_cost_count_in_one_term + 1
            &&& r == Some(
                self.pack(self._last_time_tick + 1, self.min_seq_number as int) as i64,
            )
            &&& post.issued@ == self.issued@.push(
                (self._last_time_tick + 1, self.min_seq_number as int),
            )
        })
        &&& (self._is_over_cost && now <= self._last_time_tick
            && self._over_cost_count_in_one_term < self.top_over_cost_count
            && self._current_seq_number <= self.max_seq_number ==> {
            // the virtual millisecond continues
            &&& post._last_time_tick == self._last_time_tick
            &&& post._current_seq_number == self._current_seq_number + 1
            &&& post._turn_back_time_tick == self._turn_back_time_tick
            &&& post._turn_back_index == self._turn_back_index
            &&& post._is_over_cost
            &&& post._over_cost_count_in_one_term == self._over_cost_count_in_one_term
            &&& r == Some(
                self.pack(self._last_time_tick as int, self._current_seq_number as int) as i64,
            )
            &&& post.issued@ == self.issued@.push(
                (self._last_time_tick as int, self._current_seq_number as int),
            )
        })
    }

    /// The state a reconfiguration leaves behind: the configuration fields
    /// adopted from the options (a zero base time selecting the built-in
    /// default, a zero maximum selecting the full sequence field), and the
    /// runtime state fresh - sequence at its floor, tick zero, normal mode,
    /// no rollback round used, nothing issued.
    pub open spec fn freshly_configured(self, options: IdGeneratorOptions) -> bool {
        &&& self.base_time == (if options.base_time == 0 {
            1582136402000i64
        } else {
            options.base_time
        })
        &&& self.worker_id == options.worker_id
        &&& self.worker_id_bit_length == options.worker_id_bit_length
        &&& self.seq_bit_length == options.seq_bit_length
        &&& self.max_seq_number == options_effective_max(options)
        &&& self.min_seq_number == options.min_seq_number
        &&& self.top_over_cost_count == options.top_over_cost_count
        &&& self._timestamp_shift == options.worker_id_bit_length + options.seq_bit_length
        &&& self._current_seq_number == options.min_seq_number
        &&& self._last_time_tick == 0
        &&& self._turn_back_time_tick == 0
        &&& self._turn_back_index == 0
        &&& !self._is_over_cost
        &&& self._over_cost_count_in_one_term == 0
        &&& self.issued@ == Seq::<(int, int)>::empty()
    }

    /// The configuration part of well-formedness.
    pub closed spec fn wf_config(self) -> bool {
        &&& 1 <= self.worker_id_bit_length
        &&& 2 <= self.seq_bit_length <= 21
        &&& self.worker_id_bit_length + self.seq_bit_length <= 22
        &&& (self.worker_id as int) < pow2(self.worker_id_bit_length as nat)
        &&& 5 <= self.min_seq_number <= self.max_seq_number
        &&& (self.max_seq_number as int) < pow2(self.seq_bit_length as nat)
        &&& self.top_over_cost_count <= 10000
        &&& self._timestamp_shift == self.worker_id_bit_length + self.seq_bit_length
        &&& 631123200000 <= self.base_time
    }

    /// The two generators agree on every public configuration field.
    pub closed spec fn same_config(self, other: Self) -> bool {
        &&& self.base_time == other.base_time
        &&& self.worker_id == other.worker_id
        &&& self.worker_id_bit_length == other.worker_id_bit_length
        &&& self.seq_bit_length == other.seq_bit_length
        &&& self.max_seq_number == other.max_seq_number
        &&& self.min_seq_number == other.min_seq_number
        &&& self.top_over_cost_count == other.top_over_cost_count
    }

    /// One recorded issue is admissible with respect to the current state.
    pub closed spec fn entry_ok(self, t: int, s: int) -> bool {
        &&& 0 <= t < self.tick_limit()
        &&& 0 <= s < pow2(self.seq_bit_length as nat)
        &&& s >= self.min_seq_number ==> {
            &&& s <= self.max_seq_number
            &&& (t < self._last_time_tick || (t == self._last_time_tick && s
                < self._current_seq_number))
        }
        &&& s < self.min_seq_number ==> 1 <= s <= 4
    }

    /// Every recorded issue in turn-back round `idx` sits strictly above
    /// tick `t`.
    pub closed spec fn tb_ok_at(self, t: int, idx: int) -> bool {
        forall|k: int|
            0 <= k < self.issued@.len() && #[trigger] self.issued@[k].1 == idx
                ==> self.issued@[k].0 > t
    }

    /// The structural part of well-formedness: a valid configuration,
    /// tick/sequence bookkeeping in range, and every recorded issue
    /// admissible for the current state.
    pub closed spec fn wf_core(self) -> bool {
        &&& self.wf_config()
        &&& self.min_seq_number <= self._current_seq_number <= self.max_seq_number + 1
        &&& 0 <= self._last_time_tick
        &&& self._is_over_cost ==> {
            &&& self._last_time_tick < self.now_limit() + self._over_cost_count_in_one_term + 1
            &&& self._over_cost_count_in_one_term <= self.top_over_cost_count + 1
            &&& self._turn_back_time_tick <= 0
        }
        &&& !self._is_over_cost ==> self._last_time_tick < self.now_limit() + 1
        &&& -1 <= self._turn_back_time_tick
        &&& self._turn_back_time_tick >= 1 ==> {
            &&& self._turn_back_time_tick < self._last_time_tick
            &&& 1 <= self._turn_back_index <= 4
        }
        &&& self._turn_back_index <= 4
        &&& forall|k: int|
            0 <= k < self.issued@.len() ==> self.entry_ok(
                #[trigger] self.issued@[k].0,
                self.issued@[k].1,
            )
    }

    /// The coherence of the ghost log: no issue is recorded twice, and an
    /// active rollback episode still has its whole remaining tick range free.
    pub closed spec fn log_ok(self) -> bool {
        &&& self._turn_back_time_tick >= 1 ==> self.tb_ok_at(
            self._turn_back_time_tick as int,
            self._turn_back_index as int,
        )
        &&& forall|k1: int, k2: int|
            0 <= k1 < k2 < self.issued@.len() ==> #[trigger] self.issued@[k1]
                != #[trigger] self.issued@[k2]
    }

    /// Full well-formedness.
    pub closed spec fn wf(self) -> bool {
        self.wf_core() && self.log_ok()
    }

    /// The worker and sequence fields together stay below one tick's weight,
    /// so a packed identifier is non-negative and fits in 63 bits.
    proof fn lemma_pack_fits(self, t: int, s: int)
        requires
            self.wf_config(),
            0 <= t < self.tick_limit(),
            0 <= s < pow2(self.seq_bit_length as nat),
        ensures
            (self.worker_id as int) * pow2(self.seq_bit_length as nat) + s < pow2(
                self.shift_width(),
            ),
            0 <= self.pack(t, s) < pow2(63),
    {
        let sb = pow2(self.seq_bit_length as nat) as int;
        let wb = pow2(self.worker_id_bit_length as nat) as int;
        let sh = pow2(self.shift_width()) as int;
        let tl = self.tick_limit();
        lemma_pow2_adds(self.worker_id_bit_length as nat, self.seq_bit_length as nat);
        lemma_pow2_adds((63 - self.shift_width()) as nat, self.shift_width());
        lemma_pow2_pos(self.seq_bit_length as nat);
        lemma_pow2_pos(self.worker_id_bit_length as nat);
        lemma_pow2_pos(self.shift_width());
        lemma_pow2_pos((63 - self.shift_width()) as nat);
        assert((self.worker_id as int) * sb + s < sh) by (nonlinear_arith)
            requires
                (self.worker_id as int) <= wb - 1,
                0 <= s < sb,
                sh == wb * sb,
                sb > 0,
                wb > 0,
        ;
        assert(0 <= t * sh + ((self.worker_id as int) * sb + s) < tl * sh) by (nonlinear_arith)
            requires
                0 <= t <= tl - 1,
                0 <= (self.worker_id as int) * sb + s < sh,
                sh > 0,
                tl > 0,
        ;
        assert(pow2(63) == tl * sh);
    }

    /// Packing is injective on in-range tick and sequence fields.
    proof fn lemma_pack_injective(self, t1: int, s1: int, t2: int, s2: int)
        requires
            self.wf_config(),
            0 <= s1 < pow2(self.seq_bit_length as nat),
            0 <= s2 < pow2(self.seq_bit_length as nat),
            self.pack(t1, s1) == self.pack(t2, s2),
        ensures
            t1 == t2 && s1 == s2,
    {
        let sb = pow2(self.seq_bit_length as nat) as int;
        let wb = pow2(self.worker_id_bit_length as nat) as int;
        let sh = pow2(self.shift_width()) as int;
        lemma_pow2_adds(self.worker_id_bit_length as nat, self.seq_bit_length as nat);
        lemma_pow2_pos(self.seq_bit_length as nat);
        lemma_pow2_pos(self.worker_id_bit_length as nat);
        assert(wb >= 2) by {
            lemma_pow2_strictly_increases(0, self.worker_id_bit_length as nat);
            lemma2_to64();
        }
        assert(t1 == t2 && s1 == s2) by (nonlinear_arith)
            requires
                t1 * sh + s1 == t2 * sh + s2,
                0 <= s1 < sb,
                0 <= s2 < sb,
                sh == wb * sb,
                sb > 0,
                wb >= 2,
        ;
    }

    /// Packing respects the (tick, sequence) order: a later position packs
    /// to a strictly larger identifier.
    proof fn lemma_pack_lex_increase(self, t1: int, s1: int, t2: int, s2: int)
        requires
            self.wf_config(),
            0 <= s1 < pow2(self.seq_bit_length as nat),
            0 <= s2 < pow2(self.seq_bit_length as nat),
            t1 < t2 || (t1 == t2 && s1 < s2),
        ensures
            self.pack(t1, s1) < self.pack(t2, s2),
    {
        let sb = pow2(self.seq_bit_length as nat) as int;
        let wb = pow2(self.worker_id_bit_length as nat) as int;
        let sh = pow2(self.shift_width()) as int;
        lemma_pow2_adds(self.worker_id_bit_length as nat, self.seq_bit_length as nat);
        lemma_pow2_pos(self.seq_bit_length as nat);
        lemma_pow2_pos(self.worker_id_bit_length as nat);
        assert(t1 * sh + s1 < t2 * sh + s2) by (nonlinear_arith)
            requires
                t1 < t2 || (t1 == t2 && s1 < s2),
                0 <= s1 < sb,
                0 <= s2 < sb,
                sh == wb * sb,
                sb > 0,
                wb >= 1,
        ;
    }

    /// Monotonicity outside turn-back handling: an issue served while the
    /// clock has not moved backward returns an identifier strictly greater
    /// than every normal or over-cost identifier recorded before it.  Only
    /// a rollback, which mints from the reserved sub-range instead, is
    /// exempt - there uniqueness alone is promised.
    pub proof fn lemma_monotonic_without_rollback(pre: Self, post: Self, now: int, id: i64)
        requires
            pre.wf(),
            pre._last_time_tick <= now < pre.now_limit(),
            pre.step_post(post, now, Some(id)),
        ensures
            forall|k: int|
                0 <= k < pre.issued@.len() && #[trigger] pre.issued@[k].1 >= pre.min_seq_number
                    ==> id > pre.pack(pre.issued@[k].0, pre.issued@[k].1),
    {
        let mt = post.issued@.last().0;
        let ms = post.issued@.last().1;
        assert(mt >= pre._last_time_tick && ms >= pre.min_seq_number);
        assert(mt > pre._last_time_tick || (mt == pre._last_time_tick && ms
            >= pre._current_seq_number));
        assert(0 <= ms < pow2(pre.seq_bit_length as nat)) by {
            assert(ms <= pre.max_seq_number || ms == pre._current_seq_number);
        }
        assert(0 <= mt < pre.tick_limit());
        assert(id == pre.pack(mt, ms)) by {
            pre.lemma_pack_fits(mt, ms);
            lemma_pow2_strictly_increases(63, 64);
            lemma2_to64_rest();
        }
        assert forall|k: int|
            0 <= k < pre.issued@.len() && #[trigger] pre.issued@[k].1 >= pre.min_seq_number
            implies id > pre.pack(pre.issued@[k].0, pre.issued@[k].1) by {
            assert(pre.entry_ok(pre.issued@[k].0, pre.issued@[k].1));
            pre.lemma_pack_lex_increase(pre.issued@[k].0, pre.issued@[k].1, mt, ms);
        }
    }

    /// The freshness caveat discharged: when the round a new rollback
    /// episode would use has never produced an issue, it is fresh.  An
    /// empty log satisfies the premise outright.
    pub proof fn lemma_tb_next_fresh_of_unused_round(self)
        requires
            forall|k: int|
                0 <= k < self.issued_log().len() ==> #[trigger] self.issued_log()[k].1
                    != self.next_turn_back_round(),
        ensures
            self.tb_next_fresh(),
    {
        let nxt = self.next_turn_back_round();
        assert forall|k: int|
            0 <= k < self.issued@.len() && self.issued@[k].1 == nxt implies self.issued@[k].0
            > self._last_time_tick - 1 by {
            assert(self.issued_log()[k].1 != self.next_turn_back_round());
        }
    }

    /// Mints the identifier for the current tick and sequence counter, then
    /// advances the counter.
    fn calc_id(&mut self, use_time_tick: i64) -> (r: i64)
        requires
            old(self).wf_core(),
            use_time_tick == old(self)._last_time_tick,
            old(self)._current_seq_number <= old(self).max_seq_number,
        ensures
            final(self).wf_core(),
            old(self).log_ok() ==> final(self).log_ok(),
            final(self).same_config(*old(self)),
            final(self).issued@ == old(self).issued@.push(
                (old(self)._last_time_tick as int, old(self)._current_seq_number as int),
            ),
            !old(self).issued@.contains(
                (old(self)._last_time_tick as int, old(self)._current_seq_number as int),
            ),
            r == old(self).pack(
                old(self)._last_time_tick as int,
                old(self)._current_seq_number as int,
            ),
            0 <= r,
            final(self)._last_time_tick == old(self)._last_time_tick,
            final(self)._current_seq_number == old(self)._current_seq_number + 1,
            final(self)._turn_back_time_tick == old(self)._turn_back_time_tick,
            final(self)._turn_back_index == old(self)._turn_back_index,
            final(self)._is_over_cost == old(self)._is_over_cost,
            final(self)._over_cost_count_in_one_term == old(self)._over_cost_count_in_one_term,
            final(self)._gen_count_in_one_term == old(self)._gen_count_in_one_term,
            final(self)._term_index == old(self)._term_index,
    {
        let ghost t = self._last_time_tick as int;
        let ghost s = self._current_seq_number as int;
        proof {
            assert(t < self.tick_limit());
            self.lemma_pack_fits(t, s);
            lemma_pow2_strictly_increases(63, 64);
            lemma2_to64_rest();
        }
        let p_shift: u64 = pow2_u64(self._timestamp_shift);
        let p_seq: u64 = pow2_u64(self.seq_bit_length);
        let idu: u64 = (use_time_tick as u64) * p_shift + (self.worker_id as u64) * p_seq + (
        self._current_seq_number as u64);
        let r = idu as i64;
        proof {
            lemma_pow2_strictly_increases(self.seq_bit_length as nat, 22);
            lemma2_to64();
        }
        self._current_seq_number = self._current_seq_number + 1;
        proof {
            self.issued@ = self.issued@.push((t, s));
            assert(forall|k: int|
                0 <= k < old(self).issued@.len() ==> old(self).issued@[k] == self.issued@[k]);
            assert forall|k: int|
                0 <= k < self.issued@.len() implies self.entry_ok(
                #[trigger] self.issued@[k].0,
                self.issued@[k].1,
            ) by {
                if k < self.issued@.len() - 1 {
                    assert(old(self).entry_ok(self.issued@[k].0, self.issued@[k].1));
                }
            }
            assert forall|k: int|
                0 <= k < old(self).issued@.len() implies old(self).issued@[k] != (t, s) by {
                assert(old(self).entry_ok(old(self).issued@[k].0, old(self).issued@[k].1));
            }
        }
        r
    }

    /// Mints an identifier in the reserved turn-back sub-range for the
    /// current rollback round, then moves the synthetic tick down.
    fn calc_turn_back_id(&mut self, use_time_tick: i64) -> (r: i64)
        requires
            old(self).wf_core(),
            use_time_tick == old(self)._turn_back_time_tick,
            0 <= old(self)._turn_back_time_tick < old(self)._last_time_tick,
            1 <= old(self)._turn_back_index <= 4,
        ensures
            final(self).wf_core(),
            final(self).same_config(*old(self)),
            final(self).issued@ == old(self).issued@.push(
                (old(self)._turn_back_time_tick as int, old(self)._turn_back_index as int),
            ),
            old(self).tb_ok_at(
                old(self)._turn_back_time_tick as int,
                old(self)._turn_back_index as int,
            ) ==> !old(self).issued@.contains(
                (old(self)._turn_back_time_tick as int, old(self)._turn_back_index as int),
            ),
            (old(self).log_ok() && old(self).tb_ok_at(
                old(self)._turn_back_time_tick as int,
                old(self)._turn_back_index as int,
            )) ==> final(self).log_ok(),
            r == old(self).pack(
                old(self)._turn_back_time_tick as int,
                old(self)._turn_back_index as int,
            ),
            0 <= r,
            final(self)._last_time_tick == old(self)._last_time_tick,
            final(self)._current_seq_number == old(self)._current_seq_number,
            final(self)._turn_back_time_tick == old(self)._turn_back_time_tick - 1,
            final(self)._turn_back_index == old(self)._turn_back_index,
            final(self)._is_over_cost == old(self)._is_over_cost,
            final(self)._over_cost_count_in_one_term == old(self)._over_cost_count_in_one_term,
            final(self)._gen_count_in_one_term == old(self)._gen_count_in_one_term,
            final(self)._term_index == old(self)._term_index,
    {
        let ghost t = self._turn_back_time_tick as int;
        let ghost s = self._turn_back_index as int;
        proof {
            assert(self._is_over_cost ==> self._last_time_tick < self.now_limit()
                + self._over_cost_count_in_one_term + 1);
            assert(t < self.tick_limit());
            assert(pow2(self.seq_bit_length as nat) > 5);
            self.lemma_pack_fits(t, s);
            lemma_pow2_strictly_increases(63, 64);
            lemma2_to64_rest();
        }
        let p_shift: u64 = pow2_u64(self._timestamp_shift);
        let p_seq: u64 = pow2_u64(self.seq_bit_length);
        let idu: u64 = (use_time_tick as u64) * p_shift + (self.worker_id as u64) * p_seq + (
        self._turn_back_index as u64);
        let r = idu as i64;
        self._turn_back_time_tick = self._turn_back_time_tick - 1;
        proof {
            self.issued@ = self.issued@.push((t, s));
            assert(forall|k: int|
                0 <= k < old(self).issued@.len() ==> old(self).issued@[k] == self.issued@[k]);
            assert forall|k: int|
                0 <= k < self.issued@.len() implies self.entry_ok(
                #[trigger] self.issued@[k].0,
                self.issued@[k].1,
            ) by {
                if k < self.issued@.len() - 1 {
                    assert(old(self).entry_ok(self.issued@[k].0, self.issued@[k].1));
                }
            }
            if old(self).tb_ok_at(t, s) {
                assert forall|k: int|
                    0 <= k < old(self).issued@.len() implies old(self).issued@[k] != (t, s) by {
                    assert(old(self).entry_ok(old(self).issued@[k].0, old(self).issued@[k].1));
                }
            }
        }
        r
    }

    /// One issue in normal mode: adopt a fresh tick, continue the current
    /// millisecond, fall into over-cost when the sequence range is spent, or
    /// serve a clock rollback from the reserved turn-back sub-range.
    fn next_normal_id(&mut self, current_time_tick: i64) -> (r: i64)
        requires
            old(self).wf(),
            !old(self)._is_over_cost,
            0 <= current_time_tick < old(self).now_limit(),
        ensures
            final(self).same_config(*old(self)),
            final(self).wf_core(),
            final(self).issued@.len() == old(self).issued@.len() + 1,
            final(self).issued@.drop_last() == old(self).issued@,
            r == final(self).pack(final(self).issued@.last().0, final(self).issued@.last().1),
            0 <= r,
            (final(self)._turn_back_index == old(self)._turn_back_index || old(
                self,
            ).tb_next_fresh()) ==> (final(self).log_ok() && !old(self).issued@.contains(
                final(self).issued@.last(),
            )),
            old(self).step_post(*final(self), current_time_tick as int, Some(r)),
    {
        if current_time_tick < self._last_time_tick {
            if self._turn_back_time_tick < 1 {
                self._turn_back_time_tick = self._last_time_tick - 1;
                self._turn_back_index = self._turn_back_index + 1;
                if self._turn_back_index > 4 {
                    self._turn_back_index = 1;
                }
            }
            let tbt = self._turn_back_time_tick;
            let r = self.calc_turn_back_id(tbt);
            proof {
                assert(final(self).issued@.drop_last() =~= old(self).issued@);
            }
            return r;
        }
        if self._turn_back_time_tick > 0 {
            self._turn_back_time_tick = 0;
        }
        if current_time_tick > self._last_time_tick {
            self._last_time_tick = current_time_tick;
            self._current_seq_number = self.min_seq_number;
            proof {
                assert forall|k: int|
                    0 <= k < self.issued@.len() implies self.entry_ok(
                    #[trigger] self.issued@[k].0,
                    self.issued@[k].1,
                ) by {
                    assert(old(self).entry_ok(self.issued@[k].0, self.issued@[k].1));
                }
            }
            let t = self._last_time_tick;
            let r = self.calc_id(t);
            proof {
                assert(final(self).issued@.drop_last() =~= old(self).issued@);
            }
            return r;
        }
        if self._current_seq_number > self.max_seq_number {
            proof {
                lemma_pow2_strictly_increases((63 - self.shift_width()) as nat, 61);
                lemma2_to64_rest();
            }
            if self._term_index < u32::MAX {
                self._term_index = self._term_index + 1;
            }
            self._last_time_tick = self._last_time_tick + 1;
            self._current_seq_number = self.min_seq_number;
            self._is_over_cost = true;
            self._over_cost_count_in_one_term = 1;
            self._gen_count_in_one_term = 1;
            proof {
                assert forall|k: int|
                    0 <= k < self.issued@.len() implies self.entry_ok(
                    #[trigger] self.issued@[k].0,
                    self.issued@[k].1,
                ) by {
                    assert(old(self).entry_ok(self.issued@[k].0, self.issued@[k].1));
                }
            }
            let t = self._last_time_tick;
            let r = self.calc_id(t);
            proof {
                assert(final(self).issued@.drop_last() =~= old(self).issued@);
            }
            return r;
        }
        if self._gen_count_in_one_term < u32::MAX {
            self._gen_count_in_one_term = self._gen_count_in_one_term + 1;
        }
        let t = self._last_time_tick;
        let r = self.calc_id(t);
        proof {
            assert(final(self).issued@.drop_last() =~= old(self).issued@);
        }
        r
    }

    /// One issue in over-cost mode: leave the mode as soon as real time has
    /// caught up with the virtual tick, report that a wait is needed once the
    /// drift budget is spent, and otherwise keep minting against the virtual
    /// tick.  `None` asks the caller to poll the clock and call again; the
    /// state is then unchanged.
    fn next_over_cost_id(&mut self, current_time_tick: i64) -> (r: Option<i64>)
        requires
            old(self).wf(),
            old(self)._is_over_cost,
            0 <= current_time_tick < old(self).now_limit(),
        ensures
            r is None <==> (current_time_tick <= old(self)._last_time_tick && old(
                self,
            )._over_cost_count_in_one_term >= old(self).top_over_cost_count),
            r is None ==> *final(self) == *old(self),
            r is Some ==> {
                &&& final(self).same_config(*old(self))
                &&& final(self).wf()
                &&& final(self).issued@.len() == old(self).issued@.len() + 1
                &&& final(self).issued@.drop_last() == old(self).issued@
                &&& r->0 == final(self).pack(
                    final(self).issued@.last().0,
                    final(self).issued@.last().1,
                )
                &&& r->0 >= 0
                &&& !old(self).issued@.contains(final(self).issued@.last())
                &&& final(self)._turn_back_index == old(self)._turn_back_index
            },
            old(self).step_post(*final(self), current_time_tick as int, r),
    {
        if current_time_tick > self._last_time_tick {
            self._last_time_tick = current_time_tick;
            self._current_seq_number = self.min_seq_number;
            self._is_over_cost = false;
            self._over_cost_count_in_one_term = 0;
            self._gen_count_in_one_term = 0;
            proof {
                assert forall|k: int|
                    0 <= k < self.issued@.len() implies self.entry_ok(
                    #[trigger] self.issued@[k].0,
                    self.issued@[k].1,
                ) by {
                    assert(old(self).entry_ok(self.issued@[k].0, self.issued@[k].1));
                }
            }
            let t = self._last_time_tick;
            let r = self.calc_id(t);
            proof {
                assert(final(self).issued@.drop_last() =~= old(self).issued@);
            }
            return Some(r);
        }
        if self._over_cost_count_in_one_term >= self.top_over_cost_count {
            return None;
        }
        if self._current_seq_number > self.max_seq_number {
            proof {
                lemma_pow2_strictly_increases((63 - self.shift_width()) as nat, 61);
                lemma2_to64_rest();
            }
            self._last_time_tick = self._last_time_tick + 1;
            self._current_seq_number = self.min_seq_number;
            self._over_cost_count_in_one_term = self._over_cost_count_in_one_term + 1;
            if self._gen_count_in_one_term < u32::MAX {
                self._gen_count_in_one_term = self._gen_count_in_one_term + 1;
            }
            proof {
                assert forall|k: int|
                    0 <= k < self.issued@.len() implies self.entry_ok(
                    #[trigger] self.issued@[k].0,
                    self.issued@[k].1,
                ) by {
                    assert(old(self).entry_ok(self.issued@[k].0, self.issued@[k].1));
                }
            }
            let t = self._last_time_tick;
            let r = self.calc_id(t);
            proof {
                assert(final(self).issued@.drop_last() =~= old(self).issued@);
            }
            return Some(r);
        }
        if self._gen_count_in_one_term < u32::MAX {
            self._gen_count_in_one_term = self._gen_count_in_one_term + 1;
        }
        let t = self._last_time_tick;
        let r = self.calc_id(t);
        proof {
            assert(final(self).issued@.drop_last() =~= old(self).issued@);
        }
        Some(r)
    }

    /// The largest clock reading the generator accepts, as a machine value.
    fn now_limit_exec(&self) -> (r: i64)
        requires
            self.wf_config(),
        ensures
            r == self.now_limit(),
    {
        proof {
            lemma_pow2_strictly_increases((63 - self.shift_width()) as nat, 61);
            lemma2_to64_rest();
        }
        let tl = pow2_u64(63 - self._timestamp_shift);
        (tl as i64) - (self.top_over_cost_count as i64) - 2
    }

    /// Produces the next identifier against an injected clock reading, for
    /// callers that control time - the deterministic face of `next_id`.
    /// `None` asks for a later reading while the generator waits out a spent
    /// drift budget; the state is then unchanged.
    pub fn next_id_at(&mut self, now_tick: i64) -> (r: Option<i64>)
        requires
            old(self).wf(),
            0 <= now_tick < old(self).now_limit(),
        ensures
            r is None ==> *final(self) == *old(self),
            r is Some ==> {
                &&& final(self).same_config(*old(self))
                &&& final(self).wf_core()
                &&& final(self).issued_log().len() == old(self).issued_log().len() + 1
                &&& final(self).issued_log().drop_last() == old(self).issued_log()
                &&& r->0 == final(self).last_issued_id()
                &&& r->0 >= 0
            },
            (r is Some && (final(self).turn_back_round() == old(self).turn_back_round() || old(
                self,
            ).tb_next_fresh())) ==> (final(self).wf() && !old(self).issued_log().contains(
                final(self).issued_log().last(),
            )),
            old(self).step_post(*final(self), now_tick as int, r),
            r is None ==> old(self)._is_over_cost && now_tick <= old(self)._last_time_tick && old(
                self,
            )._over_cost_count_in_one_term >= old(self).top_over_cost_count,
    {
        if self._is_over_cost {
            self.next_over_cost_id(now_tick)
        } else {
            Some(self.next_normal_id(now_tick))
        }
    }

    /// Produces the next identifier, polling the wall clock as often as the
    /// drift handling demands.  `None` is returned, with the state untouched,
    /// only when the clock reads outside the admissible window of the
    /// configuration (before the base time, or beyond the tick range that
    /// fits 63 bits) or stands still past the polling bound.
    pub fn next_id(&mut self) -> (r: Option<i64>)
        requires
            old(self).wf(),
        ensures
            r is None ==> *final(self) == *old(self),
            r is Some ==> {
                &&& final(self).same_config(*old(self))
                &&& final(self).wf_core()
                &&& final(self).issued_log().len() == old(self).issued_log().len() + 1
                &&& final(self).issued_log().drop_last() == old(self).issued_log()
                &&& r->0 == final(self).last_issued_id()
                &&& r->0 >= 0
            },
            (r is Some && (final(self).turn_back_round() == old(self).turn_back_round() || old(
                self,
            ).tb_next_fresh())) ==> (final(self).wf() && !old(self).issued_log().contains(
                final(self).issued_log().last(),
            )),
            r is Some ==> exists|t: int|
                0 <= t < old(self).now_limit() && #[trigger] old(self).step_post(
                    *final(self),
                    t,
                    r,
                ),
    {
        let mut tries: u32 = 0;
        while tries < CLOCK_POLL_BOUND
            invariant
                *self == *old(self),
                old(self).wf(),
            decreases CLOCK_POLL_BOUND - tries,
        {
            let now = now_millis();
            let tick = match now.checked_sub(self.base_time) {
                Some(t) => t,
                None => {
                    return None;
                },
            };
            if tick < 0 {
                return None;
            }
            let limit = self.now_limit_exec();
            if tick >= limit {
                return None;
            }
            match self.next_id_at(tick) {
                Some(id) => {
                    return Some(id);
                },
                None => {},
            }
            tries = tries + 1;
        }
        None
    }

    /// A generator with the built-in default configuration for worker 1.
    pub fn default() -> (r: SnowWorkerM1)
        ensures
            r.wf(),
            r.issued_log().len() == 0,
            r.turn_back_round() == 0,
            r.base_time == 1577808000000i64,
            r.worker_id == 1u32,
            r.worker_id_bit_length == 6u8,
            r.seq_bit_length == 6u8,
            r.max_seq_number == 63u32,
            r.min_seq_number == 5u32,
            r.top_over_cost_count == 2000u32,
    {
        let r = SnowWorkerM1 {
            base_time: 1577808000000,
            worker_id: 1,
            worker_id_bit_length: 6,
            seq_bit_length: 6,
            max_seq_number: 63,
            min_seq_number: 5,
            top_over_cost_count: 2000,
            _timestamp_shift: 12,
            _current_seq_number: 5,
            _last_time_tick: 0,
            _turn_back_time_tick: 0,
            _turn_back_index: 0,
            _is_over_cost: false,
            _over_cost_count_in_one_term: 0,
            _gen_count_in_one_term: 0,
            _term_index: 0,
            issued: Ghost(Seq::empty()),
        };
        proof {
            lemma2_to64();
            lemma_pow2_strictly_increases((63 - r.shift_width()) as nat, 61);
            lemma2_to64_rest();
        }
        r
    }

    /// Validates a configuration against an injected wall-clock reading
    /// and, exactly when it is admissible, adopts it and resets the
    /// generator to a fresh state; identifiers do not survive a
    /// reconfiguration.  A base time of zero selects the built-in default.
    pub fn set_options_at(&mut self, options: IdGeneratorOptions, now_ms: i64) -> (r: Result<
        (),
        AppError,
    >)
        ensures
            r is Ok <==> options_admissible(options, now_ms as int),
            r is Err ==> *final(self) == *old(self),
            r is Ok ==> final(self).wf() && final(self).freshly_configured(options),
            r is Ok ==> r == Ok::<(), AppError>(()),
            r is Err ==> r == Err::<(), AppError>(AppError { kind: ErrorKind::Configuration }),
    {
        let now = now_ms;
        let base_time: i64 = if options.base_time == 0 {
            1582136402000
        } else {
            if options.base_time < 631123200000 || options.base_time > now {
                return Err(AppError { kind: ErrorKind::Configuration });
            }
            options.base_time
        };
        if options.worker_id_bit_length < 1 {
            return Err(AppError { kind: ErrorKind::Configuration });
        }
        if options.worker_id_bit_length > 21 || options.seq_bit_length > 21 {
            return Err(AppError { kind: ErrorKind::Configuration });
        }
        if options.worker_id_bit_length + options.seq_bit_length > 22 {
            return Err(AppError { kind: ErrorKind::Configuration });
        }
        proof {
            lemma_pow2_pos(options.worker_id_bit_length as nat);
            lemma_pow2_pos(options.seq_bit_length as nat);
        }
        let max_worker: u64 = pow2_u64(options.worker_id_bit_length) - 1;
        if (options.worker_id as u64) > max_worker {
            return Err(AppError { kind: ErrorKind::Configuration });
        }
        if options.seq_bit_length < 2 {
            return Err(AppError { kind: ErrorKind::Configuration });
        }
        let seq_ceiling: u64 = pow2_u64(options.seq_bit_length) - 1;
        if (options.max_seq_number as u64) > seq_ceiling {
            return Err(AppError { kind: ErrorKind::Configuration });
        }
        let max_seq: u32 = if options.max_seq_number == 0 {
            proof {
                lemma_pow2_strictly_increases(options.seq_bit_length as nat, 22);
                lemma2_to64();
            }
            seq_ceiling as u32
        } else {
            options.max_seq_number
        };
        if options.min_seq_number < 5 || options.min_seq_number > max_seq {
            return Err(AppError { kind: ErrorKind::Configuration });
        }
        if options.top_over_cost_count > 10000 {
            return Err(AppError { kind: ErrorKind::Configuration });
        }
        self.base_time = base_time;
        self.worker_id = options.worker_id;
        self.worker_id_bit_length = options.worker_id_bit_length;
        self.seq_bit_length = options.seq_bit_length;
        self.max_seq_number = max_seq;
        self.min_seq_number = options.min_seq_number;
        self.top_over_cost_count = options.top_over_cost_count;
        self._timestamp_shift = options.worker_id_bit_length + options.seq_bit_length;
        self._current_seq_number = options.min_seq_number;
        self._last_time_tick = 0;
        self._turn_back_time_tick = 0;
        self._turn_back_index = 0;
        self._is_over_cost = false;
        self._over_cost_count_in_one_term = 0;
        self._gen_count_in_one_term = 0;
        self._term_index = 0;
        proof {
            self.issued@ = Seq::empty();
            lemma_pow2_strictly_increases((63 - self.shift_width()) as nat, 61);
            lemma2_to64_rest();
        }
        Ok(())
    }

    /// Validates a configuration against the wall clock and, when it is
    /// admissible, adopts it; see `set_options_at` for the exact decision.
    /// Success is owed whenever the structural constraints hold and the
    /// clock has no say - that is, for a base time of zero; a non-zero base
    /// time additionally needs the clock not to sit before it.
    pub fn set_options(&mut self, options: IdGeneratorOptions) -> (r: Result<(), AppError>)
        ensures
            r is Err ==> *final(self) == *old(self),
            r is Ok ==> final(self).wf() && final(self).freshly_configured(options),
            !options_static_ok(options) ==> r is Err,
            options.base_time != 0 && options.base_time < 631123200000i64 ==> r is Err,
            options_static_ok(options) && options.base_time == 0 ==> r is Ok,
            r is Ok ==> r == Ok::<(), AppError>(()),
            r is Err ==> r == Err::<(), AppError>(AppError { kind: ErrorKind::Configuration }),
    {
        let now = now_millis();
        self.set_options_at(options, now)
    }

    /// A generator configured per `options`; an inadmissible configuration
    /// is a startup error.  As for `set_options`, success is owed for every
    /// structurally valid configuration whose base time is zero.
    pub fn new(options: IdGeneratorOptions) -> (r: Result<SnowWorkerM1, AppError>)
        ensures
            r is Ok ==> r->Ok_0.wf() && r->Ok_0.freshly_configured(options),
            !options_static_ok(options) ==> r is Err,
            options.base_time != 0 && options.base_time < 631123200000i64 ==> r is Err,
            options_static_ok(options) && options.base_time == 0 ==> r is Ok,
    {
        let mut worker = SnowWorkerM1::default();
        match worker.set_options(options) {
            Ok(()) => Ok(worker),
            Err(e) => Err(e),
        }
    }

    /// Uniqueness: a well-formed generator has never recorded the same
    /// identifier twice, across normal, over-cost and turn-back issues alike.
    pub proof fn lemma_issued_ids_distinct(self)
        requires
            self.wf(),
        ensures
            self.issued_ids().len() == self.issued_log().len(),
            forall|i: int, j: int|
                0 <= i < j < self.issued_ids().len() ==> self.issued_ids()[i]
                    != self.issued_ids()[j],
    {
        assert forall|i: int, j: int|
            0 <= i < j < self.issued_ids().len() implies self.issued_ids()[i]
            != self.issued_ids()[j] by {
            let p1 = self.issued_log()[i];
            let p2 = self.issued_log()[j];
            assert(self.entry_ok(p1.0, p1.1));
            assert(self.entry_ok(p2.0, p2.1));
            assert(p1 != p2);
            if self.pack(p1.0, p1.1) == self.pack(p2.0, p2.1) {
                self.lemma_pack_injective(p1.0, p1.1, p2.0, p2.1);
            }
        }
    }
}

} // verus!
