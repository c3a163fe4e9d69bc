//! The cleanup cycle: finds expired records, retires them in bounded
//! batches (a bulk deactivation followed by eviction of both cache families
//! for the batch), updates the health statistics, and coordinates across
//! instances with a lease-style lock.

use vstd::prelude::*;
use vstd::seq_lib::group_filter_ensures;

use crate::cache::LinkCache;
use crate::pojo::LinkHistory;
use crate::store::{deactivated, p_expired, LinkStore};
use crate::types::CleanupStats;

verus! {

broadcast use group_filter_ensures;

/// Some record expired at `now` carries this content hash.
pub open spec fn expired_hash(s: Seq<LinkHistory>, now: int, h: Seq<char>) -> bool {
    exists|k: int| 0 <= k < s.len() && p_expired(now)(#[trigger] s[k]) && s[k].link_hash@ == h
}

/// Some record expired at `now` carries this identifier.
pub open spec fn expired_id(s: Seq<LinkHistory>, now: int, id: i64) -> bool {
    exists|k: int| 0 <= k < s.len() && p_expired(now)(#[trigger] s[k]) && s[k].id == id
}

/// One more, held at the ceiling instead of wrapping.
pub open spec fn sat_inc(x: u64) -> u64 {
    if x < u64::MAX {
        (x + 1) as u64
    } else {
        x
    }
}

/// A sum, held at the ceiling instead of wrapping.
pub open spec fn sat_add(x: u64, y: u64) -> u64 {
    if x + y <= u64::MAX {
        (x + y) as u64
    } else {
        u64::MAX
    }
}

/// What one cleanup cycle leaves behind: exactly the records expired at
/// `now` are deactivated and their cache entries of both families are gone;
/// nothing else changes; the count reports how many were retired; and the
/// statistics record every completed cycle - its time, its count (possibly
/// zero), and the cumulative totals - so a cycle that found nothing still
/// reads as a run, while store and cache stay untouched.
pub open spec fn cleanup_post(
    s0: LinkStore,
    c0: LinkCache,
    st0: CleanupStats,
    s1: LinkStore,
    c1: LinkCache,
    st1: CleanupStats,
    now: int,
    r: usize,
) -> bool {
    &&& s1.wf()
    &&& r == s0.records@.filter(p_expired(now)).len()
    &&& s1.records@.len() == s0.records@.len()
    &&& (forall|k: int|
        0 <= k < s0.records@.len() ==> #[trigger] s1.records@[k] == (if p_expired(now)(
            s0.records@[k],
        ) {
            deactivated(s0.records@[k])
        } else {
            s0.records@[k]
        }))
    &&& (forall|h: Seq<char>|
        #[trigger] c1.fwd().contains_key(h) <==> (c0.fwd().contains_key(h) && !expired_hash(
            s0.records@,
            now,
            h,
        )))
    &&& (forall|h: Seq<char>|
        c1.fwd().contains_key(h) ==> #[trigger] c1.fwd()[h] == c0.fwd()[h])
    &&& (forall|id: i64|
        #[trigger] c1.rev().contains_key(id) <==> (c0.rev().contains_key(id) && !expired_id(
            s0.records@,
            now,
            id,
        )))
    &&& (forall|id: i64|
        c1.rev().contains_key(id) ==> #[trigger] c1.rev()[id] == c0.rev()[id])
    &&& (r == 0 ==> s1 == s0 && c1 == c0)
    &&& st1 == (CleanupStats {
        last_cleanup_time: Some(now as i64),
        last_cleanup_count: r,
        total_cleanup_runs: sat_inc(st0.total_cleanup_runs),
        total_cleaned: sat_add(st0.total_cleaned, r as u64),
    })
}

/// Some of the first `p` retirement candidates carries this identifier.
pub open spec fn id_in_prefix(e: Seq<LinkHistory>, p: int, id: i64) -> bool {
    exists|j: int| 0 <= j < p && #[trigger] e[j].id == id
}

/// Some of the first `p` retirement candidates carries this content hash.
pub open spec fn hash_in_prefix(e: Seq<LinkHistory>, p: int, h: Seq<char>) -> bool {
    exists|j: int| 0 <= j < p && #[trigger] e[j].link_hash@ == h
}

/// Ties the expired-record filter of a table with unique identifiers back
/// to the table: an identifier, a hash, or a record is among the candidates
/// exactly when the table holds it expired.
proof fn lemma_expired_glue(s0: LinkStore, now: int)
    requires
        s0.wf(),
    ensures
        ({
            let s = s0.records@;
            let e = s.filter(p_expired(now));
            &&& (forall|id: i64|
                #[trigger] id_in_prefix(e, e.len() as int, id) <==> expired_id(s, now, id))
            &&& (forall|h: Seq<char>|
                #[trigger] hash_in_prefix(e, e.len() as int, h) <==> expired_hash(s, now, h))
            &&& (forall|k: int|
                0 <= k < s.len() ==> ((s[k].active && id_in_prefix(
                    e,
                    e.len() as int,
                    #[trigger] s[k].id,
                )) <==> p_expired(now)(s[k])))
        }),
{
    let s = s0.records@;
    let e = s.filter(p_expired(now));
    crate::seq_find::lemma_filter_elem(s, p_expired(now));
    assert forall|id: i64|
        #[trigger] id_in_prefix(e, e.len() as int, id) implies expired_id(s, now, id) by {
        let j = choose|j: int| 0 <= j < e.len() && #[trigger] e[j].id == id;
        assert(p_expired(now)(e[j]));
        assert(s.contains(e[j]));
        let k = choose|k: int| 0 <= k < s.len() && s[k] == e[j];
        assert(p_expired(now)(s[k]) && s[k].id == id);
    }
    assert forall|id: i64|
        expired_id(s, now, id) implies #[trigger] id_in_prefix(e, e.len() as int, id) by {
        let k = choose|k: int| 0 <= k < s.len() && p_expired(now)(#[trigger] s[k]) && s[k].id
            == id;
        assert(e.contains(s[k]));
        let j = choose|j: int| 0 <= j < e.len() && e[j] == s[k];
        assert(e[j].id == id);
    }
    assert forall|h: Seq<char>|
        #[trigger] hash_in_prefix(e, e.len() as int, h) implies expired_hash(s, now, h) by {
        let j = choose|j: int| 0 <= j < e.len() && #[trigger] e[j].link_hash@ == h;
        assert(p_expired(now)(e[j]));
        assert(s.contains(e[j]));
        let k = choose|k: int| 0 <= k < s.len() && s[k] == e[j];
        assert(p_expired(now)(s[k]) && s[k].link_hash@ == h);
    }
    assert forall|h: Seq<char>|
        expired_hash(s, now, h) implies #[trigger] hash_in_prefix(e, e.len() as int, h) by {
        let k = choose|k: int| 0 <= k < s.len() && p_expired(now)(#[trigger] s[k])
            && s[k].link_hash@ == h;
        assert(e.contains(s[k]));
        let j = choose|j: int| 0 <= j < e.len() && e[j] == s[k];
        assert(e[j].link_hash@ == h);
    }
    assert forall|k: int|
        0 <= k < s.len() && s[k].active && id_in_prefix(
            e,
            e.len() as int,
            #[trigger] s[k].id,
        ) implies p_expired(now)(s[k]) by {
        let j = choose|j: int| 0 <= j < e.len() && #[trigger] e[j].id == s[k].id;
        assert(p_expired(now)(e[j]));
        assert(s.contains(e[j]));
        let k2 = choose|k2: int| 0 <= k2 < s.len() && s[k2] == e[j];
        if k2 != k {
            assert(s[k2].id != s[k].id);
        }
        assert(s[k2] == s[k]);
    }
    assert forall|k: int|
        0 <= k < s.len() && p_expired(now)(s[k]) implies (s[k].active && id_in_prefix(
            e,
            e.len() as int,
            #[trigger] s[k].id,
        )) by {
        assert(e.contains(s[k]));
        let j = choose|j: int| 0 <= j < e.len() && e[j] == s[k];
        assert(e[j].id == s[k].id);
    }
}

/// Runs one cleanup cycle: queries the expired records, retires them in
/// batches of `batch_size` (bulk deactivation, then eviction of both cache
/// families for the batch), and records the completed cycle in the
/// statistics, a cycle that found nothing expired included.
#[verifier::loop_isolation(false)]
pub fn cleanup_expired_links_internal(
    store: &mut LinkStore,
    cache: &mut LinkCache,
    stats: &mut CleanupStats,
    now: i64,
    batch_size: usize,
) -> (r: usize)
    requires
        old(store).wf(),
        1 <= batch_size,
    ensures
        cleanup_post(
            *old(store),
            *old(cache),
            *old(stats),
            *final(store),
            *final(cache),
            *final(stats),
            now as int,
            r,
        ),
{
    let ghost s = old(store).records@;
    let ghost e = s.filter(p_expired(now as int));
    proof {
        lemma_expired_glue(*old(store), now as int);
        s.lemma_filter_len(p_expired(now as int));
    }
    let expired_links = store.query_expired_links(now);
    let total_count = expired_links.len();
    if total_count == 0 {
        proof {
            assert forall|h: Seq<char>| !expired_hash(s, now as int, h) by {
                assert(!hash_in_prefix(e, e.len() as int, h));
            }
            assert forall|id: i64| !expired_id(s, now as int, id) by {
                assert(!id_in_prefix(e, e.len() as int, id));
            }
        }
        stats.last_cleanup_time = Some(now);
        stats.last_cleanup_count = 0;
        stats.total_cleanup_runs = if stats.total_cleanup_runs < u64::MAX {
            stats.total_cleanup_runs + 1
        } else {
            stats.total_cleanup_runs
        };
        return 0;
    }
    let mut total_cleaned: usize = 0;
    let mut start: usize = 0;
    while start < total_count
        invariant
            start <= total_count == e.len(),
            expired_links@ == e,
            total_cleaned == start,
            store.wf(),
            store.records@.len() == s.len(),
            forall|k: int|
                0 <= k < s.len() ==> #[trigger] store.records@[k] == (if s[k].active
                    && id_in_prefix(e, start as int, s[k].id) {
                    deactivated(s[k])
                } else {
                    s[k]
                }),
            forall|h: Seq<char>|
                #[trigger] cache.fwd().contains_key(h) <==> (old(cache).fwd().contains_key(h)
                    && !hash_in_prefix(e, start as int, h)),
            forall|h: Seq<char>|
                cache.fwd().contains_key(h) ==> #[trigger] cache.fwd()[h] == old(cache).fwd()[h],
            forall|id: i64|
                #[trigger] cache.rev().contains_key(id) <==> (old(cache).rev().contains_key(id)
                    && !id_in_prefix(e, start as int, id)),
            forall|id: i64|
                cache.rev().contains_key(id) ==> #[trigger] cache.rev()[id] == old(
                    cache,
                ).rev()[id],
            *stats == *old(stats),
        decreases total_count - start,
    {
        let fin: usize = if total_count - start > batch_size {
            start + batch_size
        } else {
            total_count
        };
        let mut ids: Vec<i64> = Vec::new();
        let mut j: usize = start;
        while j < fin
            invariant
                start <= j <= fin <= e.len(),
                ids@.len() == j - start,
                forall|m: int| 0 <= m < ids@.len() ==> #[trigger] ids@[m] == e[start + m].id,
            decreases fin - j,
        {
            ids.push(expired_links[j].id);
            j = j + 1;
        }
        let ghost pre = store.records@;
        let _affected = store.mark_links_as_inactive(&ids);
        proof {
            assert forall|k: int|
                0 <= k < s.len() implies #[trigger] store.records@[k] == (if s[k].active
                && id_in_prefix(e, fin as int, s[k].id) {
                deactivated(s[k])
            } else {
                s[k]
            }) by {
                assert(store.records@[k] == (if pre[k].active && ids@.contains(pre[k].id) {
                    deactivated(pre[k])
                } else {
                    pre[k]
                }));
                if s[k].active && id_in_prefix(e, start as int, s[k].id) {
                    assert(pre[k] == deactivated(s[k]));
                    assert(!pre[k].active);
                    assert(store.records@[k] == pre[k]);
                    assert(id_in_prefix(e, fin as int, s[k].id));
                } else {
                    assert(pre[k] == s[k]);
                    if ids@.contains(pre[k].id) {
                        let m = choose|m: int| 0 <= m < ids@.len() && ids@[m] == pre[k].id;
                        assert(e[start + m].id == s[k].id);
                        assert(id_in_prefix(e, fin as int, s[k].id));
                    } else {
                        if id_in_prefix(e, fin as int, s[k].id) && s[k].active {
                            let jj = choose|jj: int|
                                0 <= jj < fin && #[trigger] e[jj].id == s[k].id;
                            if jj < start {
                                assert(id_in_prefix(e, start as int, s[k].id));
                            } else {
                                assert(ids@[jj - start] == e[jj].id);
                                assert(ids@.contains(pre[k].id));
                            }
                        }
                    }
                }
            }
        }
        let mut j2: usize = start;
        while j2 < fin
            invariant
                start <= j2 <= fin <= e.len(),
                expired_links@ == e,
                forall|h: Seq<char>|
                    #[trigger] cache.fwd().contains_key(h) <==> (old(
                        cache,
                    ).fwd().contains_key(h) && !hash_in_prefix(e, start as int, h)
                        && !(exists|m: int|
                        start <= m < j2 && #[trigger] e[m].link_hash@ == h)),
                forall|h: Seq<char>|
                    cache.fwd().contains_key(h) ==> #[trigger] cache.fwd()[h] == old(
                        cache,
                    ).fwd()[h],
                forall|id: i64|
                    #[trigger] cache.rev().contains_key(id) <==> (old(
                        cache,
                    ).rev().contains_key(id) && !id_in_prefix(e, start as int, id) && !(
                    exists|m: int| start <= m < j2 && #[trigger] e[m].id == id)),
                forall|id: i64|
                    cache.rev().contains_key(id) ==> #[trigger] cache.rev()[id] == old(
                        cache,
                    ).rev()[id],
            decreases fin - j2,
        {
            cache.fwd_del(expired_links[j2].link_hash.as_str());
            cache.rev_del(expired_links[j2].id);
            j2 = j2 + 1;
        }
        proof {
            assert forall|h: Seq<char>|
                #[trigger] cache.fwd().contains_key(h) <==> (old(cache).fwd().contains_key(h)
                    && !hash_in_prefix(e, fin as int, h)) by {
                if hash_in_prefix(e, fin as int, h) {
                    let jj = choose|jj: int| 0 <= jj < fin && #[trigger] e[jj].link_hash@ == h;
                    if jj < start {
                        assert(hash_in_prefix(e, start as int, h));
                    }
                }
            }
            assert forall|id: i64|
                #[trigger] cache.rev().contains_key(id) <==> (old(cache).rev().contains_key(id)
                    && !id_in_prefix(e, fin as int, id)) by {
                if id_in_prefix(e, fin as int, id) {
                    let jj = choose|jj: int| 0 <= jj < fin && #[trigger] e[jj].id == id;
                    if jj < start {
                        assert(id_in_prefix(e, start as int, id));
                    }
                }
            }
        }
        total_cleaned = total_cleaned + (fin - start);
        start = fin;
    }
    stats.last_cleanup_time = Some(now);
    stats.last_cleanup_count = total_cleaned;
    stats.total_cleanup_runs = if stats.total_cleanup_runs < u64::MAX {
        stats.total_cleanup_runs + 1
    } else {
        stats.total_cleanup_runs
    };
    stats.total_cleaned = if total_cleaned as u64 <= u64::MAX - stats.total_cleaned {
        stats.total_cleaned + (total_cleaned as u64)
    } else {
        u64::MAX
    };
    total_cleaned
}

/// After a cycle at `now1`, no record is left that counts as expired at any
/// time up to `now1`.
pub proof fn lemma_cleanup_clears(
    s0: LinkStore,
    c0: LinkCache,
    st0: CleanupStats,
    s1: LinkStore,
    c1: LinkCache,
    st1: CleanupStats,
    now1: int,
    r1: usize,
    now2: int,
)
    requires
        cleanup_post(s0, c0, st0, s1, c1, st1, now1, r1),
        now2 <= now1,
    ensures
        forall|k: int| 0 <= k < s1.records@.len() ==> !p_expired(now2)(#[trigger] s1.records@[k]),
{
    assert forall|k: int|
        0 <= k < s1.records@.len() implies !p_expired(now2)(#[trigger] s1.records@[k]) by {
        assert(s1.records@[k] == (if p_expired(now1)(s0.records@[k]) {
            deactivated(s0.records@[k])
        } else {
            s0.records@[k]
        }));
        if !p_expired(now1)(s0.records@[k]) {
            if p_expired(now2)(s0.records@[k]) {
                assert(s0.records@[k].expire_date->0 <= now2 <= now1);
            }
        }
    }
}

/// Cleanup idempotence: a cycle run when nothing is expired - in
/// particular, a second cycle right after a first with no record newly
/// expired in between - retires nothing and touches neither the store nor
/// the cache; the statistics record the empty run (time, a count of zero,
/// one more completed cycle) without growing the cumulative total.
pub proof fn lemma_cleanup_idempotent(
    s1: LinkStore,
    c1: LinkCache,
    st1: CleanupStats,
    s2: LinkStore,
    c2: LinkCache,
    st2: CleanupStats,
    now2: int,
    r2: usize,
)
    requires
        forall|k: int| 0 <= k < s1.records@.len() ==> !p_expired(now2)(#[trigger] s1.records@[k]),
        cleanup_post(s1, c1, st1, s2, c2, st2, now2, r2),
    ensures
        r2 == 0,
        s2 == s1,
        c2 == c1,
        st2.last_cleanup_time == Some(now2 as i64),
        st2.last_cleanup_count == 0,
        st2.total_cleanup_runs == sat_inc(st1.total_cleanup_runs),
        st2.total_cleaned == st1.total_cleaned,
{
    crate::seq_find::lemma_filter_none(s1.records@, p_expired(now2));
}

/// One scheduled cleanup pass: when distributed locking is enabled the pass
/// runs only if the lease is free, and skips - retiring nothing and touching
/// nothing - while another instance holds it; this skip is the expected
/// outcome of two instances racing within one lease window, not an error.
pub fn cleanup_expired_links(
    lock: &mut CleanupLock,
    enable_lock: bool,
    store: &mut LinkStore,
    cache: &mut LinkCache,
    stats: &mut CleanupStats,
    now: i64,
    batch_size: usize,
) -> (r: usize)
    requires
        old(store).wf(),
        1 <= batch_size,
    ensures
        enable_lock && old(lock).locked ==> r == 0 && *final(store) == *old(store)
            && *final(cache) == *old(cache) && *final(stats) == *old(stats)
            && final(lock).locked,
        !(enable_lock && old(lock).locked) ==> cleanup_post(
            *old(store),
            *old(cache),
            *old(stats),
            *final(store),
            *final(cache),
            *final(stats),
            now as int,
            r,
        ),
        enable_lock && !old(lock).locked ==> !final(lock).locked,
        !enable_lock ==> *final(lock) == *old(lock),
{
    if enable_lock {
        if !lock.try_acquire() {
            return 0;
        }
        let cleaned = cleanup_expired_links_internal(store, cache, stats, now, batch_size);
        lock.release();
        cleaned
    } else {
        cleanup_expired_links_internal(store, cache, stats, now, batch_size)
    }
}

/// The lease-style cleanup lock: a set-if-absent token in the shared cache.
/// Its expiry is the environment's affair; here acquisition simply fails
/// while the token is held.
pub struct CleanupLock {
    pub locked: bool,
}

impl CleanupLock {
    pub fn new() -> (r: CleanupLock)
        ensures
            !r.locked,
    {
        CleanupLock { locked: false }
    }

    /// Takes the lease if nobody holds it; reports whether it was taken.
    pub fn try_acquire(&mut self) -> (r: bool)
        ensures
            r == !old(self).locked,
            final(self).locked,
    {
        if self.locked {
            false
        } else {
            self.locked = true;
            true
        }
    }

    /// Releases the lease.
    pub fn release(&mut self)
        ensures
            !final(self).locked,
    {
        self.locked = false;
    }
}

} // verus!
