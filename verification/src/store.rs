//! The durable store, modelled as the relational table the service relies
//! on: records keyed by identifier (primary key) and by content hash
//! (unique), looked up, inserted, paged and bulk-deactivated.  The service
//! functions are verified against this model; the boundary performs the same
//! operations against the real store.

use vstd::prelude::*;

use crate::hashing::link_hash_of;
use crate::pojo::{LinkHistory, Pagination};
use crate::seq_find::{count_matching, first_match, lemma_first_match};

verus! {

/// The content hash a URL must carry in a well-formed record.
pub open spec fn hash_of_url(u: Seq<char>) -> Seq<char> {
    link_hash_of(vstd::utf8::encode_utf8(u))
}

/// Matches the active record with the given content hash.
pub open spec fn p_active_hash(h: Seq<char>) -> spec_fn(LinkHistory) -> bool {
    |r: LinkHistory| r.active && r.link_hash@ == h
}

/// Matches the active record with the given identifier.
pub open spec fn p_active_id(id: int) -> spec_fn(LinkHistory) -> bool {
    |r: LinkHistory| r.active && r.id == id
}

/// Matches any record with the given content hash.
pub open spec fn p_hash(h: Seq<char>) -> spec_fn(LinkHistory) -> bool {
    |r: LinkHistory| r.link_hash@ == h
}

/// Matches any record with the given identifier.
pub open spec fn p_id(id: int) -> spec_fn(LinkHistory) -> bool {
    |r: LinkHistory| r.id == id
}

/// Matches an active record whose expiry has passed at `now`.
pub open spec fn p_expired(now: int) -> spec_fn(LinkHistory) -> bool {
    |r: LinkHistory| r.active && r.expire_date is Some && r.expire_date->0 <= now
}

/// Matches an active record.
pub open spec fn p_active() -> spec_fn(LinkHistory) -> bool {
    |r: LinkHistory| r.active
}

impl LinkHistory {
    /// A field-by-field copy.
    pub fn duplicate(&self) -> (r: LinkHistory)
        ensures
            r == *self,
    {
        LinkHistory {
            id: self.id,
            origin_url: self.origin_url.clone(),
            link_type: self.link_type,
            expire_date: self.expire_date,
            active: self.active,
            link_hash: self.link_hash.clone(),
            create_time: self.create_time,
            update_time: self.update_time,
        }
    }
}

/// The store model: the sequence of records, in insertion order.
pub struct LinkStore {
    pub records: Vec<LinkHistory>,
}

impl LinkStore {
    /// Well-formedness of the table: identifiers are unique (primary key),
    /// content hashes are unique (the deduplication constraint), every hash
    /// is the hash of its record's URL, and identifiers are non-negative
    /// and spellable as short codes on this machine.
    pub open spec fn wf(self) -> bool {
        &&& forall|i: int, j: int|
            0 <= i < j < self.records@.len() ==> #[trigger] self.records@[i].id
                != #[trigger] self.records@[j].id
        &&& forall|i: int, j: int|
            0 <= i < j < self.records@.len() ==> #[trigger] self.records@[i].link_hash@
                != #[trigger] self.records@[j].link_hash@
        &&& forall|i: int|
            0 <= i < self.records@.len() ==> {
                &&& 0 <= #[trigger] self.records@[i].id <= usize::MAX
                &&& self.records@[i].link_hash@ == hash_of_url(self.records@[i].origin_url@)
            }
    }

    /// An empty table.
    pub fn new() -> (r: LinkStore)
        ensures
            r.wf(),
            r.records@.len() == 0,
    {
        LinkStore { records: Vec::new() }
    }

    /// Point lookup of the active record with this identifier.
    #[verifier::loop_isolation(false)]
    pub fn query_by_id(&self, id: i64) -> (r: Option<LinkHistory>)
        ensures
            first_match(self.records@, p_active_id(id as int)) < 0 ==> r is None,
            first_match(self.records@, p_active_id(id as int)) >= 0 ==> r == Some(
                self.records@[first_match(self.records@, p_active_id(id as int))],
            ),
    {
        proof {
            lemma_first_match(self.records@, p_active_id(id as int));
        }
        let n = self.records.len();
        let mut i: usize = 0;
        while i < n
            invariant
                i <= n == self.records@.len(),
                forall|j: int| 0 <= j < i ==> !p_active_id(id as int)(#[trigger] self.records@[j]),
            decreases n - i,
        {
            let hit = self.records[i].active && self.records[i].id == id;
            if hit {
                proof {
                    assert(p_active_id(id as int)(self.records@[i as int]));
                    assert(first_match(self.records@, p_active_id(id as int)) == i);
                }
                return Some(self.records[i].duplicate());
            }
            i = i + 1;
        }
        None
    }

    /// Point lookup of the active record with this content hash.
    #[verifier::loop_isolation(false)]
    pub fn query_by_link_hash(&self, link_hash: &str) -> (r: Option<LinkHistory>)
        ensures
            first_match(self.records@, p_active_hash(link_hash@)) < 0 ==> r is None,
            first_match(self.records@, p_active_hash(link_hash@)) >= 0 ==> r == Some(
                self.records@[first_match(self.records@, p_active_hash(link_hash@))],
            ),
    {
        proof {
            lemma_first_match(self.records@, p_active_hash(link_hash@));
        }
        let key: String = link_hash.to_owned();
        let n = self.records.len();
        let mut i: usize = 0;
        while i < n
            invariant
                i <= n == self.records@.len(),
                key@ == link_hash@,
                forall|j: int|
                    0 <= j < i ==> !p_active_hash(link_hash@)(#[trigger] self.records@[j]),
            decreases n - i,
        {
            let hit = self.records[i].active && self.records[i].link_hash.eq(&key);
            if hit {
                proof {
                    assert(p_active_hash(link_hash@)(self.records@[i as int]));
                    assert(first_match(self.records@, p_active_hash(link_hash@)) == i);
                }
                return Some(self.records[i].duplicate());
            }
            i = i + 1;
        }
        None
    }

    /// Inserts a record; the uniqueness constraints on identifier and hash
    /// make the insert fail, leaving the table unchanged, when either is
    /// already present.
    #[verifier::loop_isolation(false)]
    pub fn save(&mut self, link_history: LinkHistory) -> (r: bool)
        requires
            old(self).wf(),
            0 <= link_history.id <= usize::MAX,
            link_history.link_hash@ == hash_of_url(link_history.origin_url@),
        ensures
            final(self).wf(),
            r == (first_match(old(self).records@, p_id(link_history.id as int)) < 0 && first_match(
                old(self).records@,
                p_hash(link_history.link_hash@),
            ) < 0),
            r ==> final(self).records@ == old(self).records@.push(link_history),
            !r ==> *final(self) == *old(self),
    {
        proof {
            lemma_first_match(self.records@, p_id(link_history.id as int));
            lemma_first_match(self.records@, p_hash(link_history.link_hash@));
        }
        let n = self.records.len();
        let mut i: usize = 0;
        while i < n
            invariant
                i <= n == self.records@.len(),
                forall|j: int|
                    0 <= j < i ==> !p_id(link_history.id as int)(#[trigger] self.records@[j]),
                forall|j: int|
                    0 <= j < i ==> !p_hash(link_history.link_hash@)(#[trigger] self.records@[j]),
            decreases n - i,
        {
            let clash = self.records[i].id == link_history.id || self.records[i].link_hash.eq(
                &link_history.link_hash,
            );
            if clash {
                proof {
                    assert(p_id(link_history.id as int)(self.records@[i as int]) || p_hash(
                        link_history.link_hash@,
                    )(self.records@[i as int]));
                    if self.records@[i as int].id == link_history.id {
                        assert(first_match(self.records@, p_id(link_history.id as int)) >= 0);
                    } else {
                        assert(first_match(self.records@, p_hash(link_history.link_hash@)) >= 0);
                    }
                }
                return false;
            }
            i = i + 1;
        }
        self.records.push(link_history);
        proof {
            assert forall|a: int, b: int|
                0 <= a < b < self.records@.len() implies #[trigger] self.records@[a].id
                != #[trigger] self.records@[b].id by {
                if b == self.records@.len() - 1 {
                    assert(!p_id(link_history.id as int)(old(self).records@[a]));
                }
            }
            assert forall|a: int, b: int|
                0 <= a < b < self.records@.len() implies #[trigger] self.records@[a].link_hash@
                != #[trigger] self.records@[b].link_hash@ by {
                if b == self.records@.len() - 1 {
                    assert(!p_hash(link_history.link_hash@)(old(self).records@[a]));
                }
            }
        }
        true
    }

    /// Every record that has expired by `now`.
    #[verifier::loop_isolation(false)]
    pub fn query_expired_links(&self, now: i64) -> (r: Vec<LinkHistory>)
        ensures
            r@ == self.records@.filter(p_expired(now as int)),
    {
        let n = self.records.len();
        let mut out: Vec<LinkHistory> = Vec::new();
        let mut i: usize = 0;
        while i < n
            invariant
                i <= n == self.records@.len(),
                out@ == self.records@.take(i as int).filter(p_expired(now as int)),
            decreases n - i,
        {
            let hit = self.records[i].active && match self.records[i].expire_date {
                Some(t) => t <= now,
                None => false,
            };
            proof {
                reveal(Seq::filter);
                assert(self.records@.take(i + 1).drop_last() =~= self.records@.take(i as int));
                assert(self.records@.take(i + 1).last() == self.records@[i as int]);
            }
            if hit {
                out.push(self.records[i].duplicate());
            }
            i = i + 1;
        }
        proof {
            assert(self.records@.take(n as int) =~= self.records@);
        }
        out
    }

    /// Marks every listed identifier inactive, in one bulk update; returns
    /// how many records changed from active to inactive.
    #[verifier::loop_isolation(false)]
    pub fn mark_links_as_inactive(&mut self, ids: &Vec<i64>) -> (affected: usize)
        requires
            old(self).wf(),
        ensures
            final(self).wf(),
            final(self).records@.len() == old(self).records@.len(),
            forall|k: int|
                0 <= k < old(self).records@.len() ==> #[trigger] final(self).records@[k] == (if old(
                    self,
                ).records@[k].active && ids@.contains(old(self).records@[k].id) {
                    deactivated(old(self).records@[k])
                } else {
                    old(self).records@[k]
                }),
            affected == count_matching(
                old(self).records@,
                p_deactivating(ids@),
            ),
    {
        let n = self.records.len();
        let mut out: Vec<LinkHistory> = Vec::new();
        let mut affected: usize = 0;
        let mut i: usize = 0;
        while i < n
            invariant
                i <= n == self.records@.len(),
                out@.len() == i,
                affected == count_matching(self.records@.take(i as int), p_deactivating(ids@)),
                affected <= i,
                forall|k: int|
                    0 <= k < i ==> #[trigger] out@[k] == (if self.records@[k].active
                        && ids@.contains(self.records@[k].id) {
                        deactivated(self.records@[k])
                    } else {
                        self.records@[k]
                    }),
            decreases n - i,
        {
            proof {
                assert(self.records@.take(i + 1).drop_last() =~= self.records@.take(i as int));
                assert(self.records@.take(i + 1).last() == self.records@[i as int]);
            }
            let r = self.records[i].duplicate();
            let listed = contains_id(ids, r.id);
            if r.active && listed {
                affected = affected + 1;
                out.push(LinkHistory { active: false, ..r });
            } else {
                out.push(r);
            }
            i = i + 1;
        }
        proof {
            assert(self.records@.take(n as int) =~= self.records@);
        }
        self.records = out;
        proof {
            assert forall|a: int, b: int|
                0 <= a < b < self.records@.len() implies #[trigger] self.records@[a].id
                != #[trigger] self.records@[b].id by {
                assert(old(self).records@[a].id != old(self).records@[b].id);
            }
            assert forall|a: int, b: int|
                0 <= a < b < self.records@.len() implies #[trigger] self.records@[a].link_hash@
                != #[trigger] self.records@[b].link_hash@ by {
                assert(old(self).records@[a].link_hash@ != old(self).records@[b].link_hash@);
            }
            assert forall|a: int|
                0 <= a < self.records@.len() implies 0 <= #[trigger] self.records@[a].id
                <= usize::MAX && self.records@[a].link_hash@ == hash_of_url(
                self.records@[a].origin_url@,
            ) by {
                assert(0 <= old(self).records@[a].id <= usize::MAX);
                assert(old(self).records@[a].link_hash@ == hash_of_url(
                    old(self).records@[a].origin_url@,
                ));
            }
        }
        affected
    }

    /// One page of records, newest first, as the administrative listing
    /// serves them.
    #[verifier::loop_isolation(false)]
    pub fn query_all_with_pagination(&self, pagination: &Pagination) -> (r: Vec<LinkHistory>)
        requires
            1 <= pagination.page,
            1 <= pagination.page_size,
            pagination.page * pagination.page_size <= usize::MAX,
        ensures
            r@ == page_of(self.records@, pagination.page as int, pagination.page_size as int),
    {
        proof {
            assert((pagination.page - 1) * pagination.page_size + pagination.page_size
                == pagination.page * pagination.page_size) by (nonlinear_arith);
        }
        let offset: usize = (pagination.page - 1) * pagination.page_size;
        let limit: usize = pagination.page_size;
        let n = self.records.len();
        let mut out: Vec<LinkHistory> = Vec::new();
        let mut taken: usize = 0;
        while taken < limit && offset + taken < n
            invariant
                n == self.records@.len(),
                offset == (pagination.page - 1) * pagination.page_size,
                limit == pagination.page_size,
                offset + taken <= n || taken == 0,
                taken <= limit,
                out@.len() == taken,
                forall|k: int|
                    0 <= k < taken ==> #[trigger] out@[k] == self.records@[n - 1 - offset - k],
            decreases limit - taken,
        {
            let idx = n - 1 - offset - taken;
            out.push(self.records[idx].duplicate());
            taken = taken + 1;
        }
        proof {
            assert(out@ =~= page_of(
                self.records@,
                pagination.page as int,
                pagination.page_size as int,
            ));
        }
        out
    }

    /// How many records are active.
    #[verifier::loop_isolation(false)]
    pub fn count_total_links(&self) -> (r: i64)
        requires
            self.records@.len() <= i64::MAX,
        ensures
            r == count_matching(self.records@, p_active()),
    {
        let n = self.records.len();
        let mut count: usize = 0;
        let mut i: usize = 0;
        while i < n
            invariant
                i <= n == self.records@.len(),
                count == count_matching(self.records@.take(i as int), p_active()),
                count <= i,
            decreases n - i,
        {
            proof {
                assert(self.records@.take(i + 1).drop_last() =~= self.records@.take(i as int));
                assert(self.records@.take(i + 1).last() == self.records@[i as int]);
            }
            if self.records[i].active {
                count = count + 1;
            }
            i = i + 1;
        }
        proof {
            assert(self.records@.take(n as int) =~= self.records@);
        }
        count as i64
    }
}

/// The record with its active flag cleared.
pub open spec fn deactivated(r: LinkHistory) -> LinkHistory {
    LinkHistory { active: false, ..r }
}

/// Matches an active record whose identifier is listed.
pub open spec fn p_deactivating(ids: Seq<i64>) -> spec_fn(LinkHistory) -> bool {
    |r: LinkHistory| r.active && ids.contains(r.id)
}

/// The page served for 1-based page `page` of size `size`: records in
/// reverse insertion order, skipping `(page - 1) * size` and taking `size`.
pub open spec fn page_of(s: Seq<LinkHistory>, page: int, size: int) -> Seq<LinkHistory> {
    let rev = s.reverse();
    let lo = if (page - 1) * size <= rev.len() {
        (page - 1) * size
    } else {
        rev.len() as int
    };
    let hi = if lo + size <= rev.len() {
        lo + size
    } else {
        rev.len() as int
    };
    rev.subrange(lo, hi)
}

/// Whether the list holds the identifier.
#[verifier::loop_isolation(false)]
pub fn contains_id(ids: &Vec<i64>, id: i64) -> (r: bool)
    ensures
        r == ids@.contains(id),
{
    let n = ids.len();
    let mut i: usize = 0;
    while i < n
        invariant
            i <= n == ids@.len(),
            forall|j: int| 0 <= j < i ==> ids@[j] != id,
        decreases n - i,
    {
        if ids[i] == id {
            return true;
        }
        i = i + 1;
    }
    false
}

} // verus!
