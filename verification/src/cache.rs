//! The shared cache, modelled as the two advisory key families the service
//! keeps: the forward family from content hash to identifier, used to
//! deduplicate creation, and the reverse family from identifier to origin
//! URL, used to serve resolution.  Entries may be set, set only if absent,
//! and deleted; the boundary performs the same operations, with its key
//! prefixes and expiries, against the real cache.

use vstd::prelude::*;

verus! {

/// The map a forward entry list denotes; a later entry for a key wins.
pub open spec fn fwd_map_of(s: Seq<(String, i64)>) -> Map<Seq<char>, i64>
    decreases s.len(),
{
    if s.len() == 0 {
        Map::empty()
    } else {
        fwd_map_of(s.drop_last()).insert(s.last().0@, s.last().1)
    }
}

/// The map a reverse entry list denotes; a later entry for a key wins.
pub open spec fn rev_map_of(s: Seq<(i64, String)>) -> Map<i64, Seq<char>>
    decreases s.len(),
{
    if s.len() == 0 {
        Map::empty()
    } else {
        rev_map_of(s.drop_last()).insert(s.last().0, s.last().1@)
    }
}

/// The cache model: the two entry families.
pub struct LinkCache {
    pub forward: Vec<(String, i64)>,
    pub reverse: Vec<(i64, String)>,
}

impl LinkCache {
    /// The forward family as a map from content hash to identifier.
    pub open spec fn fwd(self) -> Map<Seq<char>, i64> {
        fwd_map_of(self.forward@)
    }

    /// The reverse family as a map from identifier to origin URL.
    pub open spec fn rev(self) -> Map<i64, Seq<char>> {
        rev_map_of(self.reverse@)
    }

    /// An empty cache.
    pub fn new() -> (r: LinkCache)
        ensures
            r.fwd() == Map::<Seq<char>, i64>::empty(),
            r.rev() == Map::<i64, Seq<char>>::empty(),
    {
        LinkCache { forward: Vec::new(), reverse: Vec::new() }
    }

    /// Looks the content hash up in the forward family.
    #[verifier::loop_isolation(false)]
    pub fn fwd_get(&self, link_hash: &str) -> (r: Option<i64>)
        ensures
            r is Some <==> self.fwd().contains_key(link_hash@),
            r is Some ==> r->0 == self.fwd()[link_hash@],
    {
        let key: String = link_hash.to_owned();
        let n = self.forward.len();
        let mut found: Option<i64> = None;
        let mut i: usize = 0;
        while i < n
            invariant
                i <= n == self.forward@.len(),
                key@ == link_hash@,
                found is Some <==> fwd_map_of(self.forward@.take(i as int)).contains_key(
                    link_hash@,
                ),
                found is Some ==> found->0 == fwd_map_of(self.forward@.take(i as int))[link_hash@],
            decreases n - i,
        {
            proof {
                assert(self.forward@.take(i + 1).drop_last() =~= self.forward@.take(i as int));
                assert(self.forward@.take(i + 1).last() == self.forward@[i as int]);
            }
            if self.forward[i].0.eq(&key) {
                found = Some(self.forward[i].1);
            }
            i = i + 1;
        }
        proof {
            assert(self.forward@.take(n as int) =~= self.forward@);
        }
        found
    }

    /// Writes the forward entry for a content hash.
    pub fn fwd_set(&mut self, link_hash: &str, id: i64)
        ensures
            final(self).fwd() == old(self).fwd().insert(link_hash@, id),
            final(self).rev() == old(self).rev(),
    {
        let key: String = link_hash.to_owned();
        self.forward.push((key, id));
        proof {
            assert(final(self).forward@.drop_last() =~= old(self).forward@);
        }
    }

    /// Looks the identifier up in the reverse family.
    #[verifier::loop_isolation(false)]
    pub fn rev_get(&self, id: i64) -> (r: Option<String>)
        ensures
            r is Some <==> self.rev().contains_key(id),
            r is Some ==> r->0@ == self.rev()[id],
    {
        let n = self.reverse.len();
        let mut found: Option<String> = None;
        let mut i: usize = 0;
        while i < n
            invariant
                i <= n == self.reverse@.len(),
                found is Some <==> rev_map_of(self.reverse@.take(i as int)).contains_key(id),
                found is Some ==> found->0@ == rev_map_of(self.reverse@.take(i as int))[id],
            decreases n - i,
        {
            proof {
                assert(self.reverse@.take(i + 1).drop_last() =~= self.reverse@.take(i as int));
                assert(self.reverse@.take(i + 1).last() == self.reverse@[i as int]);
            }
            if self.reverse[i].0 == id {
                found = Some(self.reverse[i].1.clone());
            }
            i = i + 1;
        }
        proof {
            assert(self.reverse@.take(n as int) =~= self.reverse@);
        }
        found
    }

    /// Writes the reverse entry for an identifier.
    pub fn rev_set(&mut self, id: i64, origin_url: &str)
        ensures
            final(self).rev() == old(self).rev().insert(id, origin_url@),
            final(self).fwd() == old(self).fwd(),
    {
        let val: String = origin_url.to_owned();
        self.reverse.push((id, val));
        proof {
            assert(final(self).reverse@.drop_last() =~= old(self).reverse@);
        }
    }

    /// Writes the reverse entry only when the identifier has none, so a
    /// resolve that lost a race against an eviction cannot resurrect the
    /// evicted entry; reports whether it wrote.
    pub fn rev_set_nx(&mut self, id: i64, origin_url: &str) -> (r: bool)
        ensures
            r == !old(self).rev().contains_key(id),
            r ==> final(self).rev() == old(self).rev().insert(id, origin_url@),
            !r ==> *final(self) == *old(self),
            final(self).fwd() == old(self).fwd(),
    {
        match self.rev_get(id) {
            Some(_) => false,
            None => {
                self.rev_set(id, origin_url);
                true
            },
        }
    }

    /// Deletes the forward entry for a content hash, if any.
    #[verifier::loop_isolation(false)]
    pub fn fwd_del(&mut self, link_hash: &str)
        ensures
            final(self).fwd() == old(self).fwd().remove(link_hash@),
            final(self).rev() == old(self).rev(),
    {
        let key: String = link_hash.to_owned();
        let n = self.forward.len();
        let mut out: Vec<(String, i64)> = Vec::new();
        let mut i: usize = 0;
        while i < n
            invariant
                i <= n == self.forward@.len(),
                key@ == link_hash@,
                fwd_map_of(out@) == fwd_map_of(self.forward@.take(i as int)).remove(link_hash@),
            decreases n - i,
        {
            proof {
                assert(self.forward@.take(i + 1).drop_last() =~= self.forward@.take(i as int));
                assert(self.forward@.take(i + 1).last() == self.forward@[i as int]);
            }
            let keep = !self.forward[i].0.eq(&key);
            if keep {
                let ghost pre = out@;
                out.push((self.forward[i].0.clone(), self.forward[i].1));
                proof {
                    assert(out@.drop_last() =~= pre);
                    assert(fwd_map_of(out@) =~= fwd_map_of(
                        self.forward@.take(i + 1),
                    ).remove(link_hash@));
                }
            } else {
                proof {
                    assert(fwd_map_of(out@) =~= fwd_map_of(
                        self.forward@.take(i + 1),
                    ).remove(link_hash@));
                }
            }
            i = i + 1;
        }
        proof {
            assert(self.forward@.take(n as int) =~= self.forward@);
        }
        self.forward = out;
    }

    /// Deletes the reverse entry for an identifier, if any.
    #[verifier::loop_isolation(false)]
    pub fn rev_del(&mut self, id: i64)
        ensures
            final(self).rev() == old(self).rev().remove(id),
            final(self).fwd() == old(self).fwd(),
    {
        let n = self.reverse.len();
        let mut out: Vec<(i64, String)> = Vec::new();
        let mut i: usize = 0;
        while i < n
            invariant
                i <= n == self.reverse@.len(),
                rev_map_of(out@) == rev_map_of(self.reverse@.take(i as int)).remove(id),
            decreases n - i,
        {
            proof {
                assert(self.reverse@.take(i + 1).drop_last() =~= self.reverse@.take(i as int));
                assert(self.reverse@.take(i + 1).last() == self.reverse@[i as int]);
            }
            let keep = self.reverse[i].0 != id;
            if keep {
                let ghost pre = out@;
                out.push((self.reverse[i].0, self.reverse[i].1.clone()));
                proof {
                    assert(out@.drop_last() =~= pre);
                    assert(rev_map_of(out@) =~= rev_map_of(self.reverse@.take(i + 1)).remove(id));
                }
            } else {
                proof {
                    assert(rev_map_of(out@) =~= rev_map_of(self.reverse@.take(i + 1)).remove(id));
                }
            }
            i = i + 1;
        }
        proof {
            assert(self.reverse@.take(n as int) =~= self.reverse@);
        }
        self.reverse = out;
    }
}

} // verus!
