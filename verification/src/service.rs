//! The create/resolve protocol: deduplicated allocation of a short code per
//! unique URL, and resolution of a code back to its URL, over the store and
//! cache models with the identifier generator.

use vstd::prelude::*;

use crate::cache::LinkCache;
use crate::codec::{all_digits, decode62, decode_base62, encode62, encode_base62, last_invalid};
use crate::errors::{AppError, ErrorKind};
use crate::generator::YitIdHelper;
use crate::hashing::calculate_sha256;
use crate::pojo::{LinkHistory, LinkListResponse, Pagination};
use crate::pojo::LinkHistoryResponse;
use crate::seq_find::{count_matching, first_match, lemma_count_matching_one, lemma_first_match};
use crate::store::{hash_of_url, p_active, p_active_hash, p_hash, page_of, LinkStore};

verus! {

/// The forward cache can serve creation for this hash: it holds the hash,
/// with a value a stored identifier can take.
pub open spec fn cache_serves(c: LinkCache, h: Seq<char>) -> bool {
    c.fwd().contains_key(h) && c.fwd()[h] >= 0
}

/// What creation leaves behind, for hash `h` of the requested URL `url`:
/// a forward cache hit is served as is; otherwise an existing active record
/// is served and both cache families are populated for it; otherwise a new
/// record is inserted, with a freshly generated identifier, before the
/// caches are populated and the identifier returned.
pub open spec fn create_post(
    s0: LinkStore,
    c0: LinkCache,
    s1: LinkStore,
    c1: LinkCache,
    url: Seq<char>,
    r: Result<u64, AppError>,
) -> bool {
    let h = hash_of_url(url);
    let fm = first_match(s0.records@, p_active_hash(h));
    &&& s1.wf()
    &&& (r is Ok ==> r->Ok_0 <= i64::MAX && c1.fwd().contains_key(h) && c1.fwd()[h]
        == r->Ok_0 as i64)
    &&& (cache_serves(c0, h) ==> r == Ok::<u64, AppError>(c0.fwd()[h] as u64) && s1 == s0 && c1
        == c0)
    &&& (!cache_serves(c0, h) && fm >= 0 ==> {
        let rec = s0.records@[fm];
        &&& r == Ok::<u64, AppError>(rec.id as u64)
        &&& s1 == s0
        &&& c1.fwd() == c0.fwd().insert(h, rec.id)
        &&& c1.rev() == c0.rev().insert(rec.id, url)
    })
    &&& (!cache_serves(c0, h) && fm < 0 ==> {
        &&& (r is Err ==> s1 == s0 && c1 == c0 && (r->Err_0.kind == ErrorKind::Configuration
            || r->Err_0.kind == ErrorKind::Transient))
        &&& (r is Ok ==> {
            let id = r->Ok_0 as i64;
            &&& first_match(s0.records@, p_hash(h)) < 0
            &&& s1.records@.len() == s0.records@.len() + 1
            &&& s1.records@.drop_last() == s0.records@
            &&& s1.records@.last().id == id
            &&& s1.records@.last().origin_url@ == url
            &&& s1.records@.last().link_hash@ == h
            &&& s1.records@.last().active
            &&& s1.records@.last().link_type == Some(1i32)
            &&& s1.records@.last().expire_date is None
            &&& c1.fwd() == c0.fwd().insert(h, id)
            &&& c1.rev() == c0.rev().insert(id, url)
        })
    })
}

/// Populates both cache families for a record: the forward entry under the
/// content hash and the reverse entry under the identifier.
pub fn set_cache(cache: &mut LinkCache, key: &str, id: i64, origin_link: &str)
    ensures
        final(cache).fwd() == old(cache).fwd().insert(key@, id),
        final(cache).rev() == old(cache).rev().insert(id, origin_link@),
{
    cache.fwd_set(key, id);
    cache.rev_set(id, origin_link);
}

/// Returns the identifier for a URL: from the forward cache when present,
/// else from the store's active record for the URL's hash, else by
/// allocating a fresh identifier and persisting a new record; the store is
/// written before the identifier is returned, and the caches after.
pub fn query_and_create(
    cache: &mut LinkCache,
    store: &mut LinkStore,
    idgen: &mut YitIdHelper,
    origin_link: String,
) -> (r: Result<u64, AppError>)
    requires
        old(store).wf(),
        old(idgen).generator.worker.wf(),
    ensures
        create_post(*old(store), *old(cache), *final(store), *final(cache), origin_link@, r),
        (final(idgen).generator.worker.turn_back_round() == old(
            idgen,
        ).generator.worker.turn_back_round() || old(idgen).generator.worker.tb_next_fresh())
            ==> final(idgen).generator.worker.wf(),
        (cache_serves(*old(cache), hash_of_url(origin_link@)) || first_match(
            old(store).records@,
            p_active_hash(hash_of_url(origin_link@)),
        ) >= 0) ==> *final(idgen) == *old(idgen),
        (!cache_serves(*old(cache), hash_of_url(origin_link@)) && first_match(
            old(store).records@,
            p_active_hash(hash_of_url(origin_link@)),
        ) < 0 && r is Ok) ==> {
            &&& final(idgen).generator.worker.issued_log().len() == old(
                idgen,
            ).generator.worker.issued_log().len() + 1
            &&& r->Ok_0 == final(idgen).generator.worker.last_issued_id()
        },
{
    let link_hash = calculate_sha256(origin_link.as_str());
    let ghost h = hash_of_url(origin_link@);
    proof {
        assert(link_hash@ == h);
    }
    let cached_id: Option<i64> = cache.fwd_get(link_hash.as_str());
    let db_result: Option<LinkHistory> = store.query_by_link_hash(link_hash.as_str());

    if let Some(id) = cached_id {
        if id >= 0 {
            return Ok(id as u64);
        }
    }
    match db_result {
        Some(history) => {
            proof {
                crate::seq_find::lemma_first_match(old(store).records@, p_active_hash(h));
                let fm = first_match(old(store).records@, p_active_hash(h));
                assert(0 <= old(store).records@[fm].id <= usize::MAX);
            }
            let id = history.id;
            set_cache(cache, link_hash.as_str(), id, origin_link.as_str());
            Ok(id as u64)
        },
        None => {
            let id = match idgen.next_id() {
                Some(v) => v,
                None => {
                    return Err(AppError { kind: ErrorKind::Configuration });
                },
            };
            if (id as u64) > (usize::MAX as u64) {
                return Err(AppError { kind: ErrorKind::Transient });
            }
            let db = LinkHistory::from_url(id, origin_link.as_str(), link_hash);
            if !store.save(db) {
                return Err(AppError { kind: ErrorKind::Transient });
            }
            let key = calculate_sha256(origin_link.as_str());
            set_cache(cache, key.as_str(), id, origin_link.as_str());
            proof {
                assert(store.records@.drop_last() =~= old(store).records@);
            }
            Ok(id as u64)
        },
    }
}

/// Creates or finds the short link for a URL and returns its short code.
pub fn create_link(
    cache: &mut LinkCache,
    store: &mut LinkStore,
    idgen: &mut YitIdHelper,
    link: String,
    _duration: Option<u64>,
) -> (r: Result<String, AppError>)
    requires
        old(store).wf(),
        old(idgen).generator.worker.wf(),
    ensures
        (exists|id: Result<u64, AppError>|
            #[trigger] create_post(
                *old(store),
                *old(cache),
                *final(store),
                *final(cache),
                link@,
                id,
            ) && (id is Ok && id->Ok_0 <= usize::MAX ==> r is Ok && r->Ok_0@ == encode62(
                id->Ok_0 as nat,
            )) && (id is Err ==> r == Err::<String, AppError>(id->Err_0)) && (id is Ok
                && id->Ok_0 > usize::MAX ==> r == Err::<String, AppError>(
                AppError { kind: ErrorKind::Transient },
            ))),
        (final(idgen).generator.worker.turn_back_round() == old(
            idgen,
        ).generator.worker.turn_back_round() || old(idgen).generator.worker.tb_next_fresh())
            ==> final(idgen).generator.worker.wf(),
        (cache_serves(*old(cache), hash_of_url(link@)) || first_match(
            old(store).records@,
            p_active_hash(hash_of_url(link@)),
        ) >= 0) ==> *final(idgen) == *old(idgen),
{
    match query_and_create(cache, store, idgen, link) {
        Ok(id) => {
            if id > (usize::MAX as u64) {
                Err(AppError { kind: ErrorKind::Transient })
            } else {
                Ok(encode_base62(id as usize))
            }
        },
        Err(e) => Err(e),
    }
}

/// What resolution leaves behind, for a short code `code`: a malformed code
/// is rejected naming its offending character; a well-formed code is served
/// from the reverse cache when present, else from the store's active record,
/// populating the reverse cache if still absent; a code with no active
/// record behind it is a distinct not-found outcome.
pub open spec fn resolve_post(
    s: LinkStore,
    c0: LinkCache,
    c1: LinkCache,
    code: Seq<char>,
    r: Result<String, AppError>,
) -> bool {
    let n = decode62(code);
    let fm = first_match(s.records@, crate::store::p_active_id(n));
    &&& (!all_digits(code) ==> r == Err::<String, AppError>(
        AppError { kind: ErrorKind::InvalidCode(code[last_invalid(code)]) },
    ) && c1 == c0)
    &&& (all_digits(code) && n > usize::MAX ==> r == Err::<String, AppError>(
        AppError { kind: ErrorKind::CodeOverflow },
    ) && c1 == c0)
    &&& (all_digits(code) && n <= usize::MAX ==> {
        &&& (n > i64::MAX ==> r == Err::<String, AppError>(
            AppError { kind: ErrorKind::NotFound },
        ) && c1 == c0)
        &&& (n <= i64::MAX ==> {
            &&& (c0.rev().contains_key(n as i64) ==> r is Ok && r->Ok_0@ == c0.rev()[n as i64]
                && c1 == c0)
            &&& (!c0.rev().contains_key(n as i64) ==> {
                &&& (fm >= 0 ==> r is Ok && r->Ok_0@ == s.records@[fm].origin_url@ && c1.rev()
                    == c0.rev().insert(n as i64, s.records@[fm].origin_url@) && c1.fwd()
                    == c0.fwd())
                &&& (fm < 0 ==> r == Err::<String, AppError>(
                    AppError { kind: ErrorKind::NotFound },
                ) && c1 == c0)
            })
        })
    })
}

/// Resolves a short code to its origin URL: the code is decoded, the
/// reverse cache probed, and the store consulted on a miss, writing the
/// reverse entry back only if still absent.
pub fn query_origin_url(store: &LinkStore, cache: &mut LinkCache, link_hash: String) -> (r: Result<
    String,
    AppError,
>)
    ensures
        resolve_post(*store, *old(cache), *final(cache), link_hash@, r),
{
    let id_usize = match decode_base62(link_hash.as_str()) {
        Ok(v) => v,
        Err(e) => {
            return Err(e);
        },
    };
    let wide: u64 = id_usize as u64;
    proof {
        crate::codec::lemma_decode62_nonneg(link_hash@);
        assert(id_usize as int == decode62(link_hash@));
        assert(wide as int == decode62(link_hash@));
    }
    if wide > (i64::MAX as u64) {
        return Err(AppError { kind: ErrorKind::NotFound });
    }
    let id: i64 = wide as i64;
    let link_id_cached: Option<String> = cache.rev_get(id);
    if let Some(url) = link_id_cached {
        return Ok(url);
    }
    match store.query_by_id(id) {
        None => Err(AppError { kind: ErrorKind::NotFound }),
        Some(history) => {
            let url = history.origin_url.clone();
            let _set_result: bool = cache.rev_set_nx(id, url.as_str());
            Ok(history.origin_url)
        },
    }
}

/// One listing entry mirrors a stored record, with its short code.
pub open spec fn resp_matches(resp: LinkHistoryResponse, rec: LinkHistory) -> bool {
    &&& resp.id == rec.id
    &&& resp.origin_url@ == rec.origin_url@
    &&& resp.link_type == rec.link_type
    &&& resp.expire_date == rec.expire_date
    &&& resp.active == rec.active
    &&& resp.link_hash@ == rec.link_hash@
    &&& resp.create_time == rec.create_time
    &&& resp.update_time == rec.update_time
    &&& resp.link_code@ == encode62(rec.id as nat)
}

/// How many pages a total of `total` records fills at `size` per page.
pub open spec fn total_pages_of(total: int, size: int) -> int {
    total / size + if total % size != 0 {
        1int
    } else {
        0int
    }
}

/// Serves one page of the administrative listing: the active-record total,
/// the requested page of records (newest first) with their short codes, and
/// whether this is the last page.
#[verifier::loop_isolation(false)]
pub fn get_link_list(store: &LinkStore, pagination: Pagination) -> (r: Result<
    LinkListResponse,
    AppError,
>)
    requires
        store.wf(),
        1 <= pagination.page,
        1 <= pagination.page_size,
        pagination.page * pagination.page_size <= usize::MAX,
        store.records@.len() < usize::MAX,
        store.records@.len() <= i64::MAX,
    ensures
        r is Ok,
        ({
            let resp = r->Ok_0;
            let total = count_matching(store.records@, p_active());
            &&& resp.total == total
            &&& resp.page == pagination.page
            &&& resp.page_size == pagination.page_size
            &&& resp.last_page == (pagination.page >= total_pages_of(
                total as int,
                pagination.page_size as int,
            ))
            &&& (total == 0 ==> resp.data@.len() == 0)
            &&& (total != 0 ==> {
                let page = page_of(
                    store.records@,
                    pagination.page as int,
                    pagination.page_size as int,
                );
                resp.data@.len() == page.len() && (forall|k: int|
                    0 <= k < page.len() ==> resp_matches(#[trigger] resp.data@[k], page[k]))
            })
        }),
{
    let total = store.count_total_links();
    if total == 0 {
        return Ok(
            LinkListResponse {
                data: Vec::new(),
                page: pagination.page,
                page_size: pagination.page_size,
                total: 0,
                last_page: true,
            },
        );
    }
    let links = store.query_all_with_pagination(&pagination);
    let mut data: Vec<LinkHistoryResponse> = Vec::new();
    let n = links.len();
    let mut k: usize = 0;
    while k < n
        invariant
            k <= n == links@.len(),
            data@.len() == k,
            forall|j: int| 0 <= j < k ==> resp_matches(#[trigger] data@[j], links@[j]),
        decreases n - k,
    {
        proof {
            let lo = (pagination.page - 1) * pagination.page_size;
            let rev = store.records@.reverse();
            assert(links@[k as int] == rev[lo + k]);
            assert(rev[lo + k] == store.records@[store.records@.len() - 1 - (lo + k)]);
            assert(0 <= links@[k as int].id <= usize::MAX);
        }
        data.push(links[k].to_response());
        k = k + 1;
    }
    let t_usize: usize = total as usize;
    proof {
        crate::seq_find::lemma_count_matching_le_len(store.records@, p_active());
        assert(t_usize / pagination.page_size <= t_usize) by (nonlinear_arith)
            requires
                pagination.page_size >= 1,
                t_usize >= 0,
        ;
    }
    let total_pages: usize = t_usize / pagination.page_size + (
    if t_usize % pagination.page_size != 0 {
        1
    } else {
        0
    });
    let last_page = pagination.page >= total_pages;
    Ok(
        LinkListResponse {
            data,
            page: pagination.page,
            page_size: pagination.page_size,
            total,
            last_page,
        },
    )
}

/// Idempotent creation: two creations of the same URL, one after the other,
/// return the same identifier, and exactly one active record for the URL's
/// hash stands in the store afterwards.  The first creation is taken to run
/// against a forward cache that does not yet serve the hash; a creation
/// served purely from the cache leaves the store untouched by design and
/// says nothing new about it.
pub proof fn lemma_idempotent_creation(
    s0: LinkStore,
    c0: LinkCache,
    s1: LinkStore,
    c1: LinkCache,
    s2: LinkStore,
    c2: LinkCache,
    url: Seq<char>,
    r1: Result<u64, AppError>,
    r2: Result<u64, AppError>,
)
    requires
        s0.wf(),
        !cache_serves(c0, hash_of_url(url)),
        create_post(s0, c0, s1, c1, url, r1),
        create_post(s1, c1, s2, c2, url, r2),
        r1 is Ok,
    ensures
        r2 == r1,
        s2 == s1,
        count_matching(s2.records@, p_active_hash(hash_of_url(url))) == 1,
{
    let h = hash_of_url(url);
    let id = r1->Ok_0;
    assert(c1.fwd().contains_key(h) && c1.fwd()[h] == id as i64);
    assert(cache_serves(c1, h));
    assert(r2 == Ok::<u64, AppError>(c1.fwd()[h] as u64));
    assert(r2 == r1);
    let fm = first_match(s0.records@, p_active_hash(h));
    lemma_first_match(s0.records@, p_active_hash(h));
    if fm >= 0 {
        assert(s1 == s0);
        assert(p_active_hash(h)(s0.records@[fm]));
        assert forall|j: int|
            0 <= j < s0.records@.len() && j != fm implies !p_active_hash(h)(
            #[trigger] s0.records@[j],
        ) by {
            if s0.records@[j].link_hash@ == h {
                if j < fm {
                    assert(s0.records@[j].link_hash@ != s0.records@[fm].link_hash@);
                } else {
                    assert(s0.records@[fm].link_hash@ != s0.records@[j].link_hash@);
                }
            }
        }
        lemma_count_matching_one(s0.records@, p_active_hash(h), fm);
    } else {
        assert(s1.records@.last().link_hash@ == h && s1.records@.last().active);
        assert(p_active_hash(h)(s1.records@[s1.records@.len() - 1]));
        assert forall|j: int|
            0 <= j < s1.records@.len() && j != s1.records@.len() - 1 implies !p_active_hash(h)(
            #[trigger] s1.records@[j],
        ) by {
            assert(s1.records@[j] == s0.records@[j]);
            assert(!p_active_hash(h)(s0.records@[j]));
        }
        lemma_count_matching_one(s1.records@, p_active_hash(h), s1.records@.len() - 1);
    }
}

/// Cache coherence, fast path: right after a creation that was not served
/// from the forward cache, resolving the returned identifier's short code
/// is served from the reverse cache and yields the original URL.
pub proof fn lemma_cache_coherence(
    s0: LinkStore,
    c0: LinkCache,
    s1: LinkStore,
    c1: LinkCache,
    url: Seq<char>,
    r1: Result<u64, AppError>,
    code: Seq<char>,
    c2: LinkCache,
    r2: Result<String, AppError>,
)
    requires
        s0.wf(),
        !cache_serves(c0, hash_of_url(url)),
        create_post(s0, c0, s1, c1, url, r1),
        r1 is Ok,
        r1->Ok_0 <= usize::MAX,
        code == encode62(r1->Ok_0 as nat),
        resolve_post(s1, c1, c2, code, r2),
    ensures
        r2 is Ok,
        r2->Ok_0@ == url,
{
    let h = hash_of_url(url);
    let id = r1->Ok_0;
    crate::codec::lemma_encode62_wf(id as nat);
    crate::codec::lemma_decode_encode(id as nat);
    assert(all_digits(code));
    assert(decode62(code) == id);
    assert(c1.rev().contains_key(id as i64) && c1.rev()[id as i64] == url);
}

/// Cache coherence, slow path: after the same creation, if the reverse
/// cache entry for the identifier has been evicted, the store still serves
/// the original URL for the code.
pub proof fn lemma_resolve_after_eviction(
    s0: LinkStore,
    c0: LinkCache,
    s1: LinkStore,
    c1: LinkCache,
    url: Seq<char>,
    r1: Result<u64, AppError>,
    code: Seq<char>,
    cx: LinkCache,
    c2: LinkCache,
    r2: Result<String, AppError>,
)
    requires
        s0.wf(),
        !cache_serves(c0, hash_of_url(url)),
        create_post(s0, c0, s1, c1, url, r1),
        r1 is Ok,
        r1->Ok_0 <= usize::MAX,
        first_match(s0.records@, p_active_hash(hash_of_url(url))) >= 0 ==> s0.records@[first_match(
            s0.records@,
            p_active_hash(hash_of_url(url)),
        )].origin_url@ == url,
        code == encode62(r1->Ok_0 as nat),
        !cx.rev().contains_key(r1->Ok_0 as i64),
        resolve_post(s1, cx, c2, code, r2),
    ensures
        r2 is Ok,
        r2->Ok_0@ == url,
{
    let h = hash_of_url(url);
    let id = r1->Ok_0 as i64;
    crate::codec::lemma_encode62_wf(r1->Ok_0 as nat);
    crate::codec::lemma_decode_encode(r1->Ok_0 as nat);
    assert(all_digits(code));
    assert(decode62(code) == r1->Ok_0);
    let fmh = first_match(s0.records@, p_active_hash(h));
    lemma_first_match(s0.records@, p_active_hash(h));
    let fmi = first_match(s1.records@, crate::store::p_active_id(id as int));
    lemma_first_match(s1.records@, crate::store::p_active_id(id as int));
    if fmh >= 0 {
        assert(s1 == s0);
        assert(p_active_hash(h)(s0.records@[fmh]));
        assert(s0.records@[fmh].id == id);
        assert(crate::store::p_active_id(id as int)(s1.records@[fmh]));
        assert(fmi >= 0);
        assert(crate::store::p_active_id(id as int)(s1.records@[fmi]));
        if fmi != fmh {
            if fmi < fmh {
                assert(s1.records@[fmi].id != s1.records@[fmh].id);
            } else {
                assert(s1.records@[fmh].id != s1.records@[fmi].id);
            }
        }
        assert(r2->Ok_0@ == s1.records@[fmi].origin_url@);
    } else {
        let last = s1.records@.len() - 1;
        assert(s1.records@[last].id == id && s1.records@[last].active);
        assert(crate::store::p_active_id(id as int)(s1.records@[last]));
        assert(fmi >= 0);
        assert(crate::store::p_active_id(id as int)(s1.records@[fmi]));
        assert(s1.wf());
        if fmi != last {
            if fmi < last {
                assert(s1.records@[fmi].id != s1.records@[last].id);
            } else {
                assert(s1.records@[last].id != s1.records@[fmi].id);
            }
        }
        assert(s1.records@[fmi].origin_url@ == url);
    }
}

} // verus!
