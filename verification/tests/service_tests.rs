use short_link::cache::LinkCache;
use short_link::codec::decode_base62;
use short_link::errors::{AppError, ErrorKind};
use short_link::generator::YitIdHelper;
use short_link::pojo::Pagination;
use short_link::service::{create_link, get_link_list, query_and_create, query_origin_url};
use short_link::store::LinkStore;

#[test]
fn create_twice_returns_identical_codes() {
    let mut store = LinkStore::new();
    let mut cache = LinkCache::new();
    let mut idgen = YitIdHelper::new();

    let first = create_link(
        &mut cache,
        &mut store,
        &mut idgen,
        "http://a.example".to_string(),
        None,
    )
    .expect("creation succeeds");
    let second = create_link(
        &mut cache,
        &mut store,
        &mut idgen,
        "http://a.example".to_string(),
        None,
    )
    .expect("creation succeeds");
    assert_eq!(first, second);

    // exactly one record stands in the store for that URL
    assert_eq!(store.records.len(), 1);
    assert!(store.records[0].active);
    assert_eq!(store.records[0].origin_url, "http://a.example");
}

#[test]
fn create_after_cache_loss_still_deduplicates() {
    let mut store = LinkStore::new();
    let mut cache = LinkCache::new();
    let mut idgen = YitIdHelper::new();

    let first = create_link(
        &mut cache,
        &mut store,
        &mut idgen,
        "http://b.example".to_string(),
        None,
    )
    .expect("creation succeeds");

    // the advisory cache evaporates; the store still deduplicates
    let mut cold_cache = LinkCache::new();
    let second = create_link(
        &mut cold_cache,
        &mut store,
        &mut idgen,
        "http://b.example".to_string(),
        None,
    )
    .expect("creation succeeds");
    assert_eq!(first, second);
    assert_eq!(store.records.len(), 1);
}

#[test]
fn resolve_after_create_returns_original_url() {
    let mut store = LinkStore::new();
    let mut cache = LinkCache::new();
    let mut idgen = YitIdHelper::new();

    let code = create_link(
        &mut cache,
        &mut store,
        &mut idgen,
        "https://example.org/some/path?q=1".to_string(),
        None,
    )
    .expect("creation succeeds");

    // fast path: the reverse cache was populated by the creation
    let url = query_origin_url(&store, &mut cache, code.clone()).expect("resolution succeeds");
    assert_eq!(url, "https://example.org/some/path?q=1");

    // slow path: after eviction the store serves the same URL
    let id = decode_base62(&code).unwrap() as i64;
    cache.rev_del(id);
    let url = query_origin_url(&store, &mut cache, code.clone()).expect("resolution succeeds");
    assert_eq!(url, "https://example.org/some/path?q=1");

    // and the resolve wrote the reverse entry back
    let url = query_origin_url(&store, &mut cache, code).expect("resolution succeeds");
    assert_eq!(url, "https://example.org/some/path?q=1");
}

#[test]
fn resolve_unknown_code_is_not_found() {
    let store = LinkStore::new();
    let mut cache = LinkCache::new();
    let r = query_origin_url(&store, &mut cache, "GW".to_string());
    assert_eq!(r, Err(AppError { kind: ErrorKind::NotFound }));
}

#[test]
fn resolve_malformed_code_names_the_character() {
    let store = LinkStore::new();
    let mut cache = LinkCache::new();
    let r = query_origin_url(&store, &mut cache, "ab#cd".to_string());
    assert_eq!(r, Err(AppError { kind: ErrorKind::InvalidCode('#') }));
}

#[test]
fn query_and_create_returns_raw_identifier() {
    let mut store = LinkStore::new();
    let mut cache = LinkCache::new();
    let mut idgen = YitIdHelper::new();
    let id = query_and_create(
        &mut cache,
        &mut store,
        &mut idgen,
        "http://c.example".to_string(),
    )
    .expect("creation succeeds");
    assert_eq!(store.records[0].id as u64, id);
    assert_eq!(store.records[0].link_type, Some(1));
    assert_eq!(store.records[0].expire_date, None);
    assert_eq!(store.records[0].link_hash.len(), 43);
}

#[test]
fn listing_pages_newest_first() {
    let mut store = LinkStore::new();
    let mut cache = LinkCache::new();
    let mut idgen = YitIdHelper::new();
    for i in 0..5 {
        let url = format!("http://page.example/{}", i);
        create_link(&mut cache, &mut store, &mut idgen, url, None).expect("creation succeeds");
    }

    let page1 = get_link_list(
        &store,
        Pagination { page: 1, per_page_last: 0, page_size: 2 },
    )
    .expect("listing succeeds");
    assert_eq!(page1.total, 5);
    assert_eq!(page1.page, 1);
    assert_eq!(page1.page_size, 2);
    assert!(!page1.last_page);
    assert_eq!(page1.data.len(), 2);
    assert_eq!(page1.data[0].origin_url, "http://page.example/4");
    assert_eq!(page1.data[1].origin_url, "http://page.example/3");

    let page3 = get_link_list(
        &store,
        Pagination { page: 3, per_page_last: 0, page_size: 2 },
    )
    .expect("listing succeeds");
    assert!(page3.last_page);
    assert_eq!(page3.data.len(), 1);
    assert_eq!(page3.data[0].origin_url, "http://page.example/0");

    // each served record carries its short code
    let id = page1.data[0].id as usize;
    assert_eq!(
        page1.data[0].link_code,
        short_link::codec::encode_base62(id)
    );
}

#[test]
fn empty_listing_is_one_empty_last_page() {
    let store = LinkStore::new();
    let r = get_link_list(
        &store,
        Pagination { page: 1, per_page_last: 0, page_size: 10 },
    )
    .expect("listing succeeds");
    assert_eq!(r.total, 0);
    assert!(r.last_page);
    assert!(r.data.is_empty());
}
