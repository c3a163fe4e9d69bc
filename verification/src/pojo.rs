//! Link records and the shapes they are served in.
//!
//! Timestamps are carried as epoch milliseconds so that the record's
//! invariants and the service's contracts can speak of them directly; the
//! boundary converts to and from its own date-time types.

use vstd::prelude::*;

use crate::codec::{encode62, encode_base62};

verus! {

/// One stored short-link record.  `link_hash` is the content hash of
/// `origin_url` and is the natural key for deduplication; `active` marks
/// logical deletion.
pub struct LinkHistory {
    pub id: i64,
    pub origin_url: String,
    pub link_type: Option<i32>,
    pub expire_date: Option<i64>,
    pub active: bool,
    pub link_hash: String,
    pub create_time: Option<i64>,
    pub update_time: Option<i64>,
}

impl LinkHistory {
    /// A fresh interim record for a newly shortened URL.
    pub fn from_url(id: i64, origin_url: &str, link_hash: String) -> (r: Self)
        ensures
            r.id == id,
            r.origin_url@ == origin_url@,
            r.link_type == Some(1i32),
            r.expire_date is None,
            r.active,
            r.link_hash@ == link_hash@,
            r.create_time is None,
            r.update_time is None,
    {
        let kind = crate::types::LinkType::INTERIM;
        LinkHistory {
            id,
            origin_url: origin_url.to_owned(),
            link_type: Some(kind.to_value()),
            expire_date: None,
            active: true,
            link_hash,
            create_time: None,
            update_time: None,
        }
    }

    /// The record as served to the administrative listing, with its public
    /// short code spelled out.
    pub fn to_response(&self) -> (r: LinkHistoryResponse)
        requires
            0 <= self.id <= usize::MAX,
        ensures
            r.id == self.id,
            r.origin_url@ == self.origin_url@,
            r.link_type == self.link_type,
            r.expire_date == self.expire_date,
            r.active == self.active,
            r.link_hash@ == self.link_hash@,
            r.create_time == self.create_time,
            r.update_time == self.update_time,
            r.link_code@ == encode62(self.id as nat),
    {
        LinkHistoryResponse {
            id: self.id,
            origin_url: self.origin_url.clone(),
            link_type: self.link_type,
            expire_date: self.expire_date,
            active: self.active,
            link_hash: self.link_hash.clone(),
            create_time: self.create_time,
            update_time: self.update_time,
            link_code: encode_base62(self.id as usize),
        }
    }
}

/// One record of the administrative listing.
pub struct LinkHistoryResponse {
    pub id: i64,
    pub origin_url: String,
    pub link_type: Option<i32>,
    pub expire_date: Option<i64>,
    pub active: bool,
    pub link_hash: String,
    pub create_time: Option<i64>,
    pub update_time: Option<i64>,
    pub link_code: String,
}

/// One page of the administrative listing.
pub struct LinkListResponse {
    pub data: Vec<LinkHistoryResponse>,
    pub page: usize,
    pub page_size: usize,
    pub total: i64,
    pub last_page: bool,
}

/// The paging parameters of the administrative listing.
pub struct Pagination {
    pub page: usize,
    pub per_page_last: usize,
    pub page_size: usize,
}

impl Default for Pagination {
    fn default() -> (r: Self)
        ensures
            r == (Pagination { page: 1usize, per_page_last: 0usize, page_size: 10usize }),
    {
        Pagination { page: 1, per_page_last: 0, page_size: 10 }
    }
}

} // verus!
