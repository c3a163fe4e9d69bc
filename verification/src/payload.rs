//! Plain request and response payloads of the auxiliary HTTP surface; the
//! boundary converts between these and its own serialized shapes.

use vstd::prelude::*;

verus! {

/// A request to create a user.
pub struct CreateUser {
    pub username: String,
}

/// A created user as served back.
pub struct User {
    pub id: u64,
    pub username: String,
}

/// The query parameters of the codec endpoints: a number to spell as a
/// short code, or a short code to parse back.
pub struct Param {
    pub no: Option<usize>,
    pub link: Option<String>,
}

} // verus!
