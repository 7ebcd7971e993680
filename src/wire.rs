//! A rendered response, as the server sends it.

use vstd::prelude::*;

verus! {

/// The body of a rendered response.
#[derive(Debug, Clone, PartialEq, Eq)]
pub enum Body {
    Empty,
    Text(String),
    Bytes(Vec<u8>),
}

/// A rendered response: status, the content type if one is set, the headers in
/// the order they are inserted (a later one replaces an earlier one of the same
/// name), and the body.
#[derive(Debug, Clone, PartialEq, Eq)]
pub struct WireResponse {
    pub status: u16,
    pub content_type: Option<String>,
    pub headers: Vec<(String, String)>,
    pub body: Body,
}

} // verus!
