//! The head of an HTTP request, as the HTTP/1.1 encoder writes it.
use vstd::prelude::*;
use crate::headers::Headers;

verus! {

/// A request target in the two forms a request line may carry it.
pub struct Uri {
    /// The whole URI, written when the request goes through a proxy.
    pub absolute: Vec<u8>,
    /// The path and query, if the URI has them.
    pub path_and_query: Option<Vec<u8>>,
}

/// The head of a request: method, target, version and field lines.
pub struct RequestPart {
    /// The method, such as `GET`.
    pub method: Vec<u8>,
    /// The request target.
    pub uri: Uri,
    /// The protocol version, such as `HTTP/1.1`.
    pub version: Vec<u8>,
    /// The field lines.
    pub headers: Headers,
}

/// The origin form of a target: its path and query, or `/` without them.
pub open spec fn origin_form(uri: Uri) -> Seq<u8> {
    match uri.path_and_query {
        Some(p) => p@,
        None => seq![0x2fu8],
    }
}

impl Uri {
    /// A target given by its absolute form and its path and query.
    pub fn new(absolute: Vec<u8>, path_and_query: Option<Vec<u8>>) -> (r: Uri)
        ensures
            r.absolute@ == absolute@,
            r.path_and_query == path_and_query,
    {
        Uri { absolute, path_and_query }
    }
}

} // verus!
