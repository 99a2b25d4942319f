//! The responses that the service's routes answer with.

pub mod codes;
pub mod ping;

use vstd::prelude::*;
use crate::http::{HttpVersion, Response, ResponseView, response_valid};
use crate::text::{byte_count, byte_len, decimal, usize_to_string};
use crate::headers::{HeaderSeq, lookup, without_name};

verus! {

/// The `Content-Length` value for a body: its UTF-8 byte count in decimal.
pub open spec fn content_length(data: Seq<char>) -> Seq<char> {
    decimal(byte_count(data) as nat)
}

/// An HTTP/1.1 response with the given status and body, which declares the
/// body's type and length.
pub open spec fn typed_response(status: i32, content_type: Seq<char>, data: Seq<char>) -> ResponseView {
    ResponseView {
        http_version: HttpVersion::Http1_1,
        status,
        header: seq![("Content-Type"@, content_type), ("Content-Length"@, content_length(data))],
        data,
    }
}

/// Builds the response that `typed_response` describes.
pub(crate) fn typed(status: i32, content_type: &str, data: String) -> (r: Response)
    requires
        100 <= status < 600,
    ensures
        r@ == typed_response(status, content_type@, data@),
        response_valid(r@),
{
    proof {
        reveal_strlit("Content-Type");
        reveal_strlit("Content-Length");
    }
    assert("Content-Type"@ != "Content-Length"@) by {
        assert("Content-Type"@.len() != "Content-Length"@.len());
    }
    let mut res = Response::new();
    let _ = res.set_status(status);
    let ghost e: HeaderSeq = Seq::empty();
    res.add_header(String::from_str("Content-Type"), String::from_str(content_type));
    let ghost h1 = res@.header;
    assert(without_name(e, "Content-Type"@) == e);
    assert(h1 =~= seq![("Content-Type"@, content_type@)]);
    let length = usize_to_string(byte_len(&data));
    res.add_header(String::from_str("Content-Length"), length);
    assert(without_name(h1.drop_last(), "Content-Length"@) == e);
    assert(without_name(h1, "Content-Length"@) =~= h1);
    res.set_data(data);
    let ghost h = res@.header;
    assert(h =~= seq![("Content-Type"@, content_type@), ("Content-Length"@, content_length(data@))]);
    assert(h.drop_last() =~= h1);
    assert(lookup(h, "Content-Length"@) is Some);
    assert(lookup(h1, "Content-Type"@) is Some);
    assert(lookup(h, "Content-Type"@) == lookup(h1, "Content-Type"@));
    res
}

} // verus!
