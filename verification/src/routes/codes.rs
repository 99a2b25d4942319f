//! The answer to a request for a route that does not exist.

use vstd::prelude::*;
use crate::http::{Request, Response, response_valid};
use super::{typed, typed_response};

verus! {

/// The JSON body that names the missing route.
pub open spec fn not_found_body(url: Seq<char>) -> Seq<char> {
    "{ \"message\": \"Cannot find this route\", \"route\": \""@ + url + "\" }"@
}

/// The 404 response for a request whose route does not exist: a JSON body
/// naming the route.
pub fn listener_404(req: &Request) -> (r: Response)
    ensures
        r@ == typed_response(404, "application/json"@, not_found_body(req.url@)),
        response_valid(r@),
{
    let mut data = String::from_str("{ \"message\": \"Cannot find this route\", \"route\": \"");
    data.append(req.url.as_str());
    data.append("\" }");
    typed(404, "application/json", data)
}

} // verus!
