//! The answer to a ping.

use vstd::prelude::*;
use crate::http::{Request, Response, response_valid};
use super::{typed, typed_response};

verus! {

/// The 200 response to a ping: the plain text `Hello World!`.
pub fn listener(req: &Request) -> (r: Response)
    ensures
        r@ == typed_response(200, "text/plain"@, "Hello World!"@),
        response_valid(r@),
{
    typed(200, "text/plain", String::from_str("Hello World!"))
}

} // verus!
