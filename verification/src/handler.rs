//! Choosing the answer to a request.

use vstd::prelude::*;
use crate::http::{Request, Response, ResponseView, response_valid};
use crate::routes::{typed, typed_response};
use crate::routes::codes::{listener_404, not_found_body};
use crate::routes::ping::listener;
use crate::text::{chars_of, lemma_splitn_len, splitn, splitn_chars, string_of, trim, trim_chars};

verus! {

/// The body of the answer given while the service is under maintenance.
pub open spec fn maintenance_body() -> Seq<char> {
    "{ \"message\": \"The service is currently unavailable, retry later\" }"@
}

/// The path of a URL: what precedes the first `?`, trimmed.
pub open spec fn route_path(url: Seq<char>) -> Seq<char> {
    trim(splitn(url, 2, "?"@)[0])
}

/// The answer owed to a request: 503 while under maintenance, the ping
/// answer for the path `/ping`, and 404 for any other path.
pub open spec fn answer(maintenance: bool, url: Seq<char>) -> ResponseView {
    if maintenance {
        typed_response(503, "application/json"@, maintenance_body())
    } else if route_path(url) == "/ping"@ {
        typed_response(200, "text/plain"@, "Hello World!"@)
    } else {
        typed_response(404, "application/json"@, not_found_body(url))
    }
}

/// Under maintenance every request gets the 503 answer, whatever its URL;
/// otherwise the answer is 200 for the path `/ping` and 404 for any other.
pub proof fn lemma_answer_by_state(maintenance: bool, url: Seq<char>)
    ensures
        maintenance ==> answer(maintenance, url).status == 503 && answer(maintenance, url).data
            == "{ \"message\": \"The service is currently unavailable, retry later\" }"@,
        !maintenance ==> (answer(maintenance, url).status == 200 <==> route_path(url) == "/ping"@),
        !maintenance && route_path(url) != "/ping"@ ==> answer(maintenance, url).status == 404
            && answer(maintenance, url).data == not_found_body(url),
{
}

/// The response to send for `req`, given whether the service is under
/// maintenance. Every answer may be sent.
pub fn respond(maintenance: bool, req: &Request) -> (r: Response)
    ensures
        r@ == answer(maintenance, req.url@),
        response_valid(r@),
        maintenance ==> r@.status == 503 && r@.data
            == "{ \"message\": \"The service is currently unavailable, retry later\" }"@,
        !maintenance && route_path(req.url@) == "/ping"@ ==> r@.status == 200 && r@.data
            == "Hello World!"@,
        !maintenance && route_path(req.url@) != "/ping"@ ==> r@.status == 404 && r@.data
            == not_found_body(req.url@),
{
    if maintenance {
        let data = String::from_str(
            "{ \"message\": \"The service is currently unavailable, retry later\" }",
        );
        typed(503, "application/json", data)
    } else {
        let mut q: Vec<char> = Vec::new();
        q.push('?');
        proof {
            reveal_strlit("?");
        }
        assert(q@ == "?"@);
        let parts = splitn_chars(&chars_of(req.url.as_str()), 2, &q);
        proof {
            lemma_splitn_len(req.url@, 2, "?"@);
        }
        assert(parts.deep_view()[0] == parts[0]@);
        let path = string_of(&trim_chars(&parts[0]));
        if path == String::from_str("/ping") {
            listener(req)
        } else {
            listener_404(req)
        }
    }
}

} // verus!
