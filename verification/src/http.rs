//! HTTP request methods, protocol versions and responses: building a
//! response, checking that it can be sent, and rendering it as text.

use vstd::prelude::*;
use crate::headers::{
    has_name, lemma_lookup_put, lemma_put_distinct, lemma_without_name_distinct, lookup,
    names_distinct, put, put_name,
    remove_name, without_name, HeaderSeq,
};
use crate::text::{
    all_numeric, char_is_numeric, chars_of, find, i32_to_string, join, numeric_char, replace_char,
    replace_char_chars, signed_decimal, splitn, splitn_chars, string_of, trim, trim_chars,
    lemma_splitn_len, find_from, is_white_space, trim_start, trim_end,
};

verus! {

/// The method of a request.
#[derive(Debug)]
pub enum Method {
    Post,
    Get,
    Delete,
    Put,
    Head,
    Connect,
    Options,
    Trace,
    Patch,
    Unknown,
}

/// The name of a method as it appears on the wire.
pub open spec fn method_text(m: Method) -> Seq<char> {
    match m {
        Method::Post => "POST"@,
        Method::Get => "GET"@,
        Method::Delete => "DELETE"@,
        Method::Put => "PUT"@,
        Method::Head => "HEAD"@,
        Method::Connect => "CONNECT"@,
        Method::Options => "OPTIONS"@,
        Method::Trace => "TRACE"@,
        Method::Patch => "PATCH"@,
        Method::Unknown => "Unknown"@,
    }
}

/// The method that a request line's first word names; anything that is not
/// one of the nine method names is `Unknown`.
pub open spec fn method_of(t: Seq<char>) -> Method {
    if t == "GET"@ {
        Method::Get
    } else if t == "POST"@ {
        Method::Post
    } else if t == "HEAD"@ {
        Method::Head
    } else if t == "PUT"@ {
        Method::Put
    } else if t == "DELETE"@ {
        Method::Delete
    } else if t == "CONNECT"@ {
        Method::Connect
    } else if t == "OPTIONS"@ {
        Method::Options
    } else if t == "TRACE"@ {
        Method::Trace
    } else if t == "PATCH"@ {
        Method::Patch
    } else {
        Method::Unknown
    }
}

impl Method {
    /// The method's name.
    pub fn as_str(&self) -> (r: String)
        ensures
            r@ == method_text(*self),
    {
        match self {
            Method::Post => String::from_str("POST"),
            Method::Get => String::from_str("GET"),
            Method::Delete => String::from_str("DELETE"),
            Method::Put => String::from_str("PUT"),
            Method::Head => String::from_str("HEAD"),
            Method::Connect => String::from_str("CONNECT"),
            Method::Options => String::from_str("OPTIONS"),
            Method::Trace => String::from_str("TRACE"),
            Method::Patch => String::from_str("PATCH"),
            Method::Unknown => String::from_str("Unknown"),
        }
    }

    /// The method named by `t`.
    pub fn from_text(t: &String) -> (m: Method)
        ensures
            m == method_of(t@),
    {
        if *t == String::from_str("GET") {
            Method::Get
        } else if *t == String::from_str("POST") {
            Method::Post
        } else if *t == String::from_str("HEAD") {
            Method::Head
        } else if *t == String::from_str("PUT") {
            Method::Put
        } else if *t == String::from_str("DELETE") {
            Method::Delete
        } else if *t == String::from_str("CONNECT") {
            Method::Connect
        } else if *t == String::from_str("OPTIONS") {
            Method::Options
        } else if *t == String::from_str("TRACE") {
            Method::Trace
        } else if *t == String::from_str("PATCH") {
            Method::Patch
        } else {
            Method::Unknown
        }
    }
}

/// Reading a method's own name gives the method back.
pub proof fn lemma_method_text_roundtrip(m: Method)
    ensures
        method_of(method_text(m)) == m,
{
    reveal_strlit("GET");
    reveal_strlit("POST");
    reveal_strlit("HEAD");
    reveal_strlit("PUT");
    reveal_strlit("DELETE");
    reveal_strlit("CONNECT");
    reveal_strlit("OPTIONS");
    reveal_strlit("TRACE");
    reveal_strlit("PATCH");
    reveal_strlit("Unknown");
    assert("GET"@.len() == 3 && "GET"@[0] == 'G');
    assert("POST"@.len() == 4 && "POST"@[0] == 'P' && "POST"@[1] == 'O');
    assert("HEAD"@.len() == 4 && "HEAD"@[0] == 'H');
    assert("PUT"@.len() == 3 && "PUT"@[0] == 'P' && "PUT"@[1] == 'U');
    assert("DELETE"@.len() == 6 && "DELETE"@[0] == 'D');
    assert("CONNECT"@.len() == 7 && "CONNECT"@[0] == 'C');
    assert("OPTIONS"@.len() == 7 && "OPTIONS"@[0] == 'O');
    assert("TRACE"@.len() == 5 && "TRACE"@[0] == 'T');
    assert("PATCH"@.len() == 5 && "PATCH"@[0] == 'P' && "PATCH"@[1] == 'A');
    assert("Unknown"@.len() == 7 && "Unknown"@[0] == 'U');
}

proof fn lemma_method_text_plain(m: Method)
    ensures
        method_text(m).len() > 0,
        forall|i: int| 0 <= i < method_text(m).len() ==> !is_white_space(#[trigger] method_text(m)[i]),
{
    reveal_strlit("GET");
    reveal_strlit("POST");
    reveal_strlit("HEAD");
    reveal_strlit("PUT");
    reveal_strlit("DELETE");
    reveal_strlit("CONNECT");
    reveal_strlit("OPTIONS");
    reveal_strlit("TRACE");
    reveal_strlit("PATCH");
    reveal_strlit("Unknown");
    let t = method_text(m);
    assert forall|i: int| 0 <= i < t.len() implies !is_white_space(#[trigger] t[i]) by {
        assert(('A' <= t[i] && t[i] <= 'Z') || ('a' <= t[i] && t[i] <= 'z'));
    }
}

proof fn lemma_find_from_first(s: Seq<char>, p: Seq<char>, j: int, k: int)
    requires
        0 <= j <= k,
        k + p.len() <= s.len(),
        s.subrange(k, k + p.len()) == p,
        forall|m: int| j <= m < k ==> #[trigger] s.subrange(m, m + p.len()) != p,
    ensures
        find_from(s, p, j) == Some(k),
    decreases k - j,
{
    if j < k {
        lemma_find_from_first(s, p, j + 1, k);
    }
}

/// A request line that starts with a method's name and a space is read as
/// that method, whatever follows.
pub proof fn lemma_request_line_method(m: Method, rest: Seq<char>)
    ensures
        method_of(request_line_words(method_text(m) + " "@ + rest)[0]) == m,
{
    reveal_strlit(" ");
    let t = method_text(m);
    let s = t + " "@ + rest;
    lemma_method_text_plain(m);
    assert forall|k: int| 0 <= k < t.len() implies #[trigger] s.subrange(k, k + 1) != " "@ by {
        assert(s.subrange(k, k + 1)[0] == t[k]);
        assert(" "@[0] == ' ');
    }
    assert(s.subrange(t.len() as int, t.len() + 1int) =~= " "@);
    lemma_find_from_first(s, " "@, 0, t.len() as int);
    assert(s.take(t.len() as int) =~= t);
    assert(splitn(s, 3, " "@)[0] == t);
    assert(trim_start(t) == t);
    assert(trim_end(t) == t);
    lemma_method_text_roundtrip(m);
}

/// The protocol version a response is sent with.
#[derive(Debug, Clone, Copy, PartialEq, Eq, Structural)]
pub enum HttpVersion {
    Http1_1,
    Http2,
    Http3,
}

/// The version as written on a status line.
pub open spec fn version_text(v: HttpVersion) -> Seq<char> {
    match v {
        HttpVersion::Http1_1 => "HTTP/1.1"@,
        HttpVersion::Http2 => "HTTP/2"@,
        HttpVersion::Http3 => "HTTP/3"@,
    }
}

impl HttpVersion {
    /// The version as written on a status line.
    pub fn as_str(&self) -> (r: &'static str)
        ensures
            r@ == version_text(*self),
    {
        match self {
            HttpVersion::Http1_1 => "HTTP/1.1",
            HttpVersion::Http2 => "HTTP/2",
            HttpVersion::Http3 => "HTTP/3",
        }
    }
}


/// Each version's name is one of the three names that `set_http` accepts,
/// and it names that version only: setting a response's version from
/// `as_str` of a version gives that version.
pub proof fn lemma_version_text_names(v: HttpVersion)
    ensures
        version_text(v) == "HTTP/1.1"@ <==> v == HttpVersion::Http1_1,
        version_text(v) == "HTTP/2"@ <==> v == HttpVersion::Http2,
        version_text(v) == "HTTP/3"@ <==> v == HttpVersion::Http3,
{
    reveal_strlit("HTTP/1.1");
    reveal_strlit("HTTP/2");
    reveal_strlit("HTTP/3");
    assert("HTTP/2"@.len() != "HTTP/1.1"@.len());
    assert("HTTP/3"@.len() != "HTTP/1.1"@.len());
    assert("HTTP/3"@[5] != "HTTP/2"@[5]);
}

/// A status code that a response may carry: 100 to 599.
pub open spec fn status_allowed(status: i32) -> bool {
    status > 99 && status < 600
}

/// A header value with every `'` written as `\'`.
pub open spec fn escape_quotes(v: Seq<char>) -> Seq<char> {
    replace_char(v, '\'', seq!['\\', '\''])
}

/// One header line: the value stands bare when all its characters are
/// numeric, and in single quotes otherwise.
pub open spec fn header_line(name: Seq<char>, value: Seq<char>) -> Seq<char> {
    if all_numeric(value) {
        name + ": "@ + escape_quotes(value)
    } else {
        name + ": '"@ + escape_quotes(value) + "'"@
    }
}

/// The header lines of a header list, in its order.
pub open spec fn header_lines(h: HeaderSeq) -> Seq<Seq<char>> {
    h.map_values(|e: (Seq<char>, Seq<char>)| header_line(e.0, e.1))
}

/// The header block: an empty line alone when there is no header, else the
/// header lines each ended by CRLF.
pub open spec fn header_block(h: HeaderSeq) -> Seq<char> {
    if h.len() < 1 {
        "\r\n"@
    } else {
        join(header_lines(h), "\r\n"@) + "\r\n"@
    }
}

/// The abstract content of a response.
pub struct ResponseView {
    pub http_version: HttpVersion,
    pub status: i32,
    pub header: HeaderSeq,
    pub data: Seq<char>,
}

/// The text of a response: status line, header block, an empty line, data.
pub open spec fn response_text(r: ResponseView) -> Seq<char> {
    version_text(r.http_version) + " "@ + signed_decimal(r.status as int) + "\r\n"@
        + header_block(r.header) + "\r\n"@ + r.data
}

/// Whether a response may be sent depends on its status and on the two
/// headers alone: an allowed status (100 to 599) with both `Content-Length`
/// and `Content-Type`, or with neither, may be sent; a status outside that
/// range, or one of the two headers without the other, may not.
pub proof fn lemma_validity_cases(r: ResponseView)
    ensures
        !(100 <= r.status <= 599) ==> !response_valid(r),
        has_name(r.header, "Content-Length"@) != has_name(r.header, "Content-Type"@)
            ==> !response_valid(r),
        100 <= r.status <= 599 && !has_name(r.header, "Content-Length"@) && !has_name(
            r.header,
            "Content-Type"@,
        ) ==> response_valid(r),
        100 <= r.status <= 599 && has_name(r.header, "Content-Length"@) && has_name(
            r.header,
            "Content-Type"@,
        ) ==> response_valid(r),
{
}

/// The text of a response is the text of the same response with no data,
/// followed by the data unchanged.
pub proof fn lemma_response_text_split(r: ResponseView)
    ensures
        response_text(r) == response_text(ResponseView { data: Seq::empty(), ..r }) + r.data,
{
    let e = ResponseView { data: Seq::empty(), ..r };
    assert(response_text(e) + Seq::<char>::empty() == response_text(e));
}

/// A response may be sent when its status is allowed and it carries a
/// `Content-Length` header exactly when it carries a `Content-Type` one.
pub open spec fn response_valid(r: ResponseView) -> bool {
    status_allowed(r.status) && (has_name(r.header, "Content-Length"@) == has_name(
        r.header,
        "Content-Type"@,
    ))
}

/// A response under construction.
pub struct Response {
    http_version: HttpVersion,
    status: i32,
    header: Vec<(String, String)>,
    data: String,
}

impl View for Response {
    type V = ResponseView;

    closed spec fn view(&self) -> ResponseView {
        ResponseView {
            http_version: self.http_version,
            status: self.status,
            header: self.header.deep_view(),
            data: self.data@,
        }
    }
}

impl Response {
    #[verifier::type_invariant]
    closed spec fn header_names_distinct(&self) -> bool {
        names_distinct(self.header.deep_view())
    }

    /// An empty HTTP/1.1 response with status -1, which no response may be
    /// sent with.
    pub fn new() -> (r: Response)
        ensures
            r@.http_version == HttpVersion::Http1_1,
            r@.status == -1,
            r@.header == Seq::<(Seq<char>, Seq<char>)>::empty(),
            r@.data == Seq::<char>::empty(),
            names_distinct(r@.header),
    {
        let r = Response {
            http_version: HttpVersion::Http1_1,
            status: -1,
            header: Vec::new(),
            data: String::new(),
        };
        assert(r.header.deep_view() =~= Seq::<(Seq<char>, Seq<char>)>::empty());
        r
    }

    fn valid_status(status: i32) -> (r: bool)
        ensures
            r == status_allowed(status),
    {
        status > 99 && status < 600
    }

    fn has_header(&self, name: &str) -> (r: bool)
        ensures
            r == has_name(self@.header, name@),
    {
        let key = String::from_str(name);
        let ghost s = self.header.deep_view();
        let mut i: usize = self.header.len();
        assert(s.take(s.len() as int) == s);
        while i > 0
            invariant
                i <= self.header.len(),
                s == self.header.deep_view(),
                key@ == name@,
                has_name(s, key@) == has_name(s.take(i as int), key@),
            decreases i,
        {
            assert(s.take(i as int).drop_last() == s.take(i - 1));
            assert(s.take(i as int).last() == s[i - 1]);
            if self.header[i - 1].0 == key {
                return true;
            }
            i = i - 1;
        }
        false
    }

    fn check_validity(&self) -> (r: bool)
        ensures
            r == response_valid(self@),
    {
        if !Response::valid_status(self.status) || (self.has_header("Content-Length")
            && !self.has_header("Content-Type")) || (self.has_header("Content-Type")
            && !self.has_header("Content-Length")) {
            false
        } else {
            true
        }
    }

    /// Whether every character of `str` is numeric (Unicode's number
    /// categories); for an ASCII text, whether it is made of digits `0`..`9`
    /// only. The empty text counts as numeric.
    pub fn is_numeric(&self, str: &String) -> (r: bool)
        ensures
            r == all_numeric(str@),
            (forall|i: int| 0 <= i < str@.len() ==> (#[trigger] str@[i] as u32) < 128) ==> (r
                <==> forall|i: int| 0 <= i < str@.len() ==> '0' <= #[trigger] str@[i] && str@[i]
                <= '9'),
    {
        let cs = chars_of(str.as_str());
        let mut i: usize = 0;
        while i < cs.len()
            invariant
                i <= cs.len(),
                cs@ == str@,
                forall|j: int| 0 <= j < i ==> #[trigger] numeric_char(cs@[j]),
                forall|j: int|
                    0 <= j < i ==> (#[trigger] cs@[j] as u32) < 128 ==> '0' <= cs@[j] && cs@[j]
                        <= '9',
            decreases cs.len() - i,
        {
            if !char_is_numeric(cs[i]) {
                assert(str@[i as int] == cs@[i as int]);
                return false;
            }
            i = i + 1;
        }
        true
    }

    fn format_header(&self, k: &String, v: &String) -> (r: String)
        ensures
            r@ == header_line(k@, v@),
    {
        let mut quote: Vec<char> = Vec::new();
        quote.push('\\');
        quote.push('\'');
        assert(quote@ == seq!['\\', '\'']);
        let escaped = string_of(&replace_char_chars(&chars_of(v.as_str()), '\'', &quote));
        let mut r = k.clone();
        if self.is_numeric(v) {
            r.append(": ");
            r.append(escaped.as_str());
        } else {
            r.append(": '");
            r.append(escaped.as_str());
            r.append("'");
        }
        r
    }

    fn header_block(&self) -> (r: String)
        ensures
            r@ == header_block(self@.header),
    {
        let ghost h = self.header.deep_view();
        if self.header.len() < 1 {
            return String::from_str("\r\n");
        }
        let mut r = String::new();
        let mut i: usize = 0;
        while i < self.header.len()
            invariant
                i <= self.header.len(),
                h == self.header.deep_view(),
                h.len() >= 1,
                i == 0 ==> r@ == Seq::<char>::empty(),
                i > 0 ==> r@ == join(header_lines(h).take(i as int), "\r\n"@),
            decreases self.header.len() - i,
        {
            let line = self.format_header(&self.header[i].0, &self.header[i].1);
            let ghost lines = header_lines(h);
            assert(lines.take(i + 1).drop_last() == lines.take(i as int));
            assert(lines.take(i + 1).last() == line@);
            if i > 0 {
                r.append("\r\n");
            } else {
                assert(lines.take(1).len() == 1);
            }
            r.append(line.as_str());
            i = i + 1;
        }
        assert(header_lines(h).take(h.len() as int) == header_lines(h));
        r.append("\r\n");
        r
    }

    /// The response as text, ready to be sent.
    pub fn format_res(&self) -> (r: String)
        ensures
            r@ == response_text(self@),
            r@.len() >= self@.data.len(),
            r@.skip(r@.len() - self@.data.len()) == self@.data,
            r@.take(r@.len() - self@.data.len()) == response_text(
                ResponseView { data: Seq::empty(), ..self@ },
            ),
            r@.take(version_text(self@.http_version).len() + 1int + signed_decimal(
                self@.status as int,
            ).len() + 2int) == version_text(self@.http_version) + " "@ + signed_decimal(
                self@.status as int,
            ) + "\r\n"@,
    {
        let mut r = String::from_str(self.http_version.as_str());
        r.append(" ");
        r.append(i32_to_string(self.status).as_str());
        r.append("\r\n");
        let ghost status_line = r@;
        r.append(self.header_block().as_str());
        r.append("\r\n");
        let ghost head = r@;
        r.append(self.data.as_str());
        proof {
            lemma_response_text_split(self@);
            reveal_strlit(" ");
            reveal_strlit("\r\n");
            assert(r@ == head + self@.data);
            assert(r@.skip(head.len() as int) =~= self@.data);
            assert(r@.take(head.len() as int) =~= head);
            assert(r@.take(status_line.len() as int) =~= status_line);
        }
        r
    }

    /// Sets the protocol version from its name; any name but `HTTP/1.1`,
    /// `HTTP/2` and `HTTP/3` is refused and leaves the response unchanged.
    pub fn set_http(&mut self, http: String) -> (r: Result<(), String>)
        ensures
            http@ == "HTTP/1.1"@ ==> r is Ok && final(self)@ == (ResponseView {
                http_version: HttpVersion::Http1_1,
                ..old(self)@
            }),
            http@ == "HTTP/2"@ ==> r is Ok && final(self)@ == (ResponseView {
                http_version: HttpVersion::Http2,
                ..old(self)@
            }),
            http@ == "HTTP/3"@ ==> r is Ok && final(self)@ == (ResponseView {
                http_version: HttpVersion::Http3,
                ..old(self)@
            }),
            http@ != "HTTP/1.1"@ && http@ != "HTTP/2"@ && http@ != "HTTP/3"@ ==> final(self)@
                == old(self)@ && (r matches Err(e) && e@ == "Unknown HTTP version was provided"@),
            names_distinct(final(self)@.header),
    {
        proof {
            use_type_invariant(&*self);
            lemma_version_text_names(HttpVersion::Http1_1);
            lemma_version_text_names(HttpVersion::Http2);
            lemma_version_text_names(HttpVersion::Http3);
        }
        if http == String::from_str(HttpVersion::Http1_1.as_str()) {
            self.http_version = HttpVersion::Http1_1;
            Ok(())
        } else if http == String::from_str(HttpVersion::Http2.as_str()) {
            self.http_version = HttpVersion::Http2;
            Ok(())
        } else if http == String::from_str(HttpVersion::Http3.as_str()) {
            self.http_version = HttpVersion::Http3;
            Ok(())
        } else {
            Err(String::from_str("Unknown HTTP version was provided"))
        }
    }

    /// Sets the status when it is allowed (100 to 599); any other value is
    /// refused and leaves the response unchanged.
    pub fn set_status(&mut self, status: i32) -> (r: Result<(), String>)
        ensures
            status_allowed(status) ==> r is Ok && final(self)@ == (ResponseView {
                status,
                ..old(self)@
            }),
            !status_allowed(status) ==> final(self)@ == old(self)@ && (r matches Err(e) && e@
                == "Invalid status code provided, please refer to the standart RFC 9110"@),
            names_distinct(final(self)@.header),
    {
        proof {
            use_type_invariant(&*self);
        }
        if !Response::valid_status(status) {
            Err(String::from_str("Invalid status code provided, please refer to the standart RFC 9110"))
        } else {
            self.status = status;
            Ok(())
        }
    }

    /// Binds the header `name` to `data`, replacing any earlier value.
    pub fn add_header(&mut self, name: String, data: String)
        ensures
            final(self)@ == (ResponseView { header: put(old(self)@.header, name@, data@), ..old(self)@ }),
            names_distinct(final(self)@.header),
    {
        proof {
            use_type_invariant(&*self);
            lemma_put_distinct(self.header.deep_view(), name@, data@);
        }
        let mut header = Vec::new();
        std::mem::swap(&mut header, &mut self.header);
        put_name(&mut header, name, data);
        self.header = header;
    }

    /// Drops the header `name`, if present.
    pub fn remove_header(&mut self, name: &String)
        ensures
            final(self)@ == (ResponseView { header: without_name(old(self)@.header, name@), ..old(self)@ }),
            names_distinct(final(self)@.header),
    {
        proof {
            use_type_invariant(&*self);
            lemma_without_name_distinct(self.header.deep_view(), name@);
        }
        let mut header = Vec::new();
        std::mem::swap(&mut header, &mut self.header);
        remove_name(&mut header, name);
        self.header = header;
    }

    /// Replaces the body.
    pub fn set_data(&mut self, data: String)
        ensures
            final(self)@ == (ResponseView { data: data@, ..old(self)@ }),
            names_distinct(final(self)@.header),
    {
        proof {
            use_type_invariant(&*self);
        }
        self.data = data
    }

    /// Appends to the body.
    pub fn push_data(&mut self, data: String)
        ensures
            final(self)@ == (ResponseView { data: old(self)@.data + data@, ..old(self)@ }),
            names_distinct(final(self)@.header),
    {
        proof {
            use_type_invariant(&*self);
        }
        let mut d = String::new();
        std::mem::swap(&mut d, &mut self.data);
        d.append(data.as_str());
        self.data = d;
    }

    /// The text to send for this response, or the error that refuses to send
    /// a response that is not valid.
    pub fn wire_text(&self) -> (r: Result<String, String>)
        ensures
            response_valid(self@) ==> (r matches Ok(t) && t@ == response_text(self@)),
            !response_valid(self@) ==> (r matches Err(e) && e@
                == "Cannot write response with invalid data, please ensure that the response is correctly build"@),
            !(100 <= self@.status <= 599) ==> r is Err,
            has_name(self@.header, "Content-Length"@) != has_name(self@.header, "Content-Type"@)
                ==> r is Err,
            100 <= self@.status <= 599 && !has_name(self@.header, "Content-Length"@) && !has_name(
                self@.header,
                "Content-Type"@,
            ) ==> r is Ok,
            100 <= self@.status <= 599 && has_name(self@.header, "Content-Length"@) && has_name(
                self@.header,
                "Content-Type"@,
            ) ==> r is Ok,
    {
        if !self.check_validity() {
            Err(String::from_str("Cannot write response with invalid data, please ensure that the response is correctly build"))
        } else {
            Ok(self.format_res())
        }
    }
}


/// The words of a request line: split at the first two spaces, each trimmed.
pub open spec fn request_line_words(line: Seq<char>) -> Seq<Seq<char>> {
    splitn(line, 3, " "@).map_values(|w: Seq<char>| trim(w))
}

/// The header fields that the lines of a request head give, the request line
/// `first` (and every line equal to it) aside: each other line is split at
/// its first `": "`, both sides trimmed, and a later line with the same name
/// replaces an earlier one.
pub open spec fn header_fields(lines: Seq<Seq<char>>, first: Seq<char>) -> HeaderSeq
    decreases lines.len(),
{
    if lines.len() == 0 {
        Seq::empty()
    } else {
        let h = header_fields(lines.drop_last(), first);
        let l = lines.last();
        if l == first {
            h
        } else {
            put(h, field_name(l), field_value(l))
        }
    }
}

/// The name that a header line gives: what precedes its first `": "`,
/// trimmed.
pub open spec fn field_name(line: Seq<char>) -> Seq<char> {
    trim(splitn(line, 2, ": "@)[0])
}

/// The value that a header line gives: what follows its first `": "`,
/// trimmed.
pub open spec fn field_value(line: Seq<char>) -> Seq<char> {
    trim(splitn(line, 2, ": "@)[1])
}

/// The fields of a request head are exactly those of its header lines:
/// every line other than the request line gives a field under its name,
/// holding the value of the last line with that name, and every field comes
/// from such a line.
pub proof fn lemma_header_fields_lines(ls: Seq<Seq<char>>, first: Seq<char>)
    ensures
        forall|i: int|
            0 <= i < ls.len() && #[trigger] ls[i] != first ==> has_name(
                header_fields(ls, first),
                field_name(ls[i]),
            ),
        forall|i: int|
            0 <= i < ls.len() && #[trigger] ls[i] != first && (forall|k: int|
                i < k < ls.len() && ls[k] != first ==> field_name(#[trigger] ls[k]) != field_name(
                    ls[i],
                )) ==> lookup(header_fields(ls, first), field_name(ls[i])) == Some(
                field_value(ls[i]),
            ),
        forall|n: Seq<char>|
            #[trigger] has_name(header_fields(ls, first), n) ==> exists|i: int|
                0 <= i < ls.len() && #[trigger] ls[i] != first && field_name(ls[i]) == n,
    decreases ls.len(),
{
    if ls.len() > 0 {
        let d = ls.drop_last();
        let l = ls.last();
        let h = header_fields(d, first);
        let hf = header_fields(ls, first);
        lemma_header_fields_lines(d, first);
        assert forall|n: Seq<char>| true implies lookup(hf, n) == if l != first && n == field_name(
            l,
        ) {
            Some(field_value(l))
        } else {
            lookup(h, n)
        } by {
            if l != first {
                lemma_lookup_put(h, field_name(l), field_value(l), n);
            }
        }
        assert forall|i: int| 0 <= i < ls.len() && #[trigger] ls[i] != first implies has_name(
            hf,
            field_name(ls[i]),
        ) by {
            if i < ls.len() - 1 {
                assert(d[i] == ls[i]);
            }
        }
        assert forall|i: int|
            0 <= i < ls.len() && #[trigger] ls[i] != first && (forall|k: int|
                i < k < ls.len() && ls[k] != first ==> field_name(#[trigger] ls[k]) != field_name(
                    ls[i],
                )) implies lookup(hf, field_name(ls[i])) == Some(field_value(ls[i])) by {
            if i < ls.len() - 1 {
                assert(d[i] == ls[i]);
                assert forall|k: int|
                    i < k < d.len() && #[trigger] d[k] != first implies field_name(d[k]) != field_name(
                    d[i],
                ) by {
                    assert(d[k] == ls[k]);
                }
                if l != first {
                    assert(ls[ls.len() - 1] == l);
                }
            }
        }
        assert forall|n: Seq<char>| #[trigger] has_name(hf, n) implies exists|i: int|
            0 <= i < ls.len() && #[trigger] ls[i] != first && field_name(ls[i]) == n by {
            if l != first && n == field_name(l) {
                assert(ls[ls.len() - 1] == l);
            } else {
                assert(has_name(h, n));
                let i = choose|i: int| 0 <= i < d.len() && #[trigger] d[i] != first && field_name(d[i]) == n;
                assert(ls[i] == d[i]);
            }
        }
    }
}

/// No header name of a request head occurs twice.
pub proof fn lemma_header_fields_distinct(lines: Seq<Seq<char>>, first: Seq<char>)
    ensures
        names_distinct(header_fields(lines, first)),
    decreases lines.len(),
{
    if lines.len() > 0 {
        lemma_header_fields_distinct(lines.drop_last(), first);
        let l = lines.last();
        if l != first {
            lemma_put_distinct(header_fields(lines.drop_last(), first), field_name(l), field_value(l));
        }
    }
}

/// Every line of the head that differs from the request line holds `": "`.
pub open spec fn head_well_formed(lines: Seq<Seq<char>>) -> bool {
    forall|i: int|
        0 <= i < lines.len() && #[trigger] lines[i] != lines[0] ==> find(lines[i], ": "@) is Some
}

/// The address part of a peer address `host:port`: what precedes the first
/// `:`, trimmed.
pub open spec fn socket_of(peer: Seq<char>) -> Seq<char> {
    trim(splitn(peer, 2, ":"@)[0])
}

/// A request as read from a connection: the peer, the request line's parts,
/// the body and the header fields.
pub struct Request {
    pub socket: String,
    pub http_version: String,
    pub method: Method,
    pub url: String,
    pub body: String,
    pub header: Vec<(String, String)>,
}

impl Request {
    /// Builds a request from the peer address and the lines of its head
    /// (the lines before the first empty one). The first line is the request
    /// line: its words give the method, the URL and the protocol version;
    /// every other line is a header field.
    pub fn new(peer: &str, lines: &Vec<String>) -> (r: Request)
        requires
            head_well_formed(lines.deep_view()),
        ensures
            r.socket@ == socket_of(peer@),
            r.body@ == Seq::<char>::empty(),
            lines.len() == 0 ==> r.method == Method::Unknown && r.url@ == Seq::<char>::empty()
                && r.http_version@ == Seq::<char>::empty() && r.header.deep_view() == Seq::<
                (Seq<char>, Seq<char>),
            >::empty(),
            lines.len() > 0 ==> {
                let words = request_line_words(lines[0]@);
                &&& r.method == method_of(words[0])
                &&& r.url@ == (if words.len() > 1 {
                    words[1]
                } else {
                    Seq::<char>::empty()
                })
                &&& r.http_version@ == (if words.len() > 2 {
                    words[2]
                } else {
                    Seq::<char>::empty()
                })
                &&& r.header.deep_view() == header_fields(lines.deep_view(), lines[0]@)
            },
            forall|i: int|
                0 <= i < lines.len() && #[trigger] lines.deep_view()[i] != lines.deep_view()[0]
                    ==> has_name(r.header.deep_view(), field_name(lines.deep_view()[i])),
            forall|i: int|
                0 <= i < lines.len() && #[trigger] lines.deep_view()[i] != lines.deep_view()[0]
                    && (forall|k: int|
                    i < k < lines.len() && lines.deep_view()[k] != lines.deep_view()[0]
                        ==> field_name(#[trigger] lines.deep_view()[k]) != field_name(
                        lines.deep_view()[i],
                    )) ==> lookup(r.header.deep_view(), field_name(lines.deep_view()[i]))
                    == Some(field_value(lines.deep_view()[i])),
            forall|n: Seq<char>|
                #[trigger] has_name(r.header.deep_view(), n) ==> exists|i: int|
                    0 <= i < lines.len() && #[trigger] lines.deep_view()[i]
                        != lines.deep_view()[0] && field_name(lines.deep_view()[i]) == n,
            names_distinct(r.header.deep_view()),
    {
        let mut colon: Vec<char> = Vec::new();
        colon.push(':');
        let mut sep: Vec<char> = Vec::new();
        sep.push(':');
        sep.push(' ');
        let mut space: Vec<char> = Vec::new();
        space.push(' ');
        proof {
            reveal_strlit(":");
            reveal_strlit(": ");
            reveal_strlit(" ");
        }
        assert(colon@ == ":"@);
        assert(sep@ == ": "@);
        assert(space@ == " "@);
        assert(sep.len() == 2);
        assert(space.len() == 1);
        let peer_parts = splitn_chars(&chars_of(peer), 2, &colon);
        proof {
            lemma_splitn_len(peer@, 2, ":"@);
        }
        assert(peer_parts.deep_view()[0] == peer_parts[0]@);
        let socket = string_of(&trim_chars(&peer_parts[0]));
        let mut r = Request {
            socket,
            http_version: String::new(),
            method: Method::Unknown,
            url: String::new(),
            body: String::new(),
            header: Vec::new(),
        };
        assert(r.header.deep_view() =~= Seq::<(Seq<char>, Seq<char>)>::empty());
        if lines.len() == 0 {
            return r;
        }
        let ghost ls = lines.deep_view();
        let ghost first = lines[0]@;
        let ghost words = request_line_words(first);
        assert(ls[0] == first);
        assert(ls.take(0) =~= Seq::<Seq<char>>::empty());
        let mut i: usize = 0;
        while i < lines.len()
            invariant
                i <= lines.len(),
                lines.len() > 0,
                ls == lines.deep_view(),
                first == lines[0]@,
                words == request_line_words(first),
                head_well_formed(ls),
                sep@ == ": "@,
                space@ == " "@,
                sep.len() == 2,
                space.len() == 1,
                r.socket@ == socket_of(peer@),
                i == 0 ==> r.url@ == Seq::<char>::empty() && r.http_version@ == Seq::<
                    char,
                >::empty(),
                r.body@ == Seq::<char>::empty(),
                r.header.deep_view() == header_fields(ls.take(i as int), first),
                i > 0 ==> {
                    &&& r.method == method_of(words[0])
                    &&& r.url@ == (if words.len() > 1 {
                        words[1]
                    } else {
                        Seq::<char>::empty()
                    })
                    &&& r.http_version@ == (if words.len() > 2 {
                        words[2]
                    } else {
                        Seq::<char>::empty()
                    })
                },
            decreases lines.len() - i,
        {
            assert(ls.take(i + 1).drop_last() == ls.take(i as int));
            assert(ls.take(i + 1).last() == ls[i as int]);
            assert(ls[i as int] == lines[i as int]@);
            if lines[i] != lines[0] {
                assert(find(ls[i as int], ": "@) is Some);
                let parts = splitn_chars(&chars_of(lines[i].as_str()), 2, &sep);
                proof {
                    let l = ls[i as int];
                    let j = find(l, ": "@)->0;
                    assert(splitn(l, 2, ": "@) == seq![l.take(j)] + splitn(
                        l.skip(j + 2),
                        1,
                        ": "@,
                    ));
                }
                assert(parts.deep_view()[0] == parts[0]@);
                assert(parts.deep_view()[1] == parts[1]@);
                let name = string_of(&trim_chars(&parts[0]));
                let value = string_of(&trim_chars(&parts[1]));
                put_name(&mut r.header, name, value);
            } else {
                let words_exec = splitn_chars(&chars_of(lines[i].as_str()), 3, &space);
                proof {
                    lemma_splitn_len(first, 3, " "@);
                }
                let mut k: usize = 0;
                while k < words_exec.len()
                    invariant
                        words_exec.deep_view() == splitn(first, 3, " "@),
                        words == request_line_words(first),
                        1 <= words_exec.len() <= 3,
                        k <= words_exec.len(),
                        r.socket@ == socket_of(peer@),
                        r.body@ == Seq::<char>::empty(),
                        r.header.deep_view() == header_fields(ls.take(i as int), first),
                        k > 0 ==> r.method == method_of(words[0]),
                        k > 1 ==> r.url@ == words[1],
                        k > 2 ==> r.http_version@ == words[2],
                        k <= 1 ==> (i > 0 ==> r.url@ == (if words.len() > 1 {
                            words[1]
                        } else {
                            Seq::<char>::empty()
                        })) && (i == 0 ==> r.url@ == Seq::<char>::empty()),
                        k <= 2 ==> (i > 0 ==> r.http_version@ == (if words.len() > 2 {
                            words[2]
                        } else {
                            Seq::<char>::empty()
                        })) && (i == 0 ==> r.http_version@ == Seq::<char>::empty()),
                    decreases words_exec.len() - k,
                {
                    assert(words_exec.deep_view()[k as int] == words_exec[k as int]@);
                    let w = string_of(&trim_chars(&words_exec[k]));
                    assert(w@ == words[k as int]);
                    if k == 0 {
                        r.method = Method::from_text(&w);
                    } else if k == 1 {
                        r.url = w;
                    } else {
                        r.http_version = w;
                    }
                    k = k + 1;
                }
            }
            i = i + 1;
        }
        assert(ls.take(lines.len() as int) == ls);
        proof {
            lemma_header_fields_lines(ls, first);
            lemma_header_fields_distinct(ls, first);
        }
        r
    }
}

} // verus!
