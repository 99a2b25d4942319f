use social_api::handler::respond;
use social_api::http::{HttpVersion, Method, Request, Response};
use social_api::routes::codes::listener_404;
use social_api::routes::ping::listener;

fn head(lines: &[&str]) -> Vec<String> {
    lines.iter().map(|l| l.to_string()).collect()
}

#[test]
fn new_response_renders_empty_head() {
    let res = Response::new();
    assert_eq!(res.format_res(), "HTTP/1.1 -1\r\n\r\n\r\n");
}

#[test]
fn new_response_cannot_be_sent() {
    let res = Response::new();
    assert_eq!(
        res.wire_text(),
        Err("Cannot write response with invalid data, please ensure that the response is correctly build".to_string())
    );
}

#[test]
fn set_status_accepts_range_bounds() {
    let mut res = Response::new();
    assert_eq!(res.set_status(100), Ok(()));
    assert!(res.format_res().starts_with("HTTP/1.1 100\r\n"));
    assert_eq!(res.set_status(599), Ok(()));
    assert!(res.format_res().starts_with("HTTP/1.1 599\r\n"));
}

#[test]
fn set_status_refuses_out_of_range() {
    let mut res = Response::new();
    let _ = res.set_status(204);
    let err = Err("Invalid status code provided, please refer to the standart RFC 9110".to_string());
    assert_eq!(res.set_status(99), err);
    assert_eq!(res.set_status(600), err);
    assert_eq!(res.set_status(-5), err);
    assert!(res.format_res().starts_with("HTTP/1.1 204\r\n"));
}

#[test]
fn set_http_accepts_each_version_name() {
    for v in [HttpVersion::Http1_1, HttpVersion::Http2, HttpVersion::Http3] {
        let mut res = Response::new();
        assert_eq!(res.set_http(v.as_str().to_string()), Ok(()));
        assert!(res.format_res().starts_with(&format!("{} -1\r\n", v.as_str())));
    }
}

#[test]
fn set_http_refuses_unknown_version() {
    let mut res = Response::new();
    let _ = res.set_http("HTTP/2".to_string());
    assert_eq!(
        res.set_http("HTTP/1.0".to_string()),
        Err("Unknown HTTP version was provided".to_string())
    );
    assert!(res.format_res().starts_with("HTTP/2 -1\r\n"));
}

#[test]
fn numeric_header_value_stands_bare_others_quoted() {
    let mut res = Response::new();
    let _ = res.set_status(200);
    res.add_header("Content-Type".to_string(), "text/plain".to_string());
    res.add_header("Content-Length".to_string(), "12".to_string());
    res.set_data("Hello World!".to_string());
    assert_eq!(
        res.format_res(),
        "HTTP/1.1 200\r\nContent-Type: 'text/plain'\r\nContent-Length: 12\r\n\r\nHello World!"
    );
}

#[test]
fn quotes_in_header_value_are_escaped() {
    let mut res = Response::new();
    res.add_header("X-Note".to_string(), "it's".to_string());
    assert_eq!(res.format_res(), "HTTP/1.1 -1\r\nX-Note: 'it\\'s'\r\n\r\n");
}

#[test]
fn empty_header_value_counts_as_numeric() {
    let mut res = Response::new();
    res.add_header("X-Empty".to_string(), String::new());
    assert_eq!(res.format_res(), "HTTP/1.1 -1\r\nX-Empty: \r\n\r\n");
}

#[test]
fn add_header_replaces_earlier_value() {
    let mut res = Response::new();
    res.add_header("A".to_string(), "1".to_string());
    res.add_header("B".to_string(), "2".to_string());
    res.add_header("A".to_string(), "3".to_string());
    assert_eq!(res.format_res(), "HTTP/1.1 -1\r\nB: 2\r\nA: 3\r\n\r\n");
}

#[test]
fn remove_header_drops_the_field() {
    let mut res = Response::new();
    res.add_header("A".to_string(), "1".to_string());
    res.add_header("B".to_string(), "2".to_string());
    res.remove_header(&"A".to_string());
    res.remove_header(&"Missing".to_string());
    assert_eq!(res.format_res(), "HTTP/1.1 -1\r\nB: 2\r\n\r\n");
}

#[test]
fn content_length_without_type_is_invalid() {
    let mut res = Response::new();
    let _ = res.set_status(200);
    res.add_header("Content-Length".to_string(), "0".to_string());
    assert!(res.wire_text().is_err());
    res.add_header("Content-Type".to_string(), "text/plain".to_string());
    assert_eq!(res.wire_text(), Ok(res.format_res()));
    res.remove_header(&"Content-Length".to_string());
    assert!(res.wire_text().is_err());
}

#[test]
fn push_data_appends_and_set_data_replaces() {
    let mut res = Response::new();
    res.set_data("ab".to_string());
    res.push_data("cd".to_string());
    assert!(res.format_res().ends_with("\r\n\r\n\r\nabcd"));
    res.set_data("x".to_string());
    assert!(res.format_res().ends_with("\r\n\r\n\r\nx"));
}

#[test]
fn method_names_read_back() {
    let all = [
        Method::Post,
        Method::Get,
        Method::Delete,
        Method::Put,
        Method::Head,
        Method::Connect,
        Method::Options,
        Method::Trace,
        Method::Patch,
        Method::Unknown,
    ];
    for m in all {
        let name = m.as_str();
        let back = Method::from_text(&name);
        assert_eq!(format!("{:?}", back), format!("{:?}", m));
    }
    assert_eq!(Method::Get.as_str(), "GET");
    assert!(matches!(Method::from_text(&"get".to_string()), Method::Unknown));
}

#[test]
fn request_head_is_parsed() {
    let req = Request::new(
        "127.0.0.1:5000",
        &head(&["GET /ping?x=1 HTTP/1.1", "Host: localhost:8080", "Accept:  */* "]),
    );
    assert_eq!(req.socket, "127.0.0.1");
    assert!(matches!(req.method, Method::Get));
    assert_eq!(req.url, "/ping?x=1");
    assert_eq!(req.http_version, "HTTP/1.1");
    assert_eq!(req.body, "");
    assert_eq!(
        req.header,
        vec![
            ("Host".to_string(), "localhost:8080".to_string()),
            ("Accept".to_string(), "*/*".to_string())
        ]
    );
}

#[test]
fn later_header_line_wins_and_request_line_repeats_are_skipped() {
    let req = Request::new(
        "10.0.0.2:1",
        &head(&["POST /a HTTP/2", "X: 1", "POST /a HTTP/2", "X: 2"]),
    );
    assert!(matches!(req.method, Method::Post));
    assert_eq!(req.header, vec![("X".to_string(), "2".to_string())]);
}

#[test]
fn short_request_line_leaves_fields_empty() {
    let req = Request::new("host", &head(&["BREW"]));
    assert!(matches!(req.method, Method::Unknown));
    assert_eq!(req.url, "");
    assert_eq!(req.http_version, "");
    assert_eq!(req.socket, "host");
    let empty = Request::new("h:1", &Vec::new());
    assert!(matches!(empty.method, Method::Unknown));
    assert!(empty.header.is_empty());
}

#[test]
fn ping_answers_hello_world() {
    let req = Request::new("a:1", &head(&["GET /ping HTTP/1.1"]));
    let res = listener(&req);
    assert_eq!(
        res.wire_text(),
        Ok("HTTP/1.1 200\r\nContent-Type: 'text/plain'\r\nContent-Length: 12\r\n\r\nHello World!".to_string())
    );
}

#[test]
fn not_found_names_the_route() {
    let req = Request::new("a:1", &head(&["GET /nowhere HTTP/1.1"]));
    let res = listener_404(&req);
    let body = "{ \"message\": \"Cannot find this route\", \"route\": \"/nowhere\" }";
    assert_eq!(
        res.format_res(),
        format!(
            "HTTP/1.1 404\r\nContent-Type: 'application/json'\r\nContent-Length: {}\r\n\r\n{}",
            body.len(),
            body
        )
    );
}

#[test]
fn content_length_counts_bytes() {
    let req = Request::new("a:1", &head(&["GET /é HTTP/1.1"]));
    let res = listener_404(&req);
    let body = "{ \"message\": \"Cannot find this route\", \"route\": \"/é\" }";
    assert!(res.format_res().contains(&format!("Content-Length: {}\r\n", body.len())));
    assert_eq!(body.len(), body.chars().count() + 1);
}

#[test]
fn respond_routes_requests() {
    let ping = Request::new("a:1", &head(&["GET /ping?verbose=1 HTTP/1.1"]));
    assert!(respond(false, &ping).format_res().starts_with("HTTP/1.1 200\r\n"));
    let other = Request::new("a:1", &head(&["GET /pingx HTTP/1.1"]));
    assert!(respond(false, &other).format_res().starts_with("HTTP/1.1 404\r\n"));
    let down = respond(true, &ping);
    let body = "{ \"message\": \"The service is currently unavailable, retry later\" }";
    assert_eq!(
        down.wire_text(),
        Ok(format!(
            "HTTP/1.1 503\r\nContent-Type: 'application/json'\r\nContent-Length: {}\r\n\r\n{}",
            body.len(),
            body
        ))
    );
}

#[test]
fn double_space_shifts_request_line_words() {
    let req = Request::new("a:1", &head(&["GET  /ping HTTP/1.1"]));
    assert_eq!(req.url, "");
    assert_eq!(req.http_version, "/ping HTTP/1.1");
    assert!(respond(false, &req).format_res().starts_with("HTTP/1.1 404\r\n"));
}

#[test]
fn remove_header_undoes_add_header() {
    let mut res = Response::new();
    let _ = res.set_status(200);
    res.add_header("Content-Type".to_string(), "text/plain".to_string());
    let before = res.format_res();
    res.add_header("X-Trace".to_string(), "abc".to_string());
    assert_ne!(res.format_res(), before);
    res.remove_header(&"X-Trace".to_string());
    assert_eq!(res.format_res(), before);
}

#[test]
fn request_line_starting_with_a_method_name_reads_that_method() {
    for m in [Method::Patch, Method::Delete, Method::Options, Method::Unknown] {
        let line = format!("{} whatever follows here", m.as_str());
        let req = Request::new("a:1", &head(&[line.as_str()]));
        assert_eq!(format!("{:?}", req.method), format!("{:?}", m));
    }
}

#[test]
fn is_numeric_holds_of_digits_and_other_number_characters() {
    let res = Response::new();
    assert!(res.is_numeric(&"12".to_string()));
    assert!(res.is_numeric(&String::new()));
    assert!(!res.is_numeric(&"1a".to_string()));
    assert!(res.is_numeric(&"\u{0663}\u{00be}".to_string()));
    assert!(!res.is_numeric(&"12 ".to_string()));
}
