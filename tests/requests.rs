use zimple::connection::{acknowledge, begin_request, load_response, parse_post, Step};
use zimple::method::{classify_method, sniff_method, HttpMethod};
use zimple::request::{content_length, extract_body, simple_find};
use zimple::resolve::{resolve, resolve_request, target_of};
use zimple::response::build_response;
use zimple::status::{ResCode, Response};

const NOT_IMPLEMENTED: &[u8] = b"<h1>501 Error</h1><p>Not Implemented</p>";
const NOT_FOUND_DOC: &[u8] = b"<h1>ERROR 404</h1><p>Not Found</p>";

fn load_step(prefix: &[u8], window: &[u8]) -> zimple::resolve::ResolvedResource {
    match begin_request(prefix, window) {
        Step::Load(res) => res,
        other => panic!("expected a file to load, got {:?}", other),
    }
}

#[test]
fn get_root_serves_index() {
    let res = load_step(b"GET", b" / HTTP/1.1\r\nHost: localhost\r\n\r\n");
    assert_eq!(res.path, b"./server/server_content/index.html".to_vec());
    assert!(res.found);
    let index = b"<html>index</html>".to_vec();
    let resp = load_response(&res, Some(index.clone()), NOT_FOUND_DOC.to_vec());
    assert_eq!(resp.status, ResCode::Success);
    assert_eq!(resp.body, index);
    assert_eq!(
        build_response(&resp),
        b"HTTP/1.1 200\r\nContent-Length: 18\r\n\r\n<html>index</html>".to_vec()
    );
}

#[test]
fn get_traversal_is_not_found() {
    let res = load_step(b"GET", b" /../../etc/passwd HTTP/1.1\r\n\r\n");
    assert_eq!(res.path, b"./server/server_content/404.html".to_vec());
    assert!(!res.found);
    let resp = load_response(&res, Some(b"root:x:0:0".to_vec()), NOT_FOUND_DOC.to_vec());
    assert_eq!(resp.status, ResCode::NotFound);
    assert_eq!(resp.body, NOT_FOUND_DOC.to_vec());
    let wire = build_response(&resp);
    assert_eq!(
        wire,
        b"HTTP/1.1 404\r\nContent-Length: 34\r\n\r\n<h1>ERROR 404</h1><p>Not Found</p>".to_vec()
    );
}

#[test]
fn get_missing_file_is_not_found() {
    let res = load_step(b"GET", b" /missing.html HTTP/1.1\r\n\r\n");
    assert_eq!(res.path, b"./server/server_content/missing.html".to_vec());
    assert!(res.found);
    let resp = load_response(&res, None, NOT_FOUND_DOC.to_vec());
    assert_eq!(resp.status, ResCode::NotFound);
    assert_eq!(resp.body, NOT_FOUND_DOC.to_vec());
}

#[test]
fn get_plain_target_serves_file_bytes() {
    let res = load_step(b"GET", b" /docs/page.html HTTP/1.1\r\n\r\n");
    assert_eq!(res.path, b"./server/server_content/docs/page.html".to_vec());
    let bytes = vec![0u8, 255, 10, 13, 65];
    let resp = load_response(&res, Some(bytes.clone()), NOT_FOUND_DOC.to_vec());
    assert_eq!(resp.status, ResCode::Success);
    assert_eq!(resp.body, bytes);
}

#[test]
fn traversal_guard_is_a_substring_test() {
    for target in [&b"/foo..bar"[..], b"..", b"/a/..", b"~", b"/~user/x", b"/a~b"] {
        let res = resolve(target);
        assert_eq!(res.path, b"./server/server_content/404.html".to_vec());
        assert!(!res.found);
    }
    let res = resolve(b"/a.b.c");
    assert_eq!(res.path, b"./server/server_content/a.b.c".to_vec());
    assert!(res.found);
}

#[test]
fn root_is_an_exact_match_only() {
    let res = resolve(b"/?x=1");
    assert_eq!(res.path, b"./server/server_content/?x=1".to_vec());
    assert!(res.found);
    let res = resolve(b"//");
    assert_eq!(res.path, b"./server/server_content//".to_vec());
    let res = resolve_request(b" /?x=1 HTTP/1.1\r\n");
    assert_eq!(res.path, b"./server/server_content/?x=1".to_vec());
}

#[test]
fn window_without_target_is_not_found() {
    let res = resolve_request(b"");
    assert_eq!(res.path, b"./server/server_content/404.html".to_vec());
    assert!(!res.found);
    let res = resolve_request(b"nothing-here");
    assert!(!res.found);
    assert_eq!(target_of(b"nothing-here"), None);
}

#[test]
fn target_is_second_space_separated_piece() {
    assert_eq!(target_of(b" /index.html HTTP/1.1"), Some(b"/index.html".to_vec()));
    assert_eq!(target_of(b"T /form HTTP/1.1"), Some(b"/form".to_vec()));
    assert_eq!(target_of(b" /end"), Some(b"/end".to_vec()));
    assert_eq!(target_of(b"  x"), Some(Vec::new()));
}

#[test]
fn post_with_zero_length_is_acknowledged() {
    let window = b"T / HTTP/1.1\r\nHost: localhost\r\nContent-Length: 0\r\n\r\n";
    assert_eq!(begin_request(b"POS", window), Step::ReadBody(0));
    let req = parse_post(window, b"");
    assert_eq!(req.content_length, 0);
    assert_eq!(req.body, Vec::<u8>::new());
    let resp = acknowledge(&req);
    assert_eq!(resp.status, ResCode::Success);
    assert!(resp.body.is_empty());
    assert_eq!(build_response(&resp), b"HTTP/1.1 200\r\nContent-Length: 0\r\n\r\n".to_vec());
}

#[test]
fn post_declared_length_is_read() {
    let window = b"T /form HTTP/1.1\r\nContent-Length: 17\r\nContent-Type: text/plain\r\n\r\n";
    assert_eq!(begin_request(b"POS", window), Step::ReadBody(17));
    let extra = b"seventeen bytes!!";
    assert_eq!(extra.len(), 17);
    let req = parse_post(window, extra);
    assert_eq!(req.content_length, 17);
    assert_eq!(req.body, extra.to_vec());
    assert_eq!(req.content_type, "content-type: text/plain\r".to_string());
    assert_eq!(req.accept, String::new());
}

#[test]
fn post_without_length_reads_nothing() {
    assert_eq!(begin_request(b"POS", b"T / HTTP/1.1\r\nHost: a\r\n\r\n"), Step::ReadBody(0));
    assert_eq!(content_length(b""), 0);
}

#[test]
fn unreadable_length_is_zero() {
    assert_eq!(content_length(b"T / HTTP/1.1\r\nContent-Length: abc\r\n"), 0);
    assert_eq!(content_length(b"Content-Length: -5\r\n"), 0);
    assert_eq!(content_length(b"Content-Length: \r\n"), 0);
    assert_eq!(content_length(b"Content-Length: 99999999999999999999999\r\n"), 0);
    assert_eq!(content_length(b"Content-Length: 1 2\r\n"), 0);
}

#[test]
fn length_header_is_case_insensitive() {
    assert_eq!(content_length(b"x\r\ncontent-length:42\r\n"), 42);
    assert_eq!(content_length(b"x\nCONTENT-LENGTH:\t7 \r\n"), 7);
    assert_eq!(content_length(b"x\nContent-Length: +8\n"), 8);
    assert_eq!(content_length(b"Content-Length: 3\nContent-Length: 9\n"), 3);
}

#[test]
fn unimplemented_methods_get_501() {
    for prefix in [&b"PUT"[..], b"DEL", b"PAT", b"XXX", b"get", b"GE", b""] {
        match begin_request(prefix, b" / HTTP/1.1\r\n\r\n") {
            Step::Reply(resp) => {
                assert_eq!(resp.status, ResCode::NotImplemented);
                assert_eq!(resp.body, NOT_IMPLEMENTED.to_vec());
            }
            other => panic!("expected a reply, got {:?}", other),
        }
    }
}

#[test]
fn unknown_prefix_scenario_wire_bytes() {
    let resp = match begin_request(b"XXX", b" / HTTP/1.1\r\n\r\n") {
        Step::Reply(resp) => resp,
        other => panic!("expected a reply, got {:?}", other),
    };
    let mut expected = b"HTTP/1.1 501\r\nContent-Length: 40\r\n\r\n".to_vec();
    expected.extend_from_slice(NOT_IMPLEMENTED);
    assert_eq!(build_response(&resp), expected);
}

#[test]
fn sniffing_defaults_to_get() {
    assert_eq!(sniff_method(b"GET"), HttpMethod::Get);
    assert_eq!(sniff_method(b"POS"), HttpMethod::Post);
    assert_eq!(sniff_method(b"PUT"), HttpMethod::Put);
    assert_eq!(sniff_method(b"DEL"), HttpMethod::Delete);
    assert_eq!(sniff_method(b"PAT"), HttpMethod::Patch);
    assert_eq!(sniff_method(b"XXX"), HttpMethod::Get);
    assert_eq!(sniff_method(b"pos"), HttpMethod::Get);
    assert_eq!(classify_method(b"XXX"), None);
    assert_eq!(classify_method(b"pos"), None);
    assert_eq!(classify_method(b"DEL"), Some(HttpMethod::Delete));
}

#[test]
fn status_codes_have_their_wire_form() {
    let all = [
        (ResCode::Success, 200u16, "200"),
        (ResCode::MovedPermanently, 301, "301"),
        (ResCode::Unauthorized, 401, "401"),
        (ResCode::Forbidden, 403, "403"),
        (ResCode::NotFound, 404, "404"),
        (ResCode::NotImplemented, 501, "501"),
    ];
    for (code, number, text) in all {
        assert_eq!(code.code(), number);
        assert_eq!(code.make(), text.to_string());
    }
}

#[test]
fn content_length_equals_body_length() {
    for len in [0usize, 1, 9, 10, 99, 100, 1234, 100000] {
        let resp = Response { status: ResCode::Forbidden, body: vec![b'z'; len] };
        let wire = build_response(&resp);
        let mut expected = format!("HTTP/1.1 403\r\nContent-Length: {}\r\n\r\n", len).into_bytes();
        expected.extend(std::iter::repeat(b'z').take(len));
        assert_eq!(wire, expected);
    }
}

#[test]
fn simple_find_returns_lower_case_line() {
    let text = "POST / HTTP/1.1\r\nAccept: Text/HTML\r\nHost: a";
    assert_eq!(simple_find(text, "accept:"), "accept: text/html\r".to_string());
    assert_eq!(simple_find(text, "host:"), "host: a".to_string());
    assert_eq!(simple_find(text, "content-type:"), String::new());
    assert_eq!(simple_find("", "x"), String::new());
}

#[test]
fn simple_find_folds_unicode_case() {
    assert_eq!(simple_find("x\nÉTÉ\ny", "é"), "été".to_string());
    assert_eq!(simple_find("ÀB\nàb", "àb"), "àb".to_string());
    assert_eq!(simple_find("Straße", "STRASSE"), String::new());
}

#[test]
fn invalid_utf8_header_is_decoded_lossily() {
    let req = parse_post(b"T / HTTP/1.1\r\nAccept: \xff text\r\nContent-Length: 2\r\n\r\n", b"ok");
    assert_eq!(req.accept, "accept: \u{FFFD} text\r".to_string());
    assert_eq!(req.content_length, 2);
    assert_eq!(req.body, b"ok".to_vec());
    assert_eq!(content_length(b"\xfe\xff\nContent-Length: 5\n"), 5);
}

#[test]
fn body_is_between_blank_lines() {
    assert_eq!(extract_body(b"head\r\n\r\nbody"), b"body".to_vec());
    assert_eq!(extract_body(b"head\r\n\r\nbody\r\n\r\nmore"), b"body".to_vec());
    assert_eq!(extract_body(b"head only\r\n"), Vec::<u8>::new());
    assert_eq!(extract_body(b"\r\n\r\n"), Vec::<u8>::new());
}
