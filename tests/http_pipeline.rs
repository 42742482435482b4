use flash::body::{decoder_for, BodyRead, BodyReader, Decoder, FixedDecoder};
use flash::conn::{ConnEnd, Connection};
use flash::date::{decimal_bytes, status_response, HttpDate};
use flash::head::{
    eq_ignore_ascii_case, framing, head_asks_upgrade, parse_length, parse_request_head, Framing, ParseStatus,
};
use flash::ops::{
    op_flash_claim_body, op_flash_get_connection, op_flash_mark_upgraded, ClaimError, op_flash_get_has_body, op_flash_get_headers, op_flash_get_method, op_flash_get_url,
    op_flash_try_write_status_str, BadResourceId,
};
use flash::registry::Registry;
use flash::request::{has_body, str_eq, Request, RequestError};

fn text(b: &[u8]) -> String {
    String::from_utf8(b.to_vec()).unwrap()
}

#[test]
fn parse_complete_head() {
    let buf = b"GET /x HTTP/1.1\r\nHost: a\r\n\r\nrest";
    match parse_request_head(buf) {
        ParseStatus::Complete(h) => {
            assert_eq!(h.method, "GET");
            assert_eq!(h.path, "/x");
            assert_eq!(h.headers, vec![(b"Host".to_vec(), b"a".to_vec())]);
            assert_eq!(h.len, buf.len() - 4);
        }
        _ => panic!("expected a complete head"),
    }
}

#[test]
fn parse_incomplete_and_malformed() {
    assert!(matches!(parse_request_head(b"GET /x HT"), ParseStatus::Incomplete));
    assert!(matches!(parse_request_head(b""), ParseStatus::Incomplete));
    assert!(matches!(parse_request_head(b"G\x01T / HTTP/1.1\r\n\r\n"), ParseStatus::Malformed));
}

#[test]
fn head_split_across_two_segments_completes_once() {
    let mut conn = Connection::new(16 * 1024);
    let first = conn.on_read(b"GET /x HTTP/1.1\r\nHo");
    assert!(first.heads.is_empty());
    assert!(first.end == ConnEnd::Open);
    let second = conn.on_read(b"st: a\r\n\r\n");
    assert_eq!(second.heads.len(), 1);
    assert!(second.end == ConnEnd::Open);
    assert_eq!(second.heads[0].path, "/x");
    assert!(conn.is_open());
}

#[test]
fn end_to_end_status_response() {
    let mut conn = Connection::new(16 * 1024);
    let mut requests: Registry<Request> = Registry::new();
    let mut dispatched = Vec::new();
    for segment in [&b"GET /x HTTP/1.1\r\nHos"[..], &b"t: a\r\n\r\n"[..]] {
        let out = conn.on_read(segment);
        for head in out.heads {
            dispatched.push(requests.add(Request::new(head, 0)));
        }
    }
    assert_eq!(dispatched.len(), 1);
    let id = dispatched[0];
    assert_eq!(op_flash_get_method(&requests, id).unwrap(), "GET");
    assert_eq!(op_flash_get_url(&requests, id).unwrap(), "/x");
    assert_eq!(op_flash_get_has_body(&requests, id).unwrap(), false);
    assert_eq!(
        op_flash_get_headers(&requests, id).unwrap(),
        vec![(b"Host".to_vec(), b"a".to_vec())]
    );
    let date = HttpDate::now(784111777);
    let bytes = op_flash_try_write_status_str(&mut requests, id, 200, "hi", &date).unwrap();
    let response = text(&bytes);
    assert!(response.starts_with("HTTP/1.1 200 OK"));
    assert!(response.contains("Content-Length: 2\r\n"));
    assert!(response.ends_with("\r\n\r\nhi"));
    assert_eq!(
        response,
        "HTTP/1.1 200 OK\r\nDate: Sun, 06 Nov 1994 08:49:37 GMT\r\ncontent-type: text/plain;charset=utf-8\r\nContent-Length: 2\r\n\r\nhi"
    );
    assert_eq!(
        op_flash_try_write_status_str(&mut requests, id, 200, "hi", &date),
        Err(BadResourceId(id))
    );
    assert_eq!(op_flash_get_method(&requests, id), Err(BadResourceId(id)));
}

#[test]
fn pipelined_requests_dispatch_in_order() {
    let mut conn = Connection::new(16 * 1024);
    let out = conn.on_read(b"GET /a HTTP/1.1\r\nHost: x\r\n\r\nGET /b HTTP/1.1\r\nHost: x\r\n\r\n");
    assert_eq!(out.heads.len(), 2);
    assert_eq!(out.heads[0].path, "/a");
    assert_eq!(out.heads[1].path, "/b");
    assert!(out.end == ConnEnd::Open);
    let next = conn.on_read(b"GET /c HTTP/1.1\r\n\r\n");
    assert_eq!(next.heads.len(), 1);
    assert_eq!(next.heads[0].path, "/c");
}

#[test]
fn pipelined_tail_waits_for_more_bytes() {
    let mut conn = Connection::new(16 * 1024);
    let out = conn.on_read(b"GET /a HTTP/1.1\r\n\r\nGET /b HT");
    assert_eq!(out.heads.len(), 1);
    assert_eq!(out.heads[0].path, "/a");
    let out = conn.on_read(b"TP/1.1\r\n\r\n");
    assert_eq!(out.heads.len(), 1);
    assert_eq!(out.heads[0].path, "/b");
}

#[test]
fn split_points_do_not_change_heads() {
    let stream: &[u8] = b"GET /a HTTP/1.1\r\nHost: x\r\n\r\nPOST /b HTTP/1.1\r\nContent-Length: 0\r\n\r\nGET /c HTTP/1.1\r\n\r\n";
    let mut whole = Connection::new(1 << 16);
    let expected: Vec<String> = whole.on_read(stream).heads.into_iter().map(|h| h.path).collect();
    assert_eq!(expected, vec!["/a", "/b", "/c"]);
    for size in 1..stream.len() {
        let mut conn = Connection::new(1 << 16);
        let mut got = Vec::new();
        for piece in stream.chunks(size) {
            let out = conn.on_read(piece);
            assert!(out.end == ConnEnd::Open);
            got.extend(out.heads.into_iter().map(|h| h.path));
        }
        assert_eq!(got, expected);
    }
}

#[test]
fn malformed_input_closes_connection() {
    let mut conn = Connection::new(16 * 1024);
    let out = conn.on_read(b"GET /a HTTP/1.1\r\n\r\n\x01\x02 nonsense\r\n\r\n");
    assert_eq!(out.heads.len(), 1);
    assert!(out.end == ConnEnd::Malformed);
    assert!(!conn.is_open());
}

#[test]
fn empty_read_means_peer_closed() {
    let mut conn = Connection::new(16 * 1024);
    let out = conn.on_read(b"");
    assert!(out.heads.is_empty());
    assert!(out.end == ConnEnd::PeerClosed);
    assert!(!conn.is_open());
}

#[test]
fn oversized_head_is_rejected() {
    let mut conn = Connection::new(8);
    let out = conn.on_read(b"GET /a-long-path HTTP/1.1\r\n");
    assert!(out.heads.is_empty());
    assert!(out.end == ConnEnd::HeadTooLarge);
    assert!(!conn.is_open());
}

#[test]
fn request_body_claimed_once() {
    let head = match parse_request_head(b"POST /u HTTP/1.1\r\nContent-Length: 3\r\n\r\n") {
        ParseStatus::Complete(h) => h,
        _ => panic!("expected a complete head"),
    };
    let mut req = Request::new(head, 0);
    assert!(req.has_body());
    assert_eq!(req.claim_body(), Ok(()));
    assert_eq!(req.claim_body(), Err(RequestError::BodyAlreadyRead));
    let head = match parse_request_head(b"PUT /u HTTP/1.1\r\n\r\n") {
        ParseStatus::Complete(h) => h,
        _ => panic!("expected a complete head"),
    };
    let mut req = Request::new(head, 0);
    req.mark_upgraded();
    assert_eq!(req.claim_body(), Err(RequestError::Upgraded));
}

#[test]
fn body_presence_follows_method() {
    assert!(!has_body("GET"));
    assert!(!has_body("HEAD"));
    assert!(has_body("POST"));
    assert!(has_body("GETS"));
    assert!(!has_body(""));
    assert!(str_eq("abc", "abc"));
    assert!(!str_eq("abc", "abd"));
    assert!(!str_eq("abc", "ab"));
}

#[test]
fn decimal_and_status_line() {
    assert_eq!(decimal_bytes(0), b"0".to_vec());
    assert_eq!(decimal_bytes(404), b"404".to_vec());
    assert_eq!(decimal_bytes(u64::MAX), u64::MAX.to_string().into_bytes());
    let r = status_response(404, "D", "");
    assert_eq!(
        text(&r),
        "HTTP/1.1 404 OK\r\nDate: D\r\ncontent-type: text/plain;charset=utf-8\r\nContent-Length: 0\r\n\r\n"
    );
}

#[test]
fn http_date_follows_clock() {
    let mut d = HttpDate::now(0);
    assert_eq!(d.current_date, "Thu, 01 Jan 1970 00:00:00 GMT");
    d.update(784111777);
    assert_eq!(d.current_date, "Sun, 06 Nov 1994 08:49:37 GMT");
}

#[test]
fn registry_hands_out_ids_in_order() {
    let mut r: Registry<u8> = Registry::new();
    assert_eq!(r.add(7), 0);
    assert_eq!(r.add(9), 1);
    assert_eq!(r.get(1), Some(&9));
    assert_eq!(r.take(0), Some(7));
    assert_eq!(r.take(0), None);
    assert_eq!(r.get(0), None);
    assert_eq!(r.get(5), None);
}

#[test]
fn upgrade_request_pauses_parsing_until_resumed() {
    let mut conn = Connection::new(16 * 1024);
    let out = conn.on_read(b"GET /a HTTP/1.1\r\n\r\nGET /chat HTTP/1.1\r\nUPGRADE: websocket\r\n\r\nGET /b HTTP/1.1\r\n\r\n");
    assert_eq!(out.heads.len(), 2);
    assert_eq!(out.heads[1].path, "/chat");
    assert!(out.end == ConnEnd::Upgrade);
    let out = conn.resume();
    assert_eq!(out.heads.len(), 1);
    assert_eq!(out.heads[0].path, "/b");
    assert!(out.end == ConnEnd::Open);
}

#[test]
fn upgrade_header_detection() {
    assert!(eq_ignore_ascii_case(b"UpGrade", b"upgrade"));
    assert!(!eq_ignore_ascii_case(b"upgrades", b"upgrade"));
    let head = match parse_request_head(b"GET / HTTP/1.1\r\nHost: h\r\nupgrade: x\r\n\r\n") {
        ParseStatus::Complete(h) => h,
        _ => panic!("expected a complete head"),
    };
    assert!(head_asks_upgrade(&head));
    let head = match parse_request_head(b"GET / HTTP/1.1\r\nHost: h\r\n\r\n") {
        ParseStatus::Complete(h) => h,
        _ => panic!("expected a complete head"),
    };
    assert!(!head_asks_upgrade(&head));
}

fn head_of(bytes: &[u8]) -> flash::head::RequestHead {
    match parse_request_head(bytes) {
        ParseStatus::Complete(h) => h,
        _ => panic!("expected a complete head"),
    }
}

#[test]
fn body_framing_from_headers() {
    assert_eq!(framing(&head_of(b"GET / HTTP/1.1\r\n\r\n")), Framing::Empty);
    assert_eq!(framing(&head_of(b"POST / HTTP/1.1\r\nContent-Length: 12\r\n\r\n")), Framing::Length(12));
    assert_eq!(framing(&head_of(b"POST / HTTP/1.1\r\ncontent-length: 0\r\n\r\n")), Framing::Empty);
    assert_eq!(framing(&head_of(b"POST / HTTP/1.1\r\nTransfer-Encoding: Chunked\r\n\r\n")), Framing::Chunked);
    assert_eq!(framing(&head_of(b"POST / HTTP/1.1\r\nTransfer-Encoding: gzip\r\n\r\n")), Framing::Invalid);
    assert_eq!(framing(&head_of(b"POST / HTTP/1.1\r\nContent-Length: 1x\r\n\r\n")), Framing::Invalid);
    assert_eq!(parse_length(b"18446744073709551615"), Some(usize::MAX));
    assert_eq!(parse_length(b"18446744073709551616"), None);
    assert_eq!(parse_length(b""), None);
    assert_eq!(parse_length(b"007"), Some(7));
    assert!(decoder_for(Framing::Length(3)) == Decoder::Fixed(FixedDecoder { content_read: 0, content_length: 3 }));
    assert!(decoder_for(Framing::Chunked) == Decoder::Chunked(()));
    assert!(decoder_for(Framing::Empty) == Decoder::NoBody);
}

#[test]
fn pipelined_request_after_body() {
    let mut conn = Connection::new(16 * 1024);
    let out = conn.on_read(b"POST /a HTTP/1.1\r\nContent-Length: 5\r\n\r\nhel");
    assert_eq!(out.heads.len(), 1);
    assert!(out.end == ConnEnd::Body);
    let mut reader = BodyReader::new(true, decoder_for(framing(&out.heads[0])));
    assert_eq!(conn.feed_body(&mut reader), 3);
    let mut body = Vec::new();
    if let BodyRead::Chunk(c) = reader.read() {
        body.extend(c);
    }
    assert!(matches!(reader.read(), BodyRead::Pending));
    conn.buffer(b"loGET /b HTTP/1.1\r\n\r\n");
    assert_eq!(conn.feed_body(&mut reader), 2);
    if let BodyRead::Chunk(c) = reader.read() {
        body.extend(c);
    }
    assert_eq!(body, b"hello".to_vec());
    assert!(matches!(reader.read(), BodyRead::End));
    let out = conn.resume();
    assert_eq!(out.heads.len(), 1);
    assert_eq!(out.heads[0].path, "/b");
    assert!(out.end == ConnEnd::Open);
}

#[test]
fn invalid_framing_is_malformed() {
    let mut conn = Connection::new(16 * 1024);
    let out = conn.on_read(b"POST /a HTTP/1.1\r\nContent-Length: abc\r\n\r\n");
    assert!(out.heads.is_empty());
    assert!(out.end == ConnEnd::Malformed);
    assert!(!conn.is_open());
}

#[test]
fn pipelined_pair_parser_premises() {
    let a: &[u8] = b"GET /a HTTP/1.1\r\nHost: x\r\n\r\n";
    let b: &[u8] = b"GET /b HTTP/1.1\r\nHost: x\r\n\r\n";
    let both = [a, b].concat();
    match parse_request_head(&both) {
        ParseStatus::Complete(h) => assert_eq!(h.len, a.len()),
        _ => panic!("expected a complete head"),
    }
    match parse_request_head(b) {
        ParseStatus::Complete(h) => assert_eq!(h.len, b.len()),
        _ => panic!("expected a complete head"),
    }
    assert!(matches!(parse_request_head(b""), ParseStatus::Incomplete));
    let mut conn = Connection::new(1024);
    let out = conn.on_read(&both);
    assert!(out.end == ConnEnd::Open);
    let mut requests: Registry<Request> = Registry::new();
    let ids: Vec<u32> = out.heads.into_iter().map(|h| requests.add(Request::new(h, 42))).collect();
    assert_eq!(ids, vec![0, 1]);
    assert_eq!(op_flash_get_url(&requests, 0).unwrap(), "/a");
    assert_eq!(op_flash_get_url(&requests, 1).unwrap(), "/b");
    assert_eq!(op_flash_get_connection(&requests, 0), Ok(42));
    assert_eq!(op_flash_get_connection(&requests, 1), Ok(42));
    assert_eq!(op_flash_get_connection(&requests, 2), Err(BadResourceId(2)));
}

#[test]
fn body_claimed_through_the_table() {
    let mut requests: Registry<Request> = Registry::new();
    let id = requests.add(Request::new(head_of(b"POST /u HTTP/1.1\r\nContent-Length: 1\r\n\r\n"), 0));
    assert_eq!(op_flash_claim_body(&mut requests, id), Ok(()));
    assert_eq!(
        op_flash_claim_body(&mut requests, id),
        Err(ClaimError::Request(RequestError::BodyAlreadyRead))
    );
    let up = requests.add(Request::new(head_of(b"GET /ws HTTP/1.1\r\n\r\n"), 0));
    assert_eq!(op_flash_mark_upgraded(&mut requests, up), Ok(()));
    assert_eq!(op_flash_claim_body(&mut requests, up), Err(ClaimError::Request(RequestError::Upgraded)));
    assert_eq!(op_flash_claim_body(&mut requests, 9), Err(ClaimError::BadResource(BadResourceId(9))));
    assert_eq!(op_flash_mark_upgraded(&mut requests, 9), Err(BadResourceId(9)));
    assert_eq!(op_flash_get_url(&requests, up).unwrap(), "/ws");
    requests.restore(up, Request::new(head_of(b"GET /again HTTP/1.1\r\n\r\n"), 0));
    assert_eq!(op_flash_get_url(&requests, up).unwrap(), "/again");
}
