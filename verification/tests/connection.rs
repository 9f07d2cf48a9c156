use distrust::connection::{
    drop_header, find_terminator, frame_response, handle_request, request_text, TransportError,
    BUFFER_SIZE,
};
use distrust::store::Store;

fn buffer(payload: &[u8]) -> Vec<u8> {
    let mut bytes = payload.to_vec();
    bytes.resize(BUFFER_SIZE, 0);
    bytes
}

fn serve(db: &mut Store, request: &str) -> Result<String, TransportError> {
    handle_request(&buffer(request.as_bytes()), db)
}

fn framed(body: &str) -> Result<String, TransportError> {
    Ok(format!("HTTP/1.1 200 OK \r\n\r\n{}\r\n", body))
}

#[test]
fn the_buffer_holds_512_bytes() {
    assert_eq!(BUFFER_SIZE, 512);
}

#[test]
fn find_terminator_finds_the_first_zero() {
    assert_eq!(find_terminator(&[1, 2, 0, 3, 0]), Some(2));
    assert_eq!(find_terminator(&[0, 0]), Some(0));
    assert_eq!(find_terminator(&[7, 0]), Some(1));
}

#[test]
fn find_terminator_without_a_zero() {
    assert_eq!(find_terminator(&[1, 2, 3]), None);
    assert_eq!(find_terminator(&[]), None);
}

#[test]
fn request_text_stops_at_the_first_zero() {
    assert_eq!(request_text(b"get x\0set y 1\0"), Ok("get x".to_string()));
    assert_eq!(request_text(&buffer(b"get x")), Ok("get x".to_string()));
}

#[test]
fn request_text_of_an_empty_payload() {
    assert_eq!(request_text(&buffer(b"")), Ok(String::new()));
    assert_eq!(request_text(&[0]), Ok(String::new()));
}

#[test]
fn request_text_decodes_utf8() {
    assert_eq!(request_text(&buffer("set clé été".as_bytes())), Ok("set clé été".to_string()));
    assert_eq!(request_text(&[0xe2, 0x82, 0xac, 0]), Ok("\u{20ac}".to_string()));
}

#[test]
fn request_text_without_a_terminator() {
    assert_eq!(request_text(&[b'a'; BUFFER_SIZE]), Err(TransportError::NoTerminator));
    assert_eq!(request_text(b"get x"), Err(TransportError::NoTerminator));
    assert_eq!(request_text(&[]), Err(TransportError::NoTerminator));
}

#[test]
fn request_text_of_bytes_that_are_no_text() {
    assert_eq!(request_text(&[0xff, 0]), Err(TransportError::InvalidText));
    assert_eq!(request_text(&buffer(&[b'g', 0xc3, b' '])), Err(TransportError::InvalidText));
    assert_eq!(request_text(&[0xe2, 0x82, 0]), Err(TransportError::InvalidText));
}

#[test]
fn a_missing_terminator_comes_before_bad_text() {
    assert_eq!(request_text(&[0xff, 0xfe]), Err(TransportError::NoTerminator));
}

#[test]
fn bytes_after_the_terminator_are_not_decoded() {
    assert_eq!(request_text(&[b'o', b'k', 0, 0xff, 0xfe]), Ok("ok".to_string()));
}

#[test]
fn drop_header_keeps_the_last_line() {
    assert_eq!(drop_header(&"POST / HTTP/1.1\r\nHost: localhost\r\n\r\nget name".to_string()), "get name");
    assert_eq!(drop_header(&"a\nb\nc".to_string()), "c");
}

#[test]
fn drop_header_of_a_single_line() {
    assert_eq!(drop_header(&"get name".to_string()), "get name");
    assert_eq!(drop_header(&String::new()), "");
}

#[test]
fn drop_header_trims_the_line() {
    assert_eq!(drop_header(&"header\n  get name \t\r".to_string()), "get name");
    assert_eq!(drop_header(&"  set k \"a  b\"  ".to_string()), "set k \"a  b\"");
}

#[test]
fn drop_header_skips_empty_lines_at_the_end() {
    assert_eq!(drop_header(&"get name\n".to_string()), "get name");
    assert_eq!(drop_header(&"get name\r\n".to_string()), "get name");
    assert_eq!(drop_header(&"header\nget name\n\n\n".to_string()), "get name");
}

#[test]
fn drop_header_of_empty_lines_only() {
    assert_eq!(drop_header(&"\n".to_string()), "");
    assert_eq!(drop_header(&"\n\n\n".to_string()), "");
}

#[test]
fn drop_header_keeps_a_last_line_of_white_space() {
    assert_eq!(drop_header(&"get name\n  ".to_string()), "");
    assert_eq!(drop_header(&"get name\r\n\r\n".to_string()), "");
}

#[test]
fn drop_header_splits_on_line_feeds_only() {
    assert_eq!(drop_header(&"a\rget name".to_string()), "a\rget name");
}

#[test]
fn frame_response_wraps_the_result() {
    assert_eq!(frame_response(&"Ok".to_string()), "HTTP/1.1 200 OK \r\n\r\nOk\r\n");
    assert_eq!(frame_response(&"john doe".to_string()), "HTTP/1.1 200 OK \r\n\r\njohn doe\r\n");
    assert_eq!(frame_response(&String::new()), "HTTP/1.1 200 OK \r\n\r\n\r\n");
}

#[test]
fn scenario_set_then_get() {
    let mut db = Store::new();
    assert_eq!(serve(&mut db, "set name \"john doe\""), framed("Ok"));
    assert_eq!(serve(&mut db, "get name"), framed("john doe"));
}

#[test]
fn scenario_last_write_wins() {
    let mut db = Store::new();
    assert_eq!(serve(&mut db, "set x 1"), framed("Ok"));
    assert_eq!(serve(&mut db, "set x 2"), framed("Ok"));
    assert_eq!(serve(&mut db, "get x"), framed("2"));
}

#[test]
fn scenario_bogus_command() {
    let mut db = Store::new();
    assert_eq!(serve(&mut db, "bogus"), framed("invalid command bogus"));
}

#[test]
fn scenario_request_with_headers() {
    let mut db = Store::new();
    let set = "POST / HTTP/1.1\r\nHost: 127.0.0.1:8080\r\nContent-Length: 7\r\n\r\nset a 1";
    let get = "POST / HTTP/1.1\r\nHost: 127.0.0.1:8080\r\nContent-Length: 5\r\n\r\nget a";
    assert_eq!(serve(&mut db, set), framed("Ok"));
    assert_eq!(serve(&mut db, get), framed("1"));
}

#[test]
fn an_empty_request_gets_an_empty_body() {
    let mut db = Store::new();
    assert_eq!(serve(&mut db, ""), framed(""));
    assert_eq!(serve(&mut db, "\n"), framed(""));
}

#[test]
fn a_line_feed_may_end_the_request() {
    let mut db = Store::new();
    assert_eq!(serve(&mut db, "set k v\n"), framed("Ok"));
    assert_eq!(serve(&mut db, "get k\r\n"), framed("v"));
}

#[test]
fn protocol_errors_are_sent_back() {
    let mut db = Store::new();
    assert_eq!(serve(&mut db, "get"), framed("expecting: get <key>"));
    assert_eq!(serve(&mut db, "set a"), framed("expecting: set <key> <value>"));
    assert_eq!(serve(&mut db, "foo"), framed("invalid command foo"));
}

#[test]
fn transport_errors_leave_the_store_alone() {
    let mut db = Store::new();
    assert_eq!(serve(&mut db, "set k v"), framed("Ok"));
    let mut full = b"set k w ".to_vec();
    full.resize(BUFFER_SIZE, b'x');
    assert_eq!(handle_request(&full, &mut db), Err(TransportError::NoTerminator));
    assert_eq!(
        handle_request(&buffer(&[b's', b'e', b't', b' ', b'k', b' ', 0xff]), &mut db),
        Err(TransportError::InvalidText)
    );
    assert_eq!(serve(&mut db, "get k"), framed("v"));
}

#[test]
fn only_the_payload_is_run() {
    let mut db = Store::new();
    assert_eq!(handle_request(b"set k v\0\nset k w\0", &mut db), framed("Ok"));
    assert_eq!(serve(&mut db, "get k"), framed("v"));
}
