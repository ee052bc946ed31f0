use hanode::client::{
    parse_response, read_be_i32, read_complete, request_message, response_from_head, take_header,
    ClientError, ContentFields, HeaderField, Response, ResponseHead, UdsClientOptions, MAX_HEADERS,
};

const ANSWER: &[u8] = b"HTTP/1.1 200 OK\r\ncontent-length: 2\r\nContent-Type: application/json\r\nDATE: Mon, 01 Jan 2024 00:00:00 GMT\r\nx-other: 1\r\n\r\n[]";

fn header(name: &str, value: &[u8]) -> HeaderField {
    HeaderField { name: name.to_string(), value: value.to_vec() }
}

#[test]
fn the_request_is_a_get_with_fixed_headers() {
    let opts = UdsClientOptions {
        uds_sock_path: "./hanode.sock".to_string(),
        url_path: "/peers".to_string(),
    };
    assert_eq!(
        request_message(&opts),
        "GET /peers HTTP/1.1\r\nHost: localhost\r\nUser-Agent: client/0.0.1\r\nAccept: */*\r\n\r\n"
    );
}

#[test]
fn reading_ends_with_an_empty_read_or_a_buffer_with_room() {
    assert!(read_complete(0, 256, 256));
    assert!(read_complete(10, 10, 256));
    assert!(!read_complete(256, 256, 256));
    assert!(!read_complete(1, 300, 256));
}

#[test]
fn a_good_answer_is_read_in_full() {
    assert_eq!(
        parse_response(ANSWER),
        Ok(Response {
            status: 200,
            content_type: "application/json".to_string(),
            content_length: 2,
            body: "[]".to_string(),
            date: "Mon, 01 Jan 2024 00:00:00 GMT".to_string(),
        })
    );
}

#[test]
fn an_answer_without_headers_has_empty_fields() {
    assert_eq!(
        parse_response(b"HTTP/1.1 200 OK\r\n\r\nstop"),
        Ok(Response {
            status: 200,
            content_type: String::new(),
            content_length: 0,
            body: "stop".to_string(),
            date: String::new(),
        })
    );
}

#[test]
fn the_later_of_two_headers_counts() {
    let r = parse_response(b"HTTP/1.1 200 OK\r\nContent-Length: 1\r\nContent-Length: 5\r\n\r\nhello")
        .unwrap();
    assert_eq!(r.content_length, 5);
    assert_eq!(r.body, "hello");
}

#[test]
fn an_answer_that_is_not_utf8_is_refused() {
    assert_eq!(parse_response(b"HTTP/1.1 200 OK\r\n\r\n\xff\xfe"), Err(ClientError::NotUtf8));
    assert_eq!(parse_response(b"\xc3"), Err(ClientError::NotUtf8));
}

#[test]
fn an_answer_that_is_no_http_is_refused() {
    assert_eq!(
        parse_response(b"hello there\r\n\r\n"),
        Err(ClientError::Malformed { detail: "Version".to_string() })
    );
    assert_eq!(
        parse_response(b"HTTP/1.1 abc OK\r\n\r\n"),
        Err(ClientError::Malformed { detail: "Status".to_string() })
    );
    assert_eq!(
        parse_response(b"HTTP/1.1 200 OK\r\nbad name: 1\r\n\r\n"),
        Err(ClientError::Malformed { detail: "HeaderName".to_string() })
    );
}

#[test]
fn an_answer_with_too_many_headers_is_refused() {
    let mut bytes = b"HTTP/1.1 200 OK\r\n".to_vec();
    for i in 0..MAX_HEADERS {
        bytes.extend_from_slice(format!("x-{}: v\r\n", i).as_bytes());
    }
    let mut full = bytes.clone();
    full.extend_from_slice(b"\r\nok");
    assert_eq!(parse_response(&full).unwrap().body, "ok");
    bytes.extend_from_slice(b"x-more: v\r\n\r\nok");
    assert_eq!(
        parse_response(&bytes),
        Err(ClientError::Malformed { detail: "TooManyHeaders".to_string() })
    );
}

#[test]
fn any_status_but_200_is_an_error() {
    assert_eq!(
        parse_response(b"HTTP/1.1 404 Not Found\r\ncontent-length: 0\r\n\r\n"),
        Err(ClientError::Status { code: Some(404) })
    );
    assert_eq!(
        parse_response(b"HTTP/1.1 500 Internal Server Error\r\n"),
        Err(ClientError::Status { code: Some(500) })
    );
    assert_eq!(parse_response(b"HTTP/1."), Err(ClientError::Status { code: None }));
    assert_eq!(parse_response(b""), Err(ClientError::Status { code: None }));
}

#[test]
fn an_answer_whose_head_is_cut_short_is_incomplete() {
    assert_eq!(
        parse_response(b"HTTP/1.1 200 OK\r\ncontent-length: 2\r\n"),
        Err(ClientError::Incomplete)
    );
}

#[test]
fn a_negative_content_length_wraps_around() {
    let r = parse_response(b"HTTP/1.1 200 OK\r\ncontent-length: -2\r\n\r\n[]").unwrap();
    assert_eq!(r.content_length, -2i32 as usize);
    assert_eq!(r.content_length, usize::MAX - 1);
}

#[test]
fn a_content_length_must_be_a_32_bit_integer() {
    assert_eq!(
        parse_response(b"HTTP/1.1 200 OK\r\ncontent-length: two\r\n\r\n[]"),
        Err(ClientError::BadContentLength)
    );
    assert_eq!(
        parse_response(b"HTTP/1.1 200 OK\r\ncontent-length: 2147483648\r\n\r\n[]"),
        Err(ClientError::BadContentLength)
    );
    assert_eq!(
        parse_response(b"HTTP/1.1 200 OK\r\ncontent-length: 4294967296\r\n\r\n[]"),
        Err(ClientError::BadContentLength)
    );
}

#[test]
fn a_head_is_turned_into_a_response_field_by_field() {
    let buf = b"0123456789body";
    let head = ResponseHead {
        code: Some(200),
        body_offset: Some(10),
        headers: vec![
            header("Content-TYPE", b"text/plain"),
            header("CONTENT-length", b"4"),
            header("Date", b"today"),
            header("date", b"tomorrow"),
            header("x-content-length", b"junk"),
        ],
    };
    assert_eq!(
        response_from_head(&head, buf),
        Ok(Response {
            status: 200,
            content_type: "text/plain".to_string(),
            content_length: 4,
            body: "body".to_string(),
            date: "tomorrow".to_string(),
        })
    );
}

#[test]
fn a_head_can_fail_in_five_ways() {
    let buf = b"ab\xc3\xa9";
    let good = ResponseHead { code: Some(200), body_offset: Some(2), headers: vec![] };
    assert_eq!(response_from_head(&good, buf).unwrap().body, "\u{e9}");

    let status = ResponseHead { code: Some(201), ..good.clone() };
    assert_eq!(response_from_head(&status, buf), Err(ClientError::Status { code: Some(201) }));
    let partial = ResponseHead { body_offset: None, ..good.clone() };
    assert_eq!(response_from_head(&partial, buf), Err(ClientError::Incomplete));
    let value = ResponseHead { headers: vec![header("x", b"\xff")], ..good.clone() };
    assert_eq!(response_from_head(&value, buf), Err(ClientError::HeaderNotUtf8));
    let length = ResponseHead { headers: vec![header("Content-Length", b"")], ..good.clone() };
    assert_eq!(response_from_head(&length, buf), Err(ClientError::BadContentLength));
    let past = ResponseHead { body_offset: Some(5), ..good.clone() };
    assert_eq!(response_from_head(&past, buf), Err(ClientError::BadBody));
    let split = ResponseHead { body_offset: Some(3), ..good.clone() };
    assert_eq!(response_from_head(&split, buf), Err(ClientError::BadBody));
    let end = ResponseHead { body_offset: Some(4), ..good.clone() };
    assert_eq!(response_from_head(&end, buf).unwrap().body, "");
    let first = ResponseHead {
        headers: vec![header("content-length", b"x"), header("y", b"\xff")],
        ..good
    };
    assert_eq!(response_from_head(&first, buf), Err(ClientError::BadContentLength));
}

#[test]
fn four_bytes_are_read_most_significant_first() {
    assert_eq!(read_be_i32(&[0, 0, 0, 0]), 0);
    assert_eq!(read_be_i32(&[0, 0, 1, 2]), 258);
    assert_eq!(read_be_i32(&[0x12, 0x34, 0x56, 0x78]), 0x12345678);
    assert_eq!(read_be_i32(&[0x7f, 0xff, 0xff, 0xff]), i32::MAX);
    assert_eq!(read_be_i32(&[0x80, 0, 0, 0]), i32::MIN);
    assert_eq!(read_be_i32(&[0xff, 0xff, 0xff, 0xff]), -1);
    assert_eq!(read_be_i32(&[0xff, 0xff, 0xff, 0xfe]), -2);
}

#[test]
fn a_header_is_taken_by_its_name_in_lower_case() {
    let none = ContentFields::new();
    assert_eq!(none.content_length, 0);
    assert_eq!(none.content_type, "");
    assert_eq!(none.date, "");

    let a = take_header(none.clone(), "content-length", b"17").unwrap();
    assert_eq!(
        a,
        ContentFields { content_length: 17, content_type: String::new(), date: String::new() }
    );
    let b = take_header(a, "content-type", b"text/plain").unwrap();
    let c = take_header(b, "date", b"today").unwrap();
    assert_eq!(
        c,
        ContentFields {
            content_length: 17,
            content_type: "text/plain".to_string(),
            date: "today".to_string(),
        }
    );
    assert_eq!(take_header(c.clone(), "x-other", b"anything"), Ok(c.clone()));
    assert_eq!(take_header(c.clone(), "Content-Length", b"3"), Ok(c.clone()));
    assert_eq!(take_header(c.clone(), "DATE", b"later"), Ok(c.clone()));
    assert_eq!(take_header(c.clone(), "", b""), Ok(c.clone()));
    assert_eq!(take_header(c.clone(), "date", b"").unwrap().date, "");
}

#[test]
fn a_header_can_fail_in_two_ways() {
    let none = ContentFields::new();
    assert_eq!(take_header(none.clone(), "x-other", b"\xff"), Err(ClientError::HeaderNotUtf8));
    assert_eq!(take_header(none.clone(), "content-length", b"\xff"), Err(ClientError::HeaderNotUtf8));
    assert_eq!(take_header(none.clone(), "content-length", b"x"), Err(ClientError::BadContentLength));
    assert_eq!(take_header(none.clone(), "content-length", b" 1"), Err(ClientError::BadContentLength));
    assert_eq!(take_header(none, "content-length", b"-1").unwrap().content_length, usize::MAX);
}
