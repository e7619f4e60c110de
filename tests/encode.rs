use dead_simple_webserver::{Response, WebError};

#[test]
fn content_types_follow_the_table() {
    let cases = [
        (Response::HTML(String::new()), "text/html"),
        (Response::XML(String::new()), "text/xml"),
        (Response::SVG(String::new()), "image/svg+xml"),
        (Response::JS(String::new()), "application/javascript"),
        (Response::JSON(serde_json::Value::Null), "application/json"),
        (Response::TEXT(String::new()), "text/plain"),
        (Response::CSS(String::new()), "text/css"),
        (Response::PNG(Vec::new()), "image/png"),
        (Response::JPG(Vec::new()), "image/jpeg"),
        (Response::GIF(Vec::new()), "image/gif"),
        (Response::WEBP(Vec::new()), "image/webp"),
    ];
    for (r, ct) in cases {
        assert_eq!(r.content_type(), Some(ct));
    }
    assert_eq!(Response::ERROR(WebError::NOT_FOUND).content_type(), None);
}

#[test]
fn text_response_encoding() {
    let out = Response::TEXT("héllo".to_string()).encode();
    let mut expected = b"HTTP/1.1 200 OK\r\nContent-Type: text/plain\r\n\r\n".to_vec();
    expected.extend_from_slice("héllo".as_bytes());
    assert_eq!(out, expected);
}

#[test]
fn binary_response_is_written_raw() {
    let out = Response::PNG(vec![0, 255, 13, 10]).encode();
    let mut expected = b"HTTP/1.1 200 OK\r\nContent-Type: image/png\r\n\r\n".to_vec();
    expected.extend_from_slice(&[0, 255, 13, 10]);
    assert_eq!(out, expected);
}

#[test]
fn json_response_is_compact_text() {
    let v: serde_json::Value =
        serde_json::from_str("{ \"messages\" : [ { \"username\" : \"alice\", \"message\" : \"hi\" } ] }")
            .unwrap();
    let r = Response::JSON(v);
    assert_eq!(
        r.payload(),
        b"{\"messages\":[{\"message\":\"hi\",\"username\":\"alice\"}]}".to_vec()
    );
    let out = String::from_utf8(r.encode()).unwrap();
    assert!(out.starts_with("HTTP/1.1 200 OK\r\nContent-Type: application/json\r\n\r\n{"));
}

#[test]
fn every_error_kind_is_a_bare_500() {
    for e in [WebError::BAD_REQUEST, WebError::NOT_FOUND, WebError::INTERNAL_SERVER_ERROR] {
        assert_eq!(
            Response::ERROR(e).encode(),
            b"HTTP/1.1 500 INTERNAL SERVER ERROR".to_vec()
        );
        assert!(Response::ERROR(e).payload().is_empty());
    }
}

#[test]
fn error_codes() {
    assert_eq!(WebError::BAD_REQUEST.code(), 400);
    assert_eq!(WebError::NOT_FOUND.code(), 404);
    assert_eq!(WebError::INTERNAL_SERVER_ERROR.code(), 500);
}
