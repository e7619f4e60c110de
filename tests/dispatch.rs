use std::sync::{Arc, Mutex};

use dead_simple_webserver::request::{extract_body, needs_more, CHUNK_SIZE};
use dead_simple_webserver::{Dispatch, Method, ParamMap, Response, WebService};

type Handler = fn(&Arc<Mutex<Vec<String>>>, &ParamMap, &[u8]) -> Response;

fn chat(state: &Arc<Mutex<Vec<String>>>, _params: &ParamMap, body: &[u8]) -> Response {
    let value: serde_json::Value = serde_json::from_slice(body).unwrap();
    let message = value.get("message").and_then(|m| m.as_str()).unwrap().to_string();
    let mut history = state.lock().unwrap();
    history.push(message);
    Response::JSON(serde_json::Value::from(history.clone()))
}

fn not_found(_state: &Arc<Mutex<Vec<String>>>, _params: &ParamMap, _body: &[u8]) -> Response {
    Response::HTML("404 :(".to_string())
}

fn service(with_fallback: bool) -> WebService<Handler, Arc<Mutex<Vec<String>>>> {
    let s = WebService::new("127.0.0.1:8000", Arc::new(Mutex::new(Vec::new())))
        .register("/chat", Method::POST, chat as Handler);
    if with_fallback {
        s.register("404", Method::GET, not_found as Handler)
    } else {
        s
    }
}

fn run(s: &WebService<Handler, Arc<Mutex<Vec<String>>>>, data: &[u8]) -> Vec<u8> {
    match s.dispatch(data) {
        Dispatch::Handle { route, params, body, .. } => {
            let handler = s.path_manager().handler(route);
            handler(s.shared_data(), &params, &body).encode()
        }
        d => d.answer().unwrap(),
    }
}

fn post_chat(message: &str) -> Vec<u8> {
    format!(
        "POST /chat HTTP/1.1\r\nHost: x\r\nContent-Type: application/json\r\n\r\n{{\"username\":\"alice\",\"message\":\"{}\"}}",
        message
    )
    .into_bytes()
}

#[test]
fn chat_post_returns_history_and_keeps_earlier_messages() {
    let s = service(false);
    let first = run(&s, &post_chat("hi"));
    let text = String::from_utf8(first).unwrap();
    assert_eq!(text, "HTTP/1.1 200 OK\r\nContent-Type: application/json\r\n\r\n[\"hi\"]");
    let second = run(&s, &post_chat("there"));
    let text = String::from_utf8(second).unwrap();
    assert!(text.ends_with("[\"hi\",\"there\"]"));
    assert_eq!(s.shared_data().lock().unwrap().len(), 2);
}

#[test]
fn dispatch_carries_body_and_args() {
    let s = service(false);
    let data = b"POST /chat?x=1&y HTTP/1.1\r\nHost: x\r\n\r\nhello";
    match s.dispatch(data) {
        Dispatch::Handle { route, params, args, body } => {
            assert_eq!(route, 0);
            assert!(params.entries().is_empty());
            assert_eq!(args.get("x"), Some(&"1".to_string()));
            assert_eq!(args.get("y"), None);
            assert_eq!(body, b"hello".to_vec());
        }
        _ => panic!("expected a handler call"),
    }
}

#[test]
fn unregistered_path_uses_404_route() {
    let s = service(true);
    let out = run(&s, b"GET /nowhere HTTP/1.1\r\nHost: x\r\n\r\n");
    assert_eq!(out, b"HTTP/1.1 200 OK\r\nContent-Type: text/html\r\n\r\n404 :(".to_vec());
}

#[test]
fn unregistered_path_without_404_route_is_bare_404() {
    let s = service(false);
    let d = s.dispatch(b"GET /nowhere HTTP/1.1\r\nHost: x\r\n\r\n");
    assert!(matches!(d, Dispatch::NotFound));
    assert_eq!(d.answer().unwrap(), b"HTTP/1.1 404 NOT FOUND".to_vec());
}

#[test]
fn request_without_header_block_is_rejected_unhandled() {
    let calls = std::cell::Cell::new(0u32);
    let s = service(true);
    for data in [&b"GET / HTTP/1.1\r\n\r\n"[..], &b"\x00\x01garbage"[..]] {
        let d = s.dispatch(data);
        if let Dispatch::Handle { .. } = d {
            calls.set(calls.get() + 1);
        }
        assert!(matches!(d, Dispatch::Malformed));
        assert_eq!(d.answer().unwrap(), b"HTTP/1.1 500 INTERNAL SERVER ERROR".to_vec());
    }
    assert_eq!(calls.get(), 0);
}

#[test]
fn unknown_method_is_routed_as_get() {
    let s = service(true);
    let d = s.dispatch(b"FETCH /x HTTP/1.1\r\nHost: x\r\n\r\n");
    match d {
        Dispatch::Handle { route, .. } => assert_eq!(route, 1),
        _ => panic!("expected the fallback route"),
    }
}

#[test]
fn body_after_first_blank_line_verbatim() {
    assert_eq!(extract_body(b"a\r\n\r\nb\r\n\r\nc"), b"b\r\n\r\nc".to_vec());
    assert_eq!(extract_body(b"a\r\nb"), Vec::<u8>::new());
    assert_eq!(extract_body(b"\r\n\r\n"), Vec::<u8>::new());
}

#[test]
fn only_a_full_chunk_reads_more() {
    assert!(needs_more(Some(CHUNK_SIZE)));
    assert!(!needs_more(Some(CHUNK_SIZE - 1)));
    assert!(!needs_more(Some(0)));
    assert!(!needs_more(None));
}

#[test]
fn service_keeps_address() {
    let s = service(false);
    assert_eq!(s.addr(), "127.0.0.1:8000");
    assert_eq!(s.path_manager().len(), 1);
}
