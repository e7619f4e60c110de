use vstd::prelude::*;
use vstd::utf8::encode_utf8;

use crate::method::WebError;

verus! {

#[verifier::external_type_specification]
#[verifier::external_body]
pub struct ExJsonValue(serde_json::Value);

/// The compact JSON text of a value, as serde_json writes it.
pub uninterp spec fn json_text(v: serde_json::Value) -> Seq<char>;

/// Relies on serde_json's `Display` for `Value` (reached through
/// `to_string`): the compact JSON text, which depends on the value alone.
#[verifier::external_body]
fn json_to_string(v: &serde_json::Value) -> (r: String)
    ensures
        r@ == json_text(*v),
{
    v.to_string()
}

/// What a handler answers with: a payload tagged with its kind, or an error.
#[allow(non_camel_case_types)]
pub enum Response {
    HTML(String),
    XML(String),
    SVG(String),
    JS(String),
    JSON(serde_json::Value),
    TEXT(String),
    CSS(String),
    PNG(Vec<u8>),
    JPG(Vec<u8>),
    GIF(Vec<u8>),
    WEBP(Vec<u8>),
    ERROR(WebError),
}

/// The content type that each kind of payload is sent with; errors have none.
pub open spec fn content_type_of(r: Response) -> Option<Seq<char>> {
    match r {
        Response::HTML(_) => Some("text/html"@),
        Response::XML(_) => Some("text/xml"@),
        Response::SVG(_) => Some("image/svg+xml"@),
        Response::JS(_) => Some("application/javascript"@),
        Response::JSON(_) => Some("application/json"@),
        Response::TEXT(_) => Some("text/plain"@),
        Response::CSS(_) => Some("text/css"@),
        Response::PNG(_) => Some("image/png"@),
        Response::JPG(_) => Some("image/jpeg"@),
        Response::GIF(_) => Some("image/gif"@),
        Response::WEBP(_) => Some("image/webp"@),
        Response::ERROR(_) => None,
    }
}

/// The bytes of a payload: text as UTF-8, JSON as its compact text in
/// UTF-8, binary as it is.
pub open spec fn payload_bytes(r: Response) -> Seq<u8> {
    match r {
        Response::HTML(s) => encode_utf8(s@),
        Response::XML(s) => encode_utf8(s@),
        Response::SVG(s) => encode_utf8(s@),
        Response::JS(s) => encode_utf8(s@),
        Response::JSON(v) => encode_utf8(json_text(v)),
        Response::TEXT(s) => encode_utf8(s@),
        Response::CSS(s) => encode_utf8(s@),
        Response::PNG(b) => b@,
        Response::JPG(b) => b@,
        Response::GIF(b) => b@,
        Response::WEBP(b) => b@,
        Response::ERROR(_) => Seq::empty(),
    }
}

/// The status line and header that open every successful answer, up to
/// the content type.
pub open spec fn ok_head() -> Seq<char> {
    "HTTP/1.1 200 OK\r\nContent-Type: "@
}

/// The blank line that ends the header block.
pub open spec fn head_end() -> Seq<char> {
    "\r\n\r\n"@
}

/// The whole answer to a failed request: a bare status line.
pub open spec fn server_error_line() -> Seq<char> {
    "HTTP/1.1 500 INTERNAL SERVER ERROR"@
}

/// The whole answer where no route, not even the fallback, matched.
pub open spec fn not_found_line() -> Seq<char> {
    "HTTP/1.1 404 NOT FOUND"@
}

/// The bytes written back for a response: a 200 status line, the content
/// type, a blank line and the payload; for an error, the bare 500 line.
pub open spec fn encoded(r: Response) -> Seq<u8> {
    match content_type_of(r) {
        Some(ct) => encode_utf8(ok_head()) + encode_utf8(ct) + encode_utf8(head_end())
            + payload_bytes(r),
        None => encode_utf8(server_error_line()),
    }
}

/// Appends `b` to `out`.
pub fn push_bytes(out: &mut Vec<u8>, b: &[u8])
    ensures
        final(out)@ == old(out)@ + b@,
{
    let mut i: usize = 0;
    while i < b.len()
        invariant
            i <= b@.len(),
            out@ == old(out)@ + b@.take(i as int),
        decreases b@.len() - i,
    {
        out.push(b[i]);
        i = i + 1;
        assert(out@ =~= old(out)@ + b@.take(i as int));
    }
    assert(b@.take(b@.len() as int) =~= b@);
}

/// The UTF-8 bytes of a string.
pub fn str_bytes(s: &str) -> (r: Vec<u8>)
    ensures
        r@ == encode_utf8(s@),
{
    let mut out: Vec<u8> = Vec::new();
    push_bytes(&mut out, s.as_bytes());
    assert(out@ =~= encode_utf8(s@));
    out
}

impl Response {
    /// The content type this response is sent with; `None` for an error.
    pub fn content_type(&self) -> (r: Option<&'static str>)
        ensures
            match r {
                Some(ct) => content_type_of(*self) == Some(ct@),
                None => content_type_of(*self) is None,
            },
    {
        match self {
            Response::HTML(_) => Some("text/html"),
            Response::XML(_) => Some("text/xml"),
            Response::SVG(_) => Some("image/svg+xml"),
            Response::JS(_) => Some("application/javascript"),
            Response::JSON(_) => Some("application/json"),
            Response::TEXT(_) => Some("text/plain"),
            Response::CSS(_) => Some("text/css"),
            Response::PNG(_) => Some("image/png"),
            Response::JPG(_) => Some("image/jpeg"),
            Response::GIF(_) => Some("image/gif"),
            Response::WEBP(_) => Some("image/webp"),
            Response::ERROR(_) => None,
        }
    }

    /// The payload's bytes.
    pub fn payload(&self) -> (r: Vec<u8>)
        ensures
            r@ == payload_bytes(*self),
    {
        match self {
            Response::HTML(s) => str_bytes(s.as_str()),
            Response::XML(s) => str_bytes(s.as_str()),
            Response::SVG(s) => str_bytes(s.as_str()),
            Response::JS(s) => str_bytes(s.as_str()),
            Response::JSON(v) => {
                let text = json_to_string(v);
                str_bytes(text.as_str())
            },
            Response::TEXT(s) => str_bytes(s.as_str()),
            Response::CSS(s) => str_bytes(s.as_str()),
            Response::PNG(b) => b.clone(),
            Response::JPG(b) => b.clone(),
            Response::GIF(b) => b.clone(),
            Response::WEBP(b) => b.clone(),
            Response::ERROR(_) => Vec::new(),
        }
    }

    /// The bytes to write back on the connection for this response.
    pub fn encode(&self) -> (r: Vec<u8>)
        ensures
            r@ == encoded(*self),
    {
        match self.content_type() {
            Some(ct) => {
                let mut out = str_bytes("HTTP/1.1 200 OK\r\nContent-Type: ");
                push_bytes(&mut out, ct.as_bytes());
                push_bytes(&mut out, "\r\n\r\n".as_bytes());
                let body = self.payload();
                push_bytes(&mut out, body.as_slice());
                out
            },
            None => str_bytes("HTTP/1.1 500 INTERNAL SERVER ERROR"),
        }
    }
}

} // verus!
