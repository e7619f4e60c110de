use vstd::prelude::*;

verus! {

/// What httparse makes of the head of a request held in `data`: `None`
/// where it reports an error; otherwise the method and the request target
/// it found (either may be missing where the head is cut short) and the
/// number of header entries in its result.
pub uninterp spec fn http_head(data: Seq<u8>) -> Option<(Option<Seq<char>>, Option<Seq<char>>, nat)>;

/// A request head as read by httparse: method, target, header entries.
pub type RawHead = Option<(Option<String>, Option<String>, usize)>;

/// The plain values that a read head holds.
pub open spec fn head_view(h: RawHead) -> Option<(Option<Seq<char>>, Option<Seq<char>>, nat)> {
    match h {
        Some((m, p, n)) => Some(
            (
                match m {
                    Some(s) => Some(s@),
                    None => None,
                },
                match p {
                    Some(s) => Some(s@),
                    None => None,
                },
                n as nat,
            ),
        ),
        None => None,
    }
}

/// Relies on httparse::Request::parse, given room for 64 headers. On an
/// incomplete head it leaves the header slice as it was given (64 entries);
/// on a complete one it narrows it to the headers found.
#[verifier::external_body]
pub(crate) fn read_head(data: &[u8]) -> (r: RawHead)
    ensures
        head_view(r) == http_head(data@),
{
    let mut headers = [httparse::EMPTY_HEADER; 64];
    let mut req = httparse::Request::new(&mut headers);
    match req.parse(data) {
        Ok(_) => Some((
            req.method.map(|m| m.to_string()),
            req.path.map(|p| p.to_string()),
            req.headers.len(),
        )),
        Err(_) => None,
    }
}

/// Whether the four bytes at `i` are the blank line `\r\n\r\n`.
pub open spec fn blank_line_at(data: Seq<u8>, i: int) -> bool {
    0 <= i && i + 4 <= data.len() && data[i] == 13u8 && data[i + 1] == 10u8 && data[i + 2]
        == 13u8 && data[i + 3] == 10u8
}

/// The first blank line at or after position `i`.
pub open spec fn first_blank_line_from(data: Seq<u8>, i: int) -> Option<int>
    decreases data.len() - i,
{
    if i < 0 || i + 4 > data.len() {
        None
    } else if blank_line_at(data, i) {
        Some(i)
    } else {
        first_blank_line_from(data, i + 1)
    }
}

/// The body of a request: the bytes after the first blank line, or none.
pub open spec fn body_of(data: Seq<u8>) -> Seq<u8> {
    match first_blank_line_from(data, 0) {
        Some(i) => data.skip(i + 4),
        None => Seq::empty(),
    }
}

/// The body of a request: the bytes after the first `\r\n\r\n`, verbatim.
pub fn extract_body(data: &[u8]) -> (r: Vec<u8>)
    ensures
        r@ == body_of(data@),
{
    let n = data.len();
    let mut i: usize = 0;
    while i < n && n - i >= 4
        invariant
            n == data@.len(),
            i <= n,
            first_blank_line_from(data@, 0) == first_blank_line_from(data@, i as int),
        decreases n - i,
    {
        if data[i] == 13u8 && data[i + 1] == 10u8 && data[i + 2] == 13u8 && data[i + 3] == 10u8 {
            let mut body: Vec<u8> = Vec::new();
            let mut j: usize = i + 4;
            while j < n
                invariant
                    n == data@.len(),
                    i + 4 <= j <= n,
                    body@ == data@.subrange(i + 4, j as int),
                decreases n - j,
            {
                body.push(data[j]);
                j = j + 1;
                assert(body@ =~= data@.subrange(i + 4, j as int));
            }
            assert(body@ =~= data@.skip(i + 4));
            return body;
        }
        i = i + 1;
    }
    assert(first_blank_line_from(data@, i as int) is None);
    Vec::new()
}

/// The size of the chunks in which a connection is read.
pub const CHUNK_SIZE: usize = 2048;

/// Whether to read another chunk after a read that gave `read` (`None` for
/// a failed read): only a full chunk suggests that more is waiting.
pub fn needs_more(read: Option<usize>) -> (r: bool)
    ensures
        r == (read == Some(CHUNK_SIZE)),
{
    match read {
        Some(n) => n == CHUNK_SIZE,
        None => false,
    }
}

} // verus!
