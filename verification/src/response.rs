use vstd::prelude::*;
use vstd::string::StringSliceAdditionalSpecFns;

verus! {

/// Status code of `200 OK`.
pub const OK: u16 = 200;

/// Status code of `400 Bad Request`.
pub const BAD_REQUEST: u16 = 400;

/// Status code of `404 Not Found`.
pub const NOT_FOUND: u16 = 404;

/// Status code of `413 Payload Too Large`.
pub const PAYLOAD_TOO_LARGE: u16 = 413;

/// A response body: bytes known in full, or a stream of them.
#[derive(Debug)]
pub enum Body<S> {
    Sync(Vec<u8>),
    Async(S),
}

/// A response decided before any rendering: its status, its `Content-Type`
/// when it sets one, and its body.
#[derive(Debug)]
pub struct PresetResponse<S> {
    pub status: u16,
    pub content_type: Option<String>,
    pub body: Body<S>,
}

/// The body of the answer when nothing serves the request: `404 not found`.
pub open spec fn not_found_text() -> Seq<u8> {
    "404 not found"@.map_values(|c: char| c as u8)
}

/// The answer when nothing serves the request: `404 Not Found` with the body
/// `404 not found`.
pub fn not_found_response<S>() -> (r: PresetResponse<S>)
    ensures
        r.status == NOT_FOUND,
        r.content_type is None,
        r.body matches Body::Sync(b) && b@ == not_found_text(),
{
    let text = "404 not found";
    proof {
        reveal_strlit("404 not found");
        vstd::string::is_ascii_spec_bytes(text);
    }
    let body = vstd::slice::slice_to_vec(text.as_bytes());
    assert(body@ =~= not_found_text());
    PresetResponse { status: NOT_FOUND, content_type: None, body: Body::Sync(body) }
}

} // verus!
