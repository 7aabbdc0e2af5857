use vstd::prelude::*;
use vstd::string::StringSliceAdditionalSpecFns;
use vstd::utf8::encode_utf8;

use crate::response::{Body, PresetResponse, BAD_REQUEST, PAYLOAD_TOO_LARGE};

verus! {

/// The largest request body that is accepted, in bytes (16 MiB); a larger one
/// is answered with `413 Payload Too Large`.
pub const MAX_REQUEST_BODY_SIZE: usize = 16 * 1024 * 1024;

/// The decimal digits of a number, as ASCII bytes.
pub open spec fn decimal(n: nat) -> Seq<u8>
    decreases n,
{
    if n < 10 {
        seq![(48 + n) as u8]
    } else {
        decimal(n / 10).push((48 + n % 10) as u8)
    }
}

fn push_decimal(out: &mut Vec<u8>, n: usize)
    ensures
        final(out)@ == old(out)@ + decimal(n as nat),
    decreases n,
{
    if n >= 10 {
        push_decimal(out, n / 10);
    }
    let digit: u8 = (n % 10) as u8;
    out.push(48 + digit);
    assert(final(out)@ =~= old(out)@ + decimal(n as nat));
}

/// The body of the answer to a request whose body is over the limit:
/// `Request body too large (max: <limit> bytes)`.
pub open spec fn too_large_message(limit: nat) -> Seq<u8> {
    encode_utf8("Request body too large (max: "@) + decimal(limit) + encode_utf8(" bytes)"@)
}

/// The body of the answer to a request whose body could not be read:
/// `Failed to read request body: ` and the reason.
pub open spec fn read_failure_message(reason: Seq<char>) -> Seq<u8> {
    encode_utf8("Failed to read request body: "@) + encode_utf8(reason)
}

/// The answer to a request whose body is over `limit` bytes:
/// `413 Payload Too Large`, saying the limit.
pub fn payload_too_large_response<S>(limit: usize) -> (r: PresetResponse<S>)
    ensures
        r.status == PAYLOAD_TOO_LARGE,
        r.content_type is None,
        r.body matches Body::Sync(b) && b@ == too_large_message(limit as nat),
{
    let head = "Request body too large (max: ";
    let tail = " bytes)";
    let mut body = vstd::slice::slice_to_vec(head.as_bytes());
    push_decimal(&mut body, limit);
    let mut rest = vstd::slice::slice_to_vec(tail.as_bytes());
    body.append(&mut rest);
    PresetResponse { status: PAYLOAD_TOO_LARGE, content_type: None, body: Body::Sync(body) }
}

/// The answer to a request whose body stream failed: `400 Bad Request`,
/// saying why.
pub fn read_failure_response<S>(reason: &str) -> (r: PresetResponse<S>)
    ensures
        r.status == BAD_REQUEST,
        r.content_type is None,
        r.body matches Body::Sync(b) && b@ == read_failure_message(reason@),
{
    let head = "Failed to read request body: ";
    let mut body = vstd::slice::slice_to_vec(head.as_bytes());
    let mut rest = vstd::slice::slice_to_vec(reason.as_bytes());
    body.append(&mut rest);
    PresetResponse { status: BAD_REQUEST, content_type: None, body: Body::Sync(body) }
}

/// Whether a body known in full, of `len` bytes, is within the limit.
pub fn body_within_limit(len: usize) -> (r: bool)
    ensures
        r == (len <= MAX_REQUEST_BODY_SIZE),
{
    len <= MAX_REQUEST_BODY_SIZE
}

/// Collects a streamed request body chunk by chunk, never holding more than
/// the limit.
pub struct BodyCollector {
    bytes: Vec<u8>,
}

impl BodyCollector {
    #[verifier::type_invariant]
    spec fn within_limit(self) -> bool {
        self.bytes@.len() <= MAX_REQUEST_BODY_SIZE
    }

    /// The bytes collected so far.
    pub closed spec fn collected(self) -> Seq<u8> {
        self.bytes@
    }

    /// Starts with no bytes.
    pub fn new() -> (r: Self)
        ensures
            r.collected() == Seq::<u8>::empty(),
    {
        BodyCollector { bytes: Vec::new() }
    }

    /// Adds the next chunk when the body stays within the limit, and says
    /// whether it did; a chunk that would take it over the limit is refused
    /// and nothing changes.
    pub fn push_chunk(&mut self, chunk: &[u8]) -> (accepted: bool)
        ensures
            accepted == (old(self).collected().len() + chunk@.len() <= MAX_REQUEST_BODY_SIZE),
            accepted ==> final(self).collected() == old(self).collected() + chunk@,
            !accepted ==> final(self).collected() == old(self).collected(),
            final(self).collected().len() <= MAX_REQUEST_BODY_SIZE,
    {
        proof {
            use_type_invariant(&*self);
        }
        if chunk.len() > MAX_REQUEST_BODY_SIZE - self.bytes.len() {
            return false;
        }
        let mut v = vstd::slice::slice_to_vec(chunk);
        let mut bytes: Vec<u8> = Vec::new();
        std::mem::swap(&mut bytes, &mut self.bytes);
        bytes.append(&mut v);
        self.bytes = bytes;
        true
    }

    /// Gives back the bytes collected.
    pub fn into_bytes(self) -> (r: Vec<u8>)
        ensures
            r@ == self.collected(),
            r@.len() <= MAX_REQUEST_BODY_SIZE,
    {
        proof {
            use_type_invariant(&self);
        }
        self.bytes
    }
}

} // verus!
