use vstd::prelude::*;
use vstd::string::StringSliceAdditionalSpecFns;
use vstd::utf8::encode_utf8;

use crate::header::{
    accepts_html, is_header_value_byte, is_local_redirect_target, is_readable_header, is_valid_header_value,
    opt_bytes, readable_header, sanitize_referrer, slash, spec_accepts_html,
    spec_sanitize_referrer, valid_header_value,
};

verus! {

/// Status code of a `302 Found` response.
pub const FOUND: u16 = 302;

/// What a redirect asked for by a component does to the response.
#[derive(Debug)]
pub enum RedirectAction {
    /// The target cannot be a header value: the response becomes
    /// `400 Bad Request` and gets no `Location`.
    BadRequest,
    /// A plain form request: `Location` is set and the status becomes
    /// `302 Found`.
    Found(Vec<u8>),
    /// A request from the server-function client: `Location` is set and the
    /// client is told by the server-function redirect header to follow it.
    ClientRedirect(Vec<u8>),
}

/// Decides how a component's call to redirect to `path` changes the response,
/// from the request's `Accept` header.
pub fn redirect(path: &str, accept: &Option<Vec<u8>>) -> (r: RedirectAction)
    ensures
        r is BadRequest <==> !valid_header_value(path.spec_bytes()),
        r matches RedirectAction::Found(l) ==> l@ == path.spec_bytes() && spec_accepts_html(
            opt_bytes(*accept),
        ),
        r matches RedirectAction::ClientRedirect(l) ==> l@ == path.spec_bytes()
            && !spec_accepts_html(opt_bytes(*accept)),
{
    let bytes = path.as_bytes();
    if !is_valid_header_value(bytes) {
        return RedirectAction::BadRequest;
    }
    let location = vstd::slice::slice_to_vec(bytes);
    if accepts_html(accept) {
        RedirectAction::Found(location)
    } else {
        RedirectAction::ClientRedirect(location)
    }
}

/// The status and `Location` that a server-function response ends with.
#[derive(Debug)]
pub struct RedirectOutcome {
    /// The response's status code.
    pub status: u16,
    /// When present, the `Location` header is set to these bytes.
    pub location: Option<Vec<u8>>,
}

/// `Location: /` on the response: it reads as text and is a single slash.
pub open spec fn is_default_location(location: Option<Seq<u8>>) -> bool {
    match location {
        Some(l) => readable_header(l) && l == slash(),
        None => false,
    }
}

/// The status and redirect target after the redirect rule for HTML form
/// submissions: a form that posted to a server function is sent back to the
/// page it came from, unless the function chose another place.
pub open spec fn referrer_redirect(
    accept: Option<Seq<u8>>,
    referrer: Option<Seq<u8>>,
    status: u16,
    location: Option<Seq<u8>>,
) -> (u16, Option<Seq<u8>>) {
    if spec_accepts_html(accept) && referrer is Some && (location is None || is_default_location(
        location,
    )) {
        match spec_sanitize_referrer(referrer->0) {
            Some(target) => (FOUND, Some(target)),
            None => if location is None {
                (FOUND, Some(slash()))
            } else {
                (status, None)
            },
        }
    } else {
        (status, None)
    }
}

/// What `finish_server_fn_response` gives: after the referrer rule, a
/// `Location` that the server function set itself is replaced by its safe
/// form, or by `/` when it has none.
pub open spec fn spec_finish_server_fn_response(
    accept: Option<Seq<u8>>,
    referrer: Option<Seq<u8>>,
    status: u16,
    location: Option<Seq<u8>>,
) -> (u16, Option<Seq<u8>>) {
    let (s, target) = referrer_redirect(accept, referrer, status, location);
    if target is None && location is Some {
        match spec_sanitize_referrer(location->0) {
            Some(t) => (s, Some(t)),
            None => (s, Some(slash())),
        }
    } else {
        (s, target)
    }
}

/// Decides the status and `Location` of a server function's response, from the
/// request's `Accept` and referrer headers and the status and `Location` the
/// function answered with.
pub fn finish_server_fn_response(
    accept: &Option<Vec<u8>>,
    referrer: &Option<Vec<u8>>,
    status: u16,
    location: &Option<Vec<u8>>,
) -> (r: RedirectOutcome)
    ensures
        (r.status, opt_bytes(r.location)) == spec_finish_server_fn_response(
            opt_bytes(*accept),
            opt_bytes(*referrer),
            status,
            opt_bytes(*location),
        ),
        r.location is Some ==> is_local_redirect_target(r.location->0@) && valid_header_value(
            r.location->0@,
        ),
{
    proof {
        server_fn_redirects_stay_local(
            opt_bytes(*accept),
            opt_bytes(*referrer),
            status,
            opt_bytes(*location),
        );
    }
    let mut status = status;
    let mut target: Option<Vec<u8>> = None;
    let has_location = location.is_some();
    let is_default = match location {
        Some(l) => is_readable_header(l.as_slice()) && l.len() == 1 && l[0] == '/' as u8,
        None => false,
    };
    proof {
        if let Some(l) = location {
            if l@.len() == 1 && l@[0] == '/' as u8 {
                assert(l@ =~= slash());
            }
        }
    }
    if accepts_html(accept) {
        if let Some(r) = referrer {
            if !has_location || is_default {
                match sanitize_referrer(r.as_slice()) {
                    Some(sanitized) => {
                        status = FOUND;
                        target = Some(sanitized);
                    },
                    None => {
                        if !has_location {
                            status = FOUND;
                            target = Some(vec!['/' as u8]);
                            assert(opt_bytes(target) == Some(slash()));
                            assert(valid_header_value(slash()));
                        }
                    },
                }
            }
        }
    }
    if target.is_none() {
        if let Some(l) = location {
            target = match sanitize_referrer(l.as_slice()) {
                Some(t) => Some(t),
                None => Some(vec!['/' as u8]),
            };
            assert(target matches Some(t) && (spec_sanitize_referrer(l@) is None ==> t@ == slash()));
            assert(valid_header_value(slash()));
        }
    }
    RedirectOutcome { status, location: target }
}

/// A server function's response is only redirected back for a request that
/// names the page it came from: without a referrer the response keeps its
/// status, and without a `Location` of its own it gets none, whatever the
/// request accepts. Without an `Accept` header the status is kept as well.
pub proof fn no_referrer_keeps_the_response(
    accept: Option<Seq<u8>>,
    referrer: Option<Seq<u8>>,
    status: u16,
    location: Option<Seq<u8>>,
)
    ensures
        referrer is None ==> spec_finish_server_fn_response(accept, referrer, status, location).0
            == status,
        referrer is None && location is None ==> spec_finish_server_fn_response(
            accept,
            referrer,
            status,
            location,
        ) == (status, None::<Seq<u8>>),
        accept is None ==> spec_finish_server_fn_response(accept, referrer, status, location).0
            == status,
        location is Some ==> spec_finish_server_fn_response(accept, referrer, status, location).1 is Some,
{
}

/// Every `Location` that a server function's response ends with stays on this
/// site: it starts with a single slash and holds no backslash, plain or
/// percent-encoded.
pub proof fn server_fn_redirects_stay_local(
    accept: Option<Seq<u8>>,
    referrer: Option<Seq<u8>>,
    status: u16,
    location: Option<Seq<u8>>,
)
    ensures
        spec_finish_server_fn_response(accept, referrer, status, location).1 matches Some(t)
            ==> is_local_redirect_target(t),
{
    assert(slash().take(1) =~= slash());
    assert(!slash().contains('\\' as u8));
    assert(is_local_redirect_target(slash()));
    if let Some(r) = referrer {
        lemma_sanitized_is_local(r);
    }
    if let Some(l) = location {
        lemma_sanitized_is_local(l);
    }
}

/// Whatever `sanitize_referrer` keeps is a local redirect target.
pub proof fn lemma_sanitized_is_local(v: Seq<u8>)
    ensures
        spec_sanitize_referrer(v) matches Some(t) ==> is_local_redirect_target(t),
{
}

/// `redirect` answers `400 Bad Request` exactly for a target holding a
/// control character other than a tab, or DEL: any other text, non-ASCII
/// characters included, can be a `Location`. Every byte from 128 up is
/// allowed in a header value.
pub proof fn only_control_characters_are_refused(path: Seq<char>)
    ensures
        !valid_header_value(encode_utf8(path)) <==> exists|i: int|
            0 <= i < path.len() && (((path[i] as u32) < 32 && path[i] != '\t') || (path[i] as u32)
                == 127),
        forall|b: u8| b >= 128 ==> is_header_value_byte(b),
{
    let bytes = encode_utf8(path);
    if !valid_header_value(bytes) {
        let k = choose|k: int| 0 <= k < bytes.len() && !is_header_value_byte(#[trigger] bytes[k]);
        let b = bytes[k];
        assert(b < 128);
        crate::decode::lemma_encoded_ascii_byte(path, b);
        assert(bytes.contains(b));
        let i = choose|i: int| 0 <= i < path.len() && path[i] == b as char;
        assert((path[i] as u32) == b as u32);
        assert(((path[i] as u32) < 32 && path[i] != '\t') || (path[i] as u32) == 127) by {
            if b == 9 {
                assert(false);
            }
            if (path[i] as u32) < 32 && path[i] == '\t' {
                assert(b == 9);
            }
        }
    }
    if exists|i: int|
        0 <= i < path.len() && (((path[i] as u32) < 32 && path[i] != '\t') || (path[i] as u32)
            == 127) {
        let i = choose|i: int|
            0 <= i < path.len() && (((path[i] as u32) < 32 && path[i] != '\t') || (path[i] as u32)
                == 127);
        let c = path[i];
        let b = (c as u32) as u8;
        assert(b as u32 == c as u32);
        vstd::utf8::char_u32_cast(c, c as u32);
        assert((b as char) == c) by {
            vstd::utf8::char_u32_cast(b as char, b as u32);
        }
        crate::decode::lemma_encoded_ascii_byte(path, b);
        assert(path.contains(b as char));
        let k = choose|k: int| 0 <= k < bytes.len() && bytes[k] == b;
        assert(b != 9) by {
            if b == 9 {
                assert(c == '\t');
            }
        }
        assert(!is_header_value_byte(bytes[k]));
    }
}

/// A redirect target holding a line break can never become a `Location`
/// header (no header can be smuggled in through it): `redirect` answers
/// `400 Bad Request` for it.
pub proof fn line_breaks_are_refused(path: Seq<char>)
    requires
        path.contains('\n') || path.contains('\r'),
    ensures
        !valid_header_value(encode_utf8(path)),
{
    crate::decode::lemma_encoded_ascii_byte(path, 10u8);
    crate::decode::lemma_encoded_ascii_byte(path, 13u8);
    assert((10u8 as char) == '\n');
    assert((13u8 as char) == '\r');
    let bytes = encode_utf8(path);
    if bytes.contains(10u8) {
        let k = choose|k: int| 0 <= k < bytes.len() && bytes[k] == 10u8;
        assert(!is_header_value_byte(bytes[k]));
    } else {
        let k = choose|k: int| 0 <= k < bytes.len() && bytes[k] == 13u8;
        assert(!is_header_value_byte(bytes[k]));
    }
}

} // verus!
