use vstd::prelude::*;

use crate::text::{
    bytes_contain, bytes_contain_byte, bytes_start_with, contains_seq, occurs_at, starts_with,
};

verus! {

/// A byte that a header value may hold and still be read as text: visible
/// ASCII or a horizontal tab.
pub open spec fn is_visible_ascii(b: u8) -> bool {
    (32 <= b && b < 127) || b == 9
}

/// A byte that a header value may hold at all: anything but control bytes
/// (the tab excepted) and DEL.
pub open spec fn is_header_value_byte(b: u8) -> bool {
    (32 <= b && b != 127) || b == 9
}

/// The header value can be read as text.
pub open spec fn readable_header(v: Seq<u8>) -> bool {
    forall|i: int| 0 <= i < v.len() ==> is_visible_ascii(#[trigger] v[i])
}

/// The bytes form a valid header value.
pub open spec fn valid_header_value(v: Seq<u8>) -> bool {
    forall|i: int| 0 <= i < v.len() ==> is_header_value_byte(#[trigger] v[i])
}

/// `/`
pub open spec fn slash() -> Seq<u8> {
    seq!['/' as u8]
}

/// `//`
pub open spec fn double_slash() -> Seq<u8> {
    seq!['/' as u8, '/' as u8]
}

/// A slash followed by a backslash.
pub open spec fn slash_backslash() -> Seq<u8> {
    seq!['/' as u8, '\\' as u8]
}

/// `%5c`
pub open spec fn escaped_backslash_lower() -> Seq<u8> {
    seq!['%' as u8, '5' as u8, 'c' as u8]
}

/// `%5C`
pub open spec fn escaped_backslash_upper() -> Seq<u8> {
    seq!['%' as u8, '5' as u8, 'C' as u8]
}

/// `text/html`
pub open spec fn text_html() -> Seq<u8> {
    seq!['t' as u8, 'e' as u8, 'x' as u8, 't' as u8, '/' as u8, 'h' as u8, 't' as u8, 'm' as u8, 'l' as u8]
}

/// A path-and-query that can be redirected to without leaving the site: it
/// starts with one slash (not two), and holds no backslash, plain or
/// percent-encoded.
pub open spec fn is_local_redirect_target(pq: Seq<u8>) -> bool {
    &&& !starts_with(pq, slash_backslash())
    &&& !pq.contains('\\' as u8)
    &&& !contains_seq(pq, escaped_backslash_lower())
    &&& !contains_seq(pq, escaped_backslash_upper())
    &&& starts_with(pq, slash())
    &&& !starts_with(pq, double_slash())
}

/// The path-and-query component (as `http` prints it) of the URI that the
/// text parses to, or `None` when it does not parse or has none.
pub uninterp spec fn uri_path_and_query(text: Seq<u8>) -> Option<Seq<u8>>;

/// What `sanitize_referrer` gives for a header value.
pub open spec fn spec_sanitize_referrer(v: Seq<u8>) -> Option<Seq<u8>> {
    if !readable_header(v) {
        None
    } else {
        match uri_path_and_query(v) {
            None => None,
            Some(pq) => if is_local_redirect_target(pq) {
                Some(pq)
            } else {
                None
            },
        }
    }
}

/// The request accepts HTML: its `Accept` header reads as text holding
/// `text/html`.
pub open spec fn spec_accepts_html(accept: Option<Seq<u8>>) -> bool {
    match accept {
        Some(v) => readable_header(v) && contains_seq(v, text_html()),
        None => false,
    }
}

/// The view of optional bytes.
pub open spec fn opt_bytes(o: Option<Vec<u8>>) -> Option<Seq<u8>> {
    match o {
        Some(v) => Some(v@),
        None => None,
    }
}

/// Decides whether a header value reads as text (`HeaderValue::to_str`
/// succeeds on it).
pub fn is_readable_header(v: &[u8]) -> (r: bool)
    ensures
        r == readable_header(v@),
{
    let mut i: usize = 0;
    while i < v.len()
        invariant
            i <= v@.len(),
            forall|j: int| 0 <= j < i ==> is_visible_ascii(#[trigger] v@[j]),
        decreases v@.len() - i,
    {
        let b = v[i];
        if !((32 <= b && b < 127) || b == 9) {
            return false;
        }
        i = i + 1;
    }
    true
}

/// Decides whether bytes form a valid header value (`HeaderValue::from_str`
/// and `HeaderValue::from_bytes` accept them).
pub fn is_valid_header_value(v: &[u8]) -> (r: bool)
    ensures
        r == valid_header_value(v@),
{
    let mut i: usize = 0;
    while i < v.len()
        invariant
            i <= v@.len(),
            forall|j: int| 0 <= j < i ==> is_header_value_byte(#[trigger] v@[j]),
        decreases v@.len() - i,
    {
        let b = v[i];
        if !((32 <= b && b != 127) || b == 9) {
            return false;
        }
        i = i + 1;
    }
    true
}

/// Parses text as a URI and gives its path-and-query component
/// (`http::Uri::try_from`, then `Uri::path_and_query` and
/// `PathAndQuery::as_str`). Claims that the result is the one named by
/// `uri_path_and_query`; that it is `/` or made of bytes of the text (the
/// parser keeps a slice of its input, or gives `/` for an empty path); and
/// that a result starting with `/` parses to itself again (such text is read
/// as a path-and-query alone, cut at a `#`, and a result holds no `#`). The
/// grammar of URIs is left unsaid.
#[verifier::external_body]
fn parse_path_and_query(text: &[u8]) -> (r: Option<Vec<u8>>)
    ensures
        opt_bytes(r) == uri_path_and_query(text@),
        r is Some ==> r->0@ == slash() || forall|i: int|
            0 <= i < r->0@.len() ==> text@.contains(#[trigger] r->0@[i]),
        r is Some && starts_with(r->0@, slash()) ==> uri_path_and_query(r->0@) == Some(r->0@),
{
    match http::Uri::try_from(text) {
        Ok(uri) => uri.path_and_query().map(|pq| pq.as_str().as_bytes().to_vec()),
        Err(_) => None,
    }
}

/// Turns a `Referer` (or `Location`) header value into a redirect target that
/// stays on this site: its path-and-query, when that starts with a single
/// slash and holds no backslash, plain or percent-encoded; otherwise `None`.
/// What it gives is left as it is when sanitized again.
pub fn sanitize_referrer(referrer: &[u8]) -> (r: Option<Vec<u8>>)
    ensures
        opt_bytes(r) == spec_sanitize_referrer(referrer@),
        r matches Some(t) ==> is_local_redirect_target(t@) && valid_header_value(t@),
        r matches Some(t) ==> spec_sanitize_referrer(t@) == Some(t@),
{
    if !is_readable_header(referrer) {
        return None;
    }
    let pq = match parse_path_and_query(referrer) {
        Some(p) => p,
        None => return None,
    };
    let slash_backslash_pat: Vec<u8> = vec!['/' as u8, '\\' as u8];
    let lower: Vec<u8> = vec!['%' as u8, '5' as u8, 'c' as u8];
    let upper: Vec<u8> = vec!['%' as u8, '5' as u8, 'C' as u8];
    let one_slash: Vec<u8> = vec!['/' as u8];
    let two_slashes: Vec<u8> = vec!['/' as u8, '/' as u8];
    assert(slash_backslash_pat@ =~= slash_backslash());
    assert(lower@ =~= escaped_backslash_lower());
    assert(upper@ =~= escaped_backslash_upper());
    assert(one_slash@ =~= slash());
    assert(two_slashes@ =~= double_slash());
    let p = pq.as_slice();
    if bytes_start_with(p, slash_backslash_pat.as_slice()) || bytes_contain_byte(p, '\\' as u8)
        || bytes_contain(p, lower.as_slice()) || bytes_contain(p, upper.as_slice()) {
        return None;
    }
    if bytes_start_with(p, one_slash.as_slice()) && !bytes_start_with(p, two_slashes.as_slice()) {
        assert(readable_header(pq@)) by {
            assert forall|i: int| 0 <= i < pq@.len() implies is_visible_ascii(#[trigger] pq@[i]) by {
                if pq@ != slash() {
                    assert(referrer@.contains(pq@[i]));
                }
            }
        }
        assert(valid_header_value(pq@)) by {
            assert forall|i: int| 0 <= i < pq@.len() implies is_header_value_byte(#[trigger] pq@[i]) by {
                assert(is_visible_ascii(pq@[i]));
            }
        }
        if is_valid_header_value(p) {
            Some(pq)
        } else {
            None
        }
    } else {
        None
    }
}

/// Sanitizing keeps a referrer exactly when it reads as text and parses to a
/// path-and-query that starts with a single slash (not followed by a slash or
/// a backslash) and holds no backslash, neither plain nor written `%5c` or
/// `%5C`; it then gives that path-and-query, other percent escapes included.
pub proof fn sanitized_referrers_are_exactly_local_paths(v: Seq<u8>)
    ensures
        spec_sanitize_referrer(v) is Some <==> {
            &&& forall|i: int| 0 <= i < v.len() ==> (32 <= #[trigger] v[i] && v[i] < 127) || v[i] == 9
            &&& uri_path_and_query(v) is Some
            &&& uri_path_and_query(v)->0.len() > 0
            &&& uri_path_and_query(v)->0[0] == '/' as u8
            &&& !(uri_path_and_query(v)->0.len() > 1 && (uri_path_and_query(v)->0[1] == '/' as u8
                || uri_path_and_query(v)->0[1] == '\\' as u8))
            &&& forall|i: int|
                0 <= i < uri_path_and_query(v)->0.len() ==> #[trigger] uri_path_and_query(v)->0[i]
                    != '\\' as u8
            &&& forall|i: int|
                0 <= i && i + 2 < uri_path_and_query(v)->0.len() ==> !(#[trigger] uri_path_and_query(
                    v,
                )->0[i] == '%' as u8 && uri_path_and_query(v)->0[i + 1] == '5' as u8 && (
                uri_path_and_query(v)->0[i + 2] == 'c' as u8 || uri_path_and_query(v)->0[i + 2]
                    == 'C' as u8))
        },
        spec_sanitize_referrer(v) is Some ==> spec_sanitize_referrer(v) == uri_path_and_query(v),
{
    if uri_path_and_query(v) is Some {
        let pq = uri_path_and_query(v)->0;
        lemma_local_target_bytes(pq);
    }
}

/// `is_local_redirect_target` read byte by byte.
proof fn lemma_local_target_bytes(pq: Seq<u8>)
    ensures
        is_local_redirect_target(pq) <==> {
            &&& pq.len() > 0
            &&& pq[0] == '/' as u8
            &&& !(pq.len() > 1 && (pq[1] == '/' as u8 || pq[1] == '\\' as u8))
            &&& forall|i: int| 0 <= i < pq.len() ==> #[trigger] pq[i] != '\\' as u8
            &&& forall|i: int|
                0 <= i && i + 2 < pq.len() ==> !(#[trigger] pq[i] == '%' as u8 && pq[i + 1] == '5' as u8
                    && (pq[i + 2] == 'c' as u8 || pq[i + 2] == 'C' as u8))
        },
{
    if pq.len() > 0 {
        if pq[0] == '/' as u8 {
            assert(pq.take(1) =~= slash());
        }
    }
    if pq.len() > 1 {
        if pq[0] == '/' as u8 && pq[1] == '/' as u8 {
            assert(pq.take(2) =~= double_slash());
        }
        if pq[0] == '/' as u8 && pq[1] == '\\' as u8 {
            assert(pq.take(2) =~= slash_backslash());
        }
        if starts_with(pq, double_slash()) {
            assert(pq.take(2)[1] == pq[1]);
        }
        if starts_with(pq, slash_backslash()) {
            assert(pq.take(2)[1] == pq[1]);
        }
    }
    if starts_with(pq, slash()) {
        assert(pq.take(1)[0] == pq[0]);
    }
    assert forall|i: int|
        0 <= i && i + 2 < pq.len() && #[trigger] pq[i] == '%' as u8 && pq[i + 1] == '5' as u8 && (pq[i + 2]
            == 'c' as u8 || pq[i + 2] == 'C' as u8) implies contains_seq(pq, escaped_backslash_lower())
        || contains_seq(pq, escaped_backslash_upper()) by {
        if pq[i + 2] == 'c' as u8 {
            assert(pq.subrange(i, i + 3) =~= escaped_backslash_lower());
            assert(occurs_at(pq, escaped_backslash_lower(), i));
        } else {
            assert(pq.subrange(i, i + 3) =~= escaped_backslash_upper());
            assert(occurs_at(pq, escaped_backslash_upper(), i));
        }
    }
    if contains_seq(pq, escaped_backslash_lower()) {
        let i = choose|i: int| occurs_at(pq, escaped_backslash_lower(), i);
        assert(pq.subrange(i, i + 3)[0] == pq[i]);
        assert(pq.subrange(i, i + 3)[1] == pq[i + 1]);
        assert(pq.subrange(i, i + 3)[2] == pq[i + 2]);
    }
    if contains_seq(pq, escaped_backslash_upper()) {
        let i = choose|i: int| occurs_at(pq, escaped_backslash_upper(), i);
        assert(pq.subrange(i, i + 3)[0] == pq[i]);
        assert(pq.subrange(i, i + 3)[1] == pq[i + 1]);
        assert(pq.subrange(i, i + 3)[2] == pq[i + 2]);
    }
}

/// Decides whether a request accepts HTML, from its `Accept` header.
pub fn accepts_html(accept: &Option<Vec<u8>>) -> (r: bool)
    ensures
        r == spec_accepts_html(opt_bytes(*accept)),
{
    match accept {
        Some(v) => {
            let pat: Vec<u8> = vec!['t' as u8, 'e' as u8, 'x' as u8, 't' as u8, '/' as u8, 'h' as u8, 't' as u8, 'm' as u8, 'l' as u8];
            assert(pat@ =~= text_html());
            is_readable_header(v.as_slice()) && bytes_contain(v.as_slice(), pat.as_slice())
        },
        None => false,
    }
}

} // verus!
