use vstd::multiset::Multiset;
use vstd::prelude::*;
use vstd::string::StringSliceAdditionalSpecFns;
use vstd::utf8::encode_utf8;

use crate::static_files::skip_slashes;

verus! {

/// The path router of `routefinder`, holding route numbers; Verus sees
/// nothing inside it but what the names below say.
#[verifier::external_type_specification]
#[verifier::external_body]
#[verifier::reject_recursive_types(H)]
pub struct ExRouter<H>(routefinder::Router<H>);

/// The entries that a path router holds: each route pattern, as the text it
/// was registered with, with its route number. `routefinder` documents a
/// router as a set of routes, each with its handler, whose `len` is "the
/// number of routes that have been added": every successful `add` adds an
/// entry.
pub uninterp spec fn router_entries(router: routefinder::Router<usize>) -> Multiset<(Seq<char>, usize)>;

/// The route number that the path router's `best_match` finds for a request
/// path, if any.
pub uninterp spec fn best_route(router: routefinder::Router<usize>, path: Seq<char>) -> Option<usize>;

/// The path router that registering a pattern with a route number makes of a
/// router (`Router::add`, when the pattern parses): the router's routes are
/// kept in an ordered map, so what they are and in which order they are
/// tried depends only on the router before and on what is added.
pub uninterp spec fn router_after_add(router: routefinder::Router<usize>, path: Seq<char>, id: usize) -> routefinder::Router<usize>;

/// A byte that separates the sections of a route pattern: `/` or `.`.
pub open spec fn is_pattern_separator(b: u8) -> bool {
    b == '/' as u8 || b == '.' as u8
}

/// The bytes with their trailing slashes removed.
pub open spec fn strip_trailing_slashes(s: Seq<u8>) -> Seq<u8>
    decreases s.len(),
{
    if s.len() > 0 && s.last() == '/' as u8 {
        strip_trailing_slashes(s.drop_last())
    } else {
        s
    }
}

/// The text of a route pattern with its leading and trailing slashes removed,
/// as the router reads it.
pub open spec fn pattern_body(p: Seq<char>) -> Seq<u8> {
    strip_trailing_slashes(skip_slashes(encode_utf8(p)))
}

/// A section of the pattern starts at index `i` (the first byte, or one after
/// a separator).
pub open spec fn starts_section(t: Seq<u8>, i: int) -> bool {
    i == 0 || (0 < i <= t.len() && is_pattern_separator(t[i - 1]))
}

/// The section starting at index `i` is one byte long.
pub open spec fn is_one_byte_section(t: Seq<u8>, i: int) -> bool {
    i + 1 == t.len() || (i + 1 < t.len() && is_pattern_separator(t[i + 1]))
}

/// The text parses as a route pattern of the path router: no section (between
/// slashes and dots) is a bare `:`, and none starts with `*` unless it is just
/// `*`.
pub open spec fn route_pattern_parses(p: Seq<char>) -> bool {
    let t = pattern_body(p);
    forall|i: int|
        0 <= i < t.len() && #[trigger] starts_section(t, i) ==> (t[i] == '*' as u8
            ==> is_one_byte_section(t, i)) && (t[i] == ':' as u8 ==> !is_one_byte_section(t, i))
}

/// A wildcard section `*` of the pattern, if any, is its last section. The
/// router's matching only handles a wildcard at the end of a pattern.
pub open spec fn wildcard_is_terminal(p: Seq<char>) -> bool {
    let t = pattern_body(p);
    forall|i: int|
        0 <= i < t.len() && #[trigger] starts_section(t, i) && t[i] == '*' as u8
            && is_one_byte_section(t, i) ==> i + 1 == t.len()
}

/// The parameter section starting at `i` (one that starts with `:`) ends at
/// the separator at `j`.
pub open spec fn param_ends_at(t: Seq<u8>, i: int, j: int) -> bool {
    &&& 0 <= i < j < t.len()
    &&& starts_section(t, i)
    &&& t[i] == ':' as u8
    &&& is_pattern_separator(t[j])
    &&& forall|m: int| i < m < j ==> !is_pattern_separator(#[trigger] t[m])
}

/// Every byte before index `j` is ASCII.
pub open spec fn is_ascii_prefix(t: Seq<u8>, j: int) -> bool {
    forall|k: int| 0 <= k < j ==> #[trigger] t[k] < 128
}

/// Every parameter section that is followed by a separator has only ASCII
/// text before that separator. The router finds the separator before a
/// section by counting characters where it should count bytes, so past a
/// non-ASCII character it can lose the separator after a parameter, and its
/// matching then stops on the parameter.
pub open spec fn params_end_after_ascii(t: Seq<u8>) -> bool {
    forall|i: int, j: int| #[trigger] param_ends_at(t, i, j) ==> is_ascii_prefix(t, j)
}

/// The router can match request paths against the pattern without stopping:
/// its wildcard is last, and its parameters are read correctly.
pub open spec fn pattern_is_matchable(p: Seq<char>) -> bool {
    wildcard_is_terminal(p) && params_end_after_ascii(pattern_body(p))
}

/// Every pattern that the router holds can be matched against.
pub open spec fn patterns_are_matchable(router: routefinder::Router<usize>) -> bool {
    forall|e: (Seq<char>, usize)|
        #[trigger] router_entries(router).contains(e) ==> pattern_is_matchable(e.0)
}

/// Decides whether the router can match request paths against a route
/// pattern without stopping.
pub fn pattern_matchable(path: &str) -> (r: bool)
    ensures
        r == pattern_is_matchable(path@),
{
    let b = path.as_bytes();
    let ghost s = b@;
    let mut j: usize = 0;
    assert(s.skip(0) =~= s);
    while j < b.len() && b[j] == '/' as u8
        invariant
            j <= s.len(),
            s == b@,
            s.len() == b.len(),
            skip_slashes(s.skip(j as int)) == skip_slashes(s),
        decreases s.len() - j,
    {
        assert(s.skip(j as int).skip(1) =~= s.skip(j + 1));
        j = j + 1;
    }
    assert(skip_slashes(s.skip(j as int)) == s.skip(j as int));
    let mut k: usize = b.len();
    assert(s.subrange(j as int, k as int) =~= s.skip(j as int));
    while k > j && b[k - 1] == '/' as u8
        invariant
            j <= k <= s.len(),
            s == b@,
            s.len() == b.len(),
            strip_trailing_slashes(s.subrange(j as int, k as int)) == strip_trailing_slashes(
                s.skip(j as int),
            ),
        decreases k,
    {
        assert(s.subrange(j as int, k as int).drop_last() =~= s.subrange(j as int, k - 1));
        k = k - 1;
    }
    let ghost t = s.subrange(j as int, k as int);
    assert(strip_trailing_slashes(t) == t);
    assert(pattern_body(path@) == t);
    let mut i: usize = j;
    let mut section: usize = j;
    let mut ascii: bool = true;
    while i < k
        invariant
            j <= section <= i <= k <= s.len(),
            s == b@,
            s.len() == b.len(),
            t == s.subrange(j as int, k as int),
            t == pattern_body(path@),
            starts_section(t, section - j),
            forall|m: int| section - j <= m < i - j ==> !is_pattern_separator(#[trigger] t[m]),
            ascii == is_ascii_prefix(t, i - j),
            forall|x: int|
                0 <= x < i - j && #[trigger] starts_section(t, x) && t[x] == '*' as u8
                    && is_one_byte_section(t, x) ==> x + 1 == t.len(),
            forall|x: int, y: int| y < i - j && #[trigger] param_ends_at(t, x, y) ==> is_ascii_prefix(t, y),
        decreases k - i,
    {
        let section_start = i == j || b[i - 1] == '/' as u8 || b[i - 1] == '.' as u8;
        let single = i + 1 == k || b[i + 1] == '/' as u8 || b[i + 1] == '.' as u8;
        let ghost x = (i - j) as int;
        assert(section_start == starts_section(t, x)) by {
            if x > 0 {
                assert(t[x - 1] == s[i - 1]);
            }
        }
        assert(single == is_one_byte_section(t, x)) by {
            if x + 1 < t.len() {
                assert(t[x + 1] == s[i + 1]);
            }
        }
        assert(t[x] == s[i as int]);
        if section_start && b[i] == '*' as u8 && single && i + 1 != k {

            return false;
        }
        let separator = b[i] == '/' as u8 || b[i] == '.' as u8;
        if separator {
            let in_param = section < i && b[section] == ':' as u8;
            let ghost sx = (section - j) as int;
            assert(t[sx] == s[section as int]);
            assert forall|y: int| param_ends_at(t, y, x) implies y == sx by {
                if y < sx {
                    assert(!is_pattern_separator(t[sx - 1]));
                } else if y > sx {
                    assert(!is_pattern_separator(t[y - 1]));
                }
            }
            if in_param && !ascii {
                assert(param_ends_at(t, sx, x));
                return false;
            }
            section = i + 1;
        }
        ascii = ascii && b[i] < 128;
        assert(ascii == is_ascii_prefix(t, x + 1)) by {
            if !ascii && is_ascii_prefix(t, x) {
                assert(t[x] >= 128);
            }
        }
        i = i + 1;
    }
    true
}

/// Makes an empty path router (`routefinder::Router::new`). Claims that it
/// holds no entry, as the source shows (an empty map).
#[verifier::external_body]
pub(crate) fn new_router() -> (r: routefinder::Router<usize>)
    ensures
        router_entries(r) == Multiset::<(Seq<char>, usize)>::empty(),
{
    routefinder::Router::new()
}

/// Tells whether text parses as a route pattern (`RouteSpec::from_str`,
/// whose only failures are a bare `:` section and a wildcard section longer
/// than `*`, as `route_pattern_parses` states).
#[verifier::external_body]
pub(crate) fn parses_as_route(path: &str) -> (r: bool)
    ensures
        r == route_pattern_parses(path@),
{
    path.parse::<routefinder::RouteSpec>().is_ok()
}

/// Registers a route under a pattern (`Router::add`). Claims that the pattern
/// is parsed first (`RouteSpec::from_str`, as in `parses_as_route`) and, when
/// it does not parse, the router is left as it was (the source returns before
/// touching it); otherwise the router becomes the one named by
/// `router_after_add`, which holds one entry more, the pattern with its
/// number (the crate documents `add` as adding a route, and `len` as the
/// number of routes added).
#[verifier::external_body]
pub(crate) fn router_add(router: &mut routefinder::Router<usize>, path: &str, id: usize) -> (r: Result<
    (),
    String,
>)
    ensures
        r is Ok <==> route_pattern_parses(path@),
        r is Ok ==> *final(router) == router_after_add(*old(router), path@, id),
        r is Ok ==> router_entries(*final(router)) == router_entries(*old(router)).insert(
            (path@, id),
        ),
        r is Err ==> *final(router) == *old(router),
{
    router.add(path, id)
}

/// Finds the route that best matches a request path (`Router::best_match`,
/// whose ranking puts literal segments before parameters before wildcards).
/// The router's matching panics on a pattern with a wildcard before its end
/// and on a parameter that its parser left without a following separator,
/// so every registered pattern must be matchable. Claims that the
/// result is the one named by `best_route`, that a found route is one the
/// router holds, and that an empty router finds none; the ranking itself is
/// left unsaid, as it rests on the router's parsed patterns.
#[verifier::external_body]
pub(crate) fn router_best_match(router: &routefinder::Router<usize>, path: &str) -> (r: Option<usize>)
    requires
        patterns_are_matchable(*router),
    ensures
        r == best_route(*router, path@),
        r matches Some(id) ==> exists|p: Seq<char>| router_entries(*router).contains((p, id)),
        router_entries(*router) == Multiset::<(Seq<char>, usize)>::empty() ==> r is None,
{
    router.best_match(path).map(|m| *m.handler())
}

} // verus!
