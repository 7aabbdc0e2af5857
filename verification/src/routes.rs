use vstd::prelude::*;
use vstd::string::{StringExecFns, StringSliceAdditionalSpecFns};
use vstd::utf8::encode_utf8;

use crate::decode::lemma_encoded_first_ascii;

verus! {

/// One segment of a route's path, as the router of the application describes
/// it.
#[derive(Debug)]
pub enum PathSegment {
    /// A segment that matches nothing (the empty path).
    Unit,
    /// A literal segment.
    Static(String),
    /// A named parameter, `:name`.
    Param(String),
    /// A named parameter that may be left out.
    OptionalParam(String),
    /// A wildcard that matches the rest of the path.
    Splat(String),
}

impl Clone for PathSegment {
    fn clone(&self) -> (r: Self)
        ensures
            r == *self,
    {
        match self {
            PathSegment::Unit => PathSegment::Unit,
            PathSegment::Static(s) => PathSegment::Static(s.clone()),
            PathSegment::Param(s) => PathSegment::Param(s.clone()),
            PathSegment::OptionalParam(s) => PathSegment::OptionalParam(s.clone()),
            PathSegment::Splat(s) => PathSegment::Splat(s.clone()),
        }
    }
}

/// The text a segment was written with (empty for `Unit`).
pub open spec fn raw_text(seg: PathSegment) -> Seq<char> {
    match seg {
        PathSegment::Unit => Seq::<char>::empty(),
        PathSegment::Static(s) => s@,
        PathSegment::Param(s) => s@,
        PathSegment::OptionalParam(s) => s@,
        PathSegment::Splat(s) => s@,
    }
}

impl PathSegment {
    /// The text the segment was written with (empty for `Unit`).
    pub fn as_raw_str(&self) -> (r: &str)
        ensures
            r@ == raw_text(*self),
    {
        match self {
            PathSegment::Unit => {
                let e = "";
                proof {
                    reveal_strlit("");
                }
                e
            },
            PathSegment::Static(s) => s.as_str(),
            PathSegment::Param(s) => s.as_str(),
            PathSegment::OptionalParam(s) => s.as_str(),
            PathSegment::Splat(s) => s.as_str(),
        }
    }
}

/// The views of a list of segment lists.
pub open spec fn nested_view(v: Seq<Vec<PathSegment>>) -> Seq<Seq<PathSegment>> {
    v.map_values(|x: Vec<PathSegment>| x@)
}

/// Every path that a route stands for once its optional parameters are either
/// kept (as plain parameters) or left out. For each optional parameter the
/// paths that keep it come first.
pub open spec fn expand_optionals(segs: Seq<PathSegment>) -> Seq<Seq<PathSegment>>
    decreases segs.len(),
{
    if segs.len() == 0 {
        seq![Seq::<PathSegment>::empty()]
    } else {
        let rest = expand_optionals(segs.drop_first());
        match segs[0] {
            PathSegment::OptionalParam(name) => rest.map_values(
                |x: Seq<PathSegment>| seq![PathSegment::Param(name)] + x,
            ) + rest,
            _ => rest.map_values(|x: Seq<PathSegment>| seq![segs[0]] + x),
        }
    }
}

/// No segment is an optional parameter.
pub open spec fn has_no_optional(segs: Seq<PathSegment>) -> bool {
    forall|i: int| 0 <= i < segs.len() ==> !(#[trigger] segs[i] is OptionalParam)
}

fn prefix_each(seg: &PathSegment, paths: &Vec<Vec<PathSegment>>) -> (r: Vec<Vec<PathSegment>>)
    ensures
        nested_view(r@) == nested_view(paths@).map_values(|x: Seq<PathSegment>| seq![*seg] + x),
{
    let mut out: Vec<Vec<PathSegment>> = Vec::new();
    let mut i: usize = 0;
    while i < paths.len()
        invariant
            i <= paths@.len(),
            out@.len() == i,
            forall|k: int|
                0 <= k < i ==> (#[trigger] out@[k])@ == seq![*seg] + paths@[k]@,
        decreases paths@.len() - i,
    {
        let mut p: Vec<PathSegment> = Vec::new();
        p.push(seg.clone());
        let mut j: usize = 0;
        while j < paths[i].len()
            invariant
                i < paths@.len(),
                j <= paths@[i as int]@.len(),
                p@ == seq![*seg] + paths@[i as int]@.take(j as int),
            decreases paths@[i as int]@.len() - j,
        {
            p.push(paths[i][j].clone());
            assert(paths@[i as int]@.take(j + 1) =~= paths@[i as int]@.take(j as int).push(
                paths@[i as int]@[j as int],
            ));
            assert(p@ =~= seq![*seg] + paths@[i as int]@.take(j + 1));
            j = j + 1;
        }
        assert(paths@[i as int]@.take(j as int) =~= paths@[i as int]@);
        out.push(p);
        i = i + 1;
    }
    assert(nested_view(out@) =~= nested_view(paths@).map_values(
        |x: Seq<PathSegment>| seq![*seg] + x,
    ));
    out
}

fn expand_from(segs: &Vec<PathSegment>, start: usize) -> (r: Vec<Vec<PathSegment>>)
    requires
        start <= segs@.len(),
    ensures
        nested_view(r@) == expand_optionals(segs@.skip(start as int)),
    decreases segs@.len() - start,
{
    if start == segs.len() {
        let mut r: Vec<Vec<PathSegment>> = Vec::new();
        r.push(Vec::new());
        assert(segs@.skip(start as int) =~= Seq::<PathSegment>::empty());
        assert(nested_view(r@) =~= seq![Seq::<PathSegment>::empty()]);
        return r;
    }
    let rest = expand_from(segs, start + 1);
    let ghost tail = segs@.skip(start as int);
    assert(tail.drop_first() =~= segs@.skip(start + 1));
    match &segs[start] {
        PathSegment::OptionalParam(name) => {
            let param = PathSegment::Param(name.clone());
            let mut r = prefix_each(&param, &rest);
            let ghost kept = nested_view(r@);
            let mut rest_mut = rest;
            r.append(&mut rest_mut);
            assert(nested_view(r@) =~= kept + nested_view(rest@));
            r
        },
        _ => prefix_each(&segs[start], &rest),
    }
}

/// Lists every path that a route with optional parameters stands for (as
/// `leptos_router`'s `ExpandOptionals` does).
pub fn expand_route_optionals(segs: &Vec<PathSegment>) -> (r: Vec<Vec<PathSegment>>)
    ensures
        nested_view(r@) == expand_optionals(segs@),
{
    assert(segs@.skip(0) =~= segs@);
    expand_from(segs, 0)
}

/// Every path that the expansion lists is free of optional parameters.
pub proof fn expanded_paths_have_no_optional(segs: Seq<PathSegment>)
    ensures
        forall|k: int|
            0 <= k < expand_optionals(segs).len() ==> has_no_optional(
                #[trigger] expand_optionals(segs)[k],
            ),
    decreases segs.len(),
{
    if segs.len() > 0 {
        let rest = expand_optionals(segs.drop_first());
        expanded_paths_have_no_optional(segs.drop_first());
        assert forall|k: int| 0 <= k < expand_optionals(segs).len() implies has_no_optional(
            #[trigger] expand_optionals(segs)[k],
        ) by {
            match segs[0] {
                PathSegment::OptionalParam(name) => {
                    if k < rest.len() {
                        let x = rest[k];
                        assert(expand_optionals(segs)[k] == seq![PathSegment::Param(name)] + x);
                        assert(has_no_optional(x));
                        assert forall|i: int| 0 <= i < (seq![PathSegment::Param(name)] + x).len()
                            implies !(#[trigger] (seq![PathSegment::Param(name)] + x)[i] is OptionalParam) by {
                            if i > 0 {
                                assert((seq![PathSegment::Param(name)] + x)[i] == x[i - 1]);
                            }
                        }
                    } else {
                        assert(expand_optionals(segs)[k] == rest[k - rest.len()]);
                    }
                },
                _ => {
                    let x = rest[k];
                    assert(expand_optionals(segs)[k] == seq![segs[0]] + x);
                    assert(has_no_optional(x));
                    assert forall|i: int| 0 <= i < (seq![segs[0]] + x).len()
                        implies !(#[trigger] (seq![segs[0]] + x)[i] is OptionalParam) by {
                        if i > 0 {
                            assert((seq![segs[0]] + x)[i] == x[i - 1]);
                        }
                    }
                },
            }
        }
    }
}

/// How one segment is written in a route of the path router: a separating
/// slash unless its text is empty or already starts with one, then the text of
/// a literal, `:` and the name of a parameter, or `*` for a wildcard. A `Unit`
/// adds nothing; an optional parameter (which an expanded path never holds)
/// adds only the separator.
pub open spec fn router_segment(seg: PathSegment) -> Seq<char> {
    let raw = raw_text(seg);
    let sep = if raw.len() > 0 && raw[0] != '/' {
        seq!['/']
    } else {
        Seq::<char>::empty()
    };
    sep + match seg {
        PathSegment::Static(s) => s@,
        PathSegment::Param(s) => seq![':'] + s@,
        PathSegment::Splat(_) => seq!['*'],
        PathSegment::Unit => Seq::<char>::empty(),
        PathSegment::OptionalParam(_) => Seq::<char>::empty(),
    }
}

/// A list of segments written as a route of the path router.
pub open spec fn router_path(segs: Seq<PathSegment>) -> Seq<char>
    decreases segs.len(),
{
    if segs.len() == 0 {
        Seq::<char>::empty()
    } else {
        router_path(segs.drop_last()) + router_segment(segs.last())
    }
}

/// Decides whether a text starts with a slash.
fn starts_with_slash(s: &str) -> (r: bool)
    ensures
        r == (s@.len() > 0 && s@[0] == '/'),
{
    let bytes = s.as_bytes();
    if bytes.len() == 0 {
        proof {
            if s@.len() > 0 {
                vstd::utf8::char_is_scalar(s@[0]);
                assert(encode_utf8(s@).len() > 0);
            }
        }
        return false;
    }
    proof {
        if s@.len() == 0 {
            assert(encode_utf8(s@).len() == 0);
        }
        lemma_encoded_first_ascii(s@, '/' as u8);
        assert((('/' as u8) as char) == '/');
    }
    bytes[0] == '/' as u8
}

/// Writes a list of segments as a route of the path router.
pub fn to_rf_str_representation(segs: &Vec<PathSegment>) -> (r: String)
    ensures
        r@ == router_path(segs@),
{
    let mut path = String::new();
    let mut i: usize = 0;
    proof {
        reveal_strlit("/");
        reveal_strlit(":");
        reveal_strlit("*");
    }
    while i < segs.len()
        invariant
            i <= segs@.len(),
            path@ == router_path(segs@.take(i as int)),
            "/"@ == seq!['/'],
            ":"@ == seq![':'],
            "*"@ == seq!['*'],
        decreases segs@.len() - i,
    {
        let seg = &segs[i];
        let ghost before = path@;
        let raw = seg.as_raw_str();
        if !raw.is_empty() && !starts_with_slash(raw) {
            path.append("/");
        }
        match seg {
            PathSegment::Static(s) => path.append(s.as_str()),
            PathSegment::Param(s) => {
                path.append(":");
                path.append(s.as_str());
            },
            PathSegment::Splat(_) => path.append("*"),
            PathSegment::Unit => {},
            PathSegment::OptionalParam(_) => {},
        }
        assert(segs@.take(i + 1).drop_last() =~= segs@.take(i as int));
        assert(path@ =~= before + router_segment(segs@[i as int]));
        i = i + 1;
    }
    assert(segs@.take(i as int) =~= segs@);
    path
}

/// The route under which a list of segments is registered: its written form,
/// or `/` when that is empty.
pub open spec fn route_path(segs: Seq<PathSegment>) -> Seq<char> {
    let p = router_path(segs);
    if p.len() == 0 {
        seq!['/']
    } else {
        p
    }
}

/// The routes that one route of the application is registered under, one per
/// expanded path.
pub open spec fn listing_routes(listing: Seq<PathSegment>) -> Seq<Seq<char>> {
    expand_optionals(listing).map_values(|x: Seq<PathSegment>| route_path(x))
}

/// The views of a list of strings.
pub open spec fn strings_view(v: Seq<String>) -> Seq<Seq<char>> {
    v.map_values(|s: String| s@)
}

/// Lists the routes that one route of the application is registered under.
pub fn into_route_listing(listing: &Vec<PathSegment>) -> (r: Vec<String>)
    ensures
        strings_view(r@) == listing_routes(listing@),
{
    let expanded = expand_route_optionals(listing);
    let mut out: Vec<String> = Vec::new();
    let mut i: usize = 0;
    proof {
        reveal_strlit("/");
    }
    while i < expanded.len()
        invariant
            i <= expanded@.len(),
            nested_view(expanded@) == expand_optionals(listing@),
            out@.len() == i,
            forall|k: int| 0 <= k < i ==> (#[trigger] out@[k])@ == route_path(expanded@[k]@),
            "/"@ == seq!['/'],
        decreases expanded@.len() - i,
    {
        let path = to_rf_str_representation(&expanded[i]);
        let path = if path.as_str().is_empty() {
            String::from_str("/")
        } else {
            path
        };
        out.push(path);
        i = i + 1;
    }
    assert(strings_view(out@) =~= listing_routes(listing@));
    out
}

/// Every route of the application with the number of the route it stands for,
/// in order.
pub open spec fn route_candidates(listings: Seq<Seq<PathSegment>>) -> Seq<(Seq<char>, usize)>
    decreases listings.len(),
{
    if listings.len() == 0 {
        Seq::<(Seq<char>, usize)>::empty()
    } else {
        let id = (listings.len() - 1) as usize;
        route_candidates(listings.drop_last()) + listing_routes(listings.last()).map_values(
            |p: Seq<char>| (p, id),
        )
    }
}

/// The views of a list of routes with their numbers.
pub open spec fn candidates_view(v: Seq<(String, usize)>) -> Seq<(Seq<char>, usize)> {
    v.map_values(|c: (String, usize)| (c.0@, c.1))
}

/// Lists every route of the application with the number of the route it stands
/// for.
pub fn route_candidates_of(listings: &Vec<Vec<PathSegment>>) -> (r: Vec<(String, usize)>)
    ensures
        candidates_view(r@) == route_candidates(nested_view(listings@)),
{
    let mut out: Vec<(String, usize)> = Vec::new();
    let mut i: usize = 0;
    while i < listings.len()
        invariant
            i <= listings@.len(),
            candidates_view(out@) == route_candidates(nested_view(listings@).take(i as int)),
        decreases listings@.len() - i,
    {
        let paths = into_route_listing(&listings[i]);
        let ghost before = candidates_view(out@);
        let mut k: usize = 0;
        while k < paths.len()
            invariant
                i < listings@.len(),
                k <= paths@.len(),
                strings_view(paths@) == listing_routes(listings@[i as int]@),
                candidates_view(out@) == before + listing_routes(listings@[i as int]@).take(
                    k as int,
                ).map_values(|p: Seq<char>| (p, i)),
            decreases paths@.len() - k,
        {
            let p = paths[k].clone();
            assert(strings_view(paths@)[k as int] == paths@[k as int]@);
            assert(p@ == listing_routes(listings@[i as int]@)[k as int]);
            let ghost prev = out@;
            out.push((p, i));
            assert(candidates_view(out@) =~= candidates_view(prev).push((p@, i)));
            assert(candidates_view(out@) =~= before + listing_routes(listings@[i as int]@).take(
                k + 1,
            ).map_values(|p: Seq<char>| (p, i)));
            k = k + 1;
        }
        let ghost taken = nested_view(listings@).take(i + 1);
        assert(taken.drop_last() =~= nested_view(listings@).take(i as int));
        assert(taken.last() == listings@[i as int]@);
        assert(listing_routes(listings@[i as int]@).take(k as int) =~= listing_routes(
            listings@[i as int]@,
        ));
        i = i + 1;
    }
    assert(nested_view(listings@).take(i as int) =~= nested_view(listings@));
    out
}

/// The path is in the list of excluded routes.
pub open spec fn is_excluded_route(excluded: Option<Seq<Seq<char>>>, path: Seq<char>) -> bool {
    match excluded {
        Some(list) => list.contains(path),
        None => false,
    }
}

/// A route is excluded exactly when its path equals one of the excluded
/// paths: a path that merely extends an excluded one is not excluded.
pub proof fn exclusion_is_by_equal_path(excluded: Option<Seq<Seq<char>>>, path: Seq<char>)
    ensures
        is_excluded_route(excluded, path) <==> (excluded is Some && exists|k: int|
            0 <= k < excluded->0.len() && #[trigger] excluded->0[k] == path),
{
}

/// The view of an optional list of strings.
pub open spec fn opt_strings_view(o: Option<Vec<String>>) -> Option<Seq<Seq<char>>> {
    match o {
        Some(v) => Some(strings_view(v@)),
        None => None,
    }
}

/// Decides whether a route is in the list of excluded routes.
pub fn is_excluded(excluded: &Option<Vec<String>>, path: &String) -> (r: bool)
    ensures
        r == is_excluded_route(opt_strings_view(*excluded), path@),
{
    match excluded {
        None => false,
        Some(list) => {
            let mut i: usize = 0;
            while i < list.len()
                invariant
                    i <= list@.len(),
                    *excluded == Some(*list),
                    forall|k: int| 0 <= k < i ==> (#[trigger] list@[k])@ != path@,
                decreases list@.len() - i,
            {
                if list[i] == *path {
                    assert(list@[i as int]@ == path@);
                    assert(strings_view(list@)[i as int] == path@);
                    assert(strings_view(list@).contains(path@));
                    return true;
                }
                i = i + 1;
            }
            assert(!strings_view(list@).contains(path@)) by {
                if strings_view(list@).contains(path@) {
                    let k = choose|k: int| 0 <= k < list@.len() && strings_view(list@)[k] == path@;
                    assert(list@[k]@ == path@);
                }
            }
            false
        },
    }
}

} // verus!
