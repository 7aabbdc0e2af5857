use vstd::multiset::Multiset;
use vstd::prelude::*;
use vstd::string::StringSliceAdditionalSpecFns;
use vstd::utf8::encode_utf8;

use crate::body::{payload_too_large_response, too_large_message};
use crate::header::opt_bytes;
use crate::response::{Body, PresetResponse, OK, PAYLOAD_TOO_LARGE};
use crate::router::{
    best_route, new_router, parses_as_route, pattern_is_matchable, pattern_matchable,
    route_pattern_parses, router_add, router_after_add, router_best_match,
    router_entries,
};
use crate::routes::{
    is_excluded, is_excluded_route, nested_view, opt_strings_view, route_candidates,
    route_candidates_of, PathSegment,
};
use crate::static_files::{
    guess_mime_type, is_traversal, mime_type_for, prefix_matches, static_file_path, static_lookup,
    StaticLookup,
};
use crate::text::str_equal;

verus! {

/// What the handler reads of the request: its method, its path, and the
/// headers that its decisions look at (each the first value under its name).
#[derive(Debug)]
pub struct RequestHead {
    pub method: String,
    pub path: String,
    /// `Accept`
    pub accept: Option<Vec<u8>>,
    /// `Referer`
    pub referer: Option<Vec<u8>>,
    /// The same header spelled `referrer`.
    pub referrer: Option<Vec<u8>>,
}

/// The head of an empty `GET /` request with no headers.
pub open spec fn is_blank_request(r: RequestHead) -> bool {
    &&& r.method@ == "GET"@
    &&& r.path@ == "/"@
    &&& r.accept is None
    &&& r.referer is None
    &&& r.referrer is None
}

/// The page the request came from: `Referer`, or else `referrer`.
pub open spec fn referring_page(r: RequestHead) -> Option<Seq<u8>> {
    if r.referer is Some {
        opt_bytes(r.referer)
    } else {
        opt_bytes(r.referrer)
    }
}

impl RequestHead {
    /// The head of an empty `GET /` request with no headers.
    pub fn blank() -> (r: Self)
        ensures
            is_blank_request(r),
    {
        RequestHead {
            method: String::from_str("GET"),
            path: String::from_str("/"),
            accept: None,
            referer: None,
            referrer: None,
        }
    }

    /// The page the request came from: `Referer`, or else `referrer`.
    pub fn referring_page(&self) -> (r: Option<Vec<u8>>)
        ensures
            opt_bytes(r) == referring_page(*self),
    {
        match &self.referer {
            Some(v) => Some(v.clone()),
            None => match &self.referrer {
                Some(v) => Some(v.clone()),
                None => None,
            },
        }
    }
}

/// How reading the request body ended.
#[derive(Debug)]
pub enum BuildOutcome<E> {
    /// The body was read in full.
    Complete,
    /// The body is larger than the given limit.
    TooLarge(usize),
    /// Reading failed for another reason.
    Failed(E),
}

/// What answers the request once the handler is set up.
#[derive(Debug)]
pub enum Dispatch<S> {
    /// Nothing does: `404 Not Found`.
    NotFound,
    /// A response decided beforehand.
    Preset(PresetResponse<S>),
    /// The server function registered under this number.
    ServerFn(usize),
    /// Server-side rendering of the application route with this number.
    Render(usize),
}

/// Why the application's routes could not be registered, with the path of the
/// first route that failed.
#[derive(Debug, Clone, PartialEq, Eq)]
pub enum RouteError {
    /// The route's pattern does not parse.
    Unparsable(String),
}

impl RouteError {
    /// The path of the route that failed.
    pub fn path(&self) -> (r: &String)
        ensures
            r == route_error_path(*self),
    {
        match self {
            RouteError::Unparsable(p) => p,
        }
    }
}

/// The path of the route that failed.
pub open spec fn route_error_path(e: RouteError) -> String {
    match e {
        RouteError::Unparsable(p) => p,
    }
}

/// Routes one request: to a server function, a static file, a response decided
/// beforehand, or server-side rendering of the application. The first of these
/// that claims the request wins; every later step leaves it alone.
///
/// Every application route whose pattern parses is registered, in order.
/// Those that the router can match against are also added to the router that
/// answers requests. The router would stop on the others (a wildcard before
/// the end, a parameter after non-ASCII text) as soon as a request reached
/// them, and such a pattern never matches a path, so leaving them out changes
/// no answer to a request that does not reach them.
pub struct Handler<S> {
    request: RequestHead,
    server_fn: Option<usize>,
    preset_res: Option<PresetResponse<S>>,
    should_404: bool,
    registered: Vec<(String, usize)>,
    ssr_router: routefinder::Router<usize>,
}

/// Route patterns with their numbers, by their text.
pub open spec fn pairs_view(v: Seq<(String, usize)>) -> Seq<(Seq<char>, usize)> {
    v.map_values(|e: (String, usize)| (e.0@, e.1))
}

/// The `k`-th route is to be registered (it is not excluded).
pub open spec fn is_kept_route(cands: Seq<(Seq<char>, usize)>, excluded: Option<Seq<Seq<char>>>, k: int) -> bool {
    0 <= k < cands.len() && !is_excluded_route(excluded, cands[k].0)
}

/// The `k`-th route is to be registered but its pattern does not parse.
pub open spec fn is_broken_route(cands: Seq<(Seq<char>, usize)>, excluded: Option<Seq<Seq<char>>>, k: int) -> bool {
    is_kept_route(cands, excluded, k) && !route_pattern_parses(cands[k].0)
}

/// The routes of `cands` that are not excluded, in order.
pub open spec fn kept_routes(cands: Seq<(Seq<char>, usize)>, excluded: Option<Seq<Seq<char>>>) -> Seq<
    (Seq<char>, usize),
>
    decreases cands.len(),
{
    if cands.len() == 0 {
        Seq::empty()
    } else {
        let rest = kept_routes(cands.drop_last(), excluded);
        if is_excluded_route(excluded, cands.last().0) {
            rest
        } else {
            rest.push(cands.last())
        }
    }
}

/// The routes kept for registration are exactly those whose path equals no
/// excluded path, in their order; with no exclusions every route is kept.
pub proof fn kept_routes_are_those_not_excluded(
    cands: Seq<(Seq<char>, usize)>,
    excluded: Option<Seq<Seq<char>>>,
)
    ensures
        forall|c: (Seq<char>, usize)|
            #[trigger] kept_routes(cands, excluded).contains(c) <==> (cands.contains(c) && !(
            excluded is Some && excluded->0.contains(c.0))),
        excluded is None ==> kept_routes(cands, excluded) == cands,
    decreases cands.len(),
{
    if cands.len() > 0 {
        let init = cands.drop_last();
        kept_routes_are_those_not_excluded(init, excluded);
        assert(cands =~= init.push(cands.last()));
        let rest = kept_routes(init, excluded);
        assert forall|c: (Seq<char>, usize)|
            #[trigger] kept_routes(cands, excluded).contains(c) <==> (cands.contains(c) && !(
            excluded is Some && excluded->0.contains(c.0))) by {
            if cands.contains(c) {
                let k = choose|k: int| 0 <= k < cands.len() && cands[k] == c;
                if k < cands.len() - 1 {
                    assert(init[k] == c);
                }
            }
            if init.contains(c) {
                let k = choose|k: int| 0 <= k < init.len() && init[k] == c;
                assert(cands[k] == c);
            }
            if !is_excluded_route(excluded, cands.last().0) {
                let kept = rest.push(cands.last());
                if kept.contains(c) {
                    let k = choose|k: int| 0 <= k < kept.len() && kept[k] == c;
                    if k < rest.len() {
                        assert(rest[k] == c);
                    }
                }
                if rest.contains(c) {
                    let k = choose|k: int| 0 <= k < rest.len() && rest[k] == c;
                    assert(kept[k] == c);
                }
                assert(kept[rest.len() as int] == cands.last());
            }
        }
    }
}

/// The routes of `s` that the router can match against, as entries.
pub open spec fn matchable_entries(s: Seq<(Seq<char>, usize)>) -> Multiset<(Seq<char>, usize)>
    decreases s.len(),
{
    if s.len() == 0 {
        Multiset::empty()
    } else {
        let rest = matchable_entries(s.drop_last());
        if pattern_is_matchable(s.last().0) {
            rest.insert(s.last())
        } else {
            rest
        }
    }
}

/// The router after adding to it, in order, the routes of `s` that it can
/// match against.
pub open spec fn router_with(router: routefinder::Router<usize>, s: Seq<(Seq<char>, usize)>) -> routefinder::Router<usize>
    decreases s.len(),
{
    if s.len() == 0 {
        router
    } else {
        let before = router_with(router, s.drop_last());
        if pattern_is_matchable(s.last().0) {
            router_after_add(before, s.last().0, s.last().1)
        } else {
            before
        }
    }
}

/// Each entry of the matchable routes of `s` is a route of `s` that the
/// router can match against.
pub proof fn lemma_matchable_entries(s: Seq<(Seq<char>, usize)>, e: (Seq<char>, usize))
    requires
        matchable_entries(s).contains(e),
    ensures
        s.contains(e),
        pattern_is_matchable(e.0),
    decreases s.len(),
{
    let rest = matchable_entries(s.drop_last());
    if rest.contains(e) {
        lemma_matchable_entries(s.drop_last(), e);
        let k = choose|k: int| 0 <= k < s.drop_last().len() && s.drop_last()[k] == e;
        assert(s[k] == e);
    } else {
        assert(e == s.last());
        assert(s[s.len() - 1] == e);
    }
}

impl<S> Handler<S> {
    /// The router holds the registered routes that it can match against.
    #[verifier::type_invariant]
    spec fn router_holds_matchable(self) -> bool {
        router_entries(self.ssr_router) == matchable_entries(pairs_view(self.registered@))
    }

    /// The request being handled.
    pub closed spec fn request(self) -> RequestHead {
        self.request
    }

    /// The server function that claimed the request, by number.
    pub closed spec fn server_fn(self) -> Option<usize> {
        self.server_fn
    }

    /// The response decided beforehand, if any.
    pub closed spec fn preset(self) -> Option<PresetResponse<S>> {
        self.preset_res
    }

    /// The request is to be answered with `404 Not Found`.
    pub closed spec fn refused(self) -> bool {
        self.should_404
    }

    /// The application routes registered for rendering, in order: each
    /// pattern with its route number.
    pub closed spec fn registered(self) -> Seq<(Seq<char>, usize)> {
        pairs_view(self.registered@)
    }

    /// The router that answers requests.
    pub closed spec fn router(self) -> routefinder::Router<usize> {
        self.ssr_router
    }

    /// The numbers of the application routes registered for rendering.
    pub open spec fn routes(self) -> Set<usize> {
        Set::new(
            |id: usize|
                exists|k: int| 0 <= k < self.registered().len() && self.registered()[k].1 == id,
        )
    }

    /// The registered application route that best matches the request's path.
    pub closed spec fn best_route(self) -> Option<usize> {
        best_route(self.ssr_router, self.request.path@)
    }

    /// Some step has already claimed the request.
    pub open spec fn claimed(self) -> bool {
        self.server_fn() is Some || self.preset() is Some || self.refused()
    }

    /// `next` is `self` with the request refused.
    pub open spec fn is_refusal_of(self, next: Self) -> bool {
        &&& next.refused()
        &&& next.request() == self.request()
        &&& next.server_fn() == self.server_fn()
        &&& next.preset() == self.preset()
        &&& next.registered() == self.registered()
        &&& next.router() == self.router()
    }

    /// `next` is `self` with the request claimed by server function `id`.
    pub open spec fn is_server_fn_claim_of(self, next: Self, id: usize) -> bool {
        &&& next.server_fn() == Some(id)
        &&& next.request() == self.request()
        &&& next.refused() == self.refused()
        &&& next.preset() == self.preset()
        &&& next.registered() == self.registered()
        &&& next.router() == self.router()
    }

    /// `next` is what `self` becomes once the file at `path` was looked up and
    /// `found` came back: refused when there is no such file, else answered
    /// with it as `200 OK`, typed by its extension.
    pub open spec fn is_static_answer_of(self, next: Self, path: Seq<char>, found: Option<Body<S>>) -> bool {
        match found {
            None => self.is_refusal_of(next),
            Some(body) => {
                &&& next.preset() is Some
                &&& next.preset()->0.status == OK
                &&& next.preset()->0.body == body
                &&& next.preset()->0.content_type is Some
                &&& next.preset()->0.content_type->0@ == mime_type_for(path)
                &&& next.request() == self.request()
                &&& next.server_fn() == self.server_fn()
                &&& next.refused() == self.refused()
                &&& next.registered() == self.registered()
        &&& next.router() == self.router()
            },
        }
    }

    /// `r` is what registering the routes `cands`, leaving out `excluded`,
    /// makes of `self`: nothing when the request is already claimed; otherwise
    /// the first kept route whose pattern does not parse, if there is one, or
    /// else `self` with every kept route registered, in order, and those that
    /// the router can match against added to it, in order.
    pub open spec fn is_route_generation(
        self,
        r: Result<Self, RouteError>,
        cands: Seq<(Seq<char>, usize)>,
        excluded: Option<Seq<Seq<char>>>,
    ) -> bool {
        &&& self.claimed() ==> r == Ok::<Self, RouteError>(self)
        &&& !self.claimed() ==> (r is Err <==> exists|k: int| is_broken_route(cands, excluded, k))
        &&& !self.claimed() && r is Err ==> exists|k: int|
            {
                &&& is_broken_route(cands, excluded, k)
                &&& cands[k].0 == route_error_path(r->Err_0)@
                &&& forall|j: int| 0 <= j < k ==> !is_broken_route(cands, excluded, j)
            }
        &&& !self.claimed() && r is Ok ==> {
            let h = r->Ok_0;
            &&& h.request() == self.request()
            &&& h.server_fn() == self.server_fn()
            &&& h.preset() == self.preset()
            &&& h.refused() == self.refused()
            &&& h.registered() == self.registered() + kept_routes(cands, excluded)
            &&& h.router() == router_with(self.router(), kept_routes(cands, excluded))
        }
    }

    /// Registering routes has one outcome for given routes and exclusions:
    /// two outcomes on the same handler agree on whether it succeeds, on the
    /// route that failed, and on everything that the handler holds after it,
    /// its router included. So registering with no exclusions is registering
    /// with `None` for them.
    pub proof fn route_generation_is_determined(
        self,
        r1: Result<Self, RouteError>,
        r2: Result<Self, RouteError>,
        cands: Seq<(Seq<char>, usize)>,
        excluded: Option<Seq<Seq<char>>>,
    )
        requires
            self.is_route_generation(r1, cands, excluded),
            self.is_route_generation(r2, cands, excluded),
        ensures
            self.claimed() ==> r1 == r2,
            r1 is Ok <==> r2 is Ok,
            r1 is Err ==> route_error_path(r1->Err_0)@ == route_error_path(r2->Err_0)@,
            r1 is Ok ==> {
                let (h1, h2) = (r1->Ok_0, r2->Ok_0);
                &&& h1.request() == h2.request()
                &&& h1.server_fn() == h2.server_fn()
                &&& h1.preset() == h2.preset()
                &&& h1.refused() == h2.refused()
                &&& h1.registered() == h2.registered()
                &&& h1.router() == h2.router()
                &&& h1.best_route() == h2.best_route()
            },
    {
        if !self.claimed() && r1 is Err {
            let k1 = choose|k: int|
                {
                    &&& is_broken_route(cands, excluded, k)
                    &&& cands[k].0 == route_error_path(r1->Err_0)@
                    &&& forall|j: int| 0 <= j < k ==> !is_broken_route(cands, excluded, j)
                };
            let k2 = choose|k: int|
                {
                    &&& is_broken_route(cands, excluded, k)
                    &&& cands[k].0 == route_error_path(r2->Err_0)@
                    &&& forall|j: int| 0 <= j < k ==> !is_broken_route(cands, excluded, j)
                };
            assert(k1 == k2) by {
                if k1 < k2 {
                    assert(!is_broken_route(cands, excluded, k1));
                } else if k2 < k1 {
                    assert(!is_broken_route(cands, excluded, k2));
                }
            }
        }
    }

    /// A fresh handler for a request whose body was read: nothing has claimed
    /// the request and no route is registered.
    pub open spec fn is_fresh(self) -> bool {
        &&& self.server_fn() is None
        &&& self.preset() is None
        &&& !self.refused()
        &&& self.registered().len() == 0
    }

    /// Starts handling a request from how reading its body ended. A body over
    /// the limit is answered with `413 Payload Too Large` (the request is then
    /// treated as an empty `GET /`); any other failure is passed on.
    pub fn build<E>(request: RequestHead, outcome: BuildOutcome<E>) -> (r: Result<Self, E>)
        ensures
            outcome is Complete ==> (r matches Ok(h) && h.is_fresh() && h.request() == request),
            outcome matches BuildOutcome::TooLarge(limit) ==> (r matches Ok(h) && {
                &&& is_blank_request(h.request())
                &&& h.server_fn() is None
                &&& !h.refused()
                &&& h.registered().len() == 0
                &&& h.preset() is Some
                &&& h.preset()->0.status == PAYLOAD_TOO_LARGE
                &&& h.preset()->0.content_type is None
                &&& h.preset()->0.body is Sync
                &&& h.preset()->0.body->Sync_0@ == too_large_message(limit as nat)
            }),
            outcome matches BuildOutcome::Failed(e) ==> (r matches Err(x) && x == e),
    {
        match outcome {
            BuildOutcome::Complete => Ok(Handler {
                request,
                server_fn: None,
                preset_res: None,
                should_404: false,
                registered: Vec::new(),
                ssr_router: new_router(),
            }),
            BuildOutcome::TooLarge(limit) => Ok(Handler {
                request: RequestHead::blank(),
                server_fn: None,
                preset_res: Some(payload_too_large_response(limit)),
                should_404: false,
                registered: Vec::new(),
                ssr_router: new_router(),
            }),
            BuildOutcome::Failed(e) => Err(e),
        }
    }

    /// Whether some step has already claimed the request, so that the later
    /// ones can be skipped.
    pub fn shortcut(&self) -> (r: bool)
        ensures
            r == self.claimed(),
    {
        self.server_fn.is_some() || self.preset_res.is_some() || self.should_404
    }

    /// Lets the server function registered as number `id`, served for `method`
    /// at `path`, claim the request when both match it.
    pub fn with_server_fn(self, method: &str, path: &str, id: usize) -> (r: Self)
        ensures
            self.claimed() ==> r == self,
            !self.claimed() && self.request().method@ == method@ && self.request().path@ == path@
                ==> self.is_server_fn_claim_of(r, id),
            !self.claimed() && !(self.request().method@ == method@ && self.request().path@
                == path@) ==> r == self,
    {
        if self.shortcut() {
            return self;
        }
        proof {
            use_type_invariant(&self);
        }
        let mut h = self;
        if str_equal(h.request.method.as_str(), method) && str_equal(h.request.path.as_str(), path) {
            h.server_fn = Some(id);
        }
        h
    }

    /// The same as `with_server_fn`, for server functions with the generic
    /// body type.
    pub fn with_server_fn_generic(self, method: &str, path: &str, id: usize) -> (r: Self)
        ensures
            self.claimed() ==> r == self,
            !self.claimed() && self.request().method@ == method@ && self.request().path@ == path@
                ==> self.is_server_fn_claim_of(r, id),
            !self.claimed() && !(self.request().method@ == method@ && self.request().path@
                == path@) ==> r == self,
    {
        self.with_server_fn(method, path, id)
    }

    /// The same as `with_server_fn`, for server functions with the axum body
    /// type.
    pub fn with_server_fn_axum(self, method: &str, path: &str, id: usize) -> (r: Self)
        ensures
            self.claimed() ==> r == self,
            !self.claimed() && self.request().method@ == method@ && self.request().path@ == path@
                ==> self.is_server_fn_claim_of(r, id),
            !self.claimed() && !(self.request().method@ == method@ && self.request().path@
                == path@) ==> r == self,
    {
        self.with_server_fn(method, path, id)
    }

    /// Answers the request with the static file that was looked up at `path`,
    /// or refuses it when `found` is `None`.
    pub fn serve_static_file(self, path: &str, found: Option<Body<S>>) -> (r: Self)
        ensures
            self.is_static_answer_of(r, path@, found),
    {
        proof {
            use_type_invariant(&self);
        }
        let mut h = self;
        match found {
            None => {
                h.should_404 = true;
            },
            Some(body) => {
                let content_type = guess_mime_type(path);
                h.preset_res = Some(PresetResponse { status: OK, content_type: Some(content_type), body });
            },
        }
        h
    }

    /// Serves static files for request paths under `prefix`: the rest of the
    /// path, without leading slashes and percent-decoded, is handed to
    /// `handler`, which gives the file or `None`. A file path holding `..` or a
    /// backslash is refused before `handler` is called.
    pub fn static_files_handler<F>(self, prefix: &str, handler: F) -> (r: Self) where
        F: Fn(String) -> Option<Body<S>>,

        requires
            self.claimed() || forall|p: String| !is_traversal(encode_utf8(p@)) ==> call_requires(
                handler,
                (p,),
            ),
        ensures
            self.claimed() ==> r == self,
            !self.claimed() && !prefix_matches(encode_utf8(self.request().path@), encode_utf8(prefix@))
                ==> r == self,
            !self.claimed() && prefix_matches(encode_utf8(self.request().path@), encode_utf8(prefix@))
                && is_traversal(encode_utf8(static_file_path(self.request().path@, prefix@)))
                ==> self.is_refusal_of(r),
            !self.claimed() && prefix_matches(encode_utf8(self.request().path@), encode_utf8(prefix@))
                && !is_traversal(encode_utf8(static_file_path(self.request().path@, prefix@)))
                ==> exists|p: String, found: Option<Body<S>>|
                p@ == static_file_path(self.request().path@, prefix@) && call_ensures(
                    handler,
                    (p,),
                    found,
                ) && #[trigger] self.is_static_answer_of(r, p@, found),
    {
        if self.shortcut() {
            return self;
        }
        let lookup = static_lookup(self.request.path.as_str(), prefix);
        match lookup {
            StaticLookup::NoMatch => self,
            StaticLookup::Rejected => {
                proof {
            use_type_invariant(&self);
        }
        let mut h = self;
                h.should_404 = true;
                h
            },
            StaticLookup::Serve(path) => {
                let found = handler(path.clone());
                self.serve_static_file(path.as_str(), found)
            },
        }
    }

    /// Whether no application route has been registered yet.
    pub fn has_no_routes(&self) -> (r: bool)
        ensures
            r == (self.registered().len() == 0),
    {
        self.registered.len() == 0
    }

    /// Registers the application's routes for rendering, leaving out the
    /// paths in `excluded`. Route `i` of `listings` is registered under every
    /// path it stands for, with number `i`. Gives back the first route whose
    /// pattern does not parse or cannot be matched against, if any.
    pub fn generate_routes_with_exclusions_and_context(
        self,
        listings: &Vec<Vec<PathSegment>>,
        excluded: &Option<Vec<String>>,
    ) -> (r: Result<Self, RouteError>)
        requires
            self.claimed() || self.registered().len() == 0,
        ensures
            self.is_route_generation(
                r,
                route_candidates(nested_view(listings@)),
                opt_strings_view(*excluded),
            ),
    {
        if self.shortcut() {
            return Ok(self);
        }
        proof {
            use_type_invariant(&self);
        }
        let cands = route_candidates_of(listings);
        let ghost spec_cands = route_candidates(nested_view(listings@));
        let ghost ex = opt_strings_view(*excluded);
        let ghost start = self;
        let Handler { request, server_fn, preset_res, should_404, registered, ssr_router } = self;
        let mut record = registered;
        let mut router = ssr_router;
        let mut i: usize = 0;
        while i < cands.len()
            invariant
                i <= cands@.len(),
                crate::routes::candidates_view(cands@) == spec_cands,
                ex == opt_strings_view(*excluded),
                spec_cands == route_candidates(nested_view(listings@)),
                start == self,
                !start.claimed(),
                pairs_view(record@) == start.registered() + kept_routes(spec_cands.take(i as int), ex),
                router == router_with(start.router(), kept_routes(spec_cands.take(i as int), ex)),
                router_entries(router) == matchable_entries(pairs_view(record@)),
                forall|j: int| 0 <= j < i ==> !is_broken_route(spec_cands, ex, j),
            decreases cands@.len() - i,
        {
            let ghost taken = spec_cands.take(i as int);
            let ghost next = spec_cands.take(i + 1);
            let path = &cands[i].0;
            let id = cands[i].1;
            assert(spec_cands[i as int] == (path@, id));
            assert(next.drop_last() =~= taken);
            assert(next.last() == spec_cands[i as int]);
            if !is_excluded(excluded, path) {
                if !parses_as_route(path.as_str()) {
                    let failed = path.clone();
                    assert(is_broken_route(spec_cands, ex, i as int));
                    let r: Result<Self, RouteError> = Err(RouteError::Unparsable(failed));
                    assert(spec_cands[i as int].0 == route_error_path(r->Err_0)@);
                    return r;
                }
                let ghost before = pairs_view(record@);
                record.push((path.clone(), id));
                assert(pairs_view(record@) =~= before.push((path@, id)));
                assert(pairs_view(record@).drop_last() =~= before);
                assert(kept_routes(next, ex) == kept_routes(taken, ex).push((path@, id)));
                assert(start.registered() + kept_routes(next, ex) =~= before.push((path@, id)));
                assert(kept_routes(taken, ex).push((path@, id)).drop_last() =~= kept_routes(taken, ex));
                if pattern_matchable(path.as_str()) {
                    match router_add(&mut router, path.as_str(), id) {
                        Ok(()) => {},
                        Err(_) => {
                            return Err(RouteError::Unparsable(path.clone()));
                        },
                    }
                    assert(router_entries(router) =~= matchable_entries(pairs_view(record@)));
                }
            } else {
                assert(kept_routes(next, ex) == kept_routes(taken, ex));
            }
            i = i + 1;
        }
        assert(spec_cands.take(i as int) =~= spec_cands);
        Ok(Handler { request, server_fn, preset_res, should_404, registered: record, ssr_router: router })
    }

    /// Registers the application's routes for rendering, as
    /// `generate_routes_with_exclusions_and_context` does with no exclusions.
    pub fn generate_routes(self, listings: &Vec<Vec<PathSegment>>) -> (r: Result<Self, RouteError>)
        requires
            self.claimed() || self.registered().len() == 0,
        ensures
            self.is_route_generation(r, route_candidates(nested_view(listings@)), None),
    {
        self.generate_routes_with_exclusions_and_context(listings, &None)
    }

    /// Registers the application's routes for rendering, as
    /// `generate_routes_with_exclusions_and_context` does with no exclusions
    /// (the additional context is the application's own business).
    pub fn generate_routes_with_context(self, listings: &Vec<Vec<PathSegment>>) -> (r: Result<Self, RouteError>)
        requires
            self.claimed() || self.registered().len() == 0,
        ensures
            self.is_route_generation(r, route_candidates(nested_view(listings@)), None),
    {
        self.generate_routes_with_exclusions_and_context(listings, &None)
    }

    /// Decides what answers the request: `404 Not Found` when it was refused,
    /// else the response decided beforehand, else the server function that
    /// claimed it, else the registered application route that best matches
    /// its path, else `404 Not Found`.
    pub fn handle_with_context(self) -> (r: Dispatch<S>)
        ensures
            self.refused() ==> r is NotFound,
            !self.refused() && self.preset() is Some ==> r == Dispatch::Preset(self.preset()->0),
            !self.refused() && self.preset() is None && self.server_fn() is Some ==> r
                == Dispatch::<S>::ServerFn(self.server_fn()->0),
            !self.claimed() && self.best_route() is Some ==> r == Dispatch::<S>::Render(
                self.best_route()->0,
            ),
            !self.claimed() && self.best_route() is None ==> r is NotFound,
            !self.claimed() && r is Render ==> self.routes().contains(r->Render_0),
            !self.claimed() && self.registered().len() == 0 ==> r is NotFound,
    {
        proof {
            use_type_invariant(&self);
            assert forall|e: (Seq<char>, usize)|
                #[trigger] router_entries(self.ssr_router).contains(e) implies pattern_is_matchable(
                e.0,
            ) by {
                lemma_matchable_entries(self.registered(), e);
            }
            if self.registered().len() == 0 {
                assert(self.registered() =~= Seq::<(Seq<char>, usize)>::empty());
            }
        }
        let ghost routes = self.registered();
        let Handler { request, server_fn, preset_res, should_404, registered, ssr_router } = self;
        if should_404 {
            Dispatch::NotFound
        } else if let Some(p) = preset_res {
            Dispatch::Preset(p)
        } else if let Some(id) = server_fn {
            Dispatch::ServerFn(id)
        } else {
            match router_best_match(&ssr_router, request.path.as_str()) {
                Some(id) => {
                    proof {
                        let p = choose|p: Seq<char>| router_entries(ssr_router).contains((p, id));
                        lemma_matchable_entries(routes, (p, id));
                        let k = choose|k: int| 0 <= k < routes.len() && routes[k] == (p, id);
                        assert(routes[k].1 == id);
                    }
                    Dispatch::Render(id)
                },
                None => Dispatch::NotFound,
            }
        }
    }
}

} // verus!
