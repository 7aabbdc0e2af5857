use leptos_wasi::body::payload_too_large_response;
use leptos_wasi::{
    not_found_response, Body, BuildOutcome, Dispatch, Handler, PathSegment, PresetResponse,
    RequestHead, RouteError, MAX_REQUEST_BODY_SIZE,
};

fn request(method: &str, path: &str) -> RequestHead {
    RequestHead {
        method: method.to_string(),
        path: path.to_string(),
        accept: None,
        referer: None,
        referrer: None,
    }
}

fn fresh(method: &str, path: &str) -> Handler<()> {
    match Handler::build(request(method, path), BuildOutcome::<String>::Complete) {
        Ok(h) => h,
        Err(e) => panic!("unexpected {}", e),
    }
}

fn st(s: &str) -> PathSegment {
    PathSegment::Static(s.to_string())
}

fn app_routes() -> Vec<Vec<PathSegment>> {
    vec![
        vec![PathSegment::Unit],
        vec![st("ssr"), st("async")],
        vec![st("static-page")],
        vec![st("users"), PathSegment::Param("id".to_string())],
        vec![st("docs"), PathSegment::Splat("rest".to_string())],
    ]
}

fn body_text(p: &PresetResponse<()>) -> String {
    match &p.body {
        Body::Sync(b) => String::from_utf8(b.clone()).unwrap(),
        Body::Async(_) => panic!("expected a body known in full"),
    }
}

#[test]
fn oversized_body_is_answered_with_413() {
    let h: Handler<()> = match Handler::build(request("POST", "/api/x"), BuildOutcome::<String>::TooLarge(MAX_REQUEST_BODY_SIZE)) {
        Ok(h) => h,
        Err(e) => panic!("unexpected {}", e),
    };
    assert!(h.shortcut());
    match h.handle_with_context() {
        Dispatch::Preset(p) => {
            assert_eq!(p.status, 413);
            assert_eq!(body_text(&p), "Request body too large (max: 16777216 bytes)");
        },
        other => panic!("unexpected {:?}", other),
    }
}

#[test]
fn failed_body_read_is_passed_on() {
    let r: Result<Handler<()>, String> = Handler::build(request("GET", "/"), BuildOutcome::Failed("boom".to_string()));
    assert!(matches!(r, Err(ref e) if e == "boom"));
}

#[test]
fn limit_is_sixteen_mebibytes() {
    assert_eq!(MAX_REQUEST_BODY_SIZE, 16 * 1024 * 1024);
    let p: PresetResponse<()> = payload_too_large_response(12);
    assert_eq!(body_text(&p), "Request body too large (max: 12 bytes)");
}

#[test]
fn server_function_claims_matching_method_and_path() {
    let h = fresh("POST", "/api/post_test")
        .with_server_fn("GET", "/api/get_test", 0)
        .with_server_fn("GET", "/api/post_test", 1)
        .with_server_fn("POST", "/api/post_test", 2)
        .with_server_fn("POST", "/api/post_test", 3);
    assert!(matches!(h.handle_with_context(), Dispatch::ServerFn(2)));
}

#[test]
fn generic_and_axum_registrations_behave_alike() {
    let a = fresh("POST", "/api/generic_test").with_server_fn_generic("POST", "/api/generic_test", 7);
    let b = fresh("POST", "/api/custom_test").with_server_fn_axum("POST", "/api/custom_test", 8);
    assert!(matches!(a.handle_with_context(), Dispatch::ServerFn(7)));
    assert!(matches!(b.handle_with_context(), Dispatch::ServerFn(8)));
}

#[test]
fn first_claim_wins() {
    let h = fresh("GET", "/static/app.js")
        .static_files_handler("/static", |_p: String| Some(Body::Sync(b"x".to_vec())))
        .with_server_fn("GET", "/static/app.js", 1);
    let h = match h.generate_routes(&app_routes()) {
        Ok(h) => h,
        Err(e) => panic!("route {:?} was refused", e),
    };
    assert!(h.has_no_routes());
    assert!(matches!(h.handle_with_context(), Dispatch::Preset(_)));
}

#[test]
fn routes_render_by_best_match() {
    let h = match fresh("GET", "/ssr/async").generate_routes(&app_routes()) {
        Ok(h) => h,
        Err(e) => panic!("route {:?} was refused", e),
    };
    assert!(!h.has_no_routes());
    assert!(matches!(h.handle_with_context(), Dispatch::Render(1)));
    let h = fresh("GET", "/static-page").generate_routes(&app_routes()).unwrap();
    assert!(matches!(h.handle_with_context(), Dispatch::Render(2)));
    let h = fresh("GET", "/users/42").generate_routes(&app_routes()).unwrap();
    assert!(matches!(h.handle_with_context(), Dispatch::Render(3)));
    let h = fresh("GET", "/docs/a/b/c").generate_routes(&app_routes()).unwrap();
    assert!(matches!(h.handle_with_context(), Dispatch::Render(4)));
    let h = fresh("GET", "/").generate_routes_with_context(&app_routes()).unwrap();
    assert!(matches!(h.handle_with_context(), Dispatch::Render(0)));
}

#[test]
fn unknown_paths_are_not_found() {
    let h = fresh("GET", "/nowhere").generate_routes(&app_routes()).unwrap();
    assert!(matches!(h.handle_with_context(), Dispatch::NotFound));
    assert!(matches!(fresh("GET", "/").handle_with_context(), Dispatch::NotFound));
}

#[test]
fn excluded_routes_are_not_rendered() {
    let excluded = Some(vec!["/static-page".to_string()]);
    let h = fresh("GET", "/static-page")
        .generate_routes_with_exclusions_and_context(&app_routes(), &excluded)
        .unwrap();
    assert!(matches!(h.handle_with_context(), Dispatch::NotFound));
}

#[test]
fn unparsable_route_is_reported() {
    let routes = vec![vec![st("ok")], vec![st("*named")]];
    match fresh("GET", "/ok").generate_routes(&routes) {
        Ok(_) => panic!("a named wildcard is not a route pattern"),
        Err(e) => {
            assert_eq!(e, RouteError::Unparsable("/*named".to_string()));
            assert_eq!(e.path(), "/*named");
        }
    }
}

#[test]
fn first_unparsable_route_is_reported() {
    let routes = vec![
        vec![st("ok")],
        vec![PathSegment::Splat("rest".to_string()), st("x")],
        vec![st("bad"), st("*named")],
        vec![st("worse"), st(":")],
    ];
    match fresh("GET", "/ok").generate_routes(&routes) {
        Ok(_) => panic!("a named wildcard is not a route pattern"),
        Err(e) => assert_eq!(e, RouteError::Unparsable("/bad/*named".to_string())),
    }
}

#[test]
fn routes_the_router_cannot_match_are_registered() {
    let routes = vec![
        vec![st("about")],
        vec![PathSegment::Splat("rest".to_string()), st("x")],
        vec![st("caf\u{e9}"), PathSegment::Param("id".to_string()), st("x")],
        vec![PathSegment::Param("id".to_string()), st("caf\u{e9}")],
    ];
    let h = fresh("GET", "/about").generate_routes(&routes).unwrap();
    assert!(!h.has_no_routes());
    assert!(matches!(h.handle_with_context(), Dispatch::Render(0)));
    let h = fresh("GET", "/7/caf\u{e9}").generate_routes(&routes).unwrap();
    assert!(matches!(h.handle_with_context(), Dispatch::Render(3)));
    let h = fresh("GET", "/nowhere").generate_routes(&routes).unwrap();
    assert!(matches!(h.handle_with_context(), Dispatch::NotFound));
}

#[test]
fn every_kept_route_is_registered() {
    let routes = vec![vec![PathSegment::Unit], vec![st("about")], vec![st("contact")]];
    for (path, id) in [("/", 0usize), ("/about", 1), ("/contact", 2)] {
        let h = fresh("GET", path).generate_routes(&routes).unwrap();
        match h.handle_with_context() {
            Dispatch::Render(n) => assert_eq!(n, id),
            _ => panic!("{} was not rendered", path),
        }
    }
    let excluded = Some(vec!["/about".to_string()]);
    let h = fresh("GET", "/contact")
        .generate_routes_with_exclusions_and_context(&routes, &excluded)
        .unwrap();
    assert!(matches!(h.handle_with_context(), Dispatch::Render(2)));
}

#[test]
fn route_forms_agree_without_exclusions() {
    for path in ["/", "/ssr/async", "/users/9", "/docs/x/y", "/missing"] {
        let a = fresh("GET", path).generate_routes(&app_routes()).unwrap().handle_with_context();
        let b = fresh("GET", path)
            .generate_routes_with_exclusions_and_context(&app_routes(), &None)
            .unwrap()
            .handle_with_context();
        let c = fresh("GET", path).generate_routes_with_context(&app_routes()).unwrap().handle_with_context();
        match (a, b, c) {
            (Dispatch::Render(x), Dispatch::Render(y), Dispatch::Render(z)) => {
                assert_eq!(x, y);
                assert_eq!(y, z);
            }
            (Dispatch::NotFound, Dispatch::NotFound, Dispatch::NotFound) => {}
            _ => panic!("the forms disagree on {}", path),
        }
    }
}

#[test]
fn not_found_says_so() {
    let p: PresetResponse<()> = not_found_response();
    assert_eq!(p.status, 404);
    assert_eq!(body_text(&p), "404 not found");
}
