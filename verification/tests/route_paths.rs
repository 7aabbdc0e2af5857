use leptos_router::ExpandOptionals;
use leptos_wasi::routes::expand_route_optionals;
use leptos_wasi::router::pattern_matchable;
use leptos_wasi::{into_route_listing, to_rf_str_representation, PathSegment};

fn st(s: &str) -> PathSegment {
    PathSegment::Static(s.to_string())
}

fn param(s: &str) -> PathSegment {
    PathSegment::Param(s.to_string())
}

fn opt(s: &str) -> PathSegment {
    PathSegment::OptionalParam(s.to_string())
}

fn to_router_segment(seg: &PathSegment) -> leptos_router::PathSegment {
    match seg {
        PathSegment::Unit => leptos_router::PathSegment::Unit,
        PathSegment::Static(s) => leptos_router::PathSegment::Static(s.clone().into()),
        PathSegment::Param(s) => leptos_router::PathSegment::Param(s.clone().into()),
        PathSegment::OptionalParam(s) => leptos_router::PathSegment::OptionalParam(s.clone().into()),
        PathSegment::Splat(s) => leptos_router::PathSegment::Splat(s.clone().into()),
    }
}

fn as_router(path: &[PathSegment]) -> Vec<leptos_router::PathSegment> {
    path.iter().map(to_router_segment).collect()
}

#[test]
fn segments_are_written_as_router_patterns() {
    assert_eq!(to_rf_str_representation(&vec![st("ssr"), st("in-order")]), "/ssr/in-order");
    assert_eq!(to_rf_str_representation(&vec![st("users"), param("id")]), "/users/:id");
    assert_eq!(to_rf_str_representation(&vec![st("docs"), PathSegment::Splat("rest".to_string())]), "/docs/*");
    assert_eq!(to_rf_str_representation(&vec![st("/abs"), st("x")]), "/abs/x");
    assert_eq!(to_rf_str_representation(&vec![PathSegment::Unit]), "");
    assert_eq!(to_rf_str_representation(&vec![]), "");
    assert_eq!(to_rf_str_representation(&vec![st("")]), "");
}

#[test]
fn optional_parameter_adds_only_its_separator() {
    assert_eq!(to_rf_str_representation(&vec![st("a"), opt("b")]), "/a/");
}

#[test]
fn optional_parameters_expand_like_the_router() {
    let cases = vec![
        vec![st("a"), param("b")],
        vec![opt("a"), st("b")],
        vec![opt("a"), opt("b"), st("c")],
        vec![st("x"), opt("y"), st("z"), opt("w")],
        vec![],
    ];
    for case in cases {
        let ours: Vec<Vec<leptos_router::PathSegment>> =
            expand_route_optionals(&case).iter().map(|p| as_router(p)).collect();
        let theirs = as_router(&case).expand_optionals();
        assert_eq!(ours, theirs);
    }
}

#[test]
fn a_route_is_listed_under_each_expanded_path() {
    assert_eq!(into_route_listing(&vec![opt("a"), st("b")]), vec!["/:a/b".to_string(), "/b".to_string()]);
    assert_eq!(into_route_listing(&vec![PathSegment::Unit]), vec!["/".to_string()]);
    assert_eq!(into_route_listing(&vec![st("ssr"), st("meta")]), vec!["/ssr/meta".to_string()]);
}

#[test]
fn raw_text_of_segments() {
    assert_eq!(PathSegment::Unit.as_raw_str(), "");
    assert_eq!(param("id").as_raw_str(), "id");
    assert_eq!(PathSegment::Splat("rest".to_string()).as_raw_str(), "rest");
}

#[test]
fn matchable_patterns() {
    assert!(pattern_matchable("/"));
    assert!(pattern_matchable("/docs/*"));
    assert!(pattern_matchable("/users/:id/posts"));
    assert!(pattern_matchable("/:id/caf\u{e9}"));
    assert!(pattern_matchable("/caf\u{e9}/:id"));
    assert!(!pattern_matchable("/*/x"));
    assert!(!pattern_matchable("/*.html"));
    assert!(!pattern_matchable("/caf\u{e9}/:id/x"));
    assert!(!pattern_matchable("/caf\u{e9}/:id.json"));
}
