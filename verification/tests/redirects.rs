use leptos_wasi::{
    accepts_html, finish_server_fn_response, redirect, sanitize_referrer, RedirectAction,
};

fn html() -> Option<Vec<u8>> {
    Some(b"text/html,application/xhtml+xml".to_vec())
}

fn bytes(s: &str) -> Option<Vec<u8>> {
    Some(s.as_bytes().to_vec())
}

#[test]
fn referrer_keeps_only_the_path_and_query() {
    assert_eq!(sanitize_referrer(b"http://127.0.0.1/previous-page"), Some(b"/previous-page".to_vec()));
    assert_eq!(
        sanitize_referrer(b"https://malicious.example.com/steal-session?x=1"),
        Some(b"/steal-session?x=1".to_vec())
    );
    assert_eq!(sanitize_referrer(b"/local/page"), Some(b"/local/page".to_vec()));
    assert_eq!(sanitize_referrer(b"http://example.com"), Some(b"/".to_vec()));
}

#[test]
fn referrer_with_backslashes_is_refused() {
    assert_eq!(sanitize_referrer(b"http://127.0.0.1/\\\\evil.com/steal-session"), None);
    assert_eq!(sanitize_referrer(b"http://127.0.0.1/%5C%5Cevil.com/steal-session"), None);
    assert_eq!(sanitize_referrer(b"http://127.0.0.1/%5c%5cevil.com/steal-session"), None);
}

#[test]
fn referrer_that_is_not_a_local_path_is_refused() {
    assert_eq!(sanitize_referrer(b"//evil.com/x"), None);
    assert_eq!(sanitize_referrer(b"evil.com"), None);
    assert_eq!(sanitize_referrer(b""), None);
    assert_eq!(sanitize_referrer(b"http://127.0.0.1/caf\xc3\xa9"), None);
    assert_eq!(sanitize_referrer(b"http://127.0.0.1/a\x01b"), None);
}

#[test]
fn html_is_accepted_only_from_a_readable_accept_header() {
    assert!(accepts_html(&html()));
    assert!(accepts_html(&bytes("text/html")));
    assert!(!accepts_html(&bytes("application/json")));
    assert!(!accepts_html(&None));
    assert!(!accepts_html(&Some(b"text/html\x7f".to_vec())));
}

#[test]
fn component_redirect_of_a_form_request_is_a_found() {
    match redirect("/target-page", &html()) {
        RedirectAction::Found(l) => assert_eq!(l, b"/target-page".to_vec()),
        other => panic!("unexpected {:?}", other),
    }
}

#[test]
fn component_redirect_from_the_client_is_left_to_the_client() {
    match redirect("/target-page", &bytes("application/json")) {
        RedirectAction::ClientRedirect(l) => assert_eq!(l, b"/target-page".to_vec()),
        other => panic!("unexpected {:?}", other),
    }
}

#[test]
fn component_redirect_with_a_header_injection_is_a_bad_request() {
    assert!(matches!(
        redirect("/target-page\r\nLocation: http://evil.com", &None),
        RedirectAction::BadRequest
    ));
}

#[test]
fn form_submission_goes_back_to_the_referring_page() {
    let r = finish_server_fn_response(&html(), &bytes("http://127.0.0.1/previous-page"), 200, &None);
    assert_eq!(r.status, 302);
    assert_eq!(r.location, Some(b"/previous-page".to_vec()));
}

#[test]
fn form_submission_from_another_site_stays_here() {
    let r = finish_server_fn_response(
        &html(),
        &bytes("https://malicious.example.com/steal-session"),
        200,
        &None,
    );
    assert_eq!(r.status, 302);
    assert_eq!(r.location, Some(b"/steal-session".to_vec()));
}

#[test]
fn form_submission_with_a_backslash_referrer_goes_home() {
    let r = finish_server_fn_response(
        &html(),
        &bytes("http://127.0.0.1/\\\\evil.com/steal-session"),
        200,
        &None,
    );
    assert_eq!(r.status, 302);
    assert_eq!(r.location, Some(b"/".to_vec()));
}

#[test]
fn default_location_is_replaced_by_the_referrer() {
    let r = finish_server_fn_response(&html(), &bytes("http://h/back"), 200, &bytes("/"));
    assert_eq!(r.status, 302);
    assert_eq!(r.location, Some(b"/back".to_vec()));
}

#[test]
fn chosen_location_is_kept_in_its_safe_form() {
    let r = finish_server_fn_response(&html(), &bytes("http://h/back"), 302, &bytes("http://x/next?a=1"));
    assert_eq!(r.status, 302);
    assert_eq!(r.location, Some(b"/next?a=1".to_vec()));
}

#[test]
fn unsafe_location_becomes_home() {
    let r = finish_server_fn_response(&None, &None, 302, &bytes("//evil.com/x"));
    assert_eq!(r.status, 302);
    assert_eq!(r.location, Some(b"/".to_vec()));
}

#[test]
fn plain_response_is_left_alone() {
    let r = finish_server_fn_response(&bytes("application/json"), &bytes("http://h/back"), 200, &None);
    assert_eq!(r.status, 200);
    assert_eq!(r.location, None);
}

#[test]
fn default_location_with_bad_referrer_stays() {
    let r = finish_server_fn_response(&html(), &bytes("//evil.com"), 200, &bytes("/"));
    assert_eq!(r.status, 200);
    assert_eq!(r.location, Some(b"/".to_vec()));
}

#[test]
fn sanitized_referrer_is_a_fixed_point() {
    let inputs: [&[u8]; 5] = [
        b"http://127.0.0.1/previous-page?x=1#frag",
        b"/local/page",
        b"/",
        b"http://example.com",
        b"https://a.example/b/c?d=e",
    ];
    for input in inputs {
        let once = sanitize_referrer(input).unwrap();
        assert_eq!(sanitize_referrer(&once), Some(once.clone()));
    }
    assert_eq!(sanitize_referrer(b"http://127.0.0.1/page#frag"), Some(b"/page".to_vec()));
}

#[test]
fn unreadable_or_unparsable_referrers_are_dropped() {
    assert_eq!(sanitize_referrer(b"/caf\xc3\xa9"), None);
    assert_eq!(sanitize_referrer(b""), None);
    assert_eq!(sanitize_referrer(b"http://exa mple.com/x"), None);
}
