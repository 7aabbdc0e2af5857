use leptos_wasi::static_files::{file_extension, guess_mime_type};
use leptos_wasi::{static_lookup, Body, BuildOutcome, Dispatch, Handler, RequestHead, StaticLookup};

fn get(path: &str) -> RequestHead {
    RequestHead {
        method: "GET".to_string(),
        path: path.to_string(),
        accept: None,
        referer: None,
        referrer: None,
    }
}

fn handler_for(path: &str) -> Handler<()> {
    match Handler::build(get(path), BuildOutcome::<()>::Complete) {
        Ok(h) => h,
        Err(_) => panic!("a complete body builds a handler"),
    }
}

fn files(path: String) -> Option<Body<()>> {
    match path.as_str() {
        "app.js" => Some(Body::Sync(b"console.log(1)".to_vec())),
        "app.css" => Some(Body::Sync(b"body{}".to_vec())),
        "my file.css" => Some(Body::Sync(b"body { background: blue; }".to_vec())),
        "assets/icons/logo.svg" => Some(Body::Sync(b"<svg/>".to_vec())),
        "app.wasm" => Some(Body::Sync(Vec::new())),
        "zero.txt" => Some(Body::Sync(Vec::new())),
        "blob.unknownext" => Some(Body::Sync(vec![1, 2, 3])),
        _ => None,
    }
}

fn serve(path: &str) -> Dispatch<()> {
    handler_for(path).static_files_handler("/static", files).handle_with_context()
}

fn served_type(path: &str) -> String {
    match serve(path) {
        Dispatch::Preset(p) => {
            assert_eq!(p.status, 200);
            p.content_type.expect("a served file has a content type")
        },
        other => panic!("expected a file for {}, got {:?}", path, other),
    }
}

#[test]
fn paths_under_the_prefix_are_looked_up_decoded() {
    match static_lookup("/static/my%20file.css", "/static") {
        StaticLookup::Serve(p) => assert_eq!(p, "my file.css"),
        other => panic!("unexpected {:?}", other),
    }
    match static_lookup("/static//nested/a.js", "/static") {
        StaticLookup::Serve(p) => assert_eq!(p, "nested/a.js"),
        other => panic!("unexpected {:?}", other),
    }
    match static_lookup("/static", "/static") {
        StaticLookup::Serve(p) => assert_eq!(p, ""),
        other => panic!("unexpected {:?}", other),
    }
    match static_lookup("/assets/x.png", "/assets/") {
        StaticLookup::Serve(p) => assert_eq!(p, "x.png"),
        other => panic!("unexpected {:?}", other),
    }
}

#[test]
fn look_alike_paths_are_not_static_files() {
    assert!(matches!(static_lookup("/static-page", "/static"), StaticLookup::NoMatch));
    assert!(matches!(static_lookup("/stat", "/static"), StaticLookup::NoMatch));
    assert!(matches!(static_lookup("/other/static/a", "/static"), StaticLookup::NoMatch));
}

#[test]
fn traversal_is_refused_before_lookup() {
    assert!(matches!(static_lookup("/static/../Cargo.toml", "/static"), StaticLookup::Rejected));
    assert!(matches!(static_lookup("/static/%2e%2e/Cargo.toml", "/static"), StaticLookup::Rejected));
    assert!(matches!(static_lookup("/static/a%5Cb", "/static"), StaticLookup::Rejected));
}

#[test]
fn static_files_get_their_content_type() {
    assert!(served_type("/static/app.js").contains("javascript"));
    assert!(served_type("/static/app.css").contains("css"));
    assert!(served_type("/static/app.wasm").contains("wasm"));
    assert!(served_type("/static/assets/icons/logo.svg").contains("svg"));
    assert_eq!(served_type("/static/blob.unknownext"), "application/octet-stream");
}

#[test]
fn escaped_file_names_are_served() {
    match serve("/static/my%20file.css") {
        Dispatch::Preset(p) => match p.body {
            Body::Sync(b) => assert_eq!(b, b"body { background: blue; }".to_vec()),
            Body::Async(_) => panic!("a file body is known in full"),
        },
        other => panic!("unexpected {:?}", other),
    }
}

#[test]
fn zero_byte_files_are_served() {
    match serve("/static/zero.txt") {
        Dispatch::Preset(p) => assert!(matches!(p.body, Body::Sync(ref b) if b.is_empty())),
        other => panic!("unexpected {:?}", other),
    }
}

#[test]
fn missing_files_and_traversal_are_not_found() {
    assert!(matches!(serve("/static/does-not-exist.png"), Dispatch::NotFound));
    assert!(matches!(serve("/static/../Cargo.toml"), Dispatch::NotFound));
}

#[test]
fn the_file_handler_never_sees_a_traversal() {
    let h = handler_for("/static/%2e%2e/secret").static_files_handler("/static", |p: String| -> Option<Body<()>> {
        panic!("handler called with {}", p)
    });
    assert!(matches!(h.handle_with_context(), Dispatch::NotFound));
}

#[test]
fn other_paths_are_left_to_the_next_step() {
    let h = handler_for("/static-page").static_files_handler("/static", files);
    assert!(!h.shortcut());
}

#[test]
fn extension_is_read_as_a_unix_path() {
    let paths = [
        "index.html", "a/b/app.js", "a/b.tar.gz", ".hidden", "a/.hidden", "a/.b.css", "noext",
        "a.", "dir/", "dir.d/", "a/b.txt/.", "a/b.txt/./", "a/..", "..", ".", "/", "", "a//b.png",
        "x/./y.svg", "caf\u{e9}.html", "r\u{e9}sum\u{e9}.\u{e9}t\u{e9}", "a.b/c",
    ];
    for p in paths {
        let expected = std::path::Path::new(p).extension().and_then(|e| e.to_str()).unwrap_or("");
        assert_eq!(file_extension(p), expected, "extension of {:?}", p);
    }
}

#[test]
fn media_types_by_extension() {
    assert_eq!(guess_mime_type("index.html"), "text/html");
    assert_eq!(guess_mime_type("pkg/app.JS"), "text/javascript");
    assert_eq!(guess_mime_type("styles/site.css"), "text/css");
    assert_eq!(guess_mime_type("README"), "application/octet-stream");
    assert_eq!(guess_mime_type(".css"), "application/octet-stream");
    assert_eq!(guess_mime_type("a/b.txt/."), "text/plain");
}
