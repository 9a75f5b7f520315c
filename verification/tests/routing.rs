//! The router on concrete request lines, and percent-decoding on its own.

use file_server::router::{percent_decode, route, Method, RouteDecision};

fn path(p: &str) -> Vec<u8> {
    p.as_bytes().to_vec()
}

#[test]
fn root_get_greets() {
    assert!(matches!(route(Method::Get, &path("/")), RouteDecision::Greeting));
}

#[test]
fn root_post_is_not_allowed() {
    assert!(matches!(
        route(Method::Post, &path("/")),
        RouteDecision::MethodNotAllowed
    ));
}

#[test]
fn file_get_downloads() {
    match route(Method::Get, &path("/file/test.txt")) {
        RouteDecision::Download(name) => assert_eq!(name, "test.txt"),
        other_decision => panic!("expected a download, got {:?}", decision_kind(&other_decision)),
    }
}

#[test]
fn file_post_uploads() {
    match route(Method::Post, &path("/file/upload.bin")) {
        RouteDecision::Upload(name) => assert_eq!(name, "upload.bin"),
        other_decision => panic!("expected an upload, got {:?}", decision_kind(&other_decision)),
    }
}

#[test]
fn file_other_method_is_not_allowed() {
    assert!(matches!(
        route(Method::Other, &path("/file/test.txt")),
        RouteDecision::MethodNotAllowed
    ));
}

#[test]
fn name_segment_is_percent_decoded() {
    match route(Method::Get, &path("/file/a%20b%2Bc")) {
        RouteDecision::Download(name) => assert_eq!(name, "a b+c"),
        other_decision => panic!("expected a download, got {:?}", decision_kind(&other_decision)),
    }
}

#[test]
fn stray_percent_stays_verbatim() {
    match route(Method::Get, &path("/file/100%zz")) {
        RouteDecision::Download(name) => assert_eq!(name, "100%zz"),
        other_decision => panic!("expected a download, got {:?}", decision_kind(&other_decision)),
    }
}

#[test]
fn name_decoding_to_invalid_text_is_refused() {
    assert!(matches!(
        route(Method::Get, &path("/file/%ff")),
        RouteDecision::BadName
    ));
}

#[test]
fn deeper_paths_do_not_match() {
    assert!(matches!(
        route(Method::Get, &path("/file/a/b")),
        RouteDecision::NotFound
    ));
}

#[test]
fn empty_name_does_not_match() {
    assert!(matches!(
        route(Method::Get, &path("/file/")),
        RouteDecision::NotFound
    ));
}

#[test]
fn unknown_paths_do_not_match() {
    assert!(matches!(route(Method::Get, &path("/other")), RouteDecision::NotFound));
    assert!(matches!(route(Method::Get, &path("")), RouteDecision::NotFound));
    assert!(matches!(route(Method::Get, &path("/files")), RouteDecision::NotFound));
}

#[test]
fn percent_decode_handles_hex_cases() {
    assert_eq!(percent_decode(&path("a%41%61%30")), b"aAa0".to_vec());
    assert_eq!(percent_decode(&path("%E2%98%83")), "☃".as_bytes().to_vec());
    assert_eq!(percent_decode(&path("%2")), b"%2".to_vec());
    assert_eq!(percent_decode(&path("%%41")), b"%A".to_vec());
    assert_eq!(percent_decode(&path("")), Vec::<u8>::new());
}

fn decision_kind(d: &RouteDecision) -> &'static str {
    match d {
        RouteDecision::Greeting => "greeting",
        RouteDecision::Download(_) => "download",
        RouteDecision::Upload(_) => "upload",
        RouteDecision::BadName => "bad name",
        RouteDecision::MethodNotAllowed => "method not allowed",
        RouteDecision::NotFound => "not found",
    }
}
