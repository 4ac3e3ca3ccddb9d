use std::sync::Arc;

use archivist::archivist::{
    decode_segments, has_trailing_slash, mount_redirect_needed, RouteDecision,
};
use archivist::config::{AccessMethod, Config};
use archivist::entry::Entry;
use archivist::renderer::PlainRenderer;
use archivist::Archivist;

fn segs(xs: &[&str]) -> Vec<String> {
    xs.iter().map(|s| String::from(*s)).collect()
}

fn plain_archivist(raw: bool) -> Archivist<PlainRenderer> {
    let c = Config::new(
        String::from("site"),
        String::from("localhost:5000"),
        true,
        Vec::new(),
        Vec::new(),
        Vec::new(),
        None,
    );
    if raw {
        Archivist::summon_raw(&c, Arc::new(PlainRenderer))
    } else {
        Archivist::summon(&c, Arc::new(PlainRenderer))
    }
}

#[test]
fn summon_keeps_the_configuration() {
    let a = plain_archivist(false);
    assert!(!a.raw);
    assert_eq!(a.root, "site");
    assert!(a.config.allow_all);
    let r = plain_archivist(true);
    assert!(r.raw);
}

#[test]
fn directory_without_trailing_slash_is_not_found() {
    let a = plain_archivist(false);
    assert_eq!(
        a.route(Some(AccessMethod::Dir), false),
        RouteDecision::NotFound
    );
    assert_eq!(a.route(Some(AccessMethod::Dir), true), RouteDecision::ListDir);
}

#[test]
fn file_with_trailing_slash_is_not_found() {
    let a = plain_archivist(false);
    assert_eq!(
        a.route(Some(AccessMethod::Markdown), true),
        RouteDecision::NotFound
    );
    assert_eq!(
        a.route(Some(AccessMethod::Markdown), false),
        RouteDecision::LoadMarkdown
    );
    assert_eq!(
        a.route(Some(AccessMethod::Verbatim), false),
        RouteDecision::LoadVerbatim
    );
    assert_eq!(a.route(Some(AccessMethod::Raw), false), RouteDecision::ServeRaw);
    assert_eq!(a.route(None, false), RouteDecision::NotFound);
}

#[test]
fn raw_mode_serves_files_raw_and_refuses_directories() {
    let a = plain_archivist(true);
    assert_eq!(
        a.route(Some(AccessMethod::Markdown), false),
        RouteDecision::ServeRaw
    );
    assert_eq!(a.route(Some(AccessMethod::Dir), true), RouteDecision::NotFound);
}

#[test]
fn verbatim_body_is_byte_identical_to_content() {
    let a = plain_archivist(false);
    let content = "fn main() {}\n// spades: \u{2660}";
    let page = a.respond_verbatim("src/main.rs", content).unwrap();
    assert_eq!(page.status, 200);
    assert_eq!(page.body, content);
}

#[test]
fn markdown_body_is_html_derived_from_content() {
    let a = plain_archivist(false);
    let content = "# Title\n\nhello";
    let page = a.respond_markdown("a.md", content).unwrap();
    assert_eq!(page.status, 200);
    assert_ne!(page.body, content);
    assert!(page.body.contains("<h1>"));
    assert!(page.body.contains("Title"));
    assert!(page.body.contains("<p>hello</p>"));
}

#[test]
fn not_found_page_has_the_fixed_message() {
    let a = plain_archivist(false);
    let page = a.not_found("gone").unwrap();
    assert_eq!(page.status, 404);
    assert_eq!(page.body, "The requested archive is not found");
}

#[test]
fn invalid_format_page_is_416() {
    let a = plain_archivist(false);
    let page = a.invalid_format("bad.txt").unwrap();
    assert_eq!(page.status, 416);
    assert_eq!(page.body, "The requested file is not valid UTF8");
}

#[test]
fn decode_segments_decodes_percent_escapes() {
    let raw = segs(&["a%20b", "c", "%C3%A9"]);
    let got = decode_segments(&raw).unwrap();
    assert_eq!(got, segs(&["a b", "c", "\u{e9}"]));
}

#[test]
fn decode_segments_rejects_invalid_utf8() {
    let raw = segs(&["ok", "%FF"]);
    assert!(decode_segments(&raw).is_none());
}

#[test]
fn trailing_slash_is_the_empty_last_segment() {
    assert!(has_trailing_slash(&segs(&["a", ""])));
    assert!(!has_trailing_slash(&segs(&["a"])));
    assert!(!has_trailing_slash(&segs(&[])));
}

#[test]
fn mount_redirect_fires_on_differing_last_segments() {
    let a = String::from("docs");
    let b = String::from("");
    assert!(mount_redirect_needed(Some(&a), Some(&b)));
    assert!(!mount_redirect_needed(Some(&a), Some(&a.clone())));
    assert!(!mount_redirect_needed(None, None));
    assert!(mount_redirect_needed(Some(&a), None));
}

#[test]
fn directory_page_lists_one_entry_per_line() {
    let a = plain_archivist(false);
    let entries = vec![
        Entry::from("a.md", false, None),
        Entry::from("sub", true, None),
    ];
    let page = a.respond_dir("docs", &entries).unwrap();
    assert_eq!(page.status, 200);
    assert_eq!(page.body, "a.md\nsub/\n");
}

#[test]
fn markdown_file_round_trip_through_policy_and_dispatch() {
    let c = Config::new(
        String::from("."),
        String::from("localhost:5000"),
        false,
        vec![String::from("md")],
        Vec::new(),
        Vec::new(),
        None,
    );
    let a = Archivist::summon(&c, Arc::new(PlainRenderer));
    let m = c.method_for(&segs(&["a.md"]), false);
    assert_eq!(m, Some(AccessMethod::Markdown));
    assert_eq!(a.route(m, true), RouteDecision::NotFound);
    assert_eq!(a.route(m, false), RouteDecision::LoadMarkdown);
    let page = a.respond_markdown("a.md", "# Hi").unwrap();
    assert_eq!(page.status, 200);
    assert!(page.body.contains("<h1>"));
}
