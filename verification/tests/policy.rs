use archivist::config::{AccessMethod, Config};

fn names(xs: &[&str]) -> Vec<String> {
    xs.iter().map(|s| String::from(*s)).collect()
}

fn segs(xs: &[&str]) -> Vec<String> {
    xs.iter().map(|s| String::from(*s)).collect()
}

fn cfg(
    allow_all: bool,
    allowed_extensions: &[&str],
    allowed_file_names: &[&str],
    blocked_file_names: &[&str],
    markdown: Option<&[&str]>,
) -> Config {
    Config::new(
        String::from("."),
        String::from("localhost:5000"),
        allow_all,
        names(allowed_extensions),
        names(allowed_file_names),
        names(blocked_file_names),
        markdown.map(names),
    )
}

#[test]
fn parent_dir_is_denied_even_with_allow_all() {
    let c = cfg(true, &[], &[], &[], None);
    assert_eq!(c.method_for(&segs(&["a", "..", "b.md"]), false), None);
    assert_eq!(c.method_for(&segs(&[".."]), true), None);
}

#[test]
fn dot_file_is_denied_even_with_allow_all() {
    let c = cfg(true, &[], &[], &[], None);
    assert_eq!(c.method_for(&segs(&[".secret"]), false), None);
    assert_eq!(c.method_for(&segs(&["sub", ".hidden", "x.md"]), false), None);
}

#[test]
fn dot_file_is_served_when_explicitly_allowed() {
    let c = cfg(false, &[], &[".secret"], &[], None);
    assert_eq!(
        c.method_for(&segs(&[".secret"]), false),
        Some(AccessMethod::Verbatim)
    );
}

#[test]
fn blocked_name_precedes_allowed_name() {
    let c = cfg(true, &["md"], &["x.md"], &["x.md"], None);
    assert_eq!(c.method_for(&segs(&["x.md"]), false), None);
}

#[test]
fn directory_is_not_filtered_by_extension() {
    let c = cfg(false, &[], &[], &[], None);
    assert_eq!(c.method_for(&segs(&["anything"]), true), Some(AccessMethod::Dir));
}

#[test]
fn markdown_extension_renders_markdown() {
    let c = cfg(false, &["md", "txt"], &[], &[], Some(&["md"]));
    assert_eq!(c.method_for(&segs(&["a.md"]), false), Some(AccessMethod::Markdown));
}

#[test]
fn textual_extension_renders_verbatim() {
    let c = cfg(false, &["md", "txt"], &[], &[], Some(&["md"]));
    assert_eq!(c.method_for(&segs(&["b.txt"]), false), Some(AccessMethod::Verbatim));
}

#[test]
fn unlisted_extension_is_denied_without_allow_all() {
    let c = cfg(false, &["md", "txt"], &[], &[], Some(&["md"]));
    assert_eq!(c.method_for(&segs(&["image.png"]), false), None);
}

#[test]
fn binary_extension_serves_raw_under_allow_all() {
    let c = cfg(true, &[], &[], &[], None);
    assert_eq!(c.method_for(&segs(&["image.png"]), false), Some(AccessMethod::Raw));
}

#[test]
fn no_extension_needs_allow_all_or_name() {
    let strict = cfg(false, &["md"], &[], &[], None);
    assert_eq!(strict.method_for(&segs(&["notes"]), false), None);
    let open = cfg(true, &[], &[], &[], None);
    assert_eq!(open.method_for(&segs(&["readme"]), false), Some(AccessMethod::Verbatim));
}

#[test]
fn dotted_name_uses_last_extension() {
    let c = cfg(false, &["gz"], &[], &[], None);
    assert_eq!(c.method_for(&segs(&["a.tar.gz"]), false), Some(AccessMethod::Raw));
}

#[test]
fn blocked_directory_component_denies_the_whole_path() {
    let c = cfg(true, &[], &[], &["private"], None);
    assert_eq!(c.method_for(&segs(&["private", "x.md"]), false), None);
    assert_eq!(c.method_for(&segs(&["private"]), true), None);
}

#[test]
fn trailing_empty_segment_does_not_change_the_file_name() {
    let c = cfg(false, &["md"], &[], &[], None);
    assert_eq!(
        c.method_for(&segs(&["a.md", ""]), false),
        Some(AccessMethod::Markdown)
    );
    assert_eq!(c.method_for(&segs(&["sub", ""]), true), Some(AccessMethod::Dir));
}

#[test]
fn empty_extension_counts_as_an_extension() {
    let c = cfg(false, &[], &["foo."], &[], None);
    assert_eq!(c.method_for(&segs(&["foo."]), false), Some(AccessMethod::Raw));
    let strict = cfg(false, &["md"], &[], &[], None);
    assert_eq!(strict.method_for(&segs(&["foo."]), false), None);
}

#[test]
fn dot_prefixed_name_with_extension_is_still_denied() {
    let c = cfg(true, &["txt"], &[], &[], None);
    assert_eq!(c.method_for(&segs(&[".foo.txt"]), false), None);
}

#[test]
fn is_file_and_is_dir_partition_the_methods() {
    assert!(AccessMethod::Markdown.is_file());
    assert!(AccessMethod::Verbatim.is_file());
    assert!(AccessMethod::Raw.is_file());
    assert!(!AccessMethod::Dir.is_file());
    assert!(AccessMethod::Dir.is_dir());
    assert!(!AccessMethod::Markdown.is_dir());
    assert!(!AccessMethod::Verbatim.is_dir());
    assert!(!AccessMethod::Raw.is_dir());
}

#[test]
fn default_config_serves_current_directory() {
    let c = Config::default();
    assert_eq!(c.root_dir, ".");
    assert_eq!(c.listen, "localhost:5000");
    assert!(!c.allow_all);
    assert_eq!(c.markdown, vec![String::from("md")]);
    assert!(c.allowed_extensions.is_empty());
}
