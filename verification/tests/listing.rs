use archivist::config::Config;
use archivist::entry::Entry;
use archivist::listing::{
    assemble_listing, get_entry_order, sort_children, ChildRecord, EntryOrder,
};

fn names(xs: &[&str]) -> Vec<String> {
    xs.iter().map(|s| String::from(*s)).collect()
}

fn child(name: &str, is_dir: bool, modified_secs: Option<i64>) -> ChildRecord {
    ChildRecord { name: String::from(name), is_dir, modified_secs }
}

fn cfg(allow_all: bool, allowed_extensions: &[&str], markdown: &[&str]) -> Config {
    Config::new(
        String::from("."),
        String::from("localhost:5000"),
        allow_all,
        names(allowed_extensions),
        Vec::new(),
        Vec::new(),
        Some(names(markdown)),
    )
}

fn entry_names(es: &[Entry]) -> Vec<String> {
    es.iter().map(|e| e.file_name.clone()).collect()
}

#[test]
fn order_parameter_falls_back_to_lexicographical() {
    assert_eq!(get_entry_order(None), EntryOrder::Lexicographical);
    let lex = String::from("lexicographical");
    assert_eq!(get_entry_order(Some(&lex)), EntryOrder::Lexicographical);
    let chron = String::from("chronological");
    assert_eq!(get_entry_order(Some(&chron)), EntryOrder::Chronological);
    let other = String::from("newest-first");
    assert_eq!(get_entry_order(Some(&other)), EntryOrder::Lexicographical);
}

#[test]
fn sort_lexicographical_orders_names_bytewise() {
    let mut v = vec![
        child("banana", false, Some(1)),
        child("Apple", false, Some(3)),
        child("apple", true, Some(2)),
        child("apple2", false, None),
    ];
    sort_children(&mut v, EntryOrder::Lexicographical);
    let got: Vec<&str> = v.iter().map(|c| c.name.as_str()).collect();
    assert_eq!(got, vec!["Apple", "apple", "apple2", "banana"]);
}

#[test]
fn sort_chronological_orders_by_modification_time() {
    let mut v = vec![
        child("late", false, Some(30)),
        child("early", false, Some(10)),
        child("middle", false, Some(20)),
    ];
    sort_children(&mut v, EntryOrder::Chronological);
    let got: Vec<&str> = v.iter().map(|c| c.name.as_str()).collect();
    assert_eq!(got, vec!["early", "middle", "late"]);
}

#[test]
fn sort_chronological_keeps_unreadable_times() {
    let mut v = vec![
        child("b", false, None),
        child("a", false, Some(5)),
        child("c", false, Some(1)),
    ];
    sort_children(&mut v, EntryOrder::Chronological);
    let mut got: Vec<&str> = v.iter().map(|c| c.name.as_str()).collect();
    assert_eq!(v.len(), 3);
    got.sort();
    assert_eq!(got, vec!["a", "b", "c"]);
}

#[test]
fn listing_shows_only_visible_children_in_order() {
    let c = cfg(false, &["md", "txt"], &["md"]);
    let children = vec![
        child("b.txt", false, Some(2)),
        child("a.md", false, Some(1)),
        child(".secret", false, Some(3)),
        child("notes", false, Some(4)),
    ];
    let parent: Vec<String> = Vec::new();
    let es = assemble_listing(&c, &parent, &children, EntryOrder::Lexicographical);
    assert_eq!(entry_names(&es), vec![String::from("a.md"), String::from("b.txt")]);
}

#[test]
fn listing_includes_directories_and_raw_files_under_allow_all() {
    let c = cfg(true, &[], &["md"]);
    let children = vec![
        child("image.png", false, Some(2)),
        child("readme", false, Some(1)),
        child("sub", true, Some(3)),
    ];
    let parent: Vec<String> = Vec::new();
    let es = assemble_listing(&c, &parent, &children, EntryOrder::Lexicographical);
    assert_eq!(
        entry_names(&es),
        vec![String::from("image.png"), String::from("readme"), String::from("sub")]
    );
    assert!(!es[0].is_dir);
    assert!(es[2].is_dir);
}

#[test]
fn entry_from_formats_minutes() {
    let e = Entry::from("a.md", false, Some(1234567890));
    assert_eq!(e.file_name, "a.md");
    assert!(!e.is_dir);
    assert_eq!(e.modified, "2009-02-13 23:31");
}

#[test]
fn entry_from_unreadable_time_is_blank() {
    let e = Entry::from("sub", true, None);
    assert!(e.is_dir);
    assert_eq!(e.modified, "");
}
