use rusty_ranger::entry::{Entry, EntryKind};
use rusty_ranger::keys::{command_for, Command, Key};
use rusty_ranger::listing::Listing;
use rusty_ranger::names::{is_hidden, name_precedes};
use rusty_ranger::path::DirPath;
use rusty_ranger::preview::{
    cap_text, text_from_bytes, PreviewRead, PREVIEW_LIMIT, PREVIEW_READ_BYTES, TRUNCATION_MARKER,
};

fn entry(name: &str, kind: EntryKind) -> Entry {
    Entry::new(name.to_string(), kind)
}

fn names(l: &Listing) -> Vec<String> {
    l.entries().iter().map(|e| e.name().to_string()).collect()
}

#[test]
fn listing_sorts_by_bytes() {
    let raw = vec![
        entry("b", EntryKind::File),
        entry("B", EntryKind::Directory),
        entry("é", EntryKind::File),
        entry("a", EntryKind::File),
        entry("_x", EntryKind::File),
        entry("Z", EntryKind::File),
        entry("ab", EntryKind::Directory),
        entry("10", EntryKind::File),
        entry("9", EntryKind::File),
    ];
    let l = Listing::from_entries(raw, true);
    assert_eq!(names(&l), vec!["10", "9", "B", "Z", "_x", "a", "ab", "b", "é"]);
    let mut sorted = names(&l);
    sorted.sort();
    assert_eq!(names(&l), sorted);
}

#[test]
fn listing_interleaves_files_and_directories() {
    let raw = vec![
        entry("c", EntryKind::Directory),
        entry("b", EntryKind::File),
        entry("a", EntryKind::Directory),
    ];
    let l = Listing::from_entries(raw, false);
    assert_eq!(names(&l), vec!["a", "b", "c"]);
    assert_eq!(l.get(0).kind(), EntryKind::Directory);
    assert_eq!(l.get(1).kind(), EntryKind::File);
}

#[test]
fn listing_filters_hidden_entries() {
    let raw = vec![
        entry(".git", EntryKind::Directory),
        entry("src", EntryKind::Directory),
        entry(".env", EntryKind::File),
        entry("a.b", EntryKind::File),
    ];
    let shown = Listing::from_entries(raw, false);
    assert_eq!(names(&shown), vec!["a.b", "src"]);
    let raw = vec![
        entry(".git", EntryKind::Directory),
        entry("src", EntryKind::Directory),
        entry(".env", EntryKind::File),
        entry("a.b", EntryKind::File),
    ];
    let all = Listing::from_entries(raw, true);
    assert_eq!(names(&all), vec![".env", ".git", "a.b", "src"]);
}

#[test]
fn listing_of_nothing_is_empty() {
    assert_eq!(Listing::from_entries(Vec::new(), true).len(), 0);
    assert_eq!(Listing::empty().len(), 0);
    let only_hidden = vec![entry(".a", EntryKind::File)];
    assert_eq!(Listing::from_entries(only_hidden, false).len(), 0);
}

#[test]
fn listing_keeps_equal_names() {
    let raw = vec![entry("same", EntryKind::File), entry("same", EntryKind::Directory)];
    let l = Listing::from_entries(raw, true);
    assert_eq!(names(&l), vec!["same", "same"]);
    assert_eq!(l.get(0).kind(), EntryKind::File);
    assert_eq!(l.get(1).kind(), EntryKind::Directory);
}

#[test]
fn position_of_finds_first_match() {
    let raw = vec![entry("b", EntryKind::File), entry("a", EntryKind::File)];
    let l = Listing::from_entries(raw, true);
    assert_eq!(l.position_of(&"b".to_string()), Some(1));
    assert_eq!(l.position_of(&"a".to_string()), Some(0));
    assert_eq!(l.position_of(&"c".to_string()), None);
}

#[test]
fn name_order() {
    assert!(name_precedes("a", "b"));
    assert!(!name_precedes("b", "a"));
    assert!(name_precedes("", ""));
    assert!(name_precedes("ab", "abc"));
    assert!(!name_precedes("abc", "ab"));
    assert!(name_precedes("Z", "a"));
    assert!(name_precedes("z", "é"));
    assert!(name_precedes("same", "same"));
}

#[test]
fn hidden_names() {
    assert!(is_hidden(".bashrc"));
    assert!(is_hidden("."));
    assert!(!is_hidden("a.txt"));
    assert!(!is_hidden(""));
    assert!(entry(".x", EntryKind::Directory).is_hidden());
}

#[test]
fn labels_mark_directories() {
    assert_eq!(entry("sub", EntryKind::Directory).label(), "sub/");
    assert_eq!(entry("a.txt", EntryKind::File).label(), "a.txt");
    assert!(entry("sub", EntryKind::Directory).is_directory());
    let e = entry("q", EntryKind::File).duplicate();
    assert_eq!(e.name(), "q");
    assert_eq!(e.kind(), EntryKind::File);
}

#[test]
fn text_is_capped() {
    assert_eq!(cap_text("short".to_string()), "short");
    let exact = "é".repeat(PREVIEW_LIMIT);
    assert_eq!(cap_text(exact.clone()), exact);
    let long = "é".repeat(PREVIEW_LIMIT + 1);
    assert_eq!(cap_text(long), format!("{}{}", "é".repeat(PREVIEW_LIMIT), TRUNCATION_MARKER));
    assert_eq!(PREVIEW_READ_BYTES, 4 * PREVIEW_LIMIT + 4);
}

#[test]
fn key_bindings() {
    assert_eq!(command_for(Key::Char('q')), Some(Command::Quit));
    assert_eq!(command_for(Key::Char('j')), Some(Command::MoveHover(1)));
    assert_eq!(command_for(Key::Down), Some(Command::MoveHover(1)));
    assert_eq!(command_for(Key::Char('k')), Some(Command::MoveHover(-1)));
    assert_eq!(command_for(Key::Up), Some(Command::MoveHover(-1)));
    assert_eq!(command_for(Key::Char('l')), Some(Command::Descend));
    assert_eq!(command_for(Key::Right), Some(Command::Descend));
    assert_eq!(command_for(Key::Char('h')), Some(Command::Ascend));
    assert_eq!(command_for(Key::Left), Some(Command::Ascend));
    assert_eq!(command_for(Key::Char('s')), Some(Command::ToggleHidden));
    assert_eq!(command_for(Key::Char('x')), None);
    assert_eq!(command_for(Key::Other), None);
}

#[test]
fn paths() {
    let root = DirPath::root();
    assert!(root.is_root());
    assert!(root.parent().is_none());
    assert!(root.last_name().is_none());
    let a = root.join(&"usr".to_string()).join(&"lib".to_string());
    assert_eq!(a.components().clone(), vec!["usr", "lib"]);
    assert_eq!(a.last_name().unwrap(), "lib");
    let p = a.parent().unwrap();
    assert_eq!(p.components().clone(), vec!["usr"]);
    assert!(p.parent().unwrap().is_root());
    assert_eq!(a.duplicate().components().clone(), vec!["usr", "lib"]);
}

fn text_of(read: PreviewRead) -> Option<String> {
    match read {
        PreviewRead::Text(t) => Some(t),
        _ => None,
    }
}

#[test]
fn utf8_bytes_preview_as_text() {
    let bytes = "héllo\nwörld".as_bytes().to_vec();
    assert_eq!(text_of(text_from_bytes(&bytes)), Some("héllo\nwörld".to_string()));
    assert_eq!(text_of(text_from_bytes(&Vec::new())), Some(String::new()));
}

#[test]
fn binary_bytes_are_unreadable() {
    let bytes = vec![0x66, 0xff, 0xfe, 0x00, 0x41];
    assert!(matches!(text_from_bytes(&bytes), PreviewRead::Unreadable));
    let cut_short = vec![0x61, 0xc3];
    assert!(matches!(text_from_bytes(&cut_short), PreviewRead::Unreadable));
}

#[test]
fn character_cut_by_read_limit_is_dropped() {
    let mut bytes = "a".repeat(PREVIEW_READ_BYTES - 2).into_bytes();
    bytes.extend_from_slice(&[0xe2, 0x82]);
    assert_eq!(bytes.len(), PREVIEW_READ_BYTES);
    let text = text_of(text_from_bytes(&bytes)).unwrap();
    assert_eq!(text, "a".repeat(PREVIEW_READ_BYTES - 2));
    let mut bad = "a".repeat(PREVIEW_READ_BYTES - 5).into_bytes();
    bad.extend_from_slice(&[0xff, 0x61, 0x61, 0x61, 0x61]);
    assert!(matches!(text_from_bytes(&bad), PreviewRead::Unreadable));
}
