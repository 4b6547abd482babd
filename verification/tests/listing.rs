use knowledge_base::files::{file_stem, get_file_list, has_extension, DirEntry, EntryKind};

fn entry(name: &str, kind: EntryKind) -> DirEntry {
    DirEntry { name: name.to_string(), kind }
}

#[test]
fn extension_is_what_follows_the_last_dot() {
    assert!(has_extension("todo.md", "md"));
    assert!(has_extension("a.b.md", "md"));
    assert!(has_extension("..md", "md"));
    assert!(has_extension("name.", ""));
    assert!(!has_extension("todo.md", "txt"));
    assert!(!has_extension("todo.md", "d"));
    assert!(!has_extension("todo.md", ".md"));
    assert!(!has_extension("todo.md.bak", "md"));
    assert!(!has_extension("todo.mdx", "md"));
}

#[test]
fn names_without_extension() {
    assert!(!has_extension("md", "md"));
    assert!(!has_extension(".md", "md"));
    assert!(!has_extension("", ""));
    assert!(!has_extension("README", ""));
}

#[test]
fn stem_is_what_precedes_the_last_dot() {
    assert_eq!(file_stem("todo.md"), "todo");
    assert_eq!(file_stem("a.b.md"), "a.b");
    assert_eq!(file_stem("README"), "README");
    assert_eq!(file_stem(".hidden"), ".hidden");
    assert_eq!(file_stem("name."), "name");
    assert_eq!(file_stem(""), "");
}

#[test]
fn listing_keeps_directories_and_entry_files() {
    let entries = vec![
        entry("notes", EntryKind::Dir),
        entry("todo.md", EntryKind::File),
        entry("picture.png", EntryKind::File),
        entry("socket", EntryKind::Other),
        entry("dir.png", EntryKind::Dir),
        entry("b.md", EntryKind::File),
        entry("link.md", EntryKind::Other),
    ];
    let files = get_file_list(&entries, "md");
    let names: Vec<&str> = files.iter().map(|e| e.name.as_str()).collect();
    assert_eq!(names, vec!["notes", "todo.md", "dir.png", "b.md"]);
    let kinds: Vec<EntryKind> = files.iter().map(|e| e.kind).collect();
    assert_eq!(kinds, vec![EntryKind::Dir, EntryKind::File, EntryKind::Dir, EntryKind::File]);
}

#[test]
fn listing_of_nothing_is_empty() {
    assert!(get_file_list(&vec![], "md").is_empty());
}
