use knowledge_base::config::Config;
use knowledge_base::data::{Handler, Knowledge};
use knowledge_base::tag_index::{get_list, RightItem, TagIndex};

fn entry(title: &str, tags: &[&str]) -> Knowledge {
    Knowledge {
        title: title.to_string(),
        tag: tags.iter().map(|t| t.to_string()).collect(),
        text: String::new(),
        descriptions: String::new(),
    }
}

fn config() -> Config {
    Config { data_directories: vec!["notes".into(), "more".into()], extension: "md".into() }
}

#[test]
fn new_handler_is_empty() {
    let config = config();
    let handler = Handler::new(&config);
    assert!(handler.data.is_empty());
    assert_eq!(handler.config.extension, "md");
}

#[test]
fn tag_index_of_two_entries() {
    let config = config();
    let mut handler = Handler::new(&config);
    handler.data.push(entry("A", &["x"]));
    handler.data.push(entry("B", &["x", "y"]));
    let index = handler.get_mapping();
    assert_eq!(index.get("x"), Some(&vec![0, 1]));
    assert_eq!(index.get("y"), Some(&vec![1]));
    let titles: Vec<&str> =
        index.get("x").unwrap().iter().map(|&i| handler.data[i].title.as_str()).collect();
    assert_eq!(titles, vec!["A", "B"]);
    let titles: Vec<&str> =
        index.get("y").unwrap().iter().map(|&i| handler.data[i].title.as_str()).collect();
    assert_eq!(titles, vec!["B"]);
}

#[test]
fn tag_index_lists_tags_in_order_of_first_use() {
    let entries = vec![entry("A", &["y", "x"]), entry("B", &["z", "y"])];
    let index = TagIndex::build(&entries);
    assert_eq!(index.tags(), &vec!["y".to_string(), "x".to_string(), "z".to_string()]);
}

#[test]
fn tag_index_has_every_entry_under_each_of_its_tags() {
    let entries = vec![
        entry("A", &["x", "y"]),
        entry("B", &[]),
        entry("C", &["y"]),
        entry("D", &["z", "x", "y"]),
    ];
    let index = TagIndex::build(&entries);
    for (position, e) in entries.iter().enumerate() {
        for tag in &e.tag {
            assert!(index.get(tag).unwrap().contains(&position));
        }
    }
    for tag in index.tags() {
        for &position in index.get(tag).unwrap() {
            assert!(entries[position].tag.contains(tag));
        }
    }
}

#[test]
fn entry_without_tags_is_in_no_bucket() {
    let entries = vec![entry("A", &["x"]), entry("B", &[]), entry("C", &["x"])];
    let index = TagIndex::build(&entries);
    assert_eq!(index.tags().len(), 1);
    assert_eq!(index.get("x"), Some(&vec![0, 2]));
}

#[test]
fn unknown_tag_has_no_bucket() {
    let entries = vec![entry("A", &["x"])];
    let index = TagIndex::build(&entries);
    assert_eq!(index.get("nope"), None);
    assert_eq!(index.get(""), None);
}

#[test]
fn tag_index_of_nothing_is_empty() {
    let index = TagIndex::build(&vec![]);
    assert!(index.tags().is_empty());
    assert_eq!(index.get("x"), None);
}

#[test]
fn repeated_tag_lists_the_entry_once_per_occurrence() {
    let entries = vec![entry("A", &["x", "x"])];
    let index = TagIndex::build(&entries);
    assert_eq!(index.get("x"), Some(&vec![0, 0]));
}

#[test]
fn glob_patterns_cover_each_data_directory() {
    let config = config();
    let handler = Handler::new(&config);
    assert_eq!(
        handler.glob_patterns(),
        vec!["notes/**/*.md".to_string(), "more/**/*.md".to_string()]
    );
}

#[test]
fn read_all_files_parses_each_text() {
    let config = config();
    let mut handler = Handler::new(&config);
    let skipped = handler.read_all_files(&vec![
        Some("# Title: A\n# Tags: x\nalpha\n".to_string()),
        Some("# Title: B\nbeta\n".to_string()),
    ]);
    assert!(skipped.is_empty());
    assert_eq!(handler.data.len(), 2);
    assert_eq!(handler.data[0].title, "A");
    assert_eq!(handler.data[0].tag, vec!["x".to_string()]);
    assert_eq!(handler.data[0].text, "alpha\n");
    assert_eq!(handler.data[1].title, "B");
    assert_eq!(handler.data[1].text, "beta\n");
}

#[test]
fn read_all_files_skips_unreadable_files() {
    let config = config();
    let mut handler = Handler::new(&config);
    let skipped = handler.read_all_files(&vec![
        None,
        Some("# Title: A\n".to_string()),
        None,
        Some("# Title: B\n".to_string()),
    ]);
    assert_eq!(skipped, vec![0, 2]);
    let titles: Vec<&str> = handler.data.iter().map(|k| k.title.as_str()).collect();
    assert_eq!(titles, vec!["A", "B"]);
}

#[test]
fn read_all_files_adds_to_what_is_loaded() {
    let config = config();
    let mut handler = Handler::new(&config);
    handler.read_all_files(&vec![Some("# Title: A\n".to_string())]);
    handler.read_all_files(&vec![Some("# Title: B\n".to_string())]);
    let titles: Vec<&str> = handler.data.iter().map(|k| k.title.as_str()).collect();
    assert_eq!(titles, vec!["A", "B"]);
}

#[test]
fn loaded_entries_are_indexed_by_their_tags() {
    let config = config();
    let mut handler = Handler::new(&config);
    handler.read_all_files(&vec![
        Some("# Title: A\n# Tags: x\n".to_string()),
        Some("# Title: B\n# Tags: x, y\n".to_string()),
    ]);
    let index = handler.get_mapping();
    assert_eq!(index.get("x"), Some(&vec![0, 1]));
    assert_eq!(index.get("y"), Some(&vec![1]));
}

#[test]
fn listing_without_tag_shows_the_tags() {
    let entries = vec![entry("A", &["y", "x"]), entry("B", &["x"])];
    let index = TagIndex::build(&entries);
    let items = get_list(&index, &None);
    assert_eq!(items.len(), 2);
    assert!(matches!(&items[0], RightItem::Parent(tag) if tag == "y"));
    assert!(matches!(&items[1], RightItem::Parent(tag) if tag == "x"));
}

#[test]
fn listing_under_tag_shows_its_entries() {
    let entries = vec![entry("A", &["y", "x"]), entry("B", &[]), entry("C", &["x"])];
    let index = TagIndex::build(&entries);
    let items = get_list(&index, &Some("x".to_string()));
    assert_eq!(items.len(), 2);
    assert!(matches!(items[0], RightItem::Knowledge(0)));
    assert!(matches!(items[1], RightItem::Knowledge(2)));
}

#[test]
fn listing_under_unknown_tag_is_empty() {
    let entries = vec![entry("A", &["x"])];
    let index = TagIndex::build(&entries);
    assert!(get_list(&index, &Some("nope".to_string())).is_empty());
}
