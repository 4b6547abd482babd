use knowledge_base::config::Config;
use knowledge_base::data::{Knowledge, WriteError};

fn entry(title: &str, descriptions: &str, text: &str) -> Knowledge {
    Knowledge {
        title: title.to_string(),
        tag: vec![],
        text: text.to_string(),
        descriptions: descriptions.to_string(),
    }
}

fn config(directories: &[&str], extension: &str) -> Config {
    Config {
        data_directories: directories.iter().map(|d| d.to_string()).collect(),
        extension: extension.to_string(),
    }
}

#[test]
fn new_entry_has_one_tag() {
    let k = Knowledge::new("T".into(), "body".into(), "D".into(), "a, b".into());
    assert_eq!(k.title, "T");
    assert_eq!(k.text, "body");
    assert_eq!(k.descriptions, "D");
    assert_eq!(k.tag, vec!["a, b".to_string()]);
}

#[test]
fn parse_reads_headers_and_body() {
    let k = Knowledge::from_file("# Title: Rust\n# Descriptions: a language\n# Tags: lang, systems\nline one\nline two\n");
    assert_eq!(k.title, "Rust");
    assert_eq!(k.descriptions, "a language");
    assert_eq!(k.tag, vec!["lang".to_string(), "systems".to_string()]);
    assert_eq!(k.text, "line one\nline two\n");
}

#[test]
fn parse_headers_in_any_order() {
    let k = Knowledge::from_file("body\n# Tags:x\n# Descriptions:D\nmore\n# Title:T");
    assert_eq!(k.title, "T");
    assert_eq!(k.descriptions, "D");
    assert_eq!(k.tag, vec!["x".to_string()]);
    assert_eq!(k.text, "body\nmore\n");
}

#[test]
fn parse_without_title_gives_empty_title() {
    let k = Knowledge::from_file("just a body\n");
    assert_eq!(k.title, "");
    assert_eq!(k.descriptions, "");
    assert!(k.tag.is_empty());
    assert_eq!(k.text, "just a body\n");
}

#[test]
fn parse_empty_text() {
    let k = Knowledge::from_file("");
    assert_eq!(k.title, "");
    assert_eq!(k.text, "");
    assert!(k.tag.is_empty());
}

#[test]
fn parse_last_tags_line_wins() {
    let k = Knowledge::from_file("# Tags: a, b\n# Tags: c\n");
    assert_eq!(k.tag, vec!["c".to_string()]);
}

#[test]
fn parse_last_title_line_wins() {
    let k = Knowledge::from_file("# Title: first\n# Title: second\n");
    assert_eq!(k.title, "second");
    assert_eq!(k.text, "");
}

#[test]
fn parse_header_must_begin_the_line() {
    let k = Knowledge::from_file("see # Title: no\n # Title: neither\n");
    assert_eq!(k.title, "");
    assert_eq!(k.text, "see # Title: no\n # Title: neither\n");
}

#[test]
fn parse_trims_header_values() {
    let k = Knowledge::from_file("# Title: \t spaced out \u{a0}\r\n# Descriptions:\n");
    assert_eq!(k.title, "spaced out");
    assert_eq!(k.descriptions, "");
}

#[test]
fn parse_empty_tags_line_gives_one_empty_tag() {
    let k = Knowledge::from_file("# Tags:\n");
    assert_eq!(k.tag, vec![String::new()]);
}

#[test]
fn parse_trims_each_tag() {
    let k = Knowledge::from_file("# Tags:  a ,b,, c d \n");
    assert_eq!(
        k.tag,
        vec!["a".to_string(), "b".to_string(), String::new(), "c d".to_string()]
    );
}

#[test]
fn parse_keeps_body_without_final_newline() {
    let k = Knowledge::from_file("# Title: T\nlast line");
    assert_eq!(k.text, "last line");
}

#[test]
fn parse_keeps_blank_lines_of_body() {
    let k = Knowledge::from_file("\n\na\n\n");
    assert_eq!(k.text, "\n\na\n\n");
}

#[test]
fn serialize_writes_title_description_blank_line_text() {
    let k = entry("Rust", "a language", "line one\nline two\n");
    assert_eq!(k.serialize(), "# Title: Rust\n# Descriptions: a language\n\nline one\nline two\n");
}

#[test]
fn serialize_does_not_write_tags() {
    let mut k = entry("T", "D", "body");
    k.tag = vec!["x".into(), "y".into()];
    assert_eq!(k.serialize(), "# Title: T\n# Descriptions: D\n\nbody");
}

#[test]
fn round_trip_keeps_title_and_description() {
    let k = entry("My note", "about things", "first\nsecond\n");
    let back = Knowledge::from_file(&k.serialize());
    assert_eq!(back.title, "My note");
    assert_eq!(back.descriptions, "about things");
    assert!(back.tag.is_empty());
}

#[test]
fn round_trip_puts_separator_before_text() {
    let k = entry("My note", "about things", "first\nsecond\n");
    let back = Knowledge::from_file(&k.serialize());
    assert_eq!(back.text, "\nfirst\nsecond\n");
}

#[test]
fn round_trip_with_empty_description_and_text() {
    let k = entry("T", "", "");
    let back = Knowledge::from_file(&k.serialize());
    assert_eq!(back.title, "T");
    assert_eq!(back.descriptions, "");
    assert_eq!(back.text, "\n");
}

#[test]
fn file_name_is_title_dot_extension() {
    let k = entry("My note", "", "");
    assert_eq!(k.file_name("md"), "My note.md");
    assert_eq!(k.file_name(""), "My note.");
}

#[test]
fn write_goes_to_first_data_directory() {
    let k = entry("T", "D", "body");
    let request = k.write(&config(&["first", "second"], "md")).unwrap();
    assert_eq!(request.directory, vec!["first".to_string()]);
    assert_eq!(request.file_name, "T.md");
    assert_eq!(request.contents, "# Title: T\n# Descriptions: D\n\nbody");
    assert!(request.create_directory);
}

#[test]
fn write_without_data_directory_is_refused() {
    let k = entry("T", "D", "body");
    assert_eq!(k.write(&config(&[], "md")).unwrap_err(), WriteError::NoDataDirectory);
    let untitled = entry("", "D", "body");
    assert_eq!(untitled.write(&config(&[], "md")).unwrap_err(), WriteError::NoDataDirectory);
}

#[test]
fn write_without_title_is_refused() {
    let k = entry("", "D", "body");
    assert_eq!(k.write(&config(&["dir"], "md")).unwrap_err(), WriteError::EmptyTitle);
    assert_eq!(
        k.write_to_file(&vec!["dir".to_string()], "md").unwrap_err(),
        WriteError::EmptyTitle
    );
}

#[test]
fn write_to_file_goes_to_given_directory() {
    let k = entry("T", "", "x");
    let directory = vec!["root".to_string(), "sub".to_string()];
    let request = k.write_to_file(&directory, "txt").unwrap();
    assert_eq!(request.directory, directory);
    assert_eq!(request.file_name, "T.txt");
    assert_eq!(request.contents, "# Title: T\n# Descriptions: \n\nx");
    assert!(!request.create_directory);
}
