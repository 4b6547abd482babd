use knowledge_base::config::{nests_too_deep, Config, ConfigError, MAX_NESTING};

#[test]
fn config_from_toml_document() {
    let config =
        Config::new("data_directories = [\"notes\", \"archive\"]\nextension = \"md\"\n").unwrap();
    assert_eq!(config.data_directories, vec!["notes".to_string(), "archive".to_string()]);
    assert_eq!(config.extension, "md");
}

#[test]
fn config_ignores_other_keys() {
    let config = Config::new(
        "title = \"kb\"\nextension = \"txt\"\ndata_directories = [\"only\"]\n[other]\nx = 1\n",
    )
    .unwrap();
    assert_eq!(config.data_directories, vec!["only".to_string()]);
    assert_eq!(config.extension, "txt");
}

#[test]
fn config_accepts_empty_directory_list() {
    let config = Config::new("data_directories = []\nextension = \"md\"\n").unwrap();
    assert!(config.data_directories.is_empty());
}

#[test]
fn config_rejects_text_that_is_not_toml() {
    assert_eq!(Config::new("data_directories = [").err(), Some(ConfigError::Syntax));
    assert_eq!(Config::new("= =").err(), Some(ConfigError::Syntax));
}

#[test]
fn config_rejects_missing_data_directories() {
    assert_eq!(
        Config::new("extension = \"md\"\n").err(),
        Some(ConfigError::MissingDataDirectories)
    );
    assert_eq!(Config::new("").err(), Some(ConfigError::MissingDataDirectories));
    assert_eq!(
        Config::new("data_directories = \"notes\"\nextension = \"md\"\n").err(),
        Some(ConfigError::MissingDataDirectories)
    );
}

#[test]
fn config_rejects_directory_that_is_not_a_string() {
    assert_eq!(
        Config::new("data_directories = [[\"a\"], [1]]\nextension = \"md\"\n").err(),
        Some(ConfigError::InvalidDataDirectory(0))
    );
    assert_eq!(
        Config::new("data_directories = [1, 2]\n").err(),
        Some(ConfigError::InvalidDataDirectory(0))
    );
}

#[test]
fn config_rejects_missing_extension() {
    assert_eq!(
        Config::new("data_directories = [\"notes\"]\n").err(),
        Some(ConfigError::MissingExtension)
    );
    assert_eq!(
        Config::new("data_directories = [\"notes\"]\nextension = 3\n").err(),
        Some(ConfigError::MissingExtension)
    );
}

#[test]
fn config_from_fields_examines_directories_first() {
    assert_eq!(Config::from_fields(None, None).err(), Some(ConfigError::Syntax));
    assert_eq!(
        Config::from_fields(Some(None), None).err(),
        Some(ConfigError::MissingDataDirectories)
    );
    assert_eq!(
        Config::from_fields(Some(Some(vec![Some("a".into()), None, None])), Some(None)).err(),
        Some(ConfigError::InvalidDataDirectory(1))
    );
    assert_eq!(
        Config::from_fields(Some(Some(vec![Some("a".into())])), None).err(),
        Some(ConfigError::Syntax)
    );
    assert_eq!(
        Config::from_fields(Some(Some(vec![Some("a".into())])), Some(None)).err(),
        Some(ConfigError::MissingExtension)
    );
    let config = Config::from_fields(
        Some(Some(vec![Some("a".into()), Some("b".into())])),
        Some(Some("md".into())),
    )
    .unwrap();
    assert_eq!(config.data_directories, vec!["a".to_string(), "b".to_string()]);
    assert_eq!(config.extension, "md");
}

#[test]
fn config_errors_have_messages() {
    assert_eq!(ConfigError::TooDeep.message(), "the configuration nests too deeply");
    let errors = [
        ConfigError::Syntax,
        ConfigError::MissingDataDirectories,
        ConfigError::InvalidDataDirectory(2),
        ConfigError::MissingExtension,
        ConfigError::NoDataDirectory,
        ConfigError::RootNotDirectory,
    ];
    let messages: Vec<String> = errors.iter().map(|e| e.message()).collect();
    assert_eq!(messages[0], "the configuration is not a TOML document");
    assert_eq!(messages[1], "the configuration has no array `data_directories`");
    assert_eq!(messages[2], "an item of `data_directories` is not a string");
    assert_eq!(messages[3], "the configuration has no string `extension`");
    assert_eq!(messages[4], "the configuration names no data directory");
    assert_eq!(messages[5], "the last data directory of the configuration is not a directory");
}

#[test]
fn config_rejects_deeply_nested_text() {
    let valid = "data_directories = [\"a\"]\nextension = \"md\"\n";
    let deep = format!("{}x = {}", valid, "[".repeat(MAX_NESTING));
    assert_eq!(Config::new(&deep).err(), Some(ConfigError::TooDeep));
    let dotted = format!("{}{} = 1\n", valid, "a.".repeat(MAX_NESTING + 1));
    assert_eq!(Config::new(&dotted).err(), Some(ConfigError::TooDeep));
}

#[test]
fn config_reads_text_at_the_nesting_limit() {
    let valid = "data_directories = [\"a\"]\nextension = \"md\"\n";
    let nested = format!(
        "{}x = {}{}\n",
        valid,
        "[".repeat(MAX_NESTING - 1),
        "]".repeat(MAX_NESTING - 1)
    );
    let config = Config::new(&nested).unwrap();
    assert_eq!(config.data_directories, vec!["a".to_string()]);
    let unclosed = format!("{}x = {}", valid, "[".repeat(MAX_NESTING - 1));
    assert_eq!(Config::new(&unclosed).err(), Some(ConfigError::Syntax));
}

#[test]
fn nesting_counts_brackets_and_dots_of_one_line() {
    assert!(!nests_too_deep(""));
    assert!(!nests_too_deep(&"[".repeat(MAX_NESTING)));
    assert!(nests_too_deep(&"{".repeat(MAX_NESTING + 1)));
    assert!(!nests_too_deep(&".".repeat(MAX_NESTING)));
    assert!(nests_too_deep(&".".repeat(MAX_NESTING + 1)));
    assert!(!nests_too_deep(&".\n".repeat(10 * MAX_NESTING)));
    let mixed = format!("{}\n{}", "[".repeat(MAX_NESTING - 1), "..");
    assert!(nests_too_deep(&mixed));
    let mixed = format!("{}\n{}", "[".repeat(MAX_NESTING - 1), ".\n.");
    assert!(!nests_too_deep(&mixed));
}
