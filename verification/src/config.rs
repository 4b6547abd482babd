//! The configuration of the knowledge base, read from a TOML document.

use crate::text::chars_of;
use vstd::prelude::*;

verus! {

/// Where the entries live and which files count as entries.
///
/// The last of `data_directories` is the root that the browser opens; the
/// first is where new entries are written.
pub struct Config {
    pub data_directories: Vec<String>,
    pub extension: String,
}

/// The mathematical content of a configuration.
pub struct ConfigView {
    pub data_directories: Seq<Seq<char>>,
    pub extension: Seq<char>,
}

/// Why a document is no configuration.
#[derive(Clone, Copy, Debug, PartialEq, Eq)]
pub enum ConfigError {
    /// The text nests its arrays, tables or keys deeper than `MAX_NESTING`.
    TooDeep,
    /// The text is not a TOML document.
    Syntax,
    /// There is no array under the key `data_directories`.
    MissingDataDirectories,
    /// The item at this position of `data_directories` is not a string.
    InvalidDataDirectory(usize),
    /// There is no string under the key `extension`.
    MissingExtension,
    /// The list of data directories is empty.
    NoDataDirectory,
    /// The root that the browser is to open is not a directory.
    RootNotDirectory,
}

/// How deep a configuration may nest its arrays, inline tables and dotted
/// keys.
pub const MAX_NESTING: usize = 256;

/// The number of opening brackets and braces in `text`.
pub open spec fn brackets(text: Seq<char>) -> nat
    decreases text.len(),
{
    if text.len() == 0 {
        0
    } else if text.last() == '[' || text.last() == '{' {
        brackets(text.drop_last()) + 1
    } else {
        brackets(text.drop_last())
    }
}

/// The number of dots in the last line of `text`.
pub open spec fn dots_in_last_line(text: Seq<char>) -> nat
    decreases text.len(),
{
    if text.len() == 0 || text.last() == '\n' {
        0
    } else if text.last() == '.' {
        dots_in_last_line(text.drop_last()) + 1
    } else {
        dots_in_last_line(text.drop_last())
    }
}

/// The largest number of dots in one line of `text`.
pub open spec fn most_dots(text: Seq<char>) -> nat
    decreases text.len(),
{
    if text.len() == 0 {
        0
    } else if dots_in_last_line(text) > most_dots(text.drop_last()) {
        dots_in_last_line(text)
    } else {
        most_dots(text.drop_last())
    }
}

/// A bound on how deep `text` nests, read as TOML: an array or inline table
/// nests one deeper with each opening bracket or brace, and a dotted key or
/// table header, which stands on one line, with each of its dots.
pub open spec fn nesting_bound(text: Seq<char>) -> nat {
    brackets(text) + most_dots(text)
}

/// What a lookup for a string found: `None` where the text is no TOML
/// document, `Some(None)` where the document holds no string under the key.
pub type FoundString = Option<Option<String>>;

/// What a lookup for an array found: `None` where the text is no TOML
/// document, `Some(None)` where the document holds no array under the key;
/// an item of the array that is not a string is `None`.
pub type FoundArray = Option<Option<Vec<Option<String>>>>;

/// The string that the TOML document `text` holds under the top-level key
/// `key`, as `toml` reads it.
pub uninterp spec fn toml_string(text: Seq<char>, key: Seq<char>) -> Option<Option<Seq<char>>>;

/// The array that the TOML document `text` holds under the top-level key
/// `key`, as `toml` reads it, with `None` for each item that is no string.
pub uninterp spec fn toml_array(text: Seq<char>, key: Seq<char>) -> Option<
    Option<Seq<Option<Seq<char>>>>,
>;

/// The characters of an optional string.
pub open spec fn string_view(s: Option<String>) -> Option<Seq<char>> {
    match s {
        Some(s) => Some(s@),
        None => None,
    }
}

/// The mathematical content of what a lookup for a string found.
pub open spec fn found_string_view(found: FoundString) -> Option<Option<Seq<char>>> {
    match found {
        Some(s) => Some(string_view(s)),
        None => None,
    }
}

/// The characters of each item of an array, with `None` for an item that is
/// no string.
pub open spec fn items_view(items: Vec<Option<String>>) -> Seq<Option<Seq<char>>> {
    Seq::new(items@.len(), |i: int| string_view(items@[i]))
}

/// The mathematical content of what a lookup for an array found.
pub open spec fn found_array_view(found: FoundArray) -> Option<Option<Seq<Option<Seq<char>>>>> {
    match found {
        Some(Some(items)) => Some(Some(items_view(items))),
        Some(None) => Some(None),
        None => None,
    }
}

/// The position of the first item that is no string, or the number of items
/// when all are strings.
pub open spec fn first_non_string(items: Seq<Option<Seq<char>>>) -> int
    decreases items.len(),
{
    if items.len() == 0 {
        0
    } else if items[0] is None {
        0
    } else {
        1 + first_non_string(items.drop_first())
    }
}

/// A position that holds no string, with strings at all positions before
/// it, is the one `first_non_string` gives; the number of items is, when all
/// are strings.
pub proof fn lemma_first_non_string(items: Seq<Option<Seq<char>>>, i: int)
    requires
        0 <= i <= items.len(),
        i < items.len() ==> items[i] is None,
        forall|k: int| 0 <= k < i ==> items[k] is Some,
    ensures
        first_non_string(items) == i,
    decreases items.len(),
{
    if items.len() > 0 && i > 0 {
        let rest = items.drop_first();
        assert(items[0] is Some);
        assert forall|k: int| 0 <= k < i - 1 implies rest[k] is Some by {
            assert(rest[k] == items[k + 1]);
        }
        lemma_first_non_string(rest, i - 1);
    }
}

/// The configuration that a document with these two lookups holds, or the
/// first thing that is wrong with it.
pub open spec fn config_of(
    directories: Option<Option<Seq<Option<Seq<char>>>>>,
    extension: Option<Option<Seq<char>>>,
) -> Result<ConfigView, ConfigError> {
    match directories {
        None => Err(ConfigError::Syntax),
        Some(None) => Err(ConfigError::MissingDataDirectories),
        Some(Some(items)) => {
            if first_non_string(items) < items.len() {
                Err(ConfigError::InvalidDataDirectory(first_non_string(items) as usize))
            } else {
                match extension {
                    None => Err(ConfigError::Syntax),
                    Some(None) => Err(ConfigError::MissingExtension),
                    Some(Some(extension)) => Ok(
                        ConfigView {
                            data_directories: Seq::new(items.len(), |i: int| items[i]->0),
                            extension,
                        },
                    ),
                }
            }
        },
    }
}

/// Parses `text` with `toml` (`str::parse::<toml::Value>`) and reads the
/// value under `key` with `Value::get` and `Value::as_str`. The result is a
/// function of the two arguments alone; nothing more is claimed of it.
///
/// `toml` reads nested values by recursion without a limit of its own, so
/// the text must not nest deeply.
#[verifier::external_body]
fn lookup_string(text: &str, key: &str) -> (found: FoundString)
    requires
        nesting_bound(text@) <= MAX_NESTING,
    ensures
        found_string_view(found) == toml_string(text@, key@),
{
    let document = text.parse::<toml::Value>().ok()?;
    Some(document.get(key).and_then(|value| value.as_str()).map(String::from))
}

/// Parses `text` with `toml` (`str::parse::<toml::Value>`) and reads the
/// array under `key` with `Value::get` and `Value::as_array`, and each of
/// its items with `Value::as_str`. The result is a function of the two
/// arguments alone; nothing more is claimed of it.
///
/// `toml` reads nested values by recursion without a limit of its own, so
/// the text must not nest deeply.
#[verifier::external_body]
fn lookup_array(text: &str, key: &str) -> (found: FoundArray)
    requires
        nesting_bound(text@) <= MAX_NESTING,
    ensures
        found_array_view(found) == toml_array(text@, key@),
{
    let document = text.parse::<toml::Value>().ok()?;
    Some(
        document.get(key).and_then(|value| value.as_array()).map(
            |items| items.iter().map(|item| item.as_str().map(String::from)).collect(),
        ),
    )
}

/// Tests whether `text` nests deeper than `MAX_NESTING`.
pub fn nests_too_deep(text: &str) -> (too_deep: bool)
    ensures
        too_deep == (nesting_bound(text@) > MAX_NESTING),
{
    let chars = chars_of(text);
    let mut opened: usize = 0;
    let mut dots: usize = 0;
    let mut most: usize = 0;
    let mut i: usize = 0;
    assert(chars@.take(0) =~= Seq::<char>::empty());
    while i < chars.len()
        invariant
            i <= chars.len(),
            chars@ == text@,
            opened == brackets(chars@.take(i as int)),
            dots == dots_in_last_line(chars@.take(i as int)),
            most == most_dots(chars@.take(i as int)),
            dots <= most,
            opened + most <= MAX_NESTING,
        decreases chars.len() - i,
    {
        let c = chars[i];
        let ghost seen = chars@.take(i + 1);
        assert(seen.drop_last() =~= chars@.take(i as int));
        assert(seen.last() == c);
        if c == '[' || c == '{' {
            opened = opened + 1;
        }
        if c == '\n' {
            dots = 0;
        } else if c == '.' {
            dots = dots + 1;
        }
        if dots > most {
            most = dots;
        }
        i = i + 1;
        if opened + most > MAX_NESTING {
            proof {
                lemma_nesting_grows(seen, chars@);
            }
            return true;
        }
    }
    assert(chars@.take(i as int) =~= chars@);
    false
}

/// A text nests at least as deep as each of its beginnings.
pub proof fn lemma_nesting_grows(start: Seq<char>, text: Seq<char>)
    requires
        start.is_prefix_of(text),
    ensures
        brackets(start) <= brackets(text),
        most_dots(start) <= most_dots(text),
        nesting_bound(start) <= nesting_bound(text),
    decreases text.len(),
{
    if start.len() < text.len() {
        assert(start.is_prefix_of(text.drop_last())) by {
            assert(start =~= text.drop_last().subrange(0, start.len() as int));
        }
        lemma_nesting_grows(start, text.drop_last());
    } else {
        assert(start =~= text);
    }
}

impl View for Config {
    type V = ConfigView;

    open spec fn view(&self) -> ConfigView {
        ConfigView {
            data_directories: Seq::new(
                self.data_directories@.len(),
                |i: int| self.data_directories@[i]@,
            ),
            extension: self.extension@,
        }
    }
}

impl Config {
    /// Reads a configuration from the text of a TOML document: the array of
    /// strings under `data_directories` and the string under `extension`.
    /// A text that nests deeper than `MAX_NESTING` is not read at all.
    pub fn new(config: &str) -> (parsed: Result<Config, ConfigError>)
        ensures
            match parsed {
                Ok(c) => Ok::<ConfigView, ConfigError>(c@),
                Err(e) => Err(e),
            } == (if nesting_bound(config@) > MAX_NESTING {
                Err(ConfigError::TooDeep)
            } else {
                config_of(
                    toml_array(config@, "data_directories"@),
                    toml_string(config@, "extension"@),
                )
            }),
    {
        if nests_too_deep(config) {
            return Err(ConfigError::TooDeep);
        }
        let directories = lookup_array(config, "data_directories");
        let extension = lookup_string(config, "extension");
        Config::from_fields(directories, extension)
    }

    /// Builds a configuration from what the two lookups in a document
    /// found. The directories are examined first.
    pub fn from_fields(directories: FoundArray, extension: FoundString) -> (parsed: Result<
        Config,
        ConfigError,
    >)
        ensures
            match parsed {
                Ok(c) => Ok::<ConfigView, ConfigError>(c@),
                Err(e) => Err(e),
            } == config_of(found_array_view(directories), found_string_view(extension)),
    {
        let items = match directories {
            None => {
                return Err(ConfigError::Syntax);
            },
            Some(None) => {
                return Err(ConfigError::MissingDataDirectories);
            },
            Some(Some(items)) => items,
        };
        let ghost items_seq = items_view(items);
        let mut data_directories: Vec<String> = Vec::new();
        let mut items = items;
        let n = items.len();
        let mut i: usize = 0;
        while i < n
            invariant
                i <= n == items@.len(),
                items_view(items) == items_seq,
                items_seq.len() == n,
                found_array_view(directories) == Some(Some(items_seq)),
                data_directories@.len() == i,
                forall|k: int|
                    #![trigger items_seq[k]]
                    #![trigger data_directories@[k]]
                    0 <= k < i ==> items_seq[k] == Some(data_directories@[k]@),
            decreases n - i,
        {
            match &items[i] {
                None => {
                    proof {
                        lemma_first_non_string(items_seq, i as int);
                    }
                    return Err(ConfigError::InvalidDataDirectory(i));
                },
                Some(directory) => {
                    data_directories.push(directory.clone());
                },
            }
            i = i + 1;
        }
        proof {
            lemma_first_non_string(items_seq, n as int);
        }
        match extension {
            None => Err(ConfigError::Syntax),
            Some(None) => Err(ConfigError::MissingExtension),
            Some(Some(extension)) => {
                let config = Config { data_directories, extension };
                assert(config@.data_directories =~= Seq::new(
                    items_seq.len(),
                    |i: int| items_seq[i]->0,
                ));
                Ok(config)
            },
        }
    }
}

impl ConfigError {
    /// A sentence that says what is wrong.
    pub fn message(&self) -> (message: String)
        ensures
            message@ == match *self {
                ConfigError::TooDeep => "the configuration nests too deeply"@,
                ConfigError::Syntax => "the configuration is not a TOML document"@,
                ConfigError::MissingDataDirectories => "the configuration has no array `data_directories`"@,
                ConfigError::InvalidDataDirectory(_) => "an item of `data_directories` is not a string"@,
                ConfigError::MissingExtension => "the configuration has no string `extension`"@,
                ConfigError::NoDataDirectory => "the configuration names no data directory"@,
                ConfigError::RootNotDirectory => "the last data directory of the configuration is not a directory"@,
            },
    {
        match self {
            ConfigError::TooDeep => "the configuration nests too deeply".to_owned(),
            ConfigError::Syntax => "the configuration is not a TOML document".to_owned(),
            ConfigError::MissingDataDirectories => "the configuration has no array `data_directories`".to_owned(),
            ConfigError::InvalidDataDirectory(_) => "an item of `data_directories` is not a string".to_owned(),
            ConfigError::MissingExtension => "the configuration has no string `extension`".to_owned(),
            ConfigError::NoDataDirectory => "the configuration names no data directory".to_owned(),
            ConfigError::RootNotDirectory => "the last data directory of the configuration is not a directory".to_owned(),
        }
    }
}

} // verus!
