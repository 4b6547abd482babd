//! Knowledge entries, their flat-text form, and the repository of entries
//! with its index by tag.

use crate::config::Config;
use crate::tag_index::{entries_view, tag_index, occurrences, tags_of, TagIndex};
use crate::text::{chars_of, find, index_of, push_chars, starts_with, string_of, trim, trim_bounds};
use vstd::prelude::*;

verus! {

/// One note: a title, which also names its file, a description, tags and
/// the body text.
#[derive(Debug, Default)]
pub struct Knowledge {
    pub title: String,
    pub tag: Vec<String>,
    pub text: String,
    pub descriptions: String,
}

/// The mathematical content of an entry.
pub struct KnowledgeView {
    pub title: Seq<char>,
    pub tag: Seq<Seq<char>>,
    pub text: Seq<char>,
    pub descriptions: Seq<char>,
}

/// The views of the strings of `strings`, in order.
pub open spec fn strings_view(strings: Seq<String>) -> Seq<Seq<char>> {
    Seq::new(strings.len(), |i: int| strings[i]@)
}

impl View for Knowledge {
    type V = KnowledgeView;

    open spec fn view(&self) -> KnowledgeView {
        KnowledgeView {
            title: self.title@,
            tag: strings_view(self.tag@),
            text: self.text@,
            descriptions: self.descriptions@,
        }
    }
}

/// What a line starts with when it gives the title.
pub open spec fn title_marker() -> Seq<char> {
    "# Title:"@
}

/// What a line starts with when it gives the description.
pub open spec fn descriptions_marker() -> Seq<char> {
    "# Descriptions:"@
}

/// What a line starts with when it gives the tags.
pub open spec fn tags_marker() -> Seq<char> {
    "# Tags:"@
}

/// True when `line` is one of the three header lines.
pub open spec fn is_header(line: Seq<char>) -> bool {
    ||| title_marker().is_prefix_of(line)
    ||| descriptions_marker().is_prefix_of(line)
    ||| tags_marker().is_prefix_of(line)
}

/// The length of the first line of `s`, its newline included where it has
/// one.
pub open spec fn line_len(s: Seq<char>) -> int {
    let i = index_of(s, '\n');
    if i < s.len() {
        i + 1
    } else {
        s.len() as int
    }
}

/// The pieces of `s` between its commas, each trimmed.
pub open spec fn split_tags(s: Seq<char>) -> Seq<Seq<char>>
    decreases s.len(),
{
    let i = index_of(s, ',');
    if 0 <= i < s.len() {
        seq![trim(s.take(i))] + split_tags(s.skip(i + 1))
    } else {
        seq![trim(s)]
    }
}

impl KnowledgeView {
    /// The entry with nothing in it.
    pub open spec fn empty() -> KnowledgeView {
        KnowledgeView {
            title: Seq::empty(),
            tag: Seq::empty(),
            text: Seq::empty(),
            descriptions: Seq::empty(),
        }
    }

    /// The entry after reading one more line: a header line sets its field
    /// from the trimmed rest of the line, replacing what an earlier line
    /// set; any other line is added to the text as it stands.
    pub open spec fn absorb(self, line: Seq<char>) -> KnowledgeView {
        if title_marker().is_prefix_of(line) {
            KnowledgeView { title: trim(line.skip(title_marker().len() as int)), ..self }
        } else if descriptions_marker().is_prefix_of(line) {
            KnowledgeView {
                descriptions: trim(line.skip(descriptions_marker().len() as int)),
                ..self
            }
        } else if tags_marker().is_prefix_of(line) {
            KnowledgeView { tag: split_tags(line.skip(tags_marker().len() as int)), ..self }
        } else {
            KnowledgeView { text: self.text + line, ..self }
        }
    }

    /// The entry after reading the lines of `s`, one after the other.
    pub open spec fn absorb_all(self, s: Seq<char>) -> KnowledgeView
        decreases s.len(),
    {
        let n = line_len(s);
        if 0 < n <= s.len() {
            self.absorb(s.take(n)).absorb_all(s.skip(n))
        } else {
            self
        }
    }

    /// The flat text of the entry: the title line, the description line, a
    /// blank line, and the text as it stands. The tags are not written.
    pub open spec fn serialize(self) -> Seq<char> {
        "# Title: "@ + self.title + "\n"@ + "# Descriptions: "@ + self.descriptions + "\n\n"@
            + self.text
    }
}

/// The entry that the flat text `raw` holds.
pub open spec fn parse(raw: Seq<char>) -> KnowledgeView {
    KnowledgeView::empty().absorb_all(raw)
}

/// The first line of a text with something in it has something in it, and
/// ends at its first newline or at the end of the text.
pub proof fn lemma_line_len(s: Seq<char>)
    ensures
        s.len() > 0 ==> 0 < line_len(s) <= s.len(),
        s.len() == 0 ==> line_len(s) == 0,
        forall|k: int| 0 <= k < line_len(s) - 1 ==> s[k] != '\n',
{
    crate::text::lemma_index_of(s, '\n');
}

/// The tags in `chars[from..to]`: the pieces between its commas, trimmed.
fn split_tags_in(chars: &Vec<char>, from: usize, to: usize) -> (tags: Vec<String>)
    requires
        from <= to <= chars.len(),
    ensures
        strings_view(tags@) == split_tags(chars@.subrange(from as int, to as int)),
{
    let mut tags: Vec<String> = Vec::new();
    let mut pos: usize = from;
    let ghost whole = chars@.subrange(from as int, to as int);
    assert(strings_view(tags@) + split_tags(whole) =~= split_tags(whole));
    loop
        invariant_except_break
            from <= pos <= to <= chars.len(),
            strings_view(tags@) + split_tags(chars@.subrange(pos as int, to as int)) == split_tags(
                whole,
            ),
        ensures
            strings_view(tags@) == split_tags(whole),
        decreases to - pos,
    {
        let ghost rest = chars@.subrange(pos as int, to as int);
        let ghost before = strings_view(tags@);
        let comma = find(chars, pos, to, ',');
        let (lo, hi) = trim_bounds(chars, pos, comma);
        let piece = string_of(chars, lo, hi);
        tags.push(piece);
        proof {
            crate::text::lemma_index_of(rest, ',');
            assert(rest.take(comma - pos) =~= chars@.subrange(pos as int, comma as int));
            assert(strings_view(tags@) =~= before + seq![piece@]);
        }
        if comma >= to {
            assert(rest.take(comma - pos) =~= rest);
            break;
        }
        assert(rest.skip(comma - pos + 1) =~= chars@.subrange(comma + 1, to as int));
        assert(before + (seq![piece@] + split_tags(chars@.subrange(comma + 1, to as int)))
            =~= before + seq![piece@] + split_tags(chars@.subrange(comma + 1, to as int)));
        pos = comma + 1;
    }
    tags
}

impl Knowledge {
    /// An entry with the given fields and the one tag `tag`.
    pub fn new(title: String, text: String, descriptions: String, tag: String) -> (entry: Self)
        ensures
            entry@ == (KnowledgeView {
                title: title@,
                tag: seq![tag@],
                text: text@,
                descriptions: descriptions@,
            }),
    {
        let mut tags: Vec<String> = Vec::new();
        tags.push(tag);
        let entry = Knowledge { title, tag: tags, text, descriptions };
        assert(entry@.tag =~= seq![tag@]);
        entry
    }

    /// Reads an entry from the contents of its file.
    ///
    /// A line that begins with `# Title:`, `# Descriptions:` or `# Tags:`
    /// sets that field; where a field is set more than once, the last line
    /// wins. All other lines, with their newlines, make up the text. Without
    /// a title line the title is empty.
    pub fn from_file(contents: &str) -> (entry: Self)
        ensures
            entry@ == parse(contents@),
    {
        let chars = chars_of(contents);
        let title_marker = chars_of("# Title:");
        let descriptions_marker = chars_of("# Descriptions:");
        let tags_marker = chars_of("# Tags:");
        let mut entry = Knowledge {
            title: String::new(),
            tag: Vec::new(),
            text: String::new(),
            descriptions: String::new(),
        };
        let len = chars.len();
        let mut pos: usize = 0;
        assert(entry@ == KnowledgeView::empty()) by {
            assert(entry@.tag =~= Seq::<Seq<char>>::empty());
        }
        assert(chars@.subrange(0, len as int) =~= contents@);
        while pos < len
            invariant
                pos <= len == chars.len(),
                chars@ == contents@,
                title_marker@ == self::title_marker(),
                descriptions_marker@ == self::descriptions_marker(),
                tags_marker@ == self::tags_marker(),
                entry@.absorb_all(chars@.subrange(pos as int, len as int)) == parse(contents@),
            decreases len - pos,
        {
            let ghost rest = chars@.subrange(pos as int, len as int);
            let newline = find(&chars, pos, len, '\n');
            let end = if newline < len {
                newline + 1
            } else {
                len
            };
            proof {
                lemma_line_len(rest);
                assert(rest.take(end - pos) =~= chars@.subrange(pos as int, end as int));
                assert(rest.skip(end - pos) =~= chars@.subrange(end as int, len as int));
            }
            let ghost line = chars@.subrange(pos as int, end as int);
            if starts_with(&chars, pos, end, &title_marker) {
                let start = pos + title_marker.len();
                assert(line.skip(title_marker@.len() as int) =~= chars@.subrange(
                    start as int,
                    end as int,
                ));
                let (lo, hi) = trim_bounds(&chars, start, end);
                entry.title = string_of(&chars, lo, hi);
            } else if starts_with(&chars, pos, end, &descriptions_marker) {
                let start = pos + descriptions_marker.len();
                assert(line.skip(descriptions_marker@.len() as int) =~= chars@.subrange(
                    start as int,
                    end as int,
                ));
                let (lo, hi) = trim_bounds(&chars, start, end);
                entry.descriptions = string_of(&chars, lo, hi);
            } else if starts_with(&chars, pos, end, &tags_marker) {
                let start = pos + tags_marker.len();
                assert(line.skip(tags_marker@.len() as int) =~= chars@.subrange(
                    start as int,
                    end as int,
                ));
                entry.tag = split_tags_in(&chars, start, end);
            } else {
                push_chars(&mut entry.text, &chars, pos, end);
            }
            pos = end;
        }
        assert(chars@.subrange(len as int, len as int).len() == 0);
        entry
    }

    /// The flat text of the entry: the title line, the description line, a
    /// blank line, and the text as it stands. The tags are not written.
    pub fn serialize(&self) -> (raw: String)
        ensures
            raw@ == self@.serialize(),
    {
        let mut raw = String::from_str("# Title: ");
        raw.append(self.title.as_str());
        raw.append("\n");
        raw.append("# Descriptions: ");
        raw.append(self.descriptions.as_str());
        raw.append("\n\n");
        raw.append(self.text.as_str());
        raw
    }
}

/// True when no line of `s` is a header line.
pub open spec fn no_header_lines(s: Seq<char>) -> bool
    decreases s.len(),
{
    let n = line_len(s);
    if 0 < n <= s.len() {
        !is_header(s.take(n)) && no_header_lines(s.skip(n))
    } else {
        true
    }
}

/// True when `s` is free of newlines and neither starts nor ends with
/// whitespace: what a header line can carry unchanged.
pub open spec fn fits_header(s: Seq<char>) -> bool {
    crate::text::is_trimmed(s) && !s.contains('\n')
}

/// A text that starts with a newline-free `head` and a newline has that as
/// its first line.
pub proof fn lemma_first_line(head: Seq<char>, rest: Seq<char>)
    requires
        !head.contains('\n'),
    ensures
        line_len(head + seq!['\n'] + rest) == head.len() + 1,
        (head + seq!['\n'] + rest).take(head.len() as int + 1) == head + seq!['\n'],
        (head + seq!['\n'] + rest).skip(head.len() as int + 1) == rest,
{
    let whole = head + seq!['\n'] + rest;
    assert forall|k: int| 0 <= k < head.len() implies whole[k] != '\n' by {
        assert(head.contains(whole[k]));
    }
    crate::text::lemma_index_of_unique(whole, '\n', head.len() as int);
    assert(whole.take(head.len() as int + 1) =~= head + seq!['\n']);
    assert(whole.skip(head.len() as int + 1) =~= rest);
}

/// A value that fits a header comes back from between a space and a newline
/// when these are trimmed away.
pub proof fn lemma_trim_padded(value: Seq<char>)
    requires
        crate::text::is_trimmed(value),
    ensures
        trim(seq![' '] + value + seq!['\n']) == value,
{
    let padded = seq![' '] + value + seq!['\n'];
    let tail = value + seq!['\n'];
    assert(padded.drop_first() =~= tail);
    assert(crate::text::trim_start(padded) == crate::text::trim_start(tail));
    if value.len() == 0 {
        assert(tail.drop_first() =~= Seq::<char>::empty());
        assert(tail[0] == '\n');
        assert(crate::text::trim_start(Seq::<char>::empty()) == Seq::<char>::empty());
        assert(crate::text::trim_start(tail) == crate::text::trim_start(tail.drop_first()));
        assert(crate::text::trim_end(Seq::<char>::empty()) == Seq::<char>::empty());
        assert(value =~= Seq::<char>::empty());
    } else {
        assert(tail[0] == value[0]);
        assert(crate::text::trim_start(tail) == tail);
        assert(tail.drop_last() =~= value);
        assert(crate::text::trim_end(tail) == crate::text::trim_end(value));
    }
}

/// Reading a text without header lines adds all of it to the entry's text
/// and changes nothing else.
pub proof fn lemma_absorb_body(entry: KnowledgeView, body: Seq<char>)
    requires
        no_header_lines(body),
    ensures
        entry.absorb_all(body) == (KnowledgeView { text: entry.text + body, ..entry }),
    decreases body.len(),
{
    let n = line_len(body);
    lemma_line_len(body);
    if body.len() > 0 {
        let next = entry.absorb(body.take(n));
        lemma_absorb_body(next, body.skip(n));
        assert(next.text + body.skip(n) =~= entry.text + body);
    } else {
        assert(entry.text + body =~= entry.text);
    }
}

/// A header line made of a marker, a space, a value that fits and a
/// newline is one line that starts with the marker and gives the value back
/// when the rest is trimmed.
proof fn lemma_header_line(marker: Seq<char>, value: Seq<char>, rest: Seq<char>)
    requires
        fits_header(value),
        !marker.contains('\n'),
    ensures
        ({
            let line = marker + seq![' '] + value + seq!['\n'];
            &&& line_len(line + rest) == line.len()
            &&& (line + rest).take(line.len() as int) == line
            &&& (line + rest).skip(line.len() as int) == rest
            &&& marker.is_prefix_of(line)
            &&& trim(line.skip(marker.len() as int)) == value
        }),
{
    let head = marker + seq![' '] + value;
    let line = head + seq!['\n'];
    assert(!head.contains('\n')) by {
        if head.contains('\n') {
            let k = choose|k: int| 0 <= k < head.len() && head[k] == '\n';
            if k < marker.len() {
                assert(marker.contains(head[k])) by {
                    assert(marker[k] == head[k]);
                }
            } else if k > marker.len() {
                assert(value.contains(head[k])) by {
                    assert(value[k - marker.len() - 1] == head[k]);
                }
            }
        }
    }
    lemma_first_line(head, rest);
    assert(line + rest =~= head + seq!['\n'] + rest);
    assert(line.subrange(0, marker.len() as int) =~= marker);
    assert(line.skip(marker.len() as int) =~= seq![' '] + value + seq!['\n']);
    lemma_trim_padded(value);
}

/// Reading a title line sets the title and goes on with the rest.
proof fn lemma_absorb_title(entry: KnowledgeView, title: Seq<char>, rest: Seq<char>)
    requires
        fits_header(title),
    ensures
        entry.absorb_all("# Title: "@ + title + seq!['\n'] + rest) == (KnowledgeView {
            title,
            ..entry
        }).absorb_all(rest),
{
    reveal_strlit("# Title:");
    reveal_strlit("# Title: ");
    let marker = title_marker();
    let line = marker + seq![' '] + title + seq!['\n'];
    assert(!marker.contains('\n'));
    lemma_header_line(marker, title, rest);
    assert("# Title: "@ + title + seq!['\n'] + rest =~= line + rest);
}

/// Reading a description line sets the description and goes on with the
/// rest.
proof fn lemma_absorb_descriptions(entry: KnowledgeView, descriptions: Seq<char>, rest: Seq<char>)
    requires
        fits_header(descriptions),
    ensures
        entry.absorb_all("# Descriptions: "@ + descriptions + seq!['\n'] + rest) == (KnowledgeView {
            descriptions,
            ..entry
        }).absorb_all(rest),
{
    reveal_strlit("# Title:");
    reveal_strlit("# Descriptions:");
    reveal_strlit("# Descriptions: ");
    let marker = descriptions_marker();
    let line = marker + seq![' '] + descriptions + seq!['\n'];
    assert(!marker.contains('\n'));
    lemma_header_line(marker, descriptions, rest);
    assert("# Descriptions: "@ + descriptions + seq!['\n'] + rest =~= line + rest);
    assert(!title_marker().is_prefix_of(line)) by {
        if title_marker().is_prefix_of(line) {
            assert(line.subrange(0, 8)[2] == title_marker()[2]);
            assert(line[2] == marker[2]);
        }
    }
}

/// Reading a blank line adds it to the text and goes on with the rest.
proof fn lemma_absorb_blank(entry: KnowledgeView, rest: Seq<char>)
    ensures
        entry.absorb_all(seq!['\n'] + rest) == (KnowledgeView {
            text: entry.text + seq!['\n'],
            ..entry
        }).absorb_all(rest),
{
    reveal_strlit("# Title:");
    reveal_strlit("# Descriptions:");
    reveal_strlit("# Tags:");
    let newline = seq!['\n'];
    lemma_first_line(Seq::<char>::empty(), rest);
    assert(Seq::<char>::empty() + newline + rest =~= newline + rest);
    assert(Seq::<char>::empty() + newline =~= newline);
    assert(!is_header(newline));
}

/// Round trip of the two header fields, and what becomes of the rest: an
/// entry whose title and description fit a header line, and whose text has
/// no header lines, is read back from its flat text with the same title and
/// description. The text comes back with the blank separator line in front
/// of it, and the tags, which are not written, come back empty.
pub proof fn lemma_round_trip(entry: KnowledgeView)
    requires
        fits_header(entry.title),
        fits_header(entry.descriptions),
        no_header_lines(entry.text),
    ensures
        parse(entry.serialize()).title == entry.title,
        parse(entry.serialize()).descriptions == entry.descriptions,
        parse(entry.serialize()).text == seq!['\n'] + entry.text,
        parse(entry.serialize()).tag == Seq::<Seq<char>>::empty(),
{
    reveal_strlit("\n");
    reveal_strlit("\n\n");
    let newline = seq!['\n'];
    let after_descriptions = newline + entry.text;
    let after_title = "# Descriptions: "@ + entry.descriptions + newline + after_descriptions;
    assert(entry.serialize() =~= "# Title: "@ + entry.title + newline + after_title);
    let first = KnowledgeView { title: entry.title, ..KnowledgeView::empty() };
    let second = KnowledgeView { descriptions: entry.descriptions, ..first };
    let third = KnowledgeView { text: second.text + newline, ..second };
    lemma_absorb_title(KnowledgeView::empty(), entry.title, after_title);
    lemma_absorb_descriptions(first, entry.descriptions, after_descriptions);
    lemma_absorb_blank(second, entry.text);
    lemma_absorb_body(third, entry.text);
    assert(Seq::<char>::empty() + newline + entry.text =~= newline + entry.text);
}

/// A file that the host is asked to write.
#[derive(Debug)]
pub struct FileWrite {
    /// The components of the directory's path, outermost first.
    pub directory: Vec<String>,
    pub file_name: String,
    pub contents: String,
    /// Whether the directory is to be created where it does not exist.
    pub create_directory: bool,
}

/// The mathematical content of a request to write a file.
pub struct FileWriteView {
    pub directory: Seq<Seq<char>>,
    pub file_name: Seq<char>,
    pub contents: Seq<char>,
    pub create_directory: bool,
}

impl View for FileWrite {
    type V = FileWriteView;

    open spec fn view(&self) -> FileWriteView {
        FileWriteView {
            directory: strings_view(self.directory@),
            file_name: self.file_name@,
            contents: self.contents@,
            create_directory: self.create_directory,
        }
    }
}

/// Why an entry cannot be written.
#[derive(Clone, Copy, Debug, PartialEq, Eq)]
pub enum WriteError {
    /// The configuration names no data directory.
    NoDataDirectory,
    /// The entry has no title, and so no file name.
    EmptyTitle,
}

/// The name of the file of an entry: its title, a dot, the extension.
pub open spec fn file_name_of(title: Seq<char>, extension: Seq<char>) -> Seq<char> {
    title + "."@ + extension
}

/// A copy of `strings`.
pub fn clone_strings(strings: &Vec<String>) -> (copy: Vec<String>)
    ensures
        strings_view(copy@) == strings_view(strings@),
{
    let mut copy: Vec<String> = Vec::new();
    let mut i: usize = 0;
    while i < strings.len()
        invariant
            i <= strings.len(),
            copy@.len() == i,
            forall|k: int| 0 <= k < i ==> (#[trigger] copy@[k])@ == strings@[k]@,
        decreases strings.len() - i,
    {
        copy.push(strings[i].clone());
        i = i + 1;
    }
    assert(strings_view(copy@) =~= strings_view(strings@));
    copy
}

impl Knowledge {
    /// The name of the entry's file for the extension `ext`.
    pub fn file_name(&self, ext: &str) -> (name: String)
        ensures
            name@ == file_name_of(self.title@, ext@),
    {
        let mut name = self.title.clone();
        name.append(".");
        name.append(ext);
        name
    }

    /// What is to be written to persist the entry under the configuration:
    /// its file in the first data directory, which is created where it does
    /// not exist. There is nothing to write without a data directory, which
    /// is looked for first, or without a title.
    pub fn write(&self, config: &Config) -> (request: Result<FileWrite, WriteError>)
        ensures
            config.data_directories@.len() == 0 ==> request == Err::<FileWrite, WriteError>(
                WriteError::NoDataDirectory,
            ),
            config.data_directories@.len() > 0 && self.title@.len() == 0 ==> request == Err::<
                FileWrite,
                WriteError,
            >(WriteError::EmptyTitle),
            config.data_directories@.len() > 0 && self.title@.len() > 0 ==> request is Ok
                && request->Ok_0@ == (FileWriteView {
                directory: seq![config.data_directories@[0]@],
                file_name: file_name_of(self.title@, config.extension@),
                contents: self@.serialize(),
                create_directory: true,
            }),
    {
        if config.data_directories.len() == 0 {
            return Err(WriteError::NoDataDirectory);
        }
        let mut directory: Vec<String> = Vec::new();
        directory.push(config.data_directories[0].clone());
        assert(strings_view(directory@) =~= seq![config.data_directories@[0]@]);
        match self.write_to_file(&directory, config.extension.as_str()) {
            Ok(request) => Ok(FileWrite { create_directory: true, ..request }),
            Err(e) => Err(e),
        }
    }

    /// What is to be written to persist the entry in the directory
    /// `parent_dir`, given by the components of its path. There is nothing
    /// to write without a title.
    pub fn write_to_file(&self, parent_dir: &Vec<String>, ext: &str) -> (request: Result<
        FileWrite,
        WriteError,
    >)
        ensures
            self.title@.len() == 0 ==> request == Err::<FileWrite, WriteError>(
                WriteError::EmptyTitle,
            ),
            self.title@.len() > 0 ==> request is Ok && request->Ok_0@ == (FileWriteView {
                directory: strings_view(parent_dir@),
                file_name: file_name_of(self.title@, ext@),
                contents: self@.serialize(),
                create_directory: false,
            }),
    {
        if self.title.as_str().is_empty() {
            return Err(WriteError::EmptyTitle);
        }
        Ok(
            FileWrite {
                directory: clone_strings(parent_dir),
                file_name: self.file_name(ext),
                contents: self.serialize(),
                create_directory: false,
            },
        )
    }
}

/// The repository: the entries that were loaded, and the configuration
/// they were loaded under.
pub struct Handler<'a> {
    pub data: Vec<Knowledge>,
    pub config: &'a Config,
}

/// The views of the texts in `files`, with `None` for a missing text.
pub open spec fn files_view(files: Seq<Option<String>>) -> Seq<Option<Seq<char>>> {
    Seq::new(files.len(), |i: int| crate::config::string_view(files[i]))
}

/// The entries read from `files`, in order; a file without a text gives no
/// entry.
pub open spec fn loaded(files: Seq<Option<Seq<char>>>) -> Seq<KnowledgeView>
    decreases files.len(),
{
    if files.len() == 0 {
        Seq::empty()
    } else {
        match files.last() {
            Some(raw) => loaded(files.drop_last()).push(parse(raw)),
            None => loaded(files.drop_last()),
        }
    }
}

/// The positions of the files without a text, in order.
pub open spec fn skipped(files: Seq<Option<Seq<char>>>) -> Seq<int>
    decreases files.len(),
{
    if files.len() == 0 {
        Seq::empty()
    } else {
        match files.last() {
            Some(_) => skipped(files.drop_last()),
            None => skipped(files.drop_last()).push(files.len() - 1),
        }
    }
}

/// The pattern that matches the entry files below `directory`, at any
/// depth.
pub open spec fn glob_pattern_of(directory: Seq<char>, extension: Seq<char>) -> Seq<char> {
    directory + "/**/"@ + "*."@ + extension
}

impl<'a> Handler<'a> {
    /// A repository under `config` with no entries loaded yet.
    pub fn new(config: &'a Config) -> (handler: Self)
        ensures
            handler.data@.len() == 0,
            handler.config == config,
    {
        Handler { data: Vec::new(), config }
    }

    /// For each data directory, the pattern of the files that hold its
    /// entries: those below it, at any depth, with the configured extension.
    pub fn glob_patterns(&self) -> (patterns: Vec<String>)
        ensures
            patterns@.len() == self.config.data_directories@.len(),
            forall|i: int|
                0 <= i < patterns@.len() ==> (#[trigger] patterns@[i])@ == glob_pattern_of(
                    self.config.data_directories@[i]@,
                    self.config.extension@,
                ),
    {
        let mut patterns: Vec<String> = Vec::new();
        let mut i: usize = 0;
        while i < self.config.data_directories.len()
            invariant
                i <= self.config.data_directories@.len(),
                patterns@.len() == i,
                forall|k: int|
                    0 <= k < i ==> (#[trigger] patterns@[k])@ == glob_pattern_of(
                        self.config.data_directories@[k]@,
                        self.config.extension@,
                    ),
            decreases self.config.data_directories@.len() - i,
        {
            let mut pattern = self.config.data_directories[i].clone();
            pattern.append("/**/");
            pattern.append("*.");
            pattern.append(self.config.extension.as_str());
            patterns.push(pattern);
            i = i + 1;
        }
        patterns
    }

    /// Adds the entries that the files hold, in order. Each of `files` is
    /// the text of one file, or `None` for a file that could not be read as
    /// text: such a file is skipped, and the positions of the skipped files
    /// are returned.
    pub fn read_all_files(&mut self, files: &Vec<Option<String>>) -> (skipped_files: Vec<usize>)
        ensures
            entries_view(final(self).data@) == entries_view(old(self).data@) + loaded(
                files_view(files@),
            ),
            final(self).config == old(self).config,
            crate::tag_index::positions(skipped_files@) == skipped(files_view(files@)),
    {
        let mut skipped_files: Vec<usize> = Vec::new();
        let ghost all = files_view(files@);
        let mut i: usize = 0;
        assert(all.take(0) =~= Seq::<Option<Seq<char>>>::empty());
        assert(entries_view(self.data@) + Seq::<KnowledgeView>::empty() =~= entries_view(
            self.data@,
        ));
        assert(crate::tag_index::positions(skipped_files@) =~= Seq::<int>::empty());
        while i < files.len()
            invariant
                i <= files.len(),
                all == files_view(files@),
                self.config == old(self).config,
                entries_view(self.data@) == entries_view(old(self).data@) + loaded(
                    all.take(i as int),
                ),
                crate::tag_index::positions(skipped_files@) == skipped(all.take(i as int)),
            decreases files.len() - i,
        {
            let ghost before = entries_view(self.data@);
            let ghost skipped_before = crate::tag_index::positions(skipped_files@);
            assert(all.take(i + 1).drop_last() =~= all.take(i as int));
            assert(all.take(i + 1).last() == all[i as int]);
            match &files[i] {
                Some(contents) => {
                    let entry = Knowledge::from_file(contents.as_str());
                    self.data.push(entry);
                    assert(entries_view(self.data@) =~= before.push(parse(contents@)));
                    assert(entries_view(old(self).data@) + loaded(all.take(i as int)).push(
                        parse(contents@),
                    ) =~= (entries_view(old(self).data@) + loaded(all.take(i as int))).push(
                        parse(contents@),
                    ));
                },
                None => {
                    skipped_files.push(i);
                    assert(crate::tag_index::positions(skipped_files@) =~= skipped_before.push(
                        i as int,
                    ));
                },
            }
            i = i + 1;
        }
        assert(all.take(i as int) =~= all);
        skipped_files
    }

    /// The index from each tag to the entries that carry it: an entry
    /// stands under every tag it carries, and an entry without tags under
    /// none.
    pub fn get_mapping(&self) -> (mapping: TagIndex)
        ensures
            mapping@ == tag_index(entries_view(self.data@)),
            mapping.keys() == tags_of(occurrences(entries_view(self.data@))),
    {
        TagIndex::build(&self.data)
    }
}

} // verus!
