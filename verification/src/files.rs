//! File names and directory listings, as the browser sees them.

use crate::text::{chars_of, starts_with, string_of};
use vstd::prelude::*;

verus! {

/// What an entry of a directory is.
#[derive(Clone, Copy, Debug, PartialEq, Eq)]
pub enum EntryKind {
    File,
    Dir,
    /// Neither a file nor a directory.
    Other,
}

/// One entry of a directory: its name and what it is.
#[derive(Debug)]
pub struct DirEntry {
    pub name: String,
    pub kind: EntryKind,
}

/// The mathematical content of a directory entry.
pub struct DirEntryView {
    pub name: Seq<char>,
    pub kind: EntryKind,
}

impl View for DirEntry {
    type V = DirEntryView;

    open spec fn view(&self) -> DirEntryView {
        DirEntryView { name: self.name@, kind: self.kind }
    }
}

/// The views of `entries`, in order.
pub open spec fn listing_view(entries: Seq<DirEntry>) -> Seq<DirEntryView> {
    Seq::new(entries.len(), |i: int| entries[i]@)
}

/// The position of the last dot in `name`, or `-1` when it has none.
pub open spec fn last_dot(name: Seq<char>) -> int
    decreases name.len(),
{
    if name.len() == 0 {
        -1
    } else if name.last() == '.' {
        name.len() - 1
    } else {
        last_dot(name.drop_last())
    }
}

/// The extension of a file name: what follows its last dot. A name without
/// a dot, or with its only dot in front, has none.
pub open spec fn extension_of(name: Seq<char>) -> Option<Seq<char>> {
    if last_dot(name) > 0 {
        Some(name.skip(last_dot(name) + 1))
    } else {
        None
    }
}

/// The stem of a file name: what precedes its last dot, or the whole name
/// where it has no extension.
pub open spec fn stem_of(name: Seq<char>) -> Seq<char> {
    if last_dot(name) > 0 {
        name.take(last_dot(name))
    } else {
        name
    }
}

/// True for the entries that the browser lists: directories, and files
/// with the extension `extension`.
pub open spec fn is_listed(entry: DirEntryView, extension: Seq<char>) -> bool {
    match entry.kind {
        EntryKind::Dir => true,
        EntryKind::File => extension_of(entry.name) == Some(extension),
        EntryKind::Other => false,
    }
}

/// The entries of `entries` that the browser lists, in their order.
pub open spec fn listing_of(entries: Seq<DirEntryView>, extension: Seq<char>) -> Seq<DirEntryView>
    decreases entries.len(),
{
    if entries.len() == 0 {
        Seq::empty()
    } else if is_listed(entries.last(), extension) {
        listing_of(entries.drop_last(), extension).push(entries.last())
    } else {
        listing_of(entries.drop_last(), extension)
    }
}

/// `last_dot` is the position of a dot with no dot after it, or `-1` for a
/// name without dots.
pub proof fn lemma_last_dot(name: Seq<char>)
    ensures
        -1 <= last_dot(name) < name.len(),
        last_dot(name) >= 0 ==> name[last_dot(name)] == '.',
        forall|k: int| last_dot(name) < k < name.len() ==> name[k] != '.',
    decreases name.len(),
{
    if name.len() > 0 && name.last() != '.' {
        let init = name.drop_last();
        lemma_last_dot(init);
        assert forall|k: int| last_dot(name) < k < name.len() implies name[k] != '.' by {
            if k < init.len() {
                assert(name[k] == init[k]);
            }
        }
    }
}

/// A position that holds a dot, with no dot after it, is the one that
/// `last_dot` gives; `-1` is, when there is no dot.
pub proof fn lemma_last_dot_unique(name: Seq<char>, at: int)
    requires
        -1 <= at < name.len(),
        at >= 0 ==> name[at] == '.',
        forall|k: int| at < k < name.len() ==> name[k] != '.',
    ensures
        last_dot(name) == at,
{
    lemma_last_dot(name);
    let found = last_dot(name);
    if found > at {
        assert(name[found] == '.');
    } else if found < at {
        assert(name[at] == '.');
    }
}

/// The listing keeps no more entries than it is given.
pub proof fn lemma_listing_len(entries: Seq<DirEntryView>, extension: Seq<char>)
    ensures
        listing_of(entries, extension).len() <= entries.len(),
    decreases entries.len(),
{
    if entries.len() > 0 {
        lemma_listing_len(entries.drop_last(), extension);
    }
}

/// The position of the last dot in `name`, or `None` when it has none.
fn find_last_dot(name: &Vec<char>) -> (at: Option<usize>)
    ensures
        match at {
            Some(i) => last_dot(name@) == i && i < name.len(),
            None => last_dot(name@) == -1,
        },
{
    let mut i: usize = name.len();
    while i > 0
        invariant
            i <= name.len(),
            forall|k: int| i <= k < name.len() ==> name@[k] != '.',
        decreases i,
    {
        i = i - 1;
        if name[i] == '.' {
            proof {
                lemma_last_dot_unique(name@, i as int);
            }
            return Some(i);
        }
    }
    proof {
        lemma_last_dot_unique(name@, -1);
    }
    None
}

/// Tests whether the file name `name` has the extension `extension`.
pub fn has_extension(name: &str, extension: &str) -> (b: bool)
    ensures
        b == (extension_of(name@) == Some(extension@)),
{
    let name = chars_of(name);
    let extension = chars_of(extension);
    match find_last_dot(&name) {
        Some(dot) => {
            if dot == 0 {
                return false;
            }
            let rest = name.len() - dot - 1;
            assert(name@.skip(dot + 1) =~= name@.subrange(dot + 1, name.len() as int));
            if rest != extension.len() {
                return false;
            }
            let same = starts_with(&name, dot + 1, name.len(), &extension);
            assert(same == (name@.skip(dot + 1) =~= extension@)) by {
                let tail = name@.subrange(dot + 1, name.len() as int);
                assert(tail.subrange(0, extension@.len() as int) =~= tail);
            }
            same
        },
        None => false,
    }
}

/// The stem of the file name `name`.
pub fn file_stem(name: &str) -> (stem: String)
    ensures
        stem@ == stem_of(name@),
{
    let chars = chars_of(name);
    let end = match find_last_dot(&chars) {
        Some(dot) => if dot > 0 {
            dot
        } else {
            chars.len()
        },
        None => chars.len(),
    };
    assert(chars@.subrange(0, chars.len() as int) =~= chars@);
    string_of(&chars, 0, end)
}

/// The entries of a directory that the browser lists: its directories and
/// its files with the extension `extension`, in the order given.
pub fn get_file_list(entries: &Vec<DirEntry>, extension: &str) -> (files: Vec<DirEntry>)
    ensures
        listing_view(files@) == listing_of(listing_view(entries@), extension@),
{
    let ghost all = listing_view(entries@);
    let mut files: Vec<DirEntry> = Vec::new();
    let mut i: usize = 0;
    assert(all.take(0) =~= Seq::<DirEntryView>::empty());
    assert(listing_view(files@) =~= Seq::<DirEntryView>::empty());
    while i < entries.len()
        invariant
            i <= entries.len(),
            all == listing_view(entries@),
            listing_view(files@) == listing_of(all.take(i as int), extension@),
        decreases entries.len() - i,
    {
        let entry = &entries[i];
        let ghost before = listing_view(files@);
        assert(all.take(i + 1).drop_last() =~= all.take(i as int));
        assert(all.take(i + 1).last() == entry@);
        let listed = match entry.kind {
            EntryKind::Dir => true,
            EntryKind::File => has_extension(entry.name.as_str(), extension),
            EntryKind::Other => false,
        };
        if listed {
            files.push(DirEntry { name: entry.name.clone(), kind: entry.kind });
            assert(listing_view(files@) =~= before.push(entry@));
        }
        i = i + 1;
    }
    assert(all.take(i as int) =~= all);
    files
}

} // verus!
