//! Character-level helpers shared by the note codec and the text input:
//! whitespace, trimming, searching, and conversion between strings and
//! character vectors.

use vstd::prelude::*;

verus! {

/// True for the characters that Unicode classes as white space
/// (`White_Space`).
pub open spec fn is_whitespace(c: char) -> bool {
    let u = c as u32;
    ||| 0x09 <= u <= 0x0D
    ||| u == 0x20
    ||| u == 0x85
    ||| u == 0xA0
    ||| u == 0x1680
    ||| 0x2000 <= u <= 0x200A
    ||| u == 0x2028
    ||| u == 0x2029
    ||| u == 0x202F
    ||| u == 0x205F
    ||| u == 0x3000
}

/// `s` without its leading whitespace.
pub open spec fn trim_start(s: Seq<char>) -> Seq<char>
    decreases s.len(),
{
    if s.len() > 0 && is_whitespace(s[0]) {
        trim_start(s.drop_first())
    } else {
        s
    }
}

/// `s` without its trailing whitespace.
pub open spec fn trim_end(s: Seq<char>) -> Seq<char>
    decreases s.len(),
{
    if s.len() > 0 && is_whitespace(s.last()) {
        trim_end(s.drop_last())
    } else {
        s
    }
}

/// `s` without leading and trailing whitespace.
pub open spec fn trim(s: Seq<char>) -> Seq<char> {
    trim_end(trim_start(s))
}

/// True when `s` neither starts nor ends with whitespace.
pub open spec fn is_trimmed(s: Seq<char>) -> bool {
    s.len() > 0 ==> !is_whitespace(s[0]) && !is_whitespace(s.last())
}

/// The position of the first `c` in `s`, or `s.len()` when there is none.
pub open spec fn index_of(s: Seq<char>, c: char) -> int
    decreases s.len(),
{
    if s.len() == 0 {
        0
    } else if s[0] == c {
        0
    } else {
        1 + index_of(s.drop_first(), c)
    }
}

/// The lines of `lines` joined by single newlines.
pub open spec fn join_lines(lines: Seq<Seq<char>>) -> Seq<char>
    decreases lines.len(),
{
    if lines.len() == 0 {
        Seq::empty()
    } else if lines.len() == 1 {
        lines[0]
    } else {
        join_lines(lines.drop_last()) + seq!['\n'] + lines.last()
    }
}

/// The start of the run of like characters (all whitespace, or all other
/// characters) that ends just before position `col` of `line`.
pub open spec fn word_start(line: Seq<char>, col: int) -> int
    decreases col,
{
    if col <= 1 {
        0
    } else if is_whitespace(line[col - 1]) != is_whitespace(line[col - 2]) {
        col - 1
    } else {
        word_start(line, col - 1)
    }
}

/// The end of the run of like characters that starts at position `col` of
/// `line`.
pub open spec fn word_end(line: Seq<char>, col: int) -> int
    decreases line.len() - col,
{
    if col + 1 >= line.len() {
        line.len() as int
    } else if is_whitespace(line[col]) != is_whitespace(line[col + 1]) {
        col + 1
    } else {
        word_end(line, col + 1)
    }
}

/// `line` without the characters at positions `from..to`.
pub open spec fn remove_range(line: Seq<char>, from: int, to: int) -> Seq<char> {
    line.take(from) + line.skip(to)
}

/// `index_of` stays within the sequence, finds `c` where it stops short of
/// the end, and passes over no earlier `c`.
pub proof fn lemma_index_of(s: Seq<char>, c: char)
    ensures
        0 <= index_of(s, c) <= s.len(),
        index_of(s, c) < s.len() ==> s[index_of(s, c)] == c,
        forall|k: int| 0 <= k < index_of(s, c) ==> s[k] != c,
    decreases s.len(),
{
    if s.len() > 0 && s[0] != c {
        let rest = s.drop_first();
        lemma_index_of(rest, c);
        assert forall|k: int| 0 <= k < index_of(s, c) implies s[k] != c by {
            if k > 0 {
                assert(s[k] == rest[k - 1]);
            }
        }
    }
}

/// A position `i` that holds `c` and has no `c` before it is the one that
/// `index_of` finds; with no `c` anywhere, `index_of` is the length.
pub proof fn lemma_index_of_unique(s: Seq<char>, c: char, i: int)
    requires
        0 <= i <= s.len(),
        i < s.len() ==> s[i] == c,
        forall|k: int| 0 <= k < i ==> s[k] != c,
    ensures
        index_of(s, c) == i,
{
    lemma_index_of(s, c);
    let j = index_of(s, c);
    if j < i {
        assert(s[j] == c);
    } else if j > i {
        assert(s[i] != c);
    }
}

/// What `word_start` is: a position before `col` from which every character
/// up to `col` is of one kind, with a character of the other kind, or the
/// start of the line, just before it.
pub proof fn lemma_word_start(line: Seq<char>, col: int)
    requires
        0 < col <= line.len(),
    ensures
        0 <= word_start(line, col) < col,
        forall|k: int|
            #![trigger line[k]]
            word_start(line, col) <= k < col ==> is_whitespace(line[k]) == is_whitespace(
                line[col - 1],
            ),
        word_start(line, col) > 0 ==> is_whitespace(line[word_start(line, col) - 1])
            != is_whitespace(line[col - 1]),
    decreases col,
{
    if col > 1 && is_whitespace(line[col - 1]) == is_whitespace(line[col - 2]) {
        lemma_word_start(line, col - 1);
    }
}

/// What `word_end` is: a position after `col` up to which every character
/// from `col` on is of one kind, with a character of the other kind, or the
/// end of the line, just after it.
pub proof fn lemma_word_end(line: Seq<char>, col: int)
    requires
        0 <= col < line.len(),
    ensures
        col < word_end(line, col) <= line.len(),
        forall|k: int|
            #![trigger line[k]]
            col <= k < word_end(line, col) ==> is_whitespace(line[k]) == is_whitespace(line[col]),
        word_end(line, col) < line.len() ==> is_whitespace(line[word_end(line, col)])
            != is_whitespace(line[col]),
    decreases line.len() - col,
{
    if col + 1 < line.len() && is_whitespace(line[col]) == is_whitespace(line[col + 1]) {
        lemma_word_end(line, col + 1);
    }
}

/// Tests whether `c` is whitespace.
pub fn is_space(c: char) -> (b: bool)
    ensures
        b == is_whitespace(c),
{
    let u: u32 = c as u32;
    (0x09 <= u && u <= 0x0D) || u == 0x20 || u == 0x85 || u == 0xA0 || u == 0x1680 || (0x2000 <= u
        && u <= 0x200A) || u == 0x2028 || u == 0x2029 || u == 0x202F || u == 0x205F || u == 0x3000
}

/// `String::push` of the standard library: appends the character `c` to the
/// end of `s` and leaves the rest of the string as it was.
#[verifier::external_body]
pub(crate) fn push_char(s: &mut String, c: char)
    ensures
        final(s)@ == old(s)@.push(c),
{
    s.push(c);
}

/// The characters of `s`, in order.
pub fn chars_of(s: &str) -> (chars: Vec<char>)
    ensures
        chars@ == s@,
{
    let mut chars: Vec<char> = Vec::new();
    for c in it: s.chars()
        invariant
            chars@ == it.seq().take(it.index() as int),
            it.seq() == s@,
    {
        chars.push(c);
    }
    chars
}

/// Appends the characters `chars[from..to]` to `out`.
pub(crate) fn push_chars(out: &mut String, chars: &Vec<char>, from: usize, to: usize)
    requires
        from <= to <= chars.len(),
    ensures
        final(out)@ == old(out)@ + chars@.subrange(from as int, to as int),
{
    let mut i: usize = from;
    while i < to
        invariant
            from <= i <= to <= chars.len(),
            out@ == old(out)@ + chars@.subrange(from as int, i as int),
        decreases to - i,
    {
        push_char(out, chars[i]);
        i = i + 1;
        assert(chars@.subrange(from as int, i as int) =~= chars@.subrange(from as int, i - 1).push(
            chars@[i - 1],
        ));
    }
}

/// The string made of the characters `chars[from..to]`.
pub(crate) fn string_of(chars: &Vec<char>, from: usize, to: usize) -> (s: String)
    requires
        from <= to <= chars.len(),
    ensures
        s@ == chars@.subrange(from as int, to as int),
{
    let mut s = String::new();
    push_chars(&mut s, chars, from, to);
    s
}

/// The first position at or after `from`, and before `to`, that holds `c`;
/// `to` when there is none.
pub(crate) fn find(chars: &Vec<char>, from: usize, to: usize, c: char) -> (at: usize)
    requires
        from <= to <= chars.len(),
    ensures
        at == from + index_of(chars@.subrange(from as int, to as int), c),
        from <= at <= to,
{
    let mut i: usize = from;
    while i < to && chars[i] != c
        invariant
            from <= i <= to <= chars.len(),
            forall|k: int| from <= k < i ==> chars@[k] != c,
        decreases to - i,
    {
        i = i + 1;
    }
    proof {
        lemma_index_of_unique(chars@.subrange(from as int, to as int), c, i - from);
    }
    i
}

/// The bounds of `chars[from..to]` once leading and trailing whitespace is
/// left out.
pub(crate) fn trim_bounds(chars: &Vec<char>, from: usize, to: usize) -> (bounds: (usize, usize))
    requires
        from <= to <= chars.len(),
    ensures
        from <= bounds.0 <= bounds.1 <= to,
        chars@.subrange(bounds.0 as int, bounds.1 as int) == trim(
            chars@.subrange(from as int, to as int),
        ),
{
    let ghost whole = chars@.subrange(from as int, to as int);
    let mut lo: usize = from;
    while lo < to && is_space(chars[lo])
        invariant
            from <= lo <= to <= chars.len(),
            whole == chars@.subrange(from as int, to as int),
            trim_start(whole) == trim_start(chars@.subrange(lo as int, to as int)),
        decreases to - lo,
    {
        assert(chars@.subrange(lo as int, to as int).drop_first() =~= chars@.subrange(
            lo + 1,
            to as int,
        ));
        lo = lo + 1;
    }
    assert(trim_start(whole) == chars@.subrange(lo as int, to as int));
    let mut hi: usize = to;
    while lo < hi && is_space(chars[hi - 1])
        invariant
            lo <= hi <= to <= chars.len(),
            trim(whole) == trim_end(chars@.subrange(lo as int, hi as int)),
        decreases hi - lo,
    {
        assert(chars@.subrange(lo as int, hi as int).drop_last() =~= chars@.subrange(
            lo as int,
            hi - 1,
        ));
        hi = hi - 1;
    }
    (lo, hi)
}

/// Tests whether `chars[from..to]` starts with `marker`.
pub(crate) fn starts_with(chars: &Vec<char>, from: usize, to: usize, marker: &Vec<char>) -> (b: bool)
    requires
        from <= to <= chars.len(),
    ensures
        b == marker@.is_prefix_of(chars@.subrange(from as int, to as int)),
{
    let ghost line = chars@.subrange(from as int, to as int);
    if marker.len() > to - from {
        return false;
    }
    let mut i: usize = 0;
    while i < marker.len()
        invariant
            i <= marker.len() <= to - from,
            from <= to <= chars.len(),
            line == chars@.subrange(from as int, to as int),
            forall|k: int| 0 <= k < i ==> marker@[k] == line[k],
        decreases marker.len() - i,
    {
        if marker[i] != chars[from + i] {
            assert(line[i as int] != marker@[i as int]);
            assert(line.subrange(0, marker@.len() as int)[i as int] == line[i as int]);
            return false;
        }
        i = i + 1;
    }
    assert(marker@ =~= line.subrange(0, marker@.len() as int));
    true
}

/// The start of the run of like characters that ends just before `col`.
pub(crate) fn word_start_at(line: &Vec<char>, col: usize) -> (start: usize)
    requires
        col <= line.len(),
    ensures
        start == word_start(line@, col as int),
        start <= col,
{
    if col <= 1 {
        return 0;
    }
    let kind = is_space(line[col - 1]);
    let mut i: usize = col - 1;
    while i > 0 && is_space(line[i - 1]) == kind
        invariant
            i < col <= line.len(),
            kind == is_whitespace(line@[i as int]),
            word_start(line@, col as int) == word_start(line@, i + 1),
        decreases i,
    {
        i = i - 1;
    }
    i
}

/// The end of the run of like characters that starts at `col`.
pub(crate) fn word_end_at(line: &Vec<char>, col: usize) -> (end: usize)
    requires
        col <= line.len(),
    ensures
        end == word_end(line@, col as int),
        col <= end <= line.len(),
{
    let len = line.len();
    if col >= len || col + 1 >= len {
        return len;
    }
    let kind = is_space(line[col]);
    let mut i: usize = col + 1;
    while i < len && is_space(line[i]) == kind
        invariant
            col < i <= len,
            len == line.len(),
            kind == is_whitespace(line@[i - 1]),
            word_end(line@, col as int) == word_end(line@, i - 1),
        decreases len - i,
    {
        i = i + 1;
    }
    i
}

} // verus!
