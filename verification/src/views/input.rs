//! A multi-line text buffer with a cursor, and the editing operations on it.

use crate::text::{
    chars_of, join_lines, push_char, push_chars, remove_range, string_of, word_end, word_end_at,
    word_start, word_start_at,
};
use vstd::prelude::*;

verus! {

/// The mathematical content of a text buffer: its lines and the cursor.
pub struct InputView {
    pub lines: Seq<Seq<char>>,
    pub row: int,
    pub col: int,
}

/// One editing operation on a text buffer.
#[derive(Clone, Copy, Debug, PartialEq, Eq)]
pub enum EditOp {
    Insert(char),
    Backspace,
    Delete,
    MoveLeft,
    MoveRight,
    MoveUp,
    MoveDown,
    NewLine,
    Home,
    End,
    TopHome,
    BottomEnd,
    BackspaceWord,
    DeleteWord,
    MoveLeftWord,
    MoveRightWord,
}

impl InputView {
    /// A buffer of one empty line with the cursor at its start.
    pub open spec fn empty() -> InputView {
        InputView { lines: seq![Seq::empty()], row: 0, col: 0 }
    }

    /// The cursor invariant: the cursor is on an existing line, at or before
    /// that line's end. In particular there is at least one line.
    pub open spec fn wf(self) -> bool {
        &&& 0 <= self.row < self.lines.len()
        &&& 0 <= self.col <= self.lines[self.row].len()
    }

    /// The line under the cursor.
    pub open spec fn line(self) -> Seq<char> {
        self.lines[self.row]
    }

    /// The whole text: the lines joined by newlines.
    pub open spec fn text(self) -> Seq<char> {
        join_lines(self.lines)
    }

    /// The buffer with the line under the cursor replaced and the cursor
    /// moved to column `col` of it.
    pub open spec fn with_line(self, line: Seq<char>, col: int) -> InputView {
        InputView { lines: self.lines.update(self.row, line), row: self.row, col }
    }

    /// The buffer with the cursor moved to `(row, col)`.
    pub open spec fn at(self, row: int, col: int) -> InputView {
        InputView { lines: self.lines, row, col }
    }

    /// Inserts `c` at the cursor and moves the cursor past it.
    pub open spec fn insert(self, c: char) -> InputView {
        self.with_line(self.line().insert(self.col, c), self.col + 1)
    }

    /// Removes the character before the cursor; at the start of a line but
    /// the first, joins the line to the line above, with the cursor where the
    /// two meet; at the start of the buffer, nothing.
    pub open spec fn backspace(self) -> InputView {
        if self.col > 0 {
            self.with_line(self.line().remove(self.col - 1), self.col - 1)
        } else if self.row > 0 {
            let above = self.lines[self.row - 1];
            InputView {
                lines: self.lines.update(self.row - 1, above + self.line()).remove(self.row),
                row: self.row - 1,
                col: above.len() as int,
            }
        } else {
            self
        }
    }

    /// Removes the character under the cursor; at the end of a line, nothing.
    pub open spec fn delete(self) -> InputView {
        if self.col < self.line().len() {
            self.with_line(self.line().remove(self.col), self.col)
        } else {
            self
        }
    }

    /// One column left; from the start of a line, to the end of the line
    /// above, if there is one.
    pub open spec fn move_left(self) -> InputView {
        if self.col > 0 {
            self.at(self.row, self.col - 1)
        } else if self.row > 0 {
            self.at(self.row - 1, self.lines[self.row - 1].len() as int)
        } else {
            self
        }
    }

    /// One column right; from the end of a line, to the start of the line
    /// below, if there is one.
    pub open spec fn move_right(self) -> InputView {
        if self.col < self.line().len() {
            self.at(self.row, self.col + 1)
        } else if self.row + 1 < self.lines.len() {
            self.at(self.row + 1, 0)
        } else {
            self
        }
    }

    /// The cursor on line `row`, its column clamped to that line's length.
    pub open spec fn clamped_to(self, row: int) -> InputView {
        if self.col > self.lines[row].len() {
            self.at(row, self.lines[row].len() as int)
        } else {
            self.at(row, self.col)
        }
    }

    /// One line up, if there is one, with the column clamped to that line.
    pub open spec fn move_up(self) -> InputView {
        if self.row > 0 {
            self.clamped_to(self.row - 1)
        } else {
            self
        }
    }

    /// One line down, if there is one, with the column clamped to that line.
    pub open spec fn move_down(self) -> InputView {
        if self.row + 1 < self.lines.len() {
            self.clamped_to(self.row + 1)
        } else {
            self
        }
    }

    /// Splits the line at the cursor: what follows the cursor becomes a new
    /// line just below, and the cursor moves to its start.
    pub open spec fn new_line(self) -> InputView {
        InputView {
            lines: self.lines.update(self.row, self.line().take(self.col)).insert(
                self.row + 1,
                self.line().skip(self.col),
            ),
            row: self.row + 1,
            col: 0,
        }
    }

    /// To the start of the line.
    pub open spec fn beginning_of_line(self) -> InputView {
        self.at(self.row, 0)
    }

    /// To the end of the line.
    pub open spec fn end_of_line(self) -> InputView {
        self.at(self.row, self.line().len() as int)
    }

    /// To the start of the first line.
    pub open spec fn top_beginning_of_line(self) -> InputView {
        self.at(0, 0)
    }

    /// To the end of the last line.
    pub open spec fn bottom_end_of_line(self) -> InputView {
        self.at(self.lines.len() - 1, self.lines.last().len() as int)
    }

    /// Removes the run of like characters that ends at the cursor. At the
    /// start of a line nothing happens: the operation stays on its line.
    pub open spec fn backspace_word(self) -> InputView {
        let start = word_start(self.line(), self.col);
        self.with_line(remove_range(self.line(), start, self.col), start)
    }

    /// Removes the run of like characters that starts at the cursor. At the
    /// end of a line nothing happens: the operation stays on its line.
    pub open spec fn delete_word(self) -> InputView {
        if self.col < self.line().len() {
            self.with_line(
                remove_range(self.line(), self.col, word_end(self.line(), self.col)),
                self.col,
            )
        } else {
            self
        }
    }

    /// Moves to the start of the run of like characters that ends at the
    /// cursor; stays at the start of a line.
    pub open spec fn move_left_word(self) -> InputView {
        self.at(self.row, word_start(self.line(), self.col))
    }

    /// Moves to the end of the run of like characters that starts at the
    /// cursor; stays at the end of a line.
    pub open spec fn move_right_word(self) -> InputView {
        self.at(self.row, word_end(self.line(), self.col))
    }

    /// The buffer after one operation.
    pub open spec fn apply(self, op: EditOp) -> InputView {
        match op {
            EditOp::Insert(c) => self.insert(c),
            EditOp::Backspace => self.backspace(),
            EditOp::Delete => self.delete(),
            EditOp::MoveLeft => self.move_left(),
            EditOp::MoveRight => self.move_right(),
            EditOp::MoveUp => self.move_up(),
            EditOp::MoveDown => self.move_down(),
            EditOp::NewLine => self.new_line(),
            EditOp::Home => self.beginning_of_line(),
            EditOp::End => self.end_of_line(),
            EditOp::TopHome => self.top_beginning_of_line(),
            EditOp::BottomEnd => self.bottom_end_of_line(),
            EditOp::BackspaceWord => self.backspace_word(),
            EditOp::DeleteWord => self.delete_word(),
            EditOp::MoveLeftWord => self.move_left_word(),
            EditOp::MoveRightWord => self.move_right_word(),
        }
    }

    /// The buffer after the operations `ops`, applied in order.
    pub open spec fn apply_all(self, ops: Seq<EditOp>) -> InputView
        decreases ops.len(),
    {
        if ops.len() == 0 {
            self
        } else {
            self.apply_all(ops.drop_last()).apply(ops.last())
        }
    }

    /// The buffer after typing the character `c`: a newline splits the line,
    /// any other character is inserted.
    pub open spec fn type_char(self, c: char) -> InputView {
        if c == '\n' {
            self.new_line()
        } else {
            self.insert(c)
        }
    }

    /// The buffer after typing the characters of `s` in order.
    pub open spec fn insert_string(self, s: Seq<char>) -> InputView
        decreases s.len(),
    {
        if s.len() == 0 {
            self
        } else {
            self.type_char(s[0]).insert_string(s.drop_first())
        }
    }
}

/// Every operation keeps the cursor invariant.
pub proof fn lemma_apply_preserves_wf(v: InputView, op: EditOp)
    requires
        v.wf(),
    ensures
        v.apply(op).wf(),
{
    match op {
        EditOp::BackspaceWord | EditOp::MoveLeftWord => {
            if v.col > 0 {
                crate::text::lemma_word_start(v.line(), v.col);
            }
        },
        EditOp::DeleteWord | EditOp::MoveRightWord => {
            if v.col < v.line().len() {
                crate::text::lemma_word_end(v.line(), v.col);
            }
        },
        _ => {},
    }
}

/// Cursor invariant: starting from the empty buffer, the cursor is on an
/// existing line and within it after every operation of any finite
/// sequence of operations.
pub proof fn lemma_cursor_invariant(ops: Seq<EditOp>)
    ensures
        forall|n: int|
            0 <= n <= ops.len() ==> (#[trigger] InputView::empty().apply_all(ops.take(n))).wf(),
    decreases ops.len(),
{
    assert forall|n: int| 0 <= n <= ops.len() implies (#[trigger] InputView::empty().apply_all(
        ops.take(n),
    )).wf() by {
        lemma_apply_all_preserves_wf(InputView::empty(), ops.take(n));
    }
}

/// A sequence of operations keeps the cursor invariant.
pub proof fn lemma_apply_all_preserves_wf(v: InputView, ops: Seq<EditOp>)
    requires
        v.wf(),
    ensures
        v.apply_all(ops).wf(),
    decreases ops.len(),
{
    if ops.len() > 0 {
        lemma_apply_all_preserves_wf(v, ops.drop_last());
        lemma_apply_preserves_wf(v.apply_all(ops.drop_last()), ops.last());
    }
}

/// Typing a string keeps the cursor invariant.
pub proof fn lemma_insert_string_preserves_wf(v: InputView, s: Seq<char>)
    requires
        v.wf(),
    ensures
        v.insert_string(s).wf(),
    decreases s.len(),
{
    if s.len() > 0 {
        lemma_insert_string_preserves_wf(v.type_char(s[0]), s.drop_first());
    }
}

/// A multi-line text buffer with a cursor.
pub struct Input {
    input: Vec<Vec<char>>,
    horizontal_idx: usize,
    vertical_idx: usize,
}

impl View for Input {
    type V = InputView;

    closed spec fn view(&self) -> InputView {
        InputView {
            lines: Seq::new(self.input@.len(), |i: int| self.input@[i]@),
            row: self.vertical_idx as int,
            col: self.horizontal_idx as int,
        }
    }
}

impl Default for Input {
    fn default() -> (input: Self)
        ensures
            input@ == InputView::empty(),
    {
        let mut rows: Vec<Vec<char>> = Vec::new();
        rows.push(Vec::new());
        let input = Input { input: rows, horizontal_idx: 0, vertical_idx: 0 };
        assert(input@.lines =~= InputView::empty().lines);
        input
    }
}

impl Input {
    /// Inserts `c` at the cursor and moves the cursor past it.
    pub fn insert(&mut self, c: char)
        requires
            old(self)@.wf(),
        ensures
            final(self)@ == old(self)@.insert(c),
            final(self)@.wf(),
    {
        self.input[self.vertical_idx].insert(self.horizontal_idx, c);
        let len = self.input[self.vertical_idx].len();
        assert(self.horizontal_idx < len);
        self.horizontal_idx = self.horizontal_idx + 1;
        assert(self@.lines =~= old(self)@.insert(c).lines);
    }

    /// The whole text: the lines joined by newlines.
    pub fn get_string(&self) -> (text: String)
        requires
            self@.wf(),
        ensures
            text@ == self@.text(),
    {
        let mut text = String::new();
        let n = self.input[0].len();
        push_chars(&mut text, &self.input[0], 0, n);
        assert(self.input@[0]@.subrange(0, n as int) =~= self.input@[0]@);
        assert(self@.lines.take(1) =~= seq![self@.lines[0]]);
        let mut i: usize = 1;
        while i < self.input.len()
            invariant
                1 <= i <= self.input.len(),
                text@ == join_lines(self@.lines.take(i as int)),
            decreases self.input.len() - i,
        {
            push_char(&mut text, '\n');
            let n = self.input[i].len();
            push_chars(&mut text, &self.input[i], 0, n);
            assert(self.input@[i as int]@.subrange(0, n as int) =~= self.input@[i as int]@);
            assert(self@.lines.take(i + 1).drop_last() =~= self@.lines.take(i as int));
            i = i + 1;
        }
        assert(self@.lines.take(i as int) =~= self@.lines);
        text
    }

    /// Removes the character before the cursor. At the start of a line
    /// other than the first, joins the line to the end of the line above and
    /// leaves the cursor where the two meet.
    pub fn backspace(&mut self)
        requires
            old(self)@.wf(),
        ensures
            final(self)@ == old(self)@.backspace(),
            final(self)@.wf(),
    {
        if self.horizontal_idx > 0 {
            self.horizontal_idx = self.horizontal_idx - 1;
            self.input[self.vertical_idx].remove(self.horizontal_idx);
            assert(self@.lines =~= old(self)@.backspace().lines);
        } else if self.vertical_idx > 0 {
            let mut current = self.input.remove(self.vertical_idx);
            self.vertical_idx = self.vertical_idx - 1;
            self.horizontal_idx = self.input[self.vertical_idx].len();
            self.input[self.vertical_idx].append(&mut current);
            assert(self@.lines =~= old(self)@.backspace().lines);
        }
    }

    /// Removes the character under the cursor, if there is one. At the end
    /// of a line nothing happens: the next line is not joined.
    pub fn delete(&mut self)
        requires
            old(self)@.wf(),
        ensures
            final(self)@ == old(self)@.delete(),
            final(self)@.wf(),
    {
        if self.horizontal_idx < self.input[self.vertical_idx].len() {
            self.input[self.vertical_idx].remove(self.horizontal_idx);
            assert(self@.lines =~= old(self)@.delete().lines);
        }
    }

    /// Moves the cursor one column left; from the start of a line, to the
    /// end of the line above, if there is one.
    pub fn move_left(&mut self)
        requires
            old(self)@.wf(),
        ensures
            final(self)@ == old(self)@.move_left(),
            final(self)@.wf(),
    {
        if self.horizontal_idx > 0 {
            self.horizontal_idx = self.horizontal_idx - 1;
        } else if self.vertical_idx > 0 {
            self.vertical_idx = self.vertical_idx - 1;
            self.horizontal_idx = self.input[self.vertical_idx].len();
        }
    }

    /// Moves the cursor one column right; from the end of a line, to the
    /// start of the line below, if there is one.
    pub fn move_right(&mut self)
        requires
            old(self)@.wf(),
        ensures
            final(self)@ == old(self)@.move_right(),
            final(self)@.wf(),
    {
        let rows = self.input.len();
        if self.horizontal_idx < self.input[self.vertical_idx].len() {
            self.horizontal_idx = self.horizontal_idx + 1;
        } else if self.vertical_idx + 1 < rows {
            self.vertical_idx = self.vertical_idx + 1;
            self.horizontal_idx = 0;
        }
    }

    /// Moves the cursor one line up, if there is one, keeping the column
    /// where the line is long enough.
    pub fn move_up(&mut self)
        requires
            old(self)@.wf(),
        ensures
            final(self)@ == old(self)@.move_up(),
            final(self)@.wf(),
    {
        if self.vertical_idx > 0 {
            self.vertical_idx = self.vertical_idx - 1;
            self.readjust_horizontal_line();
        }
    }

    /// Moves the cursor one line down, if there is one, keeping the column
    /// where the line is long enough.
    pub fn move_down(&mut self)
        requires
            old(self)@.wf(),
        ensures
            final(self)@ == old(self)@.move_down(),
            final(self)@.wf(),
    {
        let rows = self.input.len();
        if self.vertical_idx + 1 < rows {
            self.vertical_idx = self.vertical_idx + 1;
            self.readjust_horizontal_line();
        }
    }

    /// Pulls the column back to the end of the current line where it lies
    /// beyond it.
    fn readjust_horizontal_line(&mut self)
        requires
            0 <= old(self)@.row < old(self)@.lines.len(),
        ensures
            final(self)@ == old(self)@.clamped_to(old(self)@.row),
            final(self)@.wf(),
    {
        let len = self.input[self.vertical_idx].len();
        if self.horizontal_idx > len {
            self.horizontal_idx = len;
        }
    }

    /// Splits the current line at the cursor: what follows the cursor
    /// becomes a new line just below, and the cursor moves to its start.
    pub fn new_line(&mut self)
        requires
            old(self)@.wf(),
        ensures
            final(self)@ == old(self)@.new_line(),
            final(self)@.wf(),
    {
        let rows = self.input.len();
        assert(self.vertical_idx < rows);
        let remaining = self.input[self.vertical_idx].split_off(self.horizontal_idx);
        self.input.insert(self.vertical_idx + 1, remaining);
        self.vertical_idx = self.vertical_idx + 1;
        self.horizontal_idx = 0;
        assert(self@.lines =~= old(self)@.new_line().lines);
    }

    /// Moves the cursor to the end of its line.
    pub fn end_of_line(&mut self)
        requires
            old(self)@.wf(),
        ensures
            final(self)@ == old(self)@.end_of_line(),
            final(self)@.wf(),
    {
        self.horizontal_idx = self.input[self.vertical_idx].len();
    }

    /// Moves the cursor to the start of its line.
    pub fn beginning_of_line(&mut self)
        requires
            old(self)@.wf(),
        ensures
            final(self)@ == old(self)@.beginning_of_line(),
            final(self)@.wf(),
    {
        self.horizontal_idx = 0;
    }

    /// Moves the cursor to the start of the first line.
    pub fn top_beginning_of_line(&mut self)
        requires
            old(self)@.wf(),
        ensures
            final(self)@ == old(self)@.top_beginning_of_line(),
            final(self)@.wf(),
    {
        self.vertical_idx = 0;
        self.horizontal_idx = 0;
    }

    /// Moves the cursor to the end of the last line.
    pub fn bottom_end_of_line(&mut self)
        requires
            old(self)@.wf(),
        ensures
            final(self)@ == old(self)@.bottom_end_of_line(),
            final(self)@.wf(),
    {
        self.vertical_idx = self.input.len() - 1;
        self.horizontal_idx = self.input[self.vertical_idx].len();
    }

    /// Removes the characters `from..to` of the current line.
    fn remove_in_line(&mut self, from: usize, to: usize)
        requires
            0 <= old(self)@.row < old(self)@.lines.len(),
            from <= to <= old(self)@.line().len(),
        ensures
            final(self)@.lines == old(self)@.lines.update(
                old(self)@.row,
                remove_range(old(self)@.line(), from as int, to as int),
            ),
            final(self)@.row == old(self)@.row,
            final(self)@.col == old(self)@.col,
    {
        let mut tail = self.input[self.vertical_idx].split_off(to);
        self.input[self.vertical_idx].truncate(from);
        self.input[self.vertical_idx].append(&mut tail);
        assert(old(self)@.line().take(to as int).take(from as int) =~= old(self)@.line().take(
            from as int,
        ));
        assert(self@.lines =~= old(self)@.lines.update(
            old(self)@.row,
            remove_range(old(self)@.line(), from as int, to as int),
        ));
    }

    /// Removes the run of like characters (all whitespace, or all other
    /// characters) that ends at the cursor. Stays on the current line.
    pub fn backspace_word(&mut self)
        requires
            old(self)@.wf(),
        ensures
            final(self)@ == old(self)@.backspace_word(),
            final(self)@.wf(),
    {
        let start = word_start_at(&self.input[self.vertical_idx], self.horizontal_idx);
        self.remove_in_line(start, self.horizontal_idx);
        self.horizontal_idx = start;
        proof {
            lemma_apply_preserves_wf(old(self)@, EditOp::BackspaceWord);
        }
    }

    /// Removes the run of like characters that starts at the cursor. Stays
    /// on the current line.
    pub fn delete_word(&mut self)
        requires
            old(self)@.wf(),
        ensures
            final(self)@ == old(self)@.delete_word(),
            final(self)@.wf(),
    {
        if self.horizontal_idx < self.input[self.vertical_idx].len() {
            let end = word_end_at(&self.input[self.vertical_idx], self.horizontal_idx);
            self.remove_in_line(self.horizontal_idx, end);
            proof {
                lemma_apply_preserves_wf(old(self)@, EditOp::DeleteWord);
            }
        }
    }

    /// Moves the cursor to the start of the run of like characters that
    /// ends at the cursor. Stays on the current line.
    pub fn move_left_word(&mut self)
        requires
            old(self)@.wf(),
        ensures
            final(self)@ == old(self)@.move_left_word(),
            final(self)@.wf(),
    {
        self.horizontal_idx = word_start_at(&self.input[self.vertical_idx], self.horizontal_idx);
    }

    /// Moves the cursor to the end of the run of like characters that
    /// starts at the cursor. Stays on the current line.
    pub fn move_right_word(&mut self)
        requires
            old(self)@.wf(),
        ensures
            final(self)@ == old(self)@.move_right_word(),
            final(self)@.wf(),
    {
        self.horizontal_idx = word_end_at(&self.input[self.vertical_idx], self.horizontal_idx);
    }

    /// Performs one editing operation.
    pub fn apply(&mut self, op: EditOp)
        requires
            old(self)@.wf(),
        ensures
            final(self)@ == old(self)@.apply(op),
            final(self)@.wf(),
    {
        match op {
            EditOp::Insert(c) => self.insert(c),
            EditOp::Backspace => self.backspace(),
            EditOp::Delete => self.delete(),
            EditOp::MoveLeft => self.move_left(),
            EditOp::MoveRight => self.move_right(),
            EditOp::MoveUp => self.move_up(),
            EditOp::MoveDown => self.move_down(),
            EditOp::NewLine => self.new_line(),
            EditOp::Home => self.beginning_of_line(),
            EditOp::End => self.end_of_line(),
            EditOp::TopHome => self.top_beginning_of_line(),
            EditOp::BottomEnd => self.bottom_end_of_line(),
            EditOp::BackspaceWord => self.backspace_word(),
            EditOp::DeleteWord => self.delete_word(),
            EditOp::MoveLeftWord => self.move_left_word(),
            EditOp::MoveRightWord => self.move_right_word(),
        }
    }

    /// Types the characters of `s` at the cursor: a newline splits the line,
    /// any other character is inserted.
    pub fn insert_string(&mut self, s: &str)
        requires
            old(self)@.wf(),
        ensures
            final(self)@ == old(self)@.insert_string(s@),
            final(self)@.wf(),
    {
        let chars = chars_of(s);
        let mut i: usize = 0;
        assert(s@.skip(0) =~= s@);
        while i < chars.len()
            invariant
                i <= chars.len(),
                chars@ == s@,
                self@.wf(),
                self@.insert_string(s@.skip(i as int)) == old(self)@.insert_string(s@),
            decreases chars.len() - i,
        {
            assert(s@.skip(i as int).drop_first() =~= s@.skip(i + 1));
            if chars[i] == '\n' {
                self.new_line();
            } else {
                self.insert(chars[i]);
            }
            i = i + 1;
        }
    }

    /// The lines of the buffer, in order.
    pub fn lines(&self) -> (lines: Vec<String>)
        ensures
            lines@.len() == self@.lines.len(),
            forall|i: int| 0 <= i < lines@.len() ==> (#[trigger] lines@[i])@ == self@.lines[i],
    {
        let mut lines: Vec<String> = Vec::new();
        let mut i: usize = 0;
        while i < self.input.len()
            invariant
                i <= self.input.len(),
                lines@.len() == i,
                forall|k: int| 0 <= k < i ==> (#[trigger] lines@[k])@ == self@.lines[k],
            decreases self.input.len() - i,
        {
            let n = self.input[i].len();
            let line = string_of(&self.input[i], 0, n);
            assert(self.input@[i as int]@.subrange(0, n as int) =~= self.input@[i as int]@);
            lines.push(line);
            i = i + 1;
        }
        lines
    }

    /// The line the cursor is on, counted from `0`.
    pub fn row(&self) -> (row: usize)
        ensures
            row == self@.row,
    {
        self.vertical_idx
    }

    /// The column the cursor is at, counted from `0`.
    pub fn column(&self) -> (col: usize)
        ensures
            col == self@.col,
    {
        self.horizontal_idx
    }
}

impl InputView {
    /// True when the cursor stands at the very end of the buffer.
    pub open spec fn at_end(self) -> bool {
        self.row == self.lines.len() - 1 && self.col == self.lines.last().len()
    }
}

/// Typing at the end of the buffer adds to its text: after the characters
/// of `s` are typed there, the text of the buffer is its text before,
/// followed by `s`, and the cursor is at the end again.
pub proof fn lemma_typing_appends(v: InputView, s: Seq<char>)
    requires
        v.wf(),
        v.at_end(),
    ensures
        v.insert_string(s).text() == v.text() + s,
        v.insert_string(s).at_end(),
        v.insert_string(s).wf(),
    decreases s.len(),
{
    if s.len() == 0 {
        assert(v.text() + s =~= v.text());
    } else {
        let c = s[0];
        let next = v.type_char(c);
        let last = v.lines.last();
        if c == '\n' {
            assert(last.take(v.col) =~= last);
            assert(last.skip(v.col) =~= Seq::<char>::empty());
            assert(next.lines =~= v.lines.push(Seq::<char>::empty()));
            assert(next.lines.drop_last() =~= v.lines);
            assert(next.text() =~= v.text() + seq![c]);
        } else {
            assert(last.insert(v.col, c) =~= last.push(c));
            assert(next.lines =~= v.lines.update(v.row, last.push(c)));
            if v.lines.len() == 1 {
                assert(next.text() =~= v.text() + seq![c]);
            } else {
                assert(next.lines.drop_last() =~= v.lines.drop_last());
                assert(next.text() =~= v.text() + seq![c]);
            }
        }
        lemma_typing_appends(next, s.drop_first());
        assert(v.text() + seq![c] + s.drop_first() =~= v.text() + s);
    }
}

/// What is typed is what the buffer holds: the text of a buffer that was
/// empty before the characters of `s` were typed is `s`.
pub proof fn lemma_typed_text(s: Seq<char>)
    ensures
        InputView::empty().insert_string(s).text() == s,
{
    lemma_typing_appends(InputView::empty(), s);
    assert(InputView::empty().text() + s =~= s);
}

} // verus!
