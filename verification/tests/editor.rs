use knowledge_base::views::input::{EditOp, Input};

fn typed(text: &str) -> Input {
    let mut input = Input::default();
    input.insert_string(text);
    input
}

fn cursor(input: &Input) -> (usize, usize) {
    (input.row(), input.column())
}

fn place(input: &mut Input, row: usize, column: usize) {
    input.top_beginning_of_line();
    for _ in 0..row {
        input.move_down();
    }
    input.beginning_of_line();
    for _ in 0..column {
        input.move_right();
    }
    assert_eq!(cursor(input), (row, column));
}

#[test]
fn empty_buffer_has_one_empty_line() {
    let input = Input::default();
    assert_eq!(input.lines(), vec![String::new()]);
    assert_eq!(cursor(&input), (0, 0));
    assert_eq!(input.get_string(), "");
}

#[test]
fn typing_two_lines() {
    let mut input = Input::default();
    input.insert('h');
    input.insert('i');
    input.new_line();
    for c in "there".chars() {
        input.insert(c);
    }
    assert_eq!(input.lines(), vec!["hi".to_string(), "there".to_string()]);
    assert_eq!(cursor(&input), (1, 5));
    assert_eq!(input.get_string(), "hi\nthere");
}

#[test]
fn insert_in_the_middle_of_a_line() {
    let mut input = typed("ac");
    input.move_left();
    input.insert('b');
    assert_eq!(input.lines(), vec!["abc".to_string()]);
    assert_eq!(cursor(&input), (0, 2));
}

#[test]
fn backspace_removes_character_before_cursor() {
    let mut input = typed("abc");
    input.move_left();
    input.backspace();
    assert_eq!(input.lines(), vec!["ac".to_string()]);
    assert_eq!(cursor(&input), (0, 1));
}

#[test]
fn backspace_at_line_start_joins_lines() {
    let mut input = typed("ab\ncd");
    input.beginning_of_line();
    input.backspace();
    assert_eq!(input.lines(), vec!["abcd".to_string()]);
    assert_eq!(cursor(&input), (0, 2));
}

#[test]
fn backspace_at_buffer_start_does_nothing() {
    let mut input = typed("ab\ncd");
    input.top_beginning_of_line();
    input.backspace();
    assert_eq!(input.lines(), vec!["ab".to_string(), "cd".to_string()]);
    assert_eq!(cursor(&input), (0, 0));
}

#[test]
fn delete_removes_character_under_cursor() {
    let mut input = typed("abc");
    input.beginning_of_line();
    input.delete();
    assert_eq!(input.lines(), vec!["bc".to_string()]);
    assert_eq!(cursor(&input), (0, 0));
}

#[test]
fn delete_at_line_end_does_not_join_lines() {
    let mut input = typed("ab\ncd");
    place(&mut input, 0, 2);
    input.delete();
    assert_eq!(input.lines(), vec!["ab".to_string(), "cd".to_string()]);
    assert_eq!(cursor(&input), (0, 2));
}

#[test]
fn move_left_crosses_to_end_of_previous_line() {
    let mut input = typed("ab\ncd");
    place(&mut input, 1, 1);
    input.move_left();
    assert_eq!(cursor(&input), (1, 0));
    input.move_left();
    assert_eq!(cursor(&input), (0, 2));
    input.move_left();
    input.move_left();
    assert_eq!(cursor(&input), (0, 0));
    input.move_left();
    assert_eq!(cursor(&input), (0, 0));
}

#[test]
fn move_right_crosses_to_start_of_next_line() {
    let mut input = typed("ab\ncd");
    place(&mut input, 0, 1);
    input.move_right();
    assert_eq!(cursor(&input), (0, 2));
    input.move_right();
    assert_eq!(cursor(&input), (1, 0));
    input.move_right();
    input.move_right();
    assert_eq!(cursor(&input), (1, 2));
    input.move_right();
    assert_eq!(cursor(&input), (1, 2));
}

#[test]
fn move_up_and_down_clamp_the_column() {
    let mut input = typed("a\nbcdef\ngh");
    place(&mut input, 1, 4);
    input.move_up();
    assert_eq!(cursor(&input), (0, 1));
    input.move_up();
    assert_eq!(cursor(&input), (0, 1));
    place(&mut input, 1, 4);
    input.move_down();
    assert_eq!(cursor(&input), (2, 2));
    input.move_down();
    assert_eq!(cursor(&input), (2, 2));
    place(&mut input, 1, 1);
    input.move_down();
    assert_eq!(cursor(&input), (2, 1));
}

#[test]
fn new_line_splits_the_current_line() {
    let mut input = typed("hello");
    place(&mut input, 0, 2);
    input.new_line();
    assert_eq!(input.lines(), vec!["he".to_string(), "llo".to_string()]);
    assert_eq!(cursor(&input), (1, 0));
}

#[test]
fn new_line_in_the_middle_keeps_later_lines() {
    let mut input = typed("ab\ncd");
    place(&mut input, 0, 1);
    input.new_line();
    assert_eq!(input.lines(), vec!["a".to_string(), "b".to_string(), "cd".to_string()]);
    assert_eq!(cursor(&input), (1, 0));
}

#[test]
fn home_and_end_stay_on_the_line() {
    let mut input = typed("ab\ncdef");
    place(&mut input, 1, 2);
    input.beginning_of_line();
    assert_eq!(cursor(&input), (1, 0));
    input.end_of_line();
    assert_eq!(cursor(&input), (1, 4));
}

#[test]
fn top_home_and_bottom_end() {
    let mut input = typed("ab\ncdef\ng");
    place(&mut input, 1, 2);
    input.top_beginning_of_line();
    assert_eq!(cursor(&input), (0, 0));
    input.bottom_end_of_line();
    assert_eq!(cursor(&input), (2, 1));
}

#[test]
fn move_left_word_stops_at_each_boundary() {
    let mut input = typed("foo  bar");
    input.move_left_word();
    assert_eq!(cursor(&input), (0, 5));
    input.move_left_word();
    assert_eq!(cursor(&input), (0, 3));
    input.move_left_word();
    assert_eq!(cursor(&input), (0, 0));
    input.move_left_word();
    assert_eq!(cursor(&input), (0, 0));
}

#[test]
fn move_right_word_stops_at_each_boundary() {
    let mut input = typed("foo  bar");
    input.beginning_of_line();
    input.move_right_word();
    assert_eq!(cursor(&input), (0, 3));
    input.move_right_word();
    assert_eq!(cursor(&input), (0, 5));
    input.move_right_word();
    assert_eq!(cursor(&input), (0, 8));
    input.move_right_word();
    assert_eq!(cursor(&input), (0, 8));
}

#[test]
fn word_motion_does_not_cross_lines() {
    let mut input = typed("ab\ncd");
    place(&mut input, 1, 0);
    input.move_left_word();
    assert_eq!(cursor(&input), (1, 0));
    place(&mut input, 0, 2);
    input.move_right_word();
    assert_eq!(cursor(&input), (0, 2));
}

#[test]
fn backspace_word_removes_the_run_before_the_cursor() {
    let mut input = typed("foo  bar");
    input.backspace_word();
    assert_eq!(input.lines(), vec!["foo  ".to_string()]);
    assert_eq!(cursor(&input), (0, 5));
    input.backspace_word();
    assert_eq!(input.lines(), vec!["foo".to_string()]);
    assert_eq!(cursor(&input), (0, 3));
    input.backspace_word();
    assert_eq!(input.lines(), vec![String::new()]);
    assert_eq!(cursor(&input), (0, 0));
    input.backspace_word();
    assert_eq!(input.lines(), vec![String::new()]);
}

#[test]
fn backspace_word_inside_a_word_keeps_its_tail() {
    let mut input = typed("hello world");
    place(&mut input, 0, 8);
    input.backspace_word();
    assert_eq!(input.lines(), vec!["hello rld".to_string()]);
    assert_eq!(cursor(&input), (0, 6));
}

#[test]
fn backspace_word_at_line_start_does_not_join_lines() {
    let mut input = typed("ab\ncd");
    place(&mut input, 1, 0);
    input.backspace_word();
    assert_eq!(input.lines(), vec!["ab".to_string(), "cd".to_string()]);
    assert_eq!(cursor(&input), (1, 0));
}

#[test]
fn delete_word_removes_the_run_after_the_cursor() {
    let mut input = typed("foo  bar");
    input.beginning_of_line();
    input.delete_word();
    assert_eq!(input.lines(), vec!["  bar".to_string()]);
    assert_eq!(cursor(&input), (0, 0));
    input.delete_word();
    assert_eq!(input.lines(), vec!["bar".to_string()]);
    input.delete_word();
    assert_eq!(input.lines(), vec![String::new()]);
    input.delete_word();
    assert_eq!(input.lines(), vec![String::new()]);
    assert_eq!(cursor(&input), (0, 0));
}

#[test]
fn delete_word_at_line_end_does_not_join_lines() {
    let mut input = typed("ab\ncd");
    place(&mut input, 0, 2);
    input.delete_word();
    assert_eq!(input.lines(), vec!["ab".to_string(), "cd".to_string()]);
}

#[test]
fn word_boundaries_follow_unicode_whitespace() {
    let mut input = typed("a\u{3000}\u{2003}b");
    input.beginning_of_line();
    input.move_right_word();
    assert_eq!(cursor(&input), (0, 1));
    input.move_right_word();
    assert_eq!(cursor(&input), (0, 3));
}

#[test]
fn insert_string_splits_at_newlines() {
    let input = typed("one\ntwo\n");
    assert_eq!(input.lines(), vec!["one".to_string(), "two".to_string(), String::new()]);
    assert_eq!(cursor(&input), (2, 0));
    assert_eq!(input.get_string(), "one\ntwo\n");
}

#[test]
fn get_string_joins_lines_with_newlines() {
    let mut input = Input::default();
    input.new_line();
    input.new_line();
    assert_eq!(input.get_string(), "\n\n");
    let input = typed("a\n\nb");
    assert_eq!(input.get_string(), "a\n\nb");
}

#[test]
fn apply_performs_the_named_operation() {
    let mut input = Input::default();
    let ops = [
        EditOp::Insert('a'),
        EditOp::Insert(' '),
        EditOp::Insert('b'),
        EditOp::NewLine,
        EditOp::Insert('c'),
        EditOp::MoveUp,
        EditOp::End,
        EditOp::BackspaceWord,
        EditOp::Home,
        EditOp::DeleteWord,
        EditOp::MoveRightWord,
        EditOp::MoveLeftWord,
        EditOp::MoveDown,
        EditOp::BottomEnd,
        EditOp::Backspace,
        EditOp::Backspace,
        EditOp::TopHome,
        EditOp::Delete,
        EditOp::MoveRight,
        EditOp::MoveLeft,
    ];
    let expected: [(&[&str], (usize, usize)); 20] = [
        (&["a"], (0, 1)),
        (&["a "], (0, 2)),
        (&["a b"], (0, 3)),
        (&["a b", ""], (1, 0)),
        (&["a b", "c"], (1, 1)),
        (&["a b", "c"], (0, 1)),
        (&["a b", "c"], (0, 3)),
        (&["a ", "c"], (0, 2)),
        (&["a ", "c"], (0, 0)),
        (&[" ", "c"], (0, 0)),
        (&[" ", "c"], (0, 1)),
        (&[" ", "c"], (0, 0)),
        (&[" ", "c"], (1, 0)),
        (&[" ", "c"], (1, 1)),
        (&[" ", ""], (1, 0)),
        (&[" "], (0, 1)),
        (&[" "], (0, 0)),
        (&[""], (0, 0)),
        (&[""], (0, 0)),
        (&[""], (0, 0)),
    ];
    for (op, (lines, position)) in ops.iter().zip(expected.iter()) {
        input.apply(*op);
        let lines: Vec<String> = lines.iter().map(|l| l.to_string()).collect();
        assert_eq!(input.lines(), lines);
        assert_eq!(cursor(&input), *position);
    }
}

#[test]
fn cursor_stays_inside_the_buffer() {
    let ops = [
        EditOp::MoveUp,
        EditOp::Backspace,
        EditOp::Insert('x'),
        EditOp::NewLine,
        EditOp::NewLine,
        EditOp::Insert('y'),
        EditOp::MoveUp,
        EditOp::MoveUp,
        EditOp::End,
        EditOp::MoveRight,
        EditOp::Delete,
        EditOp::MoveDown,
        EditOp::MoveDown,
        EditOp::MoveDown,
        EditOp::BackspaceWord,
        EditOp::Backspace,
        EditOp::Backspace,
        EditOp::Backspace,
        EditOp::Backspace,
        EditOp::DeleteWord,
        EditOp::MoveLeftWord,
        EditOp::MoveRightWord,
        EditOp::BottomEnd,
        EditOp::TopHome,
        EditOp::Home,
        EditOp::MoveLeft,
    ];
    let mut input = Input::default();
    for op in ops {
        input.apply(op);
        let lines = input.lines();
        assert!(!lines.is_empty());
        assert!(input.row() < lines.len());
        assert!(input.column() <= lines[input.row()].chars().count());
    }
}
