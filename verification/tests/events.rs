use knowledge_base::config::Config;
use knowledge_base::files::{DirEntry, EntryKind};
use knowledge_base::key::Key;
use knowledge_base::ui::{dispatch, poll_timeout, quits, tick_due, Event};
use knowledge_base::views::app::{Action, App, Reply, ViewState};

fn browser() -> App {
    let config =
        Config { data_directories: vec!["primary".into(), "root".into()], extension: "md".into() };
    let listing = vec![DirEntry { name: "notes".into(), kind: EntryKind::Dir }];
    App::default().set_file_view(&config, Some(listing)).unwrap()
}

#[test]
fn timeout_is_what_is_left_of_the_tick() {
    assert_eq!(poll_timeout(200, 0), 200);
    assert_eq!(poll_timeout(200, 50), 150);
    assert_eq!(poll_timeout(200, 199), 1);
}

#[test]
fn timeout_is_clamped_to_zero() {
    assert_eq!(poll_timeout(200, 200), 0);
    assert_eq!(poll_timeout(200, 5000), 0);
    assert_eq!(poll_timeout(0, 0), 0);
    assert_eq!(poll_timeout(u64::MAX, 0), u64::MAX);
    assert_eq!(poll_timeout(0, u64::MAX), 0);
}

#[test]
fn tick_is_due_when_interval_has_passed() {
    assert!(!tick_due(200, 0));
    assert!(!tick_due(200, 199));
    assert!(tick_due(200, 200));
    assert!(tick_due(200, 201));
}

#[test]
fn tick_changes_nothing() {
    let mut app = browser();
    let action = dispatch(&mut app, Event::Tick);
    assert!(matches!(action, Action::Continue));
    assert!(matches!(app.get_latest_state(), Some(ViewState::FileView)));
    assert_eq!(app.file_cycle().current_item, 0);
}

#[test]
fn input_goes_to_the_top_frame() {
    let mut app = browser();
    let action = dispatch(&mut app, Event::Input(Key::Char('a')));
    assert!(matches!(action, Action::Continue));
    assert!(matches!(app.get_latest_state(), Some(ViewState::AddView { .. })));
    dispatch(&mut app, Event::Input(Key::Char('j')));
    assert_eq!(app.input_title().get_string(), "j");
    assert_eq!(app.file_cycle().current_item, 0);
}

#[test]
fn reply_is_taken_up() {
    let mut app = browser();
    let action = dispatch(&mut app, Event::Input(Key::Char('l')));
    assert!(matches!(action, Action::ListDirectory(_)));
    let action = dispatch(&mut app, Event::Reply(Reply::Listing(None)));
    assert!(matches!(action, Action::Continue));
    assert!(app.files().is_empty());
}

#[test]
fn q_quits_in_browser() {
    let mut app = browser();
    assert!(quits(&app, &Key::Char('q')));
    assert!(!quits(&app, &Key::Char('Q')));
    let action = dispatch(&mut app, Event::Input(Key::Char('q')));
    assert!(matches!(action, Action::Quit));
    assert!(app.is_terminated());
}

#[test]
fn q_quits_in_editor() {
    let mut app = browser();
    dispatch(&mut app, Event::Input(Key::Char('a')));
    let action = dispatch(&mut app, Event::Input(Key::Char('q')));
    assert!(matches!(action, Action::Quit));
    assert!(app.is_terminated());
    assert_eq!(app.input_title().get_string(), "");
}

#[test]
fn q_does_not_quit_in_dialog() {
    let mut app = browser();
    dispatch(&mut app, Event::Input(Key::Char('D')));
    assert!(!quits(&app, &Key::Char('q')));
    let action = dispatch(&mut app, Event::Input(Key::Char('q')));
    assert!(matches!(action, Action::Continue));
    assert!(!app.is_terminated());
    assert!(matches!(app.get_latest_state(), Some(ViewState::DialogView { .. })));
}

#[test]
fn nothing_happens_after_quit() {
    let mut app = browser();
    dispatch(&mut app, Event::Input(Key::Char('q')));
    let action = dispatch(&mut app, Event::Input(Key::Char('a')));
    assert!(matches!(action, Action::Quit));
    assert!(matches!(app.get_latest_state(), Some(ViewState::FileView)));
    assert!(matches!(dispatch(&mut app, Event::Tick), Action::Quit));
    assert!(matches!(dispatch(&mut app, Event::Reply(Reply::Exists(true))), Action::Quit));
    assert!(matches!(app.get_latest_state(), Some(ViewState::FileView)));
}

#[test]
fn popping_the_last_frame_quits() {
    let mut app = browser();
    app.pop_state();
    assert!(matches!(dispatch(&mut app, Event::Tick), Action::Quit));
    assert!(matches!(app.get_latest_state(), Some(ViewState::FileView)));
}

#[test]
fn stack_survives_any_keys() {
    let keys = [
        Key::Enter,
        Key::Char('D'),
        Key::Enter,
        Key::Enter,
        Key::Char('a'),
        Key::Esc,
        Key::Left,
        Key::Enter,
        Key::Enter,
        Key::Char('h'),
        Key::Char('h'),
        Key::Esc,
        Key::Char('e'),
        Key::Char('D'),
        Key::Right,
        Key::Enter,
        Key::Enter,
        Key::Enter,
    ];
    let mut app = browser();
    for key in keys {
        dispatch(&mut app, Event::Input(key));
        assert!(app.get_latest_state().is_some());
    }
}
