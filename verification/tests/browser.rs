use knowledge_base::config::{Config, ConfigError};
use knowledge_base::files::{DirEntry, EntryKind};
use knowledge_base::key::Key;
use knowledge_base::views::app::{Action, App, FileMode, Reply, ViewState};

fn dir(name: &str) -> DirEntry {
    DirEntry { name: name.to_string(), kind: EntryKind::Dir }
}

fn file(name: &str) -> DirEntry {
    DirEntry { name: name.to_string(), kind: EntryKind::File }
}

fn root_listing() -> Vec<DirEntry> {
    vec![dir("notes"), file("todo.md")]
}

fn config() -> Config {
    Config { data_directories: vec!["primary".into(), "root".into()], extension: "md".into() }
}

fn browser() -> App {
    App::default().set_file_view(&config(), Some(root_listing())).unwrap()
}

fn names(app: &App) -> Vec<String> {
    app.files().iter().map(|e| e.name.clone()).collect()
}

fn strings(items: &[&str]) -> Vec<String> {
    items.iter().map(|s| s.to_string()).collect()
}

fn listed_path(action: Action) -> Vec<String> {
    match action {
        Action::ListDirectory(path) => path,
        other => panic!("expected a request for a listing, got {:?}", other),
    }
}

#[test]
fn default_app_shows_empty_browser() {
    let app = App::default();
    assert!(matches!(app.get_latest_state(), Some(ViewState::FileView)));
    assert!(app.get_previous_state().is_none());
    assert!(app.files().is_empty());
    assert_eq!(app.file_mode(), FileMode::Dir);
    assert_eq!(app.file_cycle().total_len, 0);
    assert!(!app.is_terminated());
    assert_eq!(app.path(), strings(&[""]));
}

#[test]
fn set_file_view_opens_last_data_directory() {
    let app = browser();
    assert_eq!(app.path(), strings(&["root"]));
    assert_eq!(app.primary(), "primary");
    assert_eq!(app.extension(), "md");
    assert_eq!(names(&app), strings(&["notes", "todo.md"]));
    assert_eq!(app.file_cycle().total_len, 2);
    assert_eq!(app.file_cycle().current_item, 0);
    assert_eq!(app.file_mode(), FileMode::Dir);
}

#[test]
fn set_file_view_filters_by_extension() {
    let listing = vec![file("a.txt"), file("b.md"), dir("c"), file("d")];
    let app = App::default().set_file_view(&config(), Some(listing)).unwrap();
    assert_eq!(names(&app), strings(&["b.md", "c"]));
    assert_eq!(app.file_cycle().total_len, 2);
}

#[test]
fn set_file_view_without_data_directory_fails() {
    let config = Config { data_directories: vec![], extension: "md".into() };
    let result = App::default().set_file_view(&config, Some(root_listing()));
    assert_eq!(result.err(), Some(ConfigError::NoDataDirectory));
}

#[test]
fn set_file_view_with_root_that_is_no_directory_fails() {
    let result = App::default().set_file_view(&config(), None);
    assert_eq!(result.err(), Some(ConfigError::RootNotDirectory));
}

#[test]
fn enter_and_leave_directory() {
    let mut app = browser();
    let action = app.update_state(&Key::Char('l'));
    assert_eq!(listed_path(action), strings(&["root", "notes"]));
    assert_eq!(app.path(), strings(&["root", "notes"]));
    let action = app.resume(Reply::Listing(Some(vec![file("inner.md"), file("skip.txt")])));
    assert!(matches!(action, Action::Continue));
    assert_eq!(names(&app), strings(&["inner.md"]));
    assert_eq!(app.file_mode(), FileMode::Dir);

    let action = app.update_state(&Key::Char('h'));
    assert_eq!(listed_path(action), strings(&["root"]));
    assert_eq!(app.path(), strings(&["root"]));
    app.resume(Reply::Listing(Some(root_listing())));
    assert_eq!(names(&app), strings(&["notes", "todo.md"]));
    assert_eq!(app.file_cycle().current_item, 0);
    assert_eq!(app.file_mode(), FileMode::Dir);
}

#[test]
fn enter_key_enters_like_l() {
    let mut app = browser();
    let action = app.update_state(&Key::Enter);
    assert_eq!(listed_path(action), strings(&["root", "notes"]));
}

#[test]
fn entering_a_file_shows_it_as_leaf() {
    let mut app = browser();
    app.update_state(&Key::Char('j'));
    let action = app.update_state(&Key::Char('l'));
    assert_eq!(listed_path(action), strings(&["root", "todo.md"]));
    app.resume(Reply::Listing(None));
    assert_eq!(app.file_mode(), FileMode::File);
    assert!(app.files().is_empty());
    assert_eq!(app.file_cycle().total_len, 0);
    assert_eq!(app.path(), strings(&["root", "todo.md"]));

    let action = app.update_state(&Key::Char('h'));
    assert_eq!(listed_path(action), strings(&["root"]));
    app.resume(Reply::Listing(Some(root_listing())));
    assert_eq!(app.file_mode(), FileMode::Dir);
    assert_eq!(names(&app), strings(&["notes", "todo.md"]));
}

#[test]
fn leaving_the_root_does_nothing() {
    let mut app = browser();
    let action = app.update_state(&Key::Char('h'));
    assert!(matches!(action, Action::Continue));
    assert_eq!(app.path(), strings(&["root"]));
    assert_eq!(names(&app), strings(&["notes", "todo.md"]));
    let action = app.leave_directory();
    assert!(matches!(action, Action::Continue));
    assert_eq!(app.path(), strings(&["root"]));
}

#[test]
fn entering_without_selection_does_nothing() {
    let mut app = App::default().set_file_view(&config(), Some(vec![])).unwrap();
    let action = app.update_state(&Key::Char('l'));
    assert!(matches!(action, Action::Continue));
    assert_eq!(app.path(), strings(&["root"]));
    assert!(matches!(app.update_state(&Key::Char('e')), Action::Continue));
    assert!(matches!(app.update_state(&Key::Char('D')), Action::Continue));
    assert!(matches!(app.get_latest_state(), Some(ViewState::FileView)));
}

#[test]
fn selection_wraps_in_both_directions() {
    let mut app = browser();
    assert!(matches!(app.update_state(&Key::Char('j')), Action::Continue));
    assert_eq!(app.file_cycle().current_item, 1);
    app.update_state(&Key::Down);
    assert_eq!(app.file_cycle().current_item, 0);
    app.update_state(&Key::Char('k'));
    assert_eq!(app.file_cycle().current_item, 1);
    app.update_state(&Key::Up);
    assert_eq!(app.file_cycle().current_item, 0);
    assert_eq!(app.selected_entry().unwrap().name, "notes");
}

#[test]
fn selection_on_empty_listing_is_guarded() {
    let mut app = App::default().set_file_view(&config(), Some(vec![])).unwrap();
    app.update_state(&Key::Char('j'));
    app.update_state(&Key::Char('k'));
    assert_eq!(app.file_cycle().current_item, 0);
    assert_eq!(app.file_cycle().total_len, 0);
    assert!(app.selected_entry().is_none());
}

#[test]
fn refresh_resets_the_selection() {
    let mut app = browser();
    app.update_state(&Key::Char('j'));
    app.refresh_directory(Some(vec![file("a.md"), file("b.md"), file("c.md")]));
    assert_eq!(app.file_cycle().current_item, 0);
    assert_eq!(app.file_cycle().total_len, 3);
    assert_eq!(names(&app), strings(&["a.md", "b.md", "c.md"]));
}

#[test]
fn unknown_keys_do_nothing_in_browser() {
    let mut app = browser();
    for key in [Key::Char('x'), Key::Tab, Key::Esc, Key::Left, Key::Other, Key::Backspace] {
        assert!(matches!(app.update_state(&key), Action::Continue));
    }
    assert!(matches!(app.get_latest_state(), Some(ViewState::FileView)));
    assert_eq!(app.file_cycle().current_item, 0);
    assert_eq!(app.path(), strings(&["root"]));
}

#[test]
fn delete_asks_for_confirmation() {
    let mut app = browser();
    assert!(matches!(app.update_state(&Key::Char('D')), Action::Continue));
    match app.get_latest_state() {
        Some(ViewState::DialogView { prompt, confirm, .. }) => {
            assert_eq!(prompt, "confirm deleting: notes?");
            assert!(!*confirm);
        }
        other => panic!("expected a dialog, got {:?}", other),
    }
    assert!(matches!(app.get_previous_state(), Some(ViewState::FileView)));
}

#[test]
fn declined_delete_only_closes_the_dialog() {
    let mut app = browser();
    app.update_state(&Key::Char('D'));
    let action = app.update_state(&Key::Enter);
    assert!(matches!(action, Action::Continue));
    assert!(matches!(app.get_latest_state(), Some(ViewState::FileView)));
    assert_eq!(names(&app), strings(&["notes", "todo.md"]));
}

#[test]
fn confirmed_delete_of_directory() {
    let mut app = browser();
    app.update_state(&Key::Char('D'));
    app.update_state(&Key::Left);
    let action = app.update_state(&Key::Enter);
    match action {
        Action::RemoveDirectory(path) => assert_eq!(path, strings(&["root", "notes"])),
        other => panic!("expected the removal of a directory, got {:?}", other),
    }
    assert!(matches!(app.get_latest_state(), Some(ViewState::FileView)));
    let action = app.resume(Reply::Removed(true));
    assert_eq!(listed_path(action), strings(&["root"]));
    app.resume(Reply::Listing(Some(vec![file("todo.md")])));
    assert_eq!(names(&app), strings(&["todo.md"]));
}

#[test]
fn confirmed_delete_of_file() {
    let mut app = browser();
    app.update_state(&Key::Char('j'));
    app.update_state(&Key::Char('D'));
    match app.get_latest_state() {
        Some(ViewState::DialogView { prompt, .. }) => {
            assert_eq!(prompt, "confirm deleting: todo.md?")
        }
        other => panic!("expected a dialog, got {:?}", other),
    }
    app.update_state(&Key::Char('l'));
    let action = app.update_state(&Key::Enter);
    match action {
        Action::RemoveFile(path) => assert_eq!(path, strings(&["root", "todo.md"])),
        other => panic!("expected the removal of a file, got {:?}", other),
    }
}

#[test]
fn failed_delete_leaves_a_notice() {
    let mut app = browser();
    app.update_state(&Key::Char('D'));
    app.update_state(&Key::Right);
    app.update_state(&Key::Enter);
    let action = app.resume(Reply::Removed(false));
    assert_eq!(listed_path(action), strings(&["root"]));
    match app.get_latest_state() {
        Some(ViewState::DialogView { prompt, confirm, .. }) => {
            assert_eq!(prompt, "Error in removing file!");
            assert!(*confirm);
        }
        other => panic!("expected a notice, got {:?}", other),
    }
    let action = app.update_state(&Key::Enter);
    assert!(matches!(action, Action::Continue));
    assert!(matches!(app.get_latest_state(), Some(ViewState::FileView)));
}

#[test]
fn path_to_names_an_entry_of_the_directory() {
    let mut app = browser();
    app.update_state(&Key::Char('l'));
    assert_eq!(app.path_to("x.md"), strings(&["root", "notes", "x.md"]));
}
