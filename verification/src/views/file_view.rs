//! The file browser: what its keys do.

use crate::data::Knowledge;
use crate::files::EntryKind;
use crate::key::Key;
use crate::util::BiCycle;
use crate::views::app::{Action, App, PendingAction, ViewState};
use crate::views::model::{delete_prompt, ReplyView};
use vstd::prelude::*;

verus! {

/// The question before the entry `name` is deleted.
pub fn delete_question(name: &str) -> (prompt: String)
    ensures
        prompt@ == delete_prompt(name@),
{
    let mut prompt = String::from_str("confirm deleting: ");
    prompt.append(name);
    prompt.append("?");
    prompt
}

/// Asks whether the selected entry is to be deleted. Without a selection
/// nothing happens.
fn ask_delete(app: &mut App)
    requires
        old(app)@.wf(),
    ensures
        final(app)@ == (match old(app)@.selected() {
            Some(entry) => old(app)@.push_state(old(app)@.delete_dialog(entry)),
            None => old(app)@,
        }),
        final(app)@.wf(),
{
    let (name, kind) = match app.selected_entry() {
        Some(entry) => (entry.name.clone(), entry.kind),
        None => {
            return ;
        },
    };
    let path = app.path_to(name.as_str());
    let prompt = delete_question(name.as_str());
    let action = match kind {
        EntryKind::Dir => PendingAction::DeleteDirectory(path),
        _ => PendingAction::DeleteFile(path),
    };
    app.push_state(ViewState::DialogView { prompt, confirm: false, action });
}

/// Opens the selected entry for editing: a directory is entered, for a
/// file the host is asked for its text. Without a selection nothing
/// happens.
fn open_selected(app: &mut App) -> (action: Action)
    requires
        old(app)@.wf(),
    ensures
        final(app)@ == old(app)@.file_view_key(Key::Char('e')).0,
        action@ == old(app)@.file_view_key(Key::Char('e')).1,
        final(app)@.wf(),
{
    let (name, kind) = match app.selected_entry() {
        Some(entry) => (entry.name.clone(), entry.kind),
        None => {
            return Action::Continue;
        },
    };
    match kind {
        EntryKind::Dir => app.enter_directory(),
        _ => Action::ReadFile(app.path_to(name.as_str())),
    }
}

/// What a key does in the file browser: `j` and `k`, or the arrows, move
/// the selection; `l` or Enter moves into the selected entry and `h` back
/// out of it; `a` opens the editor for a new entry and `e` for the
/// selected one; `D` asks whether the selected entry is to be deleted.
pub fn handler(app: &mut App, event: &Key) -> (action: Action)
    requires
        old(app)@.wf(),
    ensures
        final(app)@ == old(app)@.file_view_key(*event).0,
        action@ == old(app)@.file_view_key(*event).1,
        final(app)@.wf(),
{
    match event {
        Key::Down | Key::Char('j') => {
            app.select_next();
            Action::Continue
        },
        Key::Up | Key::Char('k') => {
            app.select_prev();
            Action::Continue
        },
        Key::Enter | Key::Char('l') => app.enter_directory(),
        Key::Char('h') => app.leave_directory(),
        Key::Char('a') => {
            app.set_add_view_ref();
            app.push_state(ViewState::AddView { tab_focus: BiCycle::new(3) });
            Action::Continue
        },
        Key::Char('D') => {
            ask_delete(app);
            Action::Continue
        },
        Key::Char('e') => open_selected(app),
        _ => Action::Continue,
    }
}

/// Takes the text of the selected file, which the host was asked for: the
/// editor is filled from the entry that the text holds and opened on top of
/// the browser. Where the file could not be read, or the browser is not the
/// top frame or has no selection, nothing happens.
pub fn opened(app: &mut App, contents: Option<String>) -> (action: Action)
    requires
        old(app)@.wf(),
    ensures
        final(app)@ == old(app)@.resume(
            ReplyView::Opened(crate::config::string_view(contents)),
        ).0,
        action@ == old(app)@.resume(ReplyView::Opened(crate::config::string_view(contents))).1,
        final(app)@.wf(),
{
    let contents = match contents {
        Some(contents) => contents,
        None => {
            return Action::Continue;
        },
    };
    let name = match app.selected_entry() {
        Some(entry) => entry.name.clone(),
        None => {
            return Action::Continue;
        },
    };
    let in_browser = match app.get_latest_state() {
        Some(ViewState::FileView) => true,
        _ => false,
    };
    if in_browser {
        let knowledge = Knowledge::from_file(contents.as_str());
        app.set_edit_view(&knowledge, name.as_str());
        app.push_state(ViewState::AddView { tab_focus: BiCycle::new(3) });
    }
    Action::Continue
}

} // verus!
