//! The editor: what its keys do, and how an entry is committed and saved.

use crate::data::{FileWrite, Knowledge};
use crate::files::file_stem;
use crate::key::{CtrlKey, Key};
use crate::views::app::{Action, App, FileStatus, PendingAction, Tab, ViewState};
use crate::views::input::EditOp;
use crate::views::model::{create_prompt, edit_op, notice, save_prompt, ReplyView};
use vstd::prelude::*;

verus! {

/// The editing operation that `key` stands for in the editor, if any. A
/// line break is accepted in the text field only.
pub fn key_to_edit_op(key: &Key, focus: Tab) -> (op: Option<EditOp>)
    ensures
        op == edit_op(*key, focus),
{
    match key {
        Key::Char(c) => Some(EditOp::Insert(*c)),
        Key::Backspace => Some(EditOp::Backspace),
        Key::Left => Some(EditOp::MoveLeft),
        Key::Right => Some(EditOp::MoveRight),
        Key::Up => Some(EditOp::MoveUp),
        Key::Down => Some(EditOp::MoveDown),
        Key::Enter => match focus {
            Tab::Text => Some(EditOp::NewLine),
            _ => None,
        },
        Key::Home => Some(EditOp::Home),
        Key::End => Some(EditOp::End),
        Key::Delete => Some(EditOp::Delete),
        Key::Ctrl(CtrlKey::Home) => Some(EditOp::TopHome),
        Key::Ctrl(CtrlKey::End) => Some(EditOp::BottomEnd),
        Key::Ctrl(CtrlKey::Char('w')) => Some(EditOp::BackspaceWord),
        Key::Ctrl(CtrlKey::Backspace) => Some(EditOp::BackspaceWord),
        Key::Ctrl(CtrlKey::Left) => Some(EditOp::MoveLeftWord),
        Key::Ctrl(CtrlKey::Right) => Some(EditOp::MoveRightWord),
        Key::Ctrl(CtrlKey::Delete) => Some(EditOp::DeleteWord),
        _ => None,
    }
}

/// A dialog that tells the user of something and does nothing else.
pub fn notice_of(message: &str) -> (dialog: ViewState)
    ensures
        dialog@ == notice(message@),
{
    ViewState::DialogView {
        prompt: String::from_str(message),
        confirm: true,
        action: PendingAction::Acknowledge,
    }
}

/// The question before a new entry is written.
pub fn create_question(found: bool, title: &str) -> (prompt: String)
    ensures
        prompt@ == create_prompt(found, title@),
{
    let mut prompt = if found {
        String::from_str("Confirm overwrite existing file: ")
    } else {
        String::from_str("Confirm writing new file: ")
    };
    prompt.append(title);
    prompt.append("?");
    prompt
}

/// The question before an edited entry is written.
pub fn save_question(stem: &String, title: &String) -> (prompt: String)
    ensures
        prompt@ == save_prompt(stem@, title@),
{
    if *stem == *title {
        let mut prompt = String::from_str("Save file: ");
        prompt.append(stem.as_str());
        prompt.append("?");
        prompt
    } else {
        let mut prompt = String::from_str("Confirm overwrite file: ");
        prompt.append(stem.as_str());
        prompt.append(" with: ");
        prompt.append(title.as_str());
        prompt.append("?");
        prompt
    }
}

/// The name of the file of the entry that the editor holds.
pub fn edited_file_name(app: &App) -> (name: String)
    requires
        app@.wf(),
    ensures
        name@ == app@.edited_file_name(),
{
    let mut name = app.input_title().get_string();
    name.append(".");
    name.append(app.extension().as_str());
    name
}

/// Moves the focus of the editor to the next field, or to the one before.
fn rotate_focus(app: &mut App, forward: bool)
    requires
        old(app)@.wf(),
        old(app)@.top() is AddView,
    ensures
        final(app)@ == old(app)@.with_top(
            crate::views::model::FrameView::AddView {
                tab_focus: if forward {
                    old(app)@.top()->tab_focus.forward()
                } else {
                    old(app)@.top()->tab_focus.backward()
                },
            },
        ),
        final(app)@.wf(),
{
    match app.get_latest_mut_state() {
        Some(ViewState::AddView { tab_focus }) => {
            if forward {
                tab_focus.next();
            } else {
                tab_focus.prev();
            }
        },
        _ => {},
    }
}

/// The commit of the editor: an entry that comes from a file is saved
/// after a confirmation; for a new entry the host is first asked whether
/// its file exists in the first data directory.
pub fn commit(app: &mut App) -> (action: Action)
    requires
        old(app)@.wf(),
    ensures
        final(app)@ == old(app)@.commit().0,
        action@ == old(app)@.commit().1,
        final(app)@.wf(),
{
    let title = app.input_title().get_string();
    let stem = match app.file_status() {
        FileStatus::Create => {
            let mut path: Vec<String> = Vec::new();
            path.push(app.primary().clone());
            path.push(edited_file_name(app));
            assert(crate::data::strings_view(path@) =~= seq![
                app@.primary,
                app@.edited_file_name(),
            ]);
            return Action::CheckExists(path);
        },
        FileStatus::Edit(source) => file_stem(source.as_str()),
    };
    let prompt = save_question(&stem, &title);
    app.push_state(
        ViewState::DialogView { prompt, confirm: true, action: PendingAction::SaveEntry },
    );
    Action::Continue
}

/// What a key does in the editor: Tab and Shift-Tab move the focus, Ctrl-G
/// commits the entry, Esc asks whether to leave, and the other keys edit
/// the field that has the focus.
pub fn handler(app: &mut App, event: &Key) -> (action: Action)
    requires
        old(app)@.wf(),
    ensures
        final(app)@ == old(app)@.add_view_key(*event).0,
        action@ == old(app)@.add_view_key(*event).1,
        final(app)@.wf(),
{
    let tab = match app.focus() {
        Some(tab) => tab,
        None => {
            return Action::Continue;
        },
    };
    match event {
        Key::Tab => {
            rotate_focus(app, true);
            Action::Continue
        },
        Key::BackTab => {
            rotate_focus(app, false);
            Action::Continue
        },
        Key::Ctrl(CtrlKey::Char('g')) => commit(app),
        Key::Esc => {
            app.push_state(
                ViewState::DialogView {
                    prompt: String::from_str("Confirm Quiting?"),
                    confirm: false,
                    action: PendingAction::DiscardEdit,
                },
            );
            Action::Continue
        },
        _ => {
            match key_to_edit_op(event, tab) {
                Some(op) => {
                    app.edit(op);
                },
                None => {},
            }
            Action::Continue
        },
    }
}

/// Takes the host's answer whether the file of a new entry exists: the
/// dialog that confirms the writing says so. Outside the editor of a new
/// entry nothing happens.
pub fn checked(app: &mut App, found: bool) -> (action: Action)
    requires
        old(app)@.wf(),
    ensures
        final(app)@ == old(app)@.resume(ReplyView::Exists(found)).0,
        action@ == old(app)@.resume(ReplyView::Exists(found)).1,
        final(app)@.wf(),
{
    let creating = match app.file_status() {
        FileStatus::Create => true,
        _ => false,
    };
    if creating && app.focus().is_some() {
        let title = app.input_title().get_string();
        let prompt = create_question(found, title.as_str());
        app.push_state(
            ViewState::DialogView { prompt, confirm: true, action: PendingAction::SaveEntry },
        );
    }
    Action::Continue
}

/// Saves the entry that the editor holds: the host is asked to write its
/// file, a new entry to the first data directory, which is created where
/// it does not exist, an edited entry to the directory of its file. An
/// entry without a title is not written: a notice says so.
pub fn save(app: &mut App) -> (action: Action)
    requires
        old(app)@.wf(),
    ensures
        final(app)@ == old(app)@.save().0,
        action@ == old(app)@.save().1,
        final(app)@.wf(),
{
    let knowledge = Knowledge::new(
        app.input_title().get_string(),
        app.input_text().get_string(),
        String::new(),
        app.input_tags().get_string(),
    );
    let creating = match app.file_status() {
        FileStatus::Create => true,
        _ => false,
    };
    let directory = if creating {
        let mut directory: Vec<String> = Vec::new();
        directory.push(app.primary().clone());
        assert(crate::data::strings_view(directory@) =~= seq![app@.primary]);
        directory
    } else {
        app.path()
    };
    assert(knowledge@ == app@.edited_entry());
    match knowledge.write_to_file(&directory, app.extension().as_str()) {
        Ok(request) => Action::Write(FileWrite { create_directory: creating, ..request }),
        Err(_) => {
            app.push_state(notice_of("The title must not be empty!"));
            Action::Continue
        },
    }
}

/// Takes the host's answer whether the entry was written. After a write
/// that failed the editor stays, under a notice. After one that succeeded
/// the editor is closed and the directory listed again; where the entry
/// was edited and has a new title, the host is first asked to remove the
/// file it came from. Outside the editor nothing happens.
pub fn written(app: &mut App, ok: bool) -> (action: Action)
    requires
        old(app)@.wf(),
    ensures
        final(app)@ == old(app)@.written(ok).0,
        action@ == old(app)@.written(ok).1,
        final(app)@.wf(),
{
    if app.focus().is_none() {
        return Action::Continue;
    }
    if !ok {
        app.push_state(notice_of("Error in writing file!"));
        return Action::Continue;
    }
    let renamed_from = match app.file_status() {
        FileStatus::Create => None,
        FileStatus::Edit(source) => {
            let stem = file_stem(source.as_str());
            let title = app.input_title().get_string();
            if stem == title {
                None
            } else {
                Some(source.clone())
            }
        },
    };
    match renamed_from {
        Some(source) => Action::RemoveFile(app.path_to(source.as_str())),
        None => {
            app.pop_state();
            Action::ListDirectory(app.path())
        },
    }
}

} // verus!
