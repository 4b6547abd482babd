//! The confirmation dialog: what its keys do, and what a confirmed dialog
//! sets off.

use crate::data::clone_strings;
use crate::key::Key;
use crate::views::add_view::{notice_of, save};
use crate::views::app::{Action, App, PendingAction, ViewState};
use vstd::prelude::*;

verus! {

/// A copy of `action`.
pub fn clone_action(action: &PendingAction) -> (copy: PendingAction)
    ensures
        copy@ == action@,
{
    match action {
        PendingAction::SaveEntry => PendingAction::SaveEntry,
        PendingAction::DiscardEdit => PendingAction::DiscardEdit,
        PendingAction::DeleteDirectory(path) => PendingAction::DeleteDirectory(
            clone_strings(path),
        ),
        PendingAction::DeleteFile(path) => PendingAction::DeleteFile(clone_strings(path)),
        PendingAction::Acknowledge => PendingAction::Acknowledge,
    }
}

/// Switches the highlighted choice of the dialog on top.
fn toggle(app: &mut App)
    requires
        old(app)@.wf(),
        old(app)@.top() is DialogView,
    ensures
        final(app)@ == old(app)@.with_top(
            crate::views::model::FrameView::DialogView {
                prompt: old(app)@.top()->prompt,
                confirm: !old(app)@.top()->confirm,
                action: old(app)@.top()->action,
            },
        ),
        final(app)@.wf(),
{
    match app.get_latest_mut_state() {
        Some(ViewState::DialogView { confirm, .. }) => {
            *confirm = !*confirm;
        },
        _ => {},
    }
}

/// What a confirmed dialog does, once its frame is gone: the entry of the
/// editor is saved; or the editor is closed, and with it goes what it held,
/// and the directory is listed again; or the host is asked to remove a file
/// or a directory.
pub fn execute(app: &mut App, action: PendingAction) -> (request: Action)
    requires
        old(app)@.wf(),
    ensures
        final(app)@ == old(app)@.execute(action@).0,
        request@ == old(app)@.execute(action@).1,
        final(app)@.wf(),
{
    match action {
        PendingAction::SaveEntry => {
            if app.focus().is_some() {
                save(app)
            } else {
                Action::Continue
            }
        },
        PendingAction::DiscardEdit => {
            if app.focus().is_some() {
                app.pop_state();
            }
            Action::ListDirectory(app.path())
        },
        PendingAction::DeleteDirectory(path) => Action::RemoveDirectory(path),
        PendingAction::DeleteFile(path) => Action::RemoveFile(path),
        PendingAction::Acknowledge => Action::Continue,
    }
}

/// What a key does in a dialog: the arrows, `h` and `l` switch the
/// highlighted choice; Enter closes the dialog and, where the choice is to
/// confirm, performs what the dialog was for.
pub fn handler(app: &mut App, event: &Key) -> (action: Action)
    requires
        old(app)@.wf(),
    ensures
        final(app)@ == old(app)@.dialog_view_key(*event).0,
        action@ == old(app)@.dialog_view_key(*event).1,
        final(app)@.wf(),
{
    let (confirm, pending) = match app.get_latest_state() {
        Some(ViewState::DialogView { confirm, action, .. }) => (*confirm, clone_action(action)),
        _ => {
            return Action::Continue;
        },
    };
    match event {
        Key::Left | Key::Right | Key::Char('h') | Key::Char('l') => {
            toggle(app);
            Action::Continue
        },
        Key::Enter => {
            app.pop_state();
            if confirm {
                execute(app, pending)
            } else {
                Action::Continue
            }
        },
        _ => Action::Continue,
    }
}

/// Takes the host's answer whether a file or directory was removed. Where
/// the editor is on top, the file was the one that an entry came from and
/// the editor is closed. A removal that failed leaves a notice. Either
/// way the directory is listed again.
pub fn removed(app: &mut App, ok: bool) -> (action: Action)
    requires
        old(app)@.wf(),
    ensures
        final(app)@ == old(app)@.removed(ok).0,
        action@ == old(app)@.removed(ok).1,
        final(app)@.wf(),
{
    if app.focus().is_some() {
        app.pop_state();
    }
    if !ok {
        app.push_state(notice_of("Error in removing file!"));
    }
    Action::ListDirectory(app.path())
}

} // verus!
