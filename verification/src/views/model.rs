//! The mathematical model of the application: its state, and what each key
//! and each reply of the host does to it.

use crate::config::{ConfigError, ConfigView};
use crate::data::{file_name_of, parse, FileWriteView, KnowledgeView};
use crate::files::{lemma_listing_len, listing_of, stem_of, DirEntryView, EntryKind};
use crate::key::{CtrlKey, Key};
use crate::util::BiCycle;
use crate::views::app::{FileMode, Tab};
use crate::views::input::{
    lemma_apply_preserves_wf, lemma_insert_string_preserves_wf, EditOp, InputView,
};
use vstd::prelude::*;

verus! {

/// What a confirmed dialog does.
pub enum PendingActionView {
    SaveEntry,
    DiscardEdit,
    DeleteDirectory(Seq<Seq<char>>),
    DeleteFile(Seq<Seq<char>>),
    Acknowledge,
}

/// One frame of the navigation stack.
pub enum FrameView {
    FileView,
    AddView { tab_focus: BiCycle },
    DialogView { prompt: Seq<char>, confirm: bool, action: PendingActionView },
}

/// Whether the editor holds a new entry or the entry of an existing file.
pub enum FileStatusView {
    Create,
    Edit(Seq<char>),
}

/// What the host is asked to do.
pub enum ActionView {
    Continue,
    Quit,
    ListDirectory(Seq<Seq<char>>),
    ReadFile(Seq<Seq<char>>),
    CheckExists(Seq<Seq<char>>),
    Write(FileWriteView),
    RemoveFile(Seq<Seq<char>>),
    RemoveDirectory(Seq<Seq<char>>),
}

/// What the host answers.
pub enum ReplyView {
    Listing(Option<Seq<DirEntryView>>),
    Opened(Option<Seq<char>>),
    Exists(bool),
    Written(bool),
    Removed(bool),
}

/// What the event loop hands to the application.
pub enum EventView {
    Input(Key),
    Tick,
    Reply(ReplyView),
}

/// The state of the application.
pub struct AppView {
    pub stack: Seq<FrameView>,
    pub title: InputView,
    pub tags: InputView,
    pub text: InputView,
    pub file_status: FileStatusView,
    pub root: Seq<char>,
    pub segments: Seq<Seq<char>>,
    pub files: Seq<DirEntryView>,
    pub file_cycle: BiCycle,
    pub file_mode: FileMode,
    pub extension: Seq<char>,
    pub primary: Seq<char>,
    pub terminated: bool,
}

/// The field of the editor at position `index` of the focus cycle.
pub open spec fn tab_at(index: usize) -> Tab {
    if index == 0 {
        Tab::Title
    } else if index == 1 {
        Tab::Tags
    } else {
        Tab::Text
    }
}

/// The focus of an editor that was just opened: on the first of its three
/// fields.
pub open spec fn fresh_focus() -> BiCycle {
    BiCycle { total_len: 3, current_item: 0 }
}

/// The editing operation that `key` stands for in the editor, if any. A
/// line break is accepted in the text field only.
pub open spec fn edit_op(key: Key, focus: Tab) -> Option<EditOp> {
    match key {
        Key::Char(c) => Some(EditOp::Insert(c)),
        Key::Backspace => Some(EditOp::Backspace),
        Key::Left => Some(EditOp::MoveLeft),
        Key::Right => Some(EditOp::MoveRight),
        Key::Up => Some(EditOp::MoveUp),
        Key::Down => Some(EditOp::MoveDown),
        Key::Enter => if focus == Tab::Text {
            Some(EditOp::NewLine)
        } else {
            None
        },
        Key::Home => Some(EditOp::Home),
        Key::End => Some(EditOp::End),
        Key::Delete => Some(EditOp::Delete),
        Key::Ctrl(CtrlKey::Home) => Some(EditOp::TopHome),
        Key::Ctrl(CtrlKey::End) => Some(EditOp::BottomEnd),
        Key::Ctrl(CtrlKey::Char('w')) => Some(EditOp::BackspaceWord),
        Key::Ctrl(CtrlKey::Backspace) => Some(EditOp::BackspaceWord),
        Key::Ctrl(CtrlKey::Left) => Some(EditOp::MoveLeftWord),
        Key::Ctrl(CtrlKey::Right) => Some(EditOp::MoveRightWord),
        Key::Ctrl(CtrlKey::Delete) => Some(EditOp::DeleteWord),
        _ => None,
    }
}

/// The question before an entry is deleted.
pub open spec fn delete_prompt(name: Seq<char>) -> Seq<char> {
    "confirm deleting: "@ + name + "?"@
}

/// The question before a new entry is written: it says whether a file of
/// that title exists already.
pub open spec fn create_prompt(found: bool, title: Seq<char>) -> Seq<char> {
    if found {
        "Confirm overwrite existing file: "@ + title + "?"@
    } else {
        "Confirm writing new file: "@ + title + "?"@
    }
}

/// The question before an edited entry is written: it says whether the
/// entry keeps its file or moves to another.
pub open spec fn save_prompt(stem: Seq<char>, title: Seq<char>) -> Seq<char> {
    if stem == title {
        "Save file: "@ + stem + "?"@
    } else {
        "Confirm overwrite file: "@ + stem + " with: "@ + title + "?"@
    }
}

/// A dialog that tells the user of something and does nothing else.
pub open spec fn notice(message: Seq<char>) -> FrameView {
    FrameView::DialogView { prompt: message, confirm: true, action: PendingActionView::Acknowledge }
}

impl ReplyView {
    /// True for the replies that a host can give: a listing is no longer
    /// than a vector can be.
    pub open spec fn wf(self) -> bool {
        match self {
            ReplyView::Listing(Some(entries)) => entries.len() <= usize::MAX,
            _ => true,
        }
    }
}

impl EventView {
    /// True for the events that can arrive: a reply is one that a host can
    /// give.
    pub open spec fn wf(self) -> bool {
        match self {
            EventView::Reply(reply) => reply.wf(),
            _ => true,
        }
    }
}

impl AppView {
    /// The state at the start: the file browser alone, with nothing listed.
    pub open spec fn initial() -> AppView {
        AppView {
            stack: seq![FrameView::FileView],
            title: InputView::empty(),
            tags: InputView::empty(),
            text: InputView::empty(),
            file_status: FileStatusView::Create,
            root: Seq::empty(),
            segments: Seq::empty(),
            files: Seq::empty(),
            file_cycle: BiCycle { total_len: 0, current_item: 0 },
            file_mode: FileMode::Dir,
            extension: Seq::empty(),
            primary: Seq::empty(),
            terminated: false,
        }
    }

    /// The state with the browser opened at the root of the configuration,
    /// which is its last data directory, given the listing of that
    /// directory; new entries will go to the first data directory. Without
    /// a data directory, or where the root is no directory, there is no
    /// such state.
    pub open spec fn set_file_view(
        self,
        config: ConfigView,
        listing: Option<Seq<DirEntryView>>,
    ) -> Result<AppView, ConfigError> {
        if config.data_directories.len() == 0 {
            Err(ConfigError::NoDataDirectory)
        } else {
            match listing {
                None => Err(ConfigError::RootNotDirectory),
                Some(entries) => Ok(
                    AppView {
                        root: config.data_directories.last(),
                        segments: Seq::empty(),
                        extension: config.extension,
                        primary: config.data_directories[0],
                        ..self
                    }.refresh_directory(Some(entries)),
                ),
            }
        }
    }

    /// What holds of the state at all times: there is a frame on the stack,
    /// each text buffer keeps its cursor invariant, and the selection of
    /// the browser is over the listed files.
    pub open spec fn wf(self) -> bool {
        &&& self.stack.len() >= 1
        &&& self.title.wf()
        &&& self.tags.wf()
        &&& self.text.wf()
        &&& self.file_cycle.total_len == self.files.len()
        &&& self.file_cycle.wf()
    }

    /// The frame that receives the input.
    pub open spec fn top(self) -> FrameView {
        self.stack.last()
    }

    /// The state with the top frame replaced.
    pub open spec fn with_top(self, frame: FrameView) -> AppView {
        AppView { stack: self.stack.update(self.stack.len() - 1, frame), ..self }
    }

    /// The state with `frame` on top of the stack.
    pub open spec fn push_state(self, frame: FrameView) -> AppView {
        AppView { stack: self.stack.push(frame), ..self }
    }

    /// The state with an empty editor for a new entry.
    pub open spec fn set_add_view(self) -> AppView {
        AppView {
            title: InputView::empty(),
            tags: InputView::empty(),
            text: InputView::empty(),
            file_status: FileStatusView::Create,
            ..self
        }
    }

    /// Removes the top frame; with the editor go its text buffers, which
    /// are emptied. The last frame is never removed: the application is
    /// marked as terminated instead.
    pub open spec fn pop_state(self) -> AppView {
        if self.stack.len() > 1 {
            let rest = AppView { stack: self.stack.drop_last(), ..self };
            if self.top() is AddView {
                rest.set_add_view()
            } else {
                rest
            }
        } else {
            AppView { terminated: true, ..self }
        }
    }

    /// The field that has the focus, where the top frame is the editor.
    pub open spec fn focus(self) -> Option<Tab> {
        match self.top() {
            FrameView::AddView { tab_focus } => Some(tab_at(tab_focus.current_item)),
            _ => None,
        }
    }

    /// The buffer of the field `tab`.
    pub open spec fn input(self, tab: Tab) -> InputView {
        match tab {
            Tab::Title => self.title,
            Tab::Tags => self.tags,
            Tab::Text => self.text,
        }
    }

    /// The state with the buffer of the field `tab` replaced.
    pub open spec fn with_input(self, tab: Tab, input: InputView) -> AppView {
        match tab {
            Tab::Title => AppView { title: input, ..self },
            Tab::Tags => AppView { tags: input, ..self },
            Tab::Text => AppView { text: input, ..self },
        }
    }

    /// The path of the directory, or file, that the browser shows: the root
    /// and the names below it.
    pub open spec fn path(self) -> Seq<Seq<char>> {
        seq![self.root] + self.segments
    }

    /// The selected entry of the listing, if there is one.
    pub open spec fn selected(self) -> Option<DirEntryView> {
        if self.file_cycle.current_item < self.files.len() {
            Some(self.files[self.file_cycle.current_item as int])
        } else {
            None
        }
    }

    /// The state after the current directory was listed again: the listing
    /// holds the directories and the entry files, with the first selected;
    /// where the path is no directory, the browser shows the file and the
    /// listing is empty.
    pub open spec fn refresh_directory(self, listing: Option<Seq<DirEntryView>>) -> AppView {
        match listing {
            Some(entries) => {
                let files = listing_of(entries, self.extension);
                AppView {
                    files,
                    file_cycle: BiCycle { total_len: files.len() as usize, current_item: 0 },
                    file_mode: FileMode::Dir,
                    ..self
                }
            },
            None => AppView {
                files: Seq::empty(),
                file_cycle: BiCycle { total_len: 0, current_item: 0 },
                file_mode: FileMode::File,
                ..self
            },
        }
    }

    /// Moves into the selected entry and asks for its listing. Without a
    /// selection nothing happens.
    pub open spec fn enter_directory(self) -> (AppView, ActionView) {
        match self.selected() {
            Some(entry) => {
                let next = AppView { segments: self.segments.push(entry.name), ..self };
                (next, ActionView::ListDirectory(next.path()))
            },
            None => (self, ActionView::Continue),
        }
    }

    /// Moves to the parent directory and asks for its listing. At the root
    /// nothing happens.
    pub open spec fn leave_directory(self) -> (AppView, ActionView) {
        if self.segments.len() > 0 {
            let next = AppView { segments: self.segments.drop_last(), ..self };
            (next, ActionView::ListDirectory(next.path()))
        } else {
            (self, ActionView::Continue)
        }
    }

    /// The dialog that asks whether the selected entry is to be deleted.
    pub open spec fn delete_dialog(self, entry: DirEntryView) -> FrameView {
        let path = self.path().push(entry.name);
        FrameView::DialogView {
            prompt: delete_prompt(entry.name),
            confirm: false,
            action: match entry.kind {
                EntryKind::Dir => PendingActionView::DeleteDirectory(path),
                _ => PendingActionView::DeleteFile(path),
            },
        }
    }

    /// What a key does in the file browser.
    pub open spec fn file_view_key(self, key: Key) -> (AppView, ActionView) {
        match key {
            Key::Down | Key::Char('j') => (
                AppView { file_cycle: self.file_cycle.forward(), ..self },
                ActionView::Continue,
            ),
            Key::Up | Key::Char('k') => (
                AppView { file_cycle: self.file_cycle.backward(), ..self },
                ActionView::Continue,
            ),
            Key::Enter | Key::Char('l') => self.enter_directory(),
            Key::Char('h') => self.leave_directory(),
            Key::Char('a') => (
                self.set_add_view().push_state(FrameView::AddView { tab_focus: fresh_focus() }),
                ActionView::Continue,
            ),
            Key::Char('D') => match self.selected() {
                Some(entry) => (self.push_state(self.delete_dialog(entry)), ActionView::Continue),
                None => (self, ActionView::Continue),
            },
            Key::Char('e') => match self.selected() {
                Some(entry) => match entry.kind {
                    EntryKind::Dir => self.enter_directory(),
                    _ => (self, ActionView::ReadFile(self.path().push(entry.name))),
                },
                None => (self, ActionView::Continue),
            },
            _ => (self, ActionView::Continue),
        }
    }

    /// The title that the editor holds.
    pub open spec fn edited_title(self) -> Seq<char> {
        self.title.text()
    }

    /// The entry that the editor holds: the text of the tags field is its
    /// one tag, and it has no description.
    pub open spec fn edited_entry(self) -> KnowledgeView {
        KnowledgeView {
            title: self.title.text(),
            tag: seq![self.tags.text()],
            text: self.text.text(),
            descriptions: Seq::empty(),
        }
    }

    /// The file name of the entry that the editor holds.
    pub open spec fn edited_file_name(self) -> Seq<char> {
        file_name_of(self.edited_title(), self.extension)
    }

    /// The commit of the editor: an entry that comes from a file is saved
    /// after a confirmation; for a new entry the host is first asked
    /// whether its file exists.
    pub open spec fn commit(self) -> (AppView, ActionView) {
        match self.file_status {
            FileStatusView::Create => (
                self,
                ActionView::CheckExists(seq![self.primary, self.edited_file_name()]),
            ),
            FileStatusView::Edit(source) => (
                self.push_state(
                    FrameView::DialogView {
                        prompt: save_prompt(stem_of(source), self.edited_title()),
                        confirm: true,
                        action: PendingActionView::SaveEntry,
                    },
                ),
                ActionView::Continue,
            ),
        }
    }

    /// What a key does in the editor.
    pub open spec fn add_view_key(self, key: Key) -> (AppView, ActionView) {
        match self.top() {
            FrameView::AddView { tab_focus } => match key {
                Key::Tab => (
                    self.with_top(FrameView::AddView { tab_focus: tab_focus.forward() }),
                    ActionView::Continue,
                ),
                Key::BackTab => (
                    self.with_top(FrameView::AddView { tab_focus: tab_focus.backward() }),
                    ActionView::Continue,
                ),
                Key::Ctrl(CtrlKey::Char('g')) => self.commit(),
                Key::Esc => (
                    self.push_state(
                        FrameView::DialogView {
                            prompt: "Confirm Quiting?"@,
                            confirm: false,
                            action: PendingActionView::DiscardEdit,
                        },
                    ),
                    ActionView::Continue,
                ),
                _ => {
                    let tab = tab_at(tab_focus.current_item);
                    match edit_op(key, tab) {
                        Some(op) => (
                            self.with_input(tab, self.input(tab).apply(op)),
                            ActionView::Continue,
                        ),
                        None => (self, ActionView::Continue),
                    }
                },
            },
            _ => (self, ActionView::Continue),
        }
    }

    /// The saving of the entry that the editor holds. An entry without a
    /// title is not written: a notice says so. A new entry goes to the
    /// first data directory, an edited entry to the directory of its file.
    pub open spec fn save(self) -> (AppView, ActionView) {
        if self.edited_title().len() == 0 {
            (self.push_state(notice("The title must not be empty!"@)), ActionView::Continue)
        } else {
            match self.file_status {
                FileStatusView::Create => (
                    self,
                    ActionView::Write(
                        FileWriteView {
                            directory: seq![self.primary],
                            file_name: self.edited_file_name(),
                            contents: self.edited_entry().serialize(),
                            create_directory: true,
                        },
                    ),
                ),
                FileStatusView::Edit(_) => (
                    self,
                    ActionView::Write(
                        FileWriteView {
                            directory: self.path(),
                            file_name: self.edited_file_name(),
                            contents: self.edited_entry().serialize(),
                            create_directory: false,
                        },
                    ),
                ),
            }
        }
    }

    /// What a confirmed dialog does, once its frame is gone.
    pub open spec fn execute(self, action: PendingActionView) -> (AppView, ActionView) {
        match action {
            PendingActionView::SaveEntry => if self.top() is AddView {
                self.save()
            } else {
                (self, ActionView::Continue)
            },
            PendingActionView::DiscardEdit => if self.top() is AddView {
                (self.pop_state(), ActionView::ListDirectory(self.path()))
            } else {
                (self, ActionView::ListDirectory(self.path()))
            },
            PendingActionView::DeleteDirectory(path) => (self, ActionView::RemoveDirectory(path)),
            PendingActionView::DeleteFile(path) => (self, ActionView::RemoveFile(path)),
            PendingActionView::Acknowledge => (self, ActionView::Continue),
        }
    }

    /// What a key does in a dialog.
    pub open spec fn dialog_view_key(self, key: Key) -> (AppView, ActionView) {
        match self.top() {
            FrameView::DialogView { prompt, confirm, action } => match key {
                Key::Left | Key::Right | Key::Char('h') | Key::Char('l') => (
                    self.with_top(FrameView::DialogView { prompt, confirm: !confirm, action }),
                    ActionView::Continue,
                ),
                Key::Enter => if confirm {
                    self.pop_state().execute(action)
                } else {
                    (self.pop_state(), ActionView::Continue)
                },
                _ => (self, ActionView::Continue),
            },
            _ => (self, ActionView::Continue),
        }
    }

    /// What a key does: the top frame alone receives it.
    pub open spec fn update_state(self, key: Key) -> (AppView, ActionView) {
        match self.top() {
            FrameView::FileView => self.file_view_key(key),
            FrameView::AddView { .. } => self.add_view_key(key),
            FrameView::DialogView { .. } => self.dialog_view_key(key),
        }
    }

    /// The editor filled from the text of the file of `entry`.
    pub open spec fn opened(self, entry: DirEntryView, contents: Seq<char>) -> AppView {
        let knowledge = parse(contents);
        AppView {
            title: InputView::empty().insert_string(knowledge.title),
            tags: InputView::empty(),
            text: InputView::empty().insert_string(knowledge.text),
            file_status: FileStatusView::Edit(entry.name),
            ..self
        }.push_state(FrameView::AddView { tab_focus: fresh_focus() })
    }

    /// What the host's answer that the entry was written, or not, does.
    pub open spec fn written(self, ok: bool) -> (AppView, ActionView) {
        if !(self.top() is AddView) {
            (self, ActionView::Continue)
        } else if !ok {
            (self.push_state(notice("Error in writing file!"@)), ActionView::Continue)
        } else {
            match self.file_status {
                FileStatusView::Edit(source) => if stem_of(source) != self.edited_title() {
                    (self, ActionView::RemoveFile(self.path().push(source)))
                } else {
                    (self.pop_state(), ActionView::ListDirectory(self.path()))
                },
                FileStatusView::Create => (self.pop_state(), ActionView::ListDirectory(self.path())),
            }
        }
    }

    /// What the host's answer that a file or directory was removed, or not,
    /// does.
    pub open spec fn removed(self, ok: bool) -> (AppView, ActionView) {
        let left = if self.top() is AddView {
            self.pop_state()
        } else {
            self
        };
        let next = if ok {
            left
        } else {
            left.push_state(notice("Error in removing file!"@))
        };
        (next, ActionView::ListDirectory(self.path()))
    }

    /// What an answer of the host does.
    pub open spec fn resume(self, reply: ReplyView) -> (AppView, ActionView) {
        match reply {
            ReplyView::Listing(listing) => (self.refresh_directory(listing), ActionView::Continue),
            ReplyView::Opened(Some(contents)) => match self.selected() {
                Some(entry) => if self.top() is FileView {
                    (self.opened(entry, contents), ActionView::Continue)
                } else {
                    (self, ActionView::Continue)
                },
                None => (self, ActionView::Continue),
            },
            ReplyView::Opened(None) => (self, ActionView::Continue),
            ReplyView::Exists(found) => if self.top() is AddView && self.file_status is Create {
                (
                    self.push_state(
                        FrameView::DialogView {
                            prompt: create_prompt(found, self.edited_title()),
                            confirm: true,
                            action: PendingActionView::SaveEntry,
                        },
                    ),
                    ActionView::Continue,
                )
            } else {
                (self, ActionView::Continue)
            },
            ReplyView::Written(ok) => self.written(ok),
            ReplyView::Removed(ok) => self.removed(ok),
        }
    }

    /// True when `key` asks to quit: `q` in the file browser or the editor.
    pub open spec fn quits(self, key: Key) -> bool {
        key == Key::Char('q') && (self.top() is FileView || self.top() is AddView)
    }

    /// What an event does. Once the application is terminated, every event
    /// is answered with `Quit` and changes nothing.
    pub open spec fn dispatch(self, event: EventView) -> (AppView, ActionView) {
        if self.terminated {
            (self, ActionView::Quit)
        } else {
            let (next, action) = match event {
                EventView::Tick => (self, ActionView::Continue),
                EventView::Input(key) => if self.quits(key) {
                    (AppView { terminated: true, ..self }, ActionView::Quit)
                } else {
                    self.update_state(key)
                },
                EventView::Reply(reply) => self.resume(reply),
            };
            if next.terminated {
                (next, ActionView::Quit)
            } else {
                (next, action)
            }
        }
    }

    /// The state after the events `events`, in order.
    pub open spec fn run(self, events: Seq<EventView>) -> AppView
        decreases events.len(),
    {
        if events.len() == 0 {
            self
        } else {
            self.run(events.drop_last()).dispatch(events.last()).0
        }
    }
}

/// A key keeps what holds of the state at all times.
pub proof fn lemma_update_state_preserves_wf(state: AppView, key: Key)
    requires
        state.wf(),
    ensures
        state.update_state(key).0.wf(),
{
    match state.top() {
        FrameView::AddView { tab_focus } => {
            let tab = tab_at(tab_focus.current_item);
            match edit_op(key, tab) {
                Some(op) => {
                    lemma_apply_preserves_wf(state.input(tab), op);
                },
                None => {},
            }
        },
        _ => {},
    }
}

/// An answer of the host keeps what holds of the state at all times.
pub proof fn lemma_resume_preserves_wf(state: AppView, reply: ReplyView)
    requires
        state.wf(),
        reply.wf(),
    ensures
        state.resume(reply).0.wf(),
{
    match reply {
        ReplyView::Listing(Some(entries)) => {
            lemma_listing_len(entries, state.extension);
        },
        ReplyView::Opened(Some(contents)) => {
            let knowledge = parse(contents);
            lemma_insert_string_preserves_wf(InputView::empty(), knowledge.title);
            lemma_insert_string_preserves_wf(InputView::empty(), knowledge.text);
        },
        _ => {},
    }
}

/// An event keeps what holds of the state at all times.
pub proof fn lemma_dispatch_preserves_wf(state: AppView, event: EventView)
    requires
        state.wf(),
        event.wf(),
    ensures
        state.dispatch(event).0.wf(),
{
    if !state.terminated {
        match event {
            EventView::Tick => {},
            EventView::Input(key) => {
                lemma_update_state_preserves_wf(state, key);
            },
            EventView::Reply(reply) => {
                lemma_resume_preserves_wf(state, reply);
            },
        }
    }
}

/// Removing the top frame never empties the stack.
pub proof fn lemma_pop_keeps_a_frame(state: AppView)
    requires
        state.stack.len() >= 1,
    ensures
        state.pop_state().stack.len() >= 1,
        state.stack.len() == 1 ==> state.pop_state().stack == state.stack
            && state.pop_state().terminated,
{
}

/// The navigation stack is never empty: whatever keys, ticks and answers
/// of the host arrive, in whatever order, a frame is left on the stack
/// after each of them.
pub proof fn lemma_stack_never_empty(state: AppView, events: Seq<EventView>)
    requires
        state.wf(),
        forall|i: int| 0 <= i < events.len() ==> (#[trigger] events[i]).wf(),
    ensures
        state.run(events).wf(),
        state.run(events).stack.len() >= 1,
    decreases events.len(),
{
    if events.len() > 0 {
        lemma_stack_never_empty(state, events.drop_last());
        lemma_dispatch_preserves_wf(state.run(events.drop_last()), events.last());
    }
}

/// Entering a directory: with an entry selected, the host is asked for the
/// listing of the path that ends in the entry's name, and once it has
/// answered the browser shows that path: the directories and entry files of
/// the listing with the first selected, or, where the path is no
/// directory, the file itself and an empty listing.
pub proof fn lemma_enter_directory(state: AppView, listing: Option<Seq<DirEntryView>>)
    requires
        state.selected() is Some,
    ensures
        ({
            let name = state.selected()->0.name;
            let (asked, action) = state.enter_directory();
            let entered = asked.resume(ReplyView::Listing(listing)).0;
            &&& action == ActionView::ListDirectory(state.path().push(name))
            &&& entered.path() == state.path().push(name)
            &&& entered.file_cycle.current_item == 0
            &&& match listing {
                Some(entries) => entered.file_mode == FileMode::Dir && entered.files == listing_of(
                    entries,
                    state.extension,
                ),
                None => entered.file_mode == FileMode::File && entered.files.len() == 0,
            }
        }),
{
    let name = state.selected()->0.name;
    let asked = state.enter_directory().0;
    assert(asked.path() =~= state.path().push(name));
}

/// Leaving what was entered leads back: after entering the selected entry
/// and leaving it again, the browser is at the path it started from, and
/// shows the listing that the host gives for it, with the first entry
/// selected. At the root, leaving changes nothing and asks for nothing.
pub proof fn lemma_enter_then_leave(
    state: AppView,
    inner: Option<Seq<DirEntryView>>,
    outer: Seq<DirEntryView>,
)
    requires
        state.selected() is Some,
    ensures
        ({
            let entered = state.enter_directory().0.resume(ReplyView::Listing(inner)).0;
            let (asked, action) = entered.leave_directory();
            let left = asked.resume(ReplyView::Listing(Some(outer))).0;
            &&& action == ActionView::ListDirectory(state.path())
            &&& left.path() == state.path()
            &&& left.segments == state.segments
            &&& left.files == listing_of(outer, state.extension)
            &&& left.file_cycle.current_item == 0
            &&& left.file_mode == FileMode::Dir
        }),
        state.segments.len() == 0 ==> state.leave_directory() == (state, ActionView::Continue),
{
    let name = state.selected()->0.name;
    let entered = state.enter_directory().0.resume(ReplyView::Listing(inner)).0;
    assert(entered.segments =~= state.segments.push(name));
    assert(entered.segments.drop_last() =~= state.segments);
}

/// Declining a dialog closes it and does nothing else: Enter on a dialog
/// whose highlighted choice is to cancel gives back the state that the
/// dialog was put on top of.
pub proof fn lemma_decline_closes_dialog(
    state: AppView,
    prompt: Seq<char>,
    action: PendingActionView,
)
    requires
        state.stack.len() >= 1,
    ensures
        state.push_state(FrameView::DialogView { prompt, confirm: false, action }).update_state(
            Key::Enter,
        ) == (state, ActionView::Continue),
{
    let dialog = FrameView::DialogView { prompt, confirm: false, action };
    let asked = state.push_state(dialog);
    assert(asked.stack.drop_last() =~= state.stack);
}

/// Only the top frame receives input: whatever the event, each frame
/// beneath the top frame is, as long as it stays on the stack, what it was.
pub proof fn lemma_frames_beneath_are_inert(state: AppView, event: EventView, i: int)
    requires
        state.stack.len() >= 1,
        0 <= i < state.stack.len() - 1,
        i < state.dispatch(event).0.stack.len(),
    ensures
        state.dispatch(event).0.stack[i] == state.stack[i],
{
    if !state.terminated {
        match event {
            EventView::Tick => {},
            EventView::Input(key) => {
                if !state.quits(key) {
                    match state.top() {
                        FrameView::DialogView { prompt, confirm, action } => {
                            let popped = state.pop_state();
                            if popped.stack.len() >= 1 && i < popped.stack.len() - 1 {
                                assert(popped.pop_state().stack.len() >= 1);
                            }
                        },
                        _ => {},
                    }
                }
            },
            EventView::Reply(reply) => {},
        }
    }
}

} // verus!
