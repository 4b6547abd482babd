//! The state of the application: the navigation stack, the editor's text
//! buffers and the file browser.

use crate::config::{Config, ConfigError};
use crate::data::{strings_view, FileWrite, Knowledge};
use crate::files::{get_file_list, listing_view, DirEntry};
use crate::key::Key;
use crate::util::BiCycle;
use crate::views::input::{EditOp, Input, InputView};
use crate::views::model::{
    ActionView, AppView, FileStatusView, FrameView, PendingActionView, ReplyView,
};
use vstd::prelude::*;

verus! {

/// The fields of the editor.
#[derive(Clone, Copy, Debug, PartialEq, Eq)]
pub enum Tab {
    Title,
    Tags,
    Text,
}

/// What the browser shows: the entries of a directory, or one file.
#[derive(Clone, Copy, Debug, PartialEq, Eq)]
pub enum FileMode {
    Dir,
    File,
}

/// What a confirmed dialog does.
#[derive(Debug)]
pub enum PendingAction {
    /// Writes the entry that the editor holds.
    SaveEntry,
    /// Drops what the editor holds and closes it.
    DiscardEdit,
    /// Removes the directory with this path.
    DeleteDirectory(Vec<String>),
    /// Removes the file with this path.
    DeleteFile(Vec<String>),
    /// Nothing: the dialog only told the user of something.
    Acknowledge,
}

impl View for PendingAction {
    type V = PendingActionView;

    open spec fn view(&self) -> PendingActionView {
        match *self {
            PendingAction::SaveEntry => PendingActionView::SaveEntry,
            PendingAction::DiscardEdit => PendingActionView::DiscardEdit,
            PendingAction::DeleteDirectory(path) => PendingActionView::DeleteDirectory(
                strings_view(path@),
            ),
            PendingAction::DeleteFile(path) => PendingActionView::DeleteFile(strings_view(path@)),
            PendingAction::Acknowledge => PendingActionView::Acknowledge,
        }
    }
}

/// One frame of the navigation stack: a view, with the state that only
/// this view needs.
#[derive(Debug)]
pub enum ViewState {
    /// The file browser.
    FileView,
    /// The editor; `tab_focus` selects one of its three fields.
    AddView { tab_focus: BiCycle },
    /// A dialog that asks for a confirmation: its question, the choice that
    /// is highlighted, and what it does when confirmed.
    DialogView { prompt: String, confirm: bool, action: PendingAction },
}

impl View for ViewState {
    type V = FrameView;

    open spec fn view(&self) -> FrameView {
        match *self {
            ViewState::FileView => FrameView::FileView,
            ViewState::AddView { tab_focus } => FrameView::AddView { tab_focus },
            ViewState::DialogView { prompt, confirm, action } => FrameView::DialogView {
                prompt: prompt@,
                confirm,
                action: action@,
            },
        }
    }
}

/// Whether the editor holds a new entry, or the entry of the file of this
/// name in the browser's directory.
#[derive(Debug)]
pub enum FileStatus {
    Create,
    Edit(String),
}

impl View for FileStatus {
    type V = FileStatusView;

    open spec fn view(&self) -> FileStatusView {
        match *self {
            FileStatus::Create => FileStatusView::Create,
            FileStatus::Edit(name) => FileStatusView::Edit(name@),
        }
    }
}

/// What the host is asked to do after an event. A path is given by its
/// components, outermost first. The host hands the outcome of each request
/// back as the `Reply` that is named with it.
#[derive(Debug)]
pub enum Action {
    /// Nothing: wait for the next event.
    Continue,
    /// Leave the event loop and restore the terminal.
    Quit,
    /// List the directory with this path; answer with `Reply::Listing`.
    ListDirectory(Vec<String>),
    /// Read the file with this path; answer with `Reply::Opened`.
    ReadFile(Vec<String>),
    /// Test whether the file with this path exists; answer with
    /// `Reply::Exists`.
    CheckExists(Vec<String>),
    /// Write this file; answer with `Reply::Written`.
    Write(FileWrite),
    /// Remove the file with this path; answer with `Reply::Removed`.
    RemoveFile(Vec<String>),
    /// Remove the directory with this path and all that is in it; answer
    /// with `Reply::Removed`.
    RemoveDirectory(Vec<String>),
}

impl View for Action {
    type V = ActionView;

    open spec fn view(&self) -> ActionView {
        match *self {
            Action::Continue => ActionView::Continue,
            Action::Quit => ActionView::Quit,
            Action::ListDirectory(path) => ActionView::ListDirectory(strings_view(path@)),
            Action::ReadFile(path) => ActionView::ReadFile(strings_view(path@)),
            Action::CheckExists(path) => ActionView::CheckExists(strings_view(path@)),
            Action::Write(request) => ActionView::Write(request@),
            Action::RemoveFile(path) => ActionView::RemoveFile(strings_view(path@)),
            Action::RemoveDirectory(path) => ActionView::RemoveDirectory(strings_view(path@)),
        }
    }
}

/// What the host answers to an action.
#[derive(Debug)]
pub enum Reply {
    /// The entries of the directory, or `None` where the path is no
    /// directory.
    Listing(Option<Vec<DirEntry>>),
    /// The text of the file, or `None` where it could not be read.
    Opened(Option<String>),
    /// Whether the file exists.
    Exists(bool),
    /// Whether the file was written.
    Written(bool),
    /// Whether the file or directory was removed.
    Removed(bool),
}

impl View for Reply {
    type V = ReplyView;

    open spec fn view(&self) -> ReplyView {
        match *self {
            Reply::Listing(Some(entries)) => ReplyView::Listing(Some(listing_view(entries@))),
            Reply::Listing(None) => ReplyView::Listing(None),
            Reply::Opened(Some(contents)) => ReplyView::Opened(Some(contents@)),
            Reply::Opened(None) => ReplyView::Opened(None),
            Reply::Exists(found) => ReplyView::Exists(found),
            Reply::Written(ok) => ReplyView::Written(ok),
            Reply::Removed(ok) => ReplyView::Removed(ok),
        }
    }
}

/// The views of `frames`, in order.
pub open spec fn stack_view(frames: Seq<ViewState>) -> Seq<FrameView> {
    Seq::new(frames.len(), |i: int| frames[i]@)
}

/// The state of the application.
pub struct App {
    navigation_stack: Vec<ViewState>,
    input_title: Input,
    input_text: Input,
    input_tags: Input,
    file_status: FileStatus,
    root: String,
    segments: Vec<String>,
    files: Vec<DirEntry>,
    file_cycle: BiCycle,
    file_mode: FileMode,
    extension: String,
    primary: String,
    terminated: bool,
}

impl View for App {
    type V = AppView;

    closed spec fn view(&self) -> AppView {
        AppView {
            stack: stack_view(self.navigation_stack@),
            title: self.input_title@,
            tags: self.input_tags@,
            text: self.input_text@,
            file_status: self.file_status@,
            root: self.root@,
            segments: strings_view(self.segments@),
            files: listing_view(self.files@),
            file_cycle: self.file_cycle,
            file_mode: self.file_mode,
            extension: self.extension@,
            primary: self.primary@,
            terminated: self.terminated,
        }
    }
}

impl Default for App {
    fn default() -> (app: Self)
        ensures
            app@ == AppView::initial(),
            app@.wf(),
    {
        let mut stack: Vec<ViewState> = Vec::new();
        stack.push(ViewState::FileView);
        let app = App {
            navigation_stack: stack,
            input_title: Input::default(),
            input_text: Input::default(),
            input_tags: Input::default(),
            file_status: FileStatus::Create,
            root: String::new(),
            segments: Vec::new(),
            files: Vec::new(),
            file_cycle: BiCycle::new(0),
            file_mode: FileMode::Dir,
            extension: String::new(),
            primary: String::new(),
            terminated: false,
        };
        proof {
            assert(app@.stack =~= AppView::initial().stack);
            assert(app@.segments =~= AppView::initial().segments);
            assert(app@.files =~= AppView::initial().files);
        }
        app
    }
}

impl App {
    /// Opens the browser at the root of the configuration, which is its
    /// last data directory. `listing` holds the entries of that directory,
    /// or `None` where it is no directory.
    pub fn set_file_view(self, config: &Config, listing: Option<Vec<DirEntry>>) -> (opened: Result<
        Self,
        ConfigError,
    >)
        requires
            self@.wf(),
        ensures
            match opened {
                Ok(app) => Ok::<AppView, ConfigError>(app@),
                Err(e) => Err(e),
            } == self@.set_file_view(
                config@,
                match listing {
                    Some(entries) => Some(listing_view(entries@)),
                    None => None,
                },
            ),
            opened matches Ok(app) ==> app@.wf(),
    {
        let n = config.data_directories.len();
        if n == 0 {
            return Err(ConfigError::NoDataDirectory);
        }
        if listing.is_none() {
            return Err(ConfigError::RootNotDirectory);
        }
        let mut app = self;
        app.root = config.data_directories[n - 1].clone();
        app.segments = Vec::new();
        app.extension = config.extension.clone();
        app.primary = config.data_directories[0].clone();
        assert(app@.segments =~= Seq::<Seq<char>>::empty());
        app.refresh_directory(listing);
        Ok(app)
    }

    /// Makes the editor ready for a new entry.
    pub fn set_add_view(self) -> (app: Self)
        requires
            self@.wf(),
        ensures
            app@ == self@.set_add_view(),
            app@.wf(),
    {
        let mut app = self;
        app.set_add_view_ref();
        app
    }

    /// Makes the editor ready for a new entry: its three fields are empty.
    pub fn set_add_view_ref(&mut self) -> (app: &mut Self)
        requires
            old(self)@.wf(),
        ensures
            app@ == old(self)@.set_add_view(),
            app@.wf(),
            *final(self) == *final(app),
    {
        self.input_title = Input::default();
        self.input_text = Input::default();
        self.input_tags = Input::default();
        self.file_status = FileStatus::Create;
        self
    }

    /// Puts a frame on top of the stack: its view now receives the input.
    pub fn push_state(&mut self, view_state: ViewState)
        requires
            old(self)@.wf(),
        ensures
            final(self)@ == old(self)@.push_state(view_state@),
            final(self)@.wf(),
    {
        self.navigation_stack.push(view_state);
        assert(self@.stack =~= old(self)@.stack.push(view_state@));
    }

    /// Removes the top frame; with the editor go its text buffers, which
    /// are emptied. The last frame is never removed: the application is
    /// marked as terminated instead.
    pub fn pop_state(&mut self)
        requires
            old(self)@.wf(),
        ensures
            final(self)@ == old(self)@.pop_state(),
            final(self)@.wf(),
    {
        if self.navigation_stack.len() > 1 {
            let popped = self.navigation_stack.pop();
            assert(self@.stack =~= old(self)@.stack.drop_last());
            match popped {
                Some(ViewState::AddView { .. }) => {
                    self.set_add_view_ref();
                },
                _ => {},
            }
        } else {
            self.terminated = true;
        }
    }

    /// The top frame, for changing it in place.
    pub fn get_latest_mut_state(&mut self) -> (state: Option<&mut ViewState>)
        requires
            old(self)@.wf(),
        ensures
            state matches Some(frame) && frame@ == old(self)@.top() && final(self)@.stack == old(
                self,
            )@.stack.update(old(self)@.stack.len() - 1, final(frame)@),
            final(self)@ == (AppView { stack: final(self)@.stack, ..old(self)@ }),
    {
        let top = self.navigation_stack.len() - 1;
        Some(&mut self.navigation_stack[top])
    }

    /// The top frame: the one view that receives input.
    pub fn get_latest_state(&self) -> (state: Option<&ViewState>)
        requires
            self@.wf(),
        ensures
            state matches Some(frame) && frame@ == self@.top(),
    {
        let top = self.navigation_stack.len() - 1;
        Some(&self.navigation_stack[top])
    }

    /// The frame beneath the top frame, if there is one: the view that is
    /// drawn first when a dialog lies over it.
    pub fn get_previous_state(&self) -> (state: Option<&ViewState>)
        requires
            self@.wf(),
        ensures
            self@.stack.len() == 1 ==> state is None,
            self@.stack.len() > 1 ==> (state matches Some(frame) && frame@ == self@.stack[self@.stack.len()
                - 2]),
    {
        let n = self.navigation_stack.len();
        if n > 1 {
            Some(&self.navigation_stack[n - 2])
        } else {
            None
        }
    }

    /// Takes the new listing of the browser's directory: `listing` holds
    /// its entries, or `None` where the path is no directory.
    pub fn refresh_directory(&mut self, listing: Option<Vec<DirEntry>>)
        requires
            old(self)@.wf(),
        ensures
            final(self)@ == old(self)@.refresh_directory(
                match listing {
                    Some(entries) => Some(listing_view(entries@)),
                    None => None,
                },
            ),
            final(self)@.wf(),
    {
        match listing {
            Some(entries) => {
                let files = get_file_list(&entries, self.extension.as_str());
                let item_len = files.len();
                self.files = files;
                self.file_cycle = BiCycle::new(item_len);
                self.file_mode = FileMode::Dir;
            },
            None => {
                self.files = Vec::new();
                self.file_cycle = BiCycle::new(0);
                self.file_mode = FileMode::File;
                assert(self@.files =~= Seq::empty());
            },
        }
    }

    /// The path of the directory, or file, that the browser shows: the root
    /// and the names below it.
    pub fn path(&self) -> (path: Vec<String>)
        ensures
            strings_view(path@) == self@.path(),
    {
        let mut path: Vec<String> = Vec::new();
        path.push(self.root.clone());
        let mut i: usize = 0;
        while i < self.segments.len()
            invariant
                i <= self.segments.len(),
                path@.len() == i + 1,
                path@[0]@ == self.root@,
                forall|k: int| 1 <= k <= i ==> (#[trigger] path@[k])@ == self.segments@[k - 1]@,
            decreases self.segments.len() - i,
        {
            path.push(self.segments[i].clone());
            i = i + 1;
        }
        assert(strings_view(path@) =~= self@.path());
        path
    }

    /// The path of the entry `name` of the browser's directory.
    pub fn path_to(&self, name: &str) -> (path: Vec<String>)
        ensures
            strings_view(path@) == self@.path().push(name@),
    {
        let mut path = self.path();
        let ghost before = strings_view(path@);
        path.push(String::from_str(name));
        assert(strings_view(path@) =~= before.push(name@));
        path
    }

    /// The selected entry of the listing, if there is one.
    pub fn selected_entry(&self) -> (entry: Option<&DirEntry>)
        ensures
            match entry {
                Some(e) => self@.selected() == Some(e@),
                None => self@.selected() is None,
            },
    {
        if self.file_cycle.current_item < self.files.len() {
            Some(&self.files[self.file_cycle.current_item])
        } else {
            None
        }
    }

    /// Selects the next entry of the listing, from the last the first.
    pub fn select_next(&mut self)
        requires
            old(self)@.wf(),
        ensures
            final(self)@ == (AppView { file_cycle: old(self)@.file_cycle.forward(), ..old(self)@ }),
            final(self)@.wf(),
    {
        self.file_cycle.next();
    }

    /// Selects the entry before, from the first the last.
    pub fn select_prev(&mut self)
        requires
            old(self)@.wf(),
        ensures
            final(self)@ == (AppView { file_cycle: old(self)@.file_cycle.backward(), ..old(self)@ }),
            final(self)@.wf(),
    {
        self.file_cycle.prev();
    }

    /// Moves into the selected entry and asks for its listing, which
    /// `refresh_directory` takes. Without a selection nothing happens.
    pub fn enter_directory(&mut self) -> (action: Action)
        requires
            old(self)@.wf(),
        ensures
            final(self)@ == old(self)@.enter_directory().0,
            action@ == old(self)@.enter_directory().1,
            final(self)@.wf(),
    {
        if self.file_cycle.current_item < self.files.len() {
            let name = self.files[self.file_cycle.current_item].name.clone();
            self.segments.push(name);
            assert(self@.segments =~= old(self)@.segments.push(name@));
            Action::ListDirectory(self.path())
        } else {
            Action::Continue
        }
    }

    /// Moves to the parent directory and asks for its listing, which
    /// `refresh_directory` takes. At the root nothing happens.
    pub fn leave_directory(&mut self) -> (action: Action)
        requires
            old(self)@.wf(),
        ensures
            final(self)@ == old(self)@.leave_directory().0,
            action@ == old(self)@.leave_directory().1,
            final(self)@.wf(),
    {
        if self.segments.len() > 0 {
            self.segments.pop();
            assert(self@.segments =~= old(self)@.segments.drop_last());
            Action::ListDirectory(self.path())
        } else {
            Action::Continue
        }
    }

    /// The field of the editor that has the focus, where the top frame is
    /// the editor.
    pub fn focus(&self) -> (tab: Option<Tab>)
        requires
            self@.wf(),
        ensures
            tab == self@.focus(),
    {
        let top = self.navigation_stack.len() - 1;
        match &self.navigation_stack[top] {
            ViewState::AddView { tab_focus } => Some(tab_of(tab_focus.current_item)),
            _ => None,
        }
    }

    /// The buffer of the field that has the focus.
    pub fn get_current_input(&mut self) -> (input: &mut Input)
        requires
            old(self)@.wf(),
            old(self)@.focus() is Some,
        ensures
            input@ == old(self)@.input(old(self)@.focus()->0),
            final(self)@ == old(self)@.with_input(old(self)@.focus()->0, final(input)@),
    {
        match self.focus() {
            Some(Tab::Title) => &mut self.input_title,
            Some(Tab::Tags) => &mut self.input_tags,
            _ => &mut self.input_text,
        }
    }

    /// Where the cursor of the field with the focus stands on the screen,
    /// as column and row: the title at row 3, the tags at row 7, the text
    /// from row 11 on, each from column 3 on. A position beyond the last
    /// column or row of the screen is given as the last.
    pub fn get_cursor_position(&self) -> (position: (u16, u16))
        requires
            self@.wf(),
            self@.focus() is Some,
        ensures
            position == cursor_position(self@.focus()->0, self@.input(self@.focus()->0)),
    {
        match self.focus() {
            Some(Tab::Title) => (screen_offset(3, self.input_title.column()), 3),
            Some(Tab::Tags) => (screen_offset(3, self.input_tags.column()), 7),
            _ => (
                screen_offset(3, self.input_text.column()),
                screen_offset(11, self.input_text.row()),
            ),
        }
    }

    /// Performs an editing operation on the field that has the focus.
    pub fn edit(&mut self, op: EditOp)
        requires
            old(self)@.wf(),
            old(self)@.focus() is Some,
        ensures
            final(self)@ == old(self)@.with_input(
                old(self)@.focus()->0,
                old(self)@.input(old(self)@.focus()->0).apply(op),
            ),
            final(self)@.wf(),
    {
        self.get_current_input().apply(op);
    }

    /// Fills the editor with the entry `knowledge`, read from the file
    /// `source` of the browser's directory: its title and its text.
    pub fn set_edit_view(&mut self, knowledge: &Knowledge, source: &str)
        requires
            old(self)@.wf(),
        ensures
            final(self)@ == (AppView {
                title: InputView::empty().insert_string(knowledge@.title),
                tags: InputView::empty(),
                text: InputView::empty().insert_string(knowledge@.text),
                file_status: FileStatusView::Edit(source@),
                ..old(self)@
            }),
            final(self)@.wf(),
    {
        self.set_add_view_ref();
        self.input_title.insert_string(knowledge.title.as_str());
        self.input_text.insert_string(knowledge.text.as_str());
        self.file_status = FileStatus::Edit(String::from_str(source));
    }

    /// Hands a key to the top frame, the one view that receives input, and
    /// says what the host is to do next.
    pub fn update_state(&mut self, event: &Key) -> (action: Action)
        requires
            old(self)@.wf(),
        ensures
            final(self)@ == old(self)@.update_state(*event).0,
            action@ == old(self)@.update_state(*event).1,
            final(self)@.wf(),
    {
        let top = self.navigation_stack.len() - 1;
        let in_browser = match &self.navigation_stack[top] {
            ViewState::FileView => true,
            _ => false,
        };
        if in_browser {
            crate::views::file_view::handler(self, event)
        } else if self.focus().is_some() {
            crate::views::add_view::handler(self, event)
        } else {
            crate::views::dialog_view::handler(self, event)
        }
    }

    /// Takes the host's answer to the action it was asked for, and says
    /// what it is to do next.
    pub fn resume(&mut self, reply: Reply) -> (action: Action)
        requires
            old(self)@.wf(),
        ensures
            final(self)@ == old(self)@.resume(reply@).0,
            action@ == old(self)@.resume(reply@).1,
            final(self)@.wf(),
    {
        match reply {
            Reply::Listing(listing) => {
                self.refresh_directory(listing);
                Action::Continue
            },
            Reply::Opened(contents) => crate::views::file_view::opened(self, contents),
            Reply::Exists(found) => crate::views::add_view::checked(self, found),
            Reply::Written(ok) => crate::views::add_view::written(self, ok),
            Reply::Removed(ok) => crate::views::dialog_view::removed(self, ok),
        }
    }

    /// The buffer of the title field.
    pub fn input_title(&self) -> (input: &Input)
        ensures
            input@ == self@.title,
    {
        &self.input_title
    }

    /// The buffer of the tags field.
    pub fn input_tags(&self) -> (input: &Input)
        ensures
            input@ == self@.tags,
    {
        &self.input_tags
    }

    /// The buffer of the text field.
    pub fn input_text(&self) -> (input: &Input)
        ensures
            input@ == self@.text,
    {
        &self.input_text
    }

    /// Whether the editor holds a new entry or the entry of a file.
    pub fn file_status(&self) -> (status: &FileStatus)
        ensures
            status@ == self@.file_status,
    {
        &self.file_status
    }

    /// The listing of the browser.
    pub fn files(&self) -> (files: &Vec<DirEntry>)
        ensures
            listing_view(files@) == self@.files,
    {
        &self.files
    }

    /// The selection of the browser.
    pub fn file_cycle(&self) -> (cycle: BiCycle)
        ensures
            cycle == self@.file_cycle,
    {
        self.file_cycle
    }

    /// Whether the browser shows a directory or a file.
    pub fn file_mode(&self) -> (mode: FileMode)
        ensures
            mode == self@.file_mode,
    {
        self.file_mode
    }

    /// The extension of the entry files.
    pub fn extension(&self) -> (extension: &String)
        ensures
            extension@ == self@.extension,
    {
        &self.extension
    }

    /// The directory that new entries are written to.
    pub fn primary(&self) -> (primary: &String)
        ensures
            primary@ == self@.primary,
    {
        &self.primary
    }

    /// Whether the application is over.
    pub fn is_terminated(&self) -> (terminated: bool)
        ensures
            terminated == self@.terminated,
    {
        self.terminated
    }

    /// Marks the application as over.
    pub fn terminate(&mut self)
        ensures
            final(self)@ == (AppView { terminated: true, ..old(self)@ }),
    {
        self.terminated = true;
    }
}

/// The field of the editor at position `index` of the focus cycle.
pub fn tab_of(index: usize) -> (tab: Tab)
    ensures
        tab == crate::views::model::tab_at(index),
{
    if index == 0 {
        Tab::Title
    } else if index == 1 {
        Tab::Tags
    } else {
        Tab::Text
    }
}

/// The screen coordinate `base + offset`, or the largest there is where
/// the sum is beyond it.
pub open spec fn screen_coordinate(base: u16, offset: int) -> u16 {
    if base + offset > u16::MAX {
        u16::MAX
    } else {
        (base + offset) as u16
    }
}

/// Where the cursor of `input`, the buffer of the field `tab`, stands on
/// the screen, as column and row.
pub open spec fn cursor_position(tab: Tab, input: InputView) -> (u16, u16) {
    match tab {
        Tab::Title => (screen_coordinate(3, input.col), 3),
        Tab::Tags => (screen_coordinate(3, input.col), 7),
        Tab::Text => (screen_coordinate(3, input.col), screen_coordinate(11, input.row)),
    }
}

/// The screen coordinate `base + offset`, or the largest there is where
/// the sum is beyond it.
fn screen_offset(base: u16, offset: usize) -> (coordinate: u16)
    ensures
        coordinate == screen_coordinate(base, offset as int),
{
    let room: u16 = u16::MAX - base;
    if offset > room as usize {
        u16::MAX
    } else {
        base + offset as u16
    }
}

} // verus!
