//! What is drawn, and where: the order of the views and the area of the
//! dialog.

use crate::data::{parse, strings_view, Knowledge};
use crate::text::join_lines;
use crate::views::app::{App, ViewState};
use crate::views::model::FrameView;
use vstd::prelude::*;

verus! {

/// A rectangle of the screen.
#[derive(Clone, Copy, Debug, PartialEq, Eq)]
pub struct Area {
    pub left: u16,
    pub top: u16,
    pub width: u16,
    pub height: u16,
}

/// What the host found at the selected path of the browser.
#[derive(Debug)]
pub enum Selected {
    /// A directory, with the names of its entries.
    Directory(Vec<String>),
    /// A file, with its text.
    File(String),
    /// Neither, or something that could not be read.
    Nothing,
}

/// The mathematical content of what was found at the selected path.
pub enum SelectedView {
    Directory(Seq<Seq<char>>),
    File(Seq<char>),
    Nothing,
}

impl View for Selected {
    type V = SelectedView;

    open spec fn view(&self) -> SelectedView {
        match *self {
            Selected::Directory(names) => SelectedView::Directory(strings_view(names@)),
            Selected::File(contents) => SelectedView::File(contents@),
            Selected::Nothing => SelectedView::Nothing,
        }
    }
}

/// The text beside the listing: for a directory the names of its entries,
/// one on each line; for a file the text of its entry; and else a message.
pub open spec fn preview_of(selected: SelectedView) -> Seq<char> {
    match selected {
        SelectedView::Directory(names) => join_lines(names),
        SelectedView::File(contents) => parse(contents).text,
        SelectedView::Nothing => "error in reading files"@,
    }
}

/// The frames to draw, the first at the bottom: the top frame, and beneath
/// a dialog the frame that it lies over.
pub open spec fn frames_to_draw(stack: Seq<FrameView>) -> Seq<FrameView> {
    if stack.last() is DialogView && stack.len() > 1 {
        seq![stack[stack.len() - 2], stack.last()]
    } else {
        seq![stack.last()]
    }
}

/// The area of the dialog on a screen of the given size: centred, eight
/// rows high from a quarter of the screen down, and at most 45 columns
/// wide with a column left free on either side.
pub open spec fn dialog_area_of(width: u16, height: u16) -> Area {
    let inner = if width < 2 {
        0
    } else {
        width - 2
    };
    let dialog_width = if inner < 45 {
        inner
    } else {
        45
    };
    Area {
        left: ((width - dialog_width) / 2) as u16,
        top: (height / 4) as u16,
        width: dialog_width as u16,
        height: 8,
    }
}

/// The views to draw, the first at the bottom: a dialog is an overlay, so
/// the view beneath it is drawn first, over the whole screen.
pub fn draw_views(app: &App) -> (frames: Vec<&ViewState>)
    requires
        app@.wf(),
    ensures
        frames@.len() == frames_to_draw(app@.stack).len(),
        forall|i: int|
            0 <= i < frames@.len() ==> (#[trigger] frames@[i])@ == frames_to_draw(app@.stack)[i],
{
    let mut frames: Vec<&ViewState> = Vec::new();
    let top = match app.get_latest_state() {
        Some(top) => top,
        None => {
            return frames;
        },
    };
    match top {
        ViewState::DialogView { .. } => {
            match app.get_previous_state() {
                Some(beneath) => {
                    frames.push(beneath);
                },
                None => {},
            }
        },
        _ => {},
    }
    frames.push(top);
    frames
}

/// The area of the dialog on a screen of the given size.
pub fn draw_dialog(width: u16, height: u16) -> (area: Area)
    ensures
        area == dialog_area_of(width, height),
{
    let inner: u16 = if width < 2 {
        0
    } else {
        width - 2
    };
    let dialog_width: u16 = if inner < 45 {
        inner
    } else {
        45
    };
    Area { left: (width - dialog_width) / 2, top: height / 4, width: dialog_width, height: 8 }
}

/// The text to draw beside the listing of the browser, for what the host
/// found at the selected path.
pub fn draw_files_view(selected: &Selected) -> (preview: String)
    ensures
        preview@ == preview_of(selected@),
{
    match selected {
        Selected::Directory(names) => {
            let ghost lines = strings_view(names@);
            let mut preview = String::new();
            let mut i: usize = 0;
            assert(lines.take(0) =~= Seq::<Seq<char>>::empty());
            while i < names.len()
                invariant
                    i <= names.len(),
                    lines == strings_view(names@),
                    preview@ == join_lines(lines.take(i as int)),
                decreases names.len() - i,
            {
                if i > 0 {
                    preview.append("\n");
                }
                preview.append(names[i].as_str());
                proof {
                    reveal_strlit("\n");
                    assert(lines.take(i + 1).drop_last() =~= lines.take(i as int));
                    assert(lines.take(i + 1).last() == names@[i as int]@);
                    if i == 0 {
                        assert(Seq::<char>::empty() + names@[0]@ =~= names@[0]@);
                    } else {
                        assert("\n"@ =~= seq!['\n']);
                    }
                }
                i = i + 1;
            }
            assert(lines.take(i as int) =~= lines);
            preview
        },
        Selected::File(contents) => Knowledge::from_file(contents.as_str()).text,
        Selected::Nothing => String::from_str("error in reading files"),
    }
}

} // verus!
