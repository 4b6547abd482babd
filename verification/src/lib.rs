//! The interaction engine of a terminal knowledge base: the note codec and
//! repository, the multi-line text input, the file browser state, the
//! navigation stack and the event dispatch that drives them.

pub mod config;
pub mod data;
pub mod files;
pub mod key;
pub mod tag_index;
pub mod text;
pub mod ui;
pub mod util;
pub mod views;
