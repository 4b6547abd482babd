//! The views of the application and the state they share.

pub mod add_view;
pub mod app;
pub mod dialog_view;
pub mod file_view;
pub mod input;
pub mod model;
pub mod nav;
