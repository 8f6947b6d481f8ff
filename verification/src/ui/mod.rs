pub mod app;
pub mod app_state;
pub mod bottom_bar;
pub mod context_viewer;
pub mod editor;
pub mod input_handler;
pub mod keymap_popup;
pub mod list_line;
pub mod search_popup;
pub mod theme;
