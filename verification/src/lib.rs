pub mod app;
pub mod command;
pub mod config;
pub mod laws;
pub mod motion;
pub mod note_editor;
pub mod state;
pub mod text;
