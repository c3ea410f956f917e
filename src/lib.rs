//! Core of a terminal text editor: a rope-backed text buffer with bounded
//! undo/redo history, line layout with tab expansion and soft wrapping, and a
//! cursor that keeps logical and visual coordinates consistent.

pub mod text;
pub mod history;
pub mod edit_model;
pub mod buffer;
pub mod encoding;
pub mod layout;
pub mod view;
pub mod cursor;
pub mod selection;
pub mod cache;
pub mod detector;
pub mod comment;
pub mod search;
pub mod config;
pub mod line_wrapper;
pub mod editor;
pub mod keymap;
