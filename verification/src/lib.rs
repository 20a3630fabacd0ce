//! A terminal emulator's core: screen model, control sequences, scrollback,
//! selection, search, input encoding and the decisions of its two frontends.

pub mod ansi;
pub mod app;
pub mod cell;
pub mod config;
pub mod cursor;
pub mod effects;
pub mod event;
pub mod find;
pub mod gpu;
pub mod grid;
pub mod icon;
pub mod keys;
pub mod laws;
pub mod laws_cursor;
pub mod laws_edit;
pub mod laws_text;
pub mod linkmap;
pub mod links;
pub mod mouse;
pub mod params;
pub mod pty;
pub mod render;
pub mod screen;
pub mod selection;
pub mod session;
pub mod sgr;
pub mod stream;
pub mod text;
pub mod tui;
