//! Core of a terminal text editor: text-buffer addressing and cursor
//! navigation, a scroll window over the buffer, an ordered collection of open
//! buffers, and the modal state machine that routes keystrokes to one of four
//! action flows (new file, open file, switch buffer, close buffer).
//!
//! Everything here works on plain values; reading the keyboard, painting the
//! screen and touching the file system are left to the surrounding binary.

pub mod action_bar;
pub mod buffer;
pub mod buffer_list_widget;
pub mod display;
pub mod editor;
pub mod error_type;
pub mod filename;
pub mod key;
pub mod new_file_widget;
pub mod open_file_widget;
pub mod shell;
pub mod state;
pub mod text;
