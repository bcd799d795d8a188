//! Core of a small terminal emulator: a character grid with a cursor, the
//! escape-sequence parser that drives it, and the keyboard translation table.
pub mod screen_buffer;
pub mod csi;
pub mod console;
pub mod keymap;
