//! Core of a modal, terminal-resident text editor.
//!
//! The crate holds the editor's logic: the layout engine that wraps logical
//! lines into fixed-width visual rows, the viewport projection that maps the
//! logical cursor onto a screen row, and the modal multi-keystroke keybind
//! resolver.  Everything here is pure computation over plain values; the
//! terminal itself (raw mode, escape sequences, the blocking event read) is
//! driven by a thin unverified shell around this library.

pub mod config;
pub mod editor;
pub mod layout;
pub mod resolver;
