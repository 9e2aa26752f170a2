//! The core of a modal text editor.
//!
//! - [`text`] divides a text into lines and joins lines into a text.
//! - [`buffer`] holds the lines of one document and edits them by line and
//!   column.
//! - [`cursor`] is an editing position with a mode and a sticky column.
//! - [`split`] puts one or more scrolling viewports on a buffer.
//! - [`key`], [`keymap`] and [`key_state`] turn key events into
//!   instructions.
//! - [`edit`] and [`prompt`] say what the editing commands and the prompt
//!   lines mean.
//! - [`options`] holds the settings, [`redraw`] what has to be repainted,
//!   [`error`] what can go wrong.
//! - [`editor`] ties them together: the open buffers, the cursors, and one
//!   turn of the main loop.
//!
//! Everything here is state and rules. Reading keys, painting and file
//! access belong to the program that embeds the library.

pub mod buffer;
pub mod cursor;
pub mod edit;
pub mod editor;
pub mod error;
pub mod key;
pub mod key_state;
pub mod keymap;
pub mod options;
pub mod prompt;
pub mod redraw;
pub mod split;
pub mod text;
