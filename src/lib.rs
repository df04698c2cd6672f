//! A small line-based text editor core: a buffer of lines, a cursor and a
//! viewport, with editing and navigation operations that keep the cursor on
//! existing text.

pub mod editor;
pub mod text;

pub use editor::{EditorModel, EditorState};
