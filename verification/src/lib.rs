//! Core of a small terminal text editor: a line buffer addressed by
//! scalar-value coordinates, a cursor and viewport that follow every edit,
//! and the pure text of each frame (rows, status bar, message bar).
//!
//! Terminal I/O lives outside this crate; everything here is verified.

pub mod document;
pub mod editor;
pub mod key;
pub mod laws;
pub mod position;
pub mod row;
pub mod screen;

pub use document::Document;
pub use editor::Editor;
pub use key::Key;
pub use key::Size;
pub use position::Position;
pub use row::Row;
