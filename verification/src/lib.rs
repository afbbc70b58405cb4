//! A minimalist full-screen text editor core: an edit buffer of rows kept in
//! lockstep with their tab-expanded rendered form, a cursor and viewport
//! controller, and a keystroke-driven state machine that edits the buffer,
//! tracks unsaved changes, and composes each display frame as plain data.
//! Terminal control and file I/O live outside this crate.

pub mod cursor;
pub mod editor;
pub mod frame;
pub mod keys;
pub mod laws;
pub mod row;
pub mod rows;
pub mod status;
pub mod text;
