//! The key chords the editor distinguishes and the actions its state
//! machine can ask its caller to carry out.

use vstd::prelude::*;

verus! {

/// One decoded keypress. Modifier policy is already applied by the caller:
/// a chord the keymap does not bind arrives as `Other`.
#[derive(Clone, Copy, PartialEq, Eq, Debug)]
pub enum Key {
    CtrlQ,
    CtrlS,
    ArrowUp,
    ArrowDown,
    ArrowLeft,
    ArrowRight,
    Home,
    End,
    PageUp,
    PageDown,
    Enter,
    Backspace,
    Delete,
    Escape,
    Tab,
    Char(char),
    Other,
}

/// A cursor movement direction of the viewport controller.
#[derive(Clone, Copy, PartialEq, Eq, Debug)]
pub enum Arrow {
    Up,
    Down,
    Left,
    Right,
    Home,
    End,
}

/// What the caller must do after a keypress has been dispatched.
#[derive(Clone, Copy, PartialEq, Eq, Debug)]
pub enum Action {
    /// Render the next frame and read the next key.
    Continue,
    /// Leave the editor loop.
    Quit,
    /// Write the serialized buffer to the current filename, then report
    /// the outcome back to the editor.
    Save,
}

} // verus!
