//! The editor state machine: the buffer, the cursor controller, the status
//! message, the unsaved-changes counter, the quit guard, and the Save-As
//! prompt. Each keypress is dispatched by `process_key`, which mutates the
//! state and tells the caller whether to keep going, save, or quit.

use vstd::prelude::*;
use crate::cursor::{CursorController, moved};
use crate::keys::{Action, Arrow, Key};
use crate::row::TAB_STOP;
use crate::rows::{EditorRows, file_lines, join_rows};
use crate::status::StatusMessage;
use crate::text::{append_chars, append_str, chars_of_str, dec_chars, dec_of};

verus! {

/// How many extra Ctrl-Q presses an unsaved buffer demands before quitting.
pub const QUIT_TIMES: u8 = 3;

/// The initial help notice.
pub open spec fn help_msg() -> Seq<char> {
    "HELP: Ctrl-S to Save | Ctrl-Q to Quit "@
}

/// The notice shown when the Save-As prompt is cancelled.
pub open spec fn aborted_msg() -> Seq<char> {
    "Save Aborted"@
}

/// The quit warning showing how many more Ctrl-Q presses are needed.
pub open spec fn warn_msg(quit_times: nat) -> Seq<char> {
    "WARNING!!! File has unsaved changes. Press Ctrl-Q "@ + dec_chars(quit_times)
        + " more times to quit."@
}

/// The notice confirming how many bytes a save wrote.
pub open spec fn saved_msg(n: nat) -> Seq<char> {
    dec_chars(n) + " bytes written to disk"@
}

/// The Save-As prompt line around the scratch input typed so far.
pub open spec fn prompt_msg(scratch: Seq<char>) -> Seq<char> {
    "Save as : "@ + scratch + " (ESC to cancel)"@
}

/// The mathematical core of the editor: row contents, logical cursor, and
/// the unsaved-changes counter.
#[verifier::ext_equal]
pub ghost struct EdState {
    pub rows: Seq<Seq<char>>,
    pub cy: nat,
    pub cx: nat,
    pub dirty: nat,
}

/// One more recorded mutation; the counter sticks at its maximum rather
/// than wrapping back to "clean".
pub open spec fn bump(d: nat) -> nat {
    if d < u64::MAX {
        (d + 1) as nat
    } else {
        d
    }
}

/// Inserting a character: typing on the virtual row past the end first
/// appends an empty row, then the character lands before the cursor column
/// and the cursor moves one column right.
pub open spec fn insert_char_t(s: EdState, ch: char) -> EdState {
    let grown = if s.cy == s.rows.len() {
        EdState { rows: s.rows.push(Seq::empty()), cy: s.cy, cx: s.cx, dirty: bump(s.dirty) }
    } else {
        s
    };
    EdState {
        rows: grown.rows.update(
            grown.cy as int,
            grown.rows[grown.cy as int].insert(grown.cx as int, ch),
        ),
        cy: grown.cy,
        cx: grown.cx + 1,
        dirty: bump(grown.dirty),
    }
}

/// Deleting backwards: a no-op past the last row or at the very origin;
/// within a row it removes the character left of the cursor; at column 0
/// it joins the row into its predecessor and parks the cursor at the seam.
pub open spec fn delete_char_t(s: EdState) -> EdState {
    if s.cy == s.rows.len() || (s.cy == 0 && s.cx == 0) {
        s
    } else if s.cx > 0 {
        EdState {
            rows: s.rows.update(s.cy as int, s.rows[s.cy as int].remove(s.cx - 1)),
            cy: s.cy,
            cx: (s.cx - 1) as nat,
            dirty: bump(s.dirty),
        }
    } else {
        EdState {
            rows: s.rows.update(s.cy - 1, s.rows[s.cy - 1] + s.rows[s.cy as int]).remove(
                s.cy as int,
            ),
            cy: (s.cy - 1) as nat,
            cx: s.rows[s.cy - 1].len(),
            dirty: bump(s.dirty),
        }
    }
}

/// Breaking the line at the cursor: at column 0 an empty row appears above;
/// otherwise the row keeps its prefix and the suffix becomes the next row.
/// The cursor moves to the start of the following row.
pub open spec fn insert_newline_t(s: EdState) -> EdState {
    let rows1 = if s.cx == 0 {
        s.rows.insert(s.cy as int, Seq::<char>::empty())
    } else {
        s.rows.update(s.cy as int, s.rows[s.cy as int].take(s.cx as int)).insert(
            s.cy + 1 as int,
            s.rows[s.cy as int].skip(s.cx as int),
        )
    };
    EdState { rows: rows1, cy: s.cy + 1, cx: 0, dirty: bump(s.dirty) }
}

/// `k` repetitions of one movement command.
pub open spec fn repeat_move(cy: nat, cx: nat, dir: Arrow, rows: Seq<Seq<char>>, k: nat) -> (
    nat,
    nat,
)
    decreases k,
{
    if k == 0 {
        (cy, cx)
    } else {
        let (py, px) = repeat_move(cy, cx, dir, rows, (k - 1) as nat);
        moved(py, px, dir, rows)
    }
}

/// One more recorded mutation, saturating instead of wrapping.
pub fn bump_dirty(d: u64) -> (r: u64)
    ensures
        r as nat == bump(d as nat),
{
    if d < u64::MAX {
        d + 1
    } else {
        d
    }
}

/// Builds the quit warning for the given remaining count.
fn make_warn_msg(quit_times: u8) -> (v: Vec<char>)
    ensures
        v@ == warn_msg(quit_times as nat),
{
    let mut v = chars_of_str("WARNING!!! File has unsaved changes. Press Ctrl-Q ");
    let d = dec_of(quit_times as usize);
    append_chars(&mut v, &d);
    append_str(&mut v, " more times to quit.");
    proof {
        assert(v@ =~= warn_msg(quit_times as nat));
    }
    v
}

/// Builds the saved-bytes notice.
fn make_saved_msg(n: usize) -> (v: Vec<char>)
    ensures
        v@ == saved_msg(n as nat),
{
    let mut v = dec_of(n);
    append_str(&mut v, " bytes written to disk");
    v
}

/// Builds the Save-As prompt line around the scratch typed so far.
fn make_prompt_msg(scratch: &Vec<char>) -> (v: Vec<char>)
    ensures
        v@ == prompt_msg(scratch@),
{
    let mut v = chars_of_str("Save as : ");
    append_chars(&mut v, scratch);
    append_str(&mut v, " (ESC to cancel)");
    proof {
        assert(v@ =~= prompt_msg(scratch@));
    }
    v
}

/// The whole editor.
pub struct Editor {
    pub rows: EditorRows,
    pub cursor: CursorController,
    pub status: StatusMessage,
    pub dirty: u64,
    pub quit_times: u8,
    pub prompt: Option<Vec<char>>,
}

impl Editor {
    /// The editor invariant: a well-formed buffer, a cursor within it, and
    /// a usable text area.
    pub open spec fn wf(self) -> bool {
        &&& self.rows.wf()
        &&& self.cursor.in_bounds(self.rows.contents())
        &&& self.cursor.screen_rows >= 1
        &&& self.cursor.screen_columns >= 1
        &&& self.quit_times <= QUIT_TIMES
    }

    /// The editor's mathematical core.
    pub open spec fn st(self) -> EdState {
        EdState {
            rows: self.rows.contents(),
            cy: self.cursor.cursor_y as nat,
            cx: self.cursor.cursor_x as nat,
            dirty: self.dirty as nat,
        }
    }

    /// The screen geometry and scroll state of the viewport is untouched.
    pub open spec fn view_unchanged(pre: Editor, post: Editor) -> bool {
        &&& post.cursor.screen_rows == pre.cursor.screen_rows
        &&& post.cursor.screen_columns == pre.cursor.screen_columns
        &&& post.cursor.row_offset == pre.cursor.row_offset
        &&& post.cursor.column_offset == pre.cursor.column_offset
        &&& post.cursor.render_x == pre.cursor.render_x
    }

    /// Status message, quit counter, prompt and filename are untouched.
    pub open spec fn ui_unchanged(pre: Editor, post: Editor) -> bool {
        &&& post.status == pre.status
        &&& post.quit_times == pre.quit_times
        &&& post.prompt == pre.prompt
        &&& post.rows.filename == pre.rows.filename
    }

    /// A fresh editor for a text area of the given size, empty or loaded
    /// from a file's name and text, showing the help notice.
    pub fn start(
        screen_columns: usize,
        screen_rows: usize,
        file: Option<(Vec<char>, Vec<char>)>,
        now: u64,
    ) -> (e: Editor)
        requires
            screen_rows >= 1,
            screen_columns >= 1,
        ensures
            e.wf(),
            e.cursor.cursor_x == 0 && e.cursor.cursor_y == 0,
            e.cursor.row_offset == 0 && e.cursor.column_offset == 0 && e.cursor.render_x == 0,
            e.cursor.screen_rows == screen_rows,
            e.cursor.screen_columns == screen_columns,
            match file {
                None => e.rows.contents() == Seq::<Seq<char>>::empty() && e.rows.filename is None,
                Some(f) => e.rows.contents() == file_lines(f.1@) && e.rows.filename == Some(f.0),
            },
            e.dirty == 0,
            e.quit_times == QUIT_TIMES,
            e.prompt is None,
            e.status.text matches Some(m) && m@ == help_msg(),
            e.status.set_time == Some(now),
    {
        let rows = match file {
            None => EditorRows::new_empty(),
            Some((name, text)) => EditorRows::from_text(name, &text),
        };
        let help = chars_of_str("HELP: Ctrl-S to Save | Ctrl-Q to Quit ");
        Editor {
            rows,
            cursor: CursorController::start(screen_columns, screen_rows),
            status: StatusMessage::start(help, now),
            dirty: 0,
            quit_times: QUIT_TIMES,
            prompt: None,
        }
    }

    /// Inserts `ch` at the cursor, creating the row under the cursor first
    /// when the cursor sits past the last row.
    pub fn insert_char(&mut self, ch: char)
        requires
            old(self).wf(),
            ch != '\n',
        ensures
            final(self).wf(),
            final(self).st() == insert_char_t(old(self).st(), ch),
            Editor::view_unchanged(*old(self), *final(self)),
            Editor::ui_unchanged(*old(self), *final(self)),
    {
        if self.cursor.cursor_y == self.rows.number_of_rows() {
            let n = self.rows.number_of_rows();
            self.rows.insert_row(n, Vec::new());
            self.dirty = bump_dirty(self.dirty);
            proof {
                assert(self.rows.contents() =~= old(self).rows.contents().push(
                    Seq::<char>::empty(),
                ));
            }
        }
        self.rows.insert_char_at(self.cursor.cursor_y, self.cursor.cursor_x, ch);
        let row_len = self.rows.get_row(self.cursor.cursor_y).len();
        proof {
            assert(self.cursor.cursor_x < row_len);
        }
        self.cursor.cursor_x = self.cursor.cursor_x + 1;
        self.dirty = bump_dirty(self.dirty);
        proof {
            assert(self.st() =~~= insert_char_t(old(self).st(), ch));
        }
    }

    /// Breaks the current line at the cursor and moves to the start of the
    /// row below.
    pub fn insert_newline(&mut self)
        requires
            old(self).wf(),
        ensures
            final(self).wf(),
            final(self).st() == insert_newline_t(old(self).st()),
            Editor::view_unchanged(*old(self), *final(self)),
            Editor::ui_unchanged(*old(self), *final(self)),
    {
        if self.cursor.cursor_x == 0 {
            self.rows.insert_row(self.cursor.cursor_y, Vec::new());
        } else {
            self.rows.split_row(self.cursor.cursor_y, self.cursor.cursor_x);
        }
        let n = self.rows.number_of_rows();
        self.cursor.cursor_x = 0;
        self.cursor.cursor_y = self.cursor.cursor_y + 1;
        self.dirty = bump_dirty(self.dirty);
        proof {
            assert(self.st() =~~= insert_newline_t(old(self).st()));
        }
    }

    /// Deletes backwards at the cursor: the character left of it, or, at
    /// the start of a row, the line break above.
    pub fn delete_char(&mut self)
        requires
            old(self).wf(),
        ensures
            final(self).wf(),
            final(self).st() == delete_char_t(old(self).st()),
            Editor::view_unchanged(*old(self), *final(self)),
            Editor::ui_unchanged(*old(self), *final(self)),
    {
        if self.cursor.cursor_y == self.rows.number_of_rows() {
            return ;
        }
        if self.cursor.cursor_y == 0 && self.cursor.cursor_x == 0 {
            return ;
        }
        if self.cursor.cursor_x > 0 {
            self.rows.delete_char_at(self.cursor.cursor_y, self.cursor.cursor_x - 1);
            self.cursor.cursor_x = self.cursor.cursor_x - 1;
        } else {
            let prev_len = self.rows.get_row(self.cursor.cursor_y - 1).len();
            self.cursor.cursor_x = prev_len;
            self.rows.join_adjacent_rows(self.cursor.cursor_y);
            self.cursor.cursor_y = self.cursor.cursor_y - 1;
        }
        self.dirty = bump_dirty(self.dirty);
        proof {
            assert(self.st() =~~= delete_char_t(old(self).st()));
        }
    }

    /// The buffer, cursor position and dirty counter follow transition `t`,
    /// nothing else changes, and the quit guard rearms.
    pub open spec fn edit_applied(pre: Editor, post: Editor, t: EdState) -> bool {
        &&& post.st() == t
        &&& post.rows.filename == pre.rows.filename
        &&& post.status == pre.status
        &&& post.prompt is None
        &&& post.quit_times == QUIT_TIMES
    }

    /// Only the cursor position changed, by one movement command, and the
    /// quit guard rearms.
    pub open spec fn cursor_moved(pre: Editor, post: Editor, dir: Arrow) -> bool {
        &&& post.rows == pre.rows
        &&& (post.cursor.cursor_y as nat, post.cursor.cursor_x as nat) == moved(
            pre.cursor.cursor_y as nat,
            pre.cursor.cursor_x as nat,
            dir,
            pre.rows.contents(),
        )
        &&& post.dirty == pre.dirty
        &&& post.status == pre.status
        &&& post.prompt is None
        &&& post.quit_times == QUIT_TIMES
    }

    /// Nothing changed but the quit guard, which rearms.
    pub open spec fn idled(pre: Editor, post: Editor) -> bool {
        &&& post.rows == pre.rows
        &&& post.cursor == pre.cursor
        &&& post.dirty == pre.dirty
        &&& post.status == pre.status
        &&& post.prompt is None
        &&& post.quit_times == QUIT_TIMES
    }

    /// Nothing at all changed.
    pub open spec fn untouched(pre: Editor, post: Editor) -> bool {
        &&& post.rows == pre.rows
        &&& post.cursor == pre.cursor
        &&& post.status == pre.status
        &&& post.dirty == pre.dirty
        &&& post.quit_times == pre.quit_times
        &&& post.prompt == pre.prompt
    }

    /// What one keypress does when no prompt is open. `pre` and `post` are
    /// the editor before and after, `now` the time the key arrived.
    pub open spec fn normal_step(pre: Editor, post: Editor, key: Key, now: u64, act: Action) -> bool {
        match key {
            Key::CtrlQ => if pre.dirty > 0 && pre.quit_times > 0 {
                &&& post.st() == pre.st()
                &&& post.rows.filename == pre.rows.filename
                &&& post.cursor == pre.cursor
                &&& post.status.text matches Some(m) && m@ == warn_msg(pre.quit_times as nat)
                &&& post.status.set_time == Some(now)
                &&& post.quit_times == pre.quit_times - 1
                &&& post.prompt is None
                &&& act == Action::Continue
            } else {
                &&& Editor::untouched(pre, post)
                &&& act == Action::Quit
            },
            Key::ArrowUp => Editor::cursor_moved(pre, post, Arrow::Up) && act == Action::Continue,
            Key::ArrowDown => Editor::cursor_moved(pre, post, Arrow::Down) && act
                == Action::Continue,
            Key::ArrowLeft => Editor::cursor_moved(pre, post, Arrow::Left) && act
                == Action::Continue,
            Key::ArrowRight => Editor::cursor_moved(pre, post, Arrow::Right) && act
                == Action::Continue,
            Key::Home => Editor::cursor_moved(pre, post, Arrow::Home) && act == Action::Continue,
            Key::End => Editor::cursor_moved(pre, post, Arrow::End) && act == Action::Continue,
            Key::PageUp => {
                &&& post.rows == pre.rows
                &&& (post.cursor.cursor_y as nat, post.cursor.cursor_x as nat) == repeat_move(
                    pre.cursor.row_offset as nat,
                    pre.cursor.cursor_x as nat,
                    Arrow::Up,
                    pre.rows.contents(),
                    pre.cursor.screen_rows as nat,
                )
                &&& post.dirty == pre.dirty
                &&& post.status == pre.status
                &&& post.prompt is None
                &&& post.quit_times == QUIT_TIMES
                &&& act == Action::Continue
            },
            Key::PageDown => {
                let n = pre.rows.contents().len();
                let target = if pre.cursor.row_offset + pre.cursor.screen_rows - 1 <= n {
                    (pre.cursor.row_offset + pre.cursor.screen_rows - 1) as nat
                } else {
                    n
                };
                &&& post.rows == pre.rows
                &&& (post.cursor.cursor_y as nat, post.cursor.cursor_x as nat) == repeat_move(
                    target,
                    pre.cursor.cursor_x as nat,
                    Arrow::Down,
                    pre.rows.contents(),
                    pre.cursor.screen_rows as nat,
                )
                &&& post.dirty == pre.dirty
                &&& post.status == pre.status
                &&& post.prompt is None
                &&& post.quit_times == QUIT_TIMES
                &&& act == Action::Continue
            },
            Key::CtrlS => match pre.rows.filename {
                None => {
                    &&& post.st() == pre.st()
                    &&& post.cursor == pre.cursor
                    &&& post.rows.filename is None
                    &&& post.prompt matches Some(s) && s@ == Seq::<char>::empty()
                    &&& post.status.text matches Some(m) && m@ == prompt_msg(Seq::empty())
                    &&& post.status.set_time == Some(now)
                    &&& post.quit_times == QUIT_TIMES
                    &&& act == Action::Continue
                },
                Some(_) => {
                    &&& post.rows == pre.rows
                    &&& post.cursor == pre.cursor
                    &&& post.status == pre.status
                    &&& post.dirty == pre.dirty
                    &&& post.prompt is None
                    &&& post.quit_times == QUIT_TIMES
                    &&& act == Action::Save
                },
            },
            Key::Enter => Editor::edit_applied(pre, post, insert_newline_t(pre.st())) && act
                == Action::Continue,
            Key::Backspace => Editor::edit_applied(pre, post, delete_char_t(pre.st())) && act
                == Action::Continue,
            Key::Delete => {
                let m = moved(
                    pre.cursor.cursor_y as nat,
                    pre.cursor.cursor_x as nat,
                    Arrow::Right,
                    pre.rows.contents(),
                );
                let mid = EdState {
                    rows: pre.rows.contents(),
                    cy: m.0,
                    cx: m.1,
                    dirty: pre.dirty as nat,
                };
                Editor::edit_applied(pre, post, delete_char_t(mid)) && act == Action::Continue
            },
            Key::Tab => Editor::edit_applied(pre, post, insert_char_t(pre.st(), '\t')) && act
                == Action::Continue,
            Key::Char(c) => if c != '\n' {
                Editor::edit_applied(pre, post, insert_char_t(pre.st(), c)) && act
                    == Action::Continue
            } else {
                Editor::idled(pre, post) && act == Action::Continue
            },
            Key::Escape | Key::Other => Editor::idled(pre, post) && act == Action::Continue,
        }
    }

    /// The prompt stays open showing scratch input `scratch2`; the quit
    /// guard rearms (the keypress is a non-quit dispatch) and nothing else
    /// of the editor changes.
    pub open spec fn prompt_refreshed(
        pre: Editor,
        post: Editor,
        scratch2: Seq<char>,
        now: u64,
    ) -> bool {
        &&& post.rows == pre.rows
        &&& post.cursor == pre.cursor
        &&& post.dirty == pre.dirty
        &&& post.quit_times == QUIT_TIMES
        &&& post.prompt matches Some(s) && s@ == scratch2
        &&& post.status.text matches Some(m) && m@ == prompt_msg(scratch2)
        &&& post.status.set_time == Some(now)
    }

    /// What one keypress does while the Save-As prompt is open with scratch
    /// input `scr`.
    pub open spec fn prompt_step(
        pre: Editor,
        post: Editor,
        scr: Vec<char>,
        key: Key,
        now: u64,
        act: Action,
    ) -> bool {
        match key {
            Key::Enter => if scr@.len() > 0 {
                &&& post.rows.contents() == pre.rows.contents()
                &&& post.rows.filename == Some(scr)
                &&& post.cursor == pre.cursor
                &&& post.dirty == pre.dirty
                &&& post.quit_times == QUIT_TIMES
                &&& post.prompt is None
                &&& post.status.text matches Some(m) && m@ == Seq::<char>::empty()
                &&& post.status.set_time == Some(now)
                &&& act == Action::Save
            } else {
                Editor::prompt_refreshed(pre, post, scr@, now) && act == Action::Continue
            },
            Key::Escape => {
                &&& post.rows == pre.rows
                &&& post.cursor == pre.cursor
                &&& post.dirty == pre.dirty
                &&& post.quit_times == QUIT_TIMES
                &&& post.prompt is None
                &&& post.status.text matches Some(m) && m@ == aborted_msg()
                &&& post.status.set_time == Some(now)
                &&& act == Action::Continue
            },
            Key::Backspace | Key::Delete => {
                let shrunk = if scr@.len() > 0 {
                    scr@.drop_last()
                } else {
                    scr@
                };
                Editor::prompt_refreshed(pre, post, shrunk, now) && act == Action::Continue
            },
            Key::Tab => Editor::prompt_refreshed(pre, post, scr@.push('\t'), now) && act
                == Action::Continue,
            Key::Char(c) => Editor::prompt_refreshed(pre, post, scr@.push(c), now) && act
                == Action::Continue,
            _ => Editor::prompt_refreshed(pre, post, scr@, now) && act == Action::Continue,
        }
    }

    /// Dispatches one keypress: edits the buffer, moves the cursor, runs
    /// the quit guard and the Save-As prompt, and reports what the caller
    /// must do next. The caller renders a frame (which scrolls) before each
    /// keypress, so the top of the viewport is at or above the cursor row.
    pub fn process_key(&mut self, key: Key, now: u64) -> (act: Action)
        requires
            old(self).wf(),
            old(self).cursor.row_offset <= old(self).cursor.cursor_y,
        ensures
            final(self).wf(),
            Editor::view_unchanged(*old(self), *final(self)),
            old(self).prompt is None ==> Editor::normal_step(
                *old(self),
                *final(self),
                key,
                now,
                act,
            ),
            old(self).prompt matches Some(scr) ==> Editor::prompt_step(
                *old(self),
                *final(self),
                scr,
                key,
                now,
                act,
            ),
    {
        let taken = self.prompt.take();
        if let Some(mut scr) = taken {
            self.quit_times = QUIT_TIMES;
            match key {
                Key::Enter => {
                    if scr.len() > 0 {
                        self.rows.filename = Some(scr);
                        self.status.set_message(Vec::new(), now);
                        Action::Save
                    } else {
                        let m = make_prompt_msg(&scr);
                        self.status.set_message(m, now);
                        self.prompt = Some(scr);
                        Action::Continue
                    }
                },
                Key::Escape => {
                    let m = chars_of_str("Save Aborted");
                    self.status.set_message(m, now);
                    Action::Continue
                },
                Key::Backspace | Key::Delete => {
                    if scr.len() > 0 {
                        scr.truncate(scr.len() - 1);
                        proof {
                            assert(scr@ =~= old(self).prompt->0@.drop_last());
                        }
                    }
                    let m = make_prompt_msg(&scr);
                    self.status.set_message(m, now);
                    self.prompt = Some(scr);
                    Action::Continue
                },
                Key::Tab => {
                    scr.push('\t');
                    let m = make_prompt_msg(&scr);
                    self.status.set_message(m, now);
                    self.prompt = Some(scr);
                    Action::Continue
                },
                Key::Char(c) => {
                    scr.push(c);
                    let m = make_prompt_msg(&scr);
                    self.status.set_message(m, now);
                    self.prompt = Some(scr);
                    Action::Continue
                },
                _ => {
                    let m = make_prompt_msg(&scr);
                    self.status.set_message(m, now);
                    self.prompt = Some(scr);
                    Action::Continue
                },
            }
        } else {
            match key {
                Key::CtrlQ => {
                    if self.dirty > 0 && self.quit_times > 0 {
                        let m = make_warn_msg(self.quit_times);
                        self.status.set_message(m, now);
                        self.quit_times = self.quit_times - 1;
                        Action::Continue
                    } else {
                        Action::Quit
                    }
                },
                Key::ArrowUp => {
                    self.cursor.move_cursor(Arrow::Up, &self.rows);
                    self.quit_times = QUIT_TIMES;
                    Action::Continue
                },
                Key::ArrowDown => {
                    self.cursor.move_cursor(Arrow::Down, &self.rows);
                    self.quit_times = QUIT_TIMES;
                    Action::Continue
                },
                Key::ArrowLeft => {
                    self.cursor.move_cursor(Arrow::Left, &self.rows);
                    self.quit_times = QUIT_TIMES;
                    Action::Continue
                },
                Key::ArrowRight => {
                    self.cursor.move_cursor(Arrow::Right, &self.rows);
                    self.quit_times = QUIT_TIMES;
                    Action::Continue
                },
                Key::Home => {
                    self.cursor.move_cursor(Arrow::Home, &self.rows);
                    self.quit_times = QUIT_TIMES;
                    Action::Continue
                },
                Key::End => {
                    self.cursor.move_cursor(Arrow::End, &self.rows);
                    self.quit_times = QUIT_TIMES;
                    Action::Continue
                },
                Key::PageUp => {
                    self.cursor.cursor_y = self.cursor.row_offset;
                    self.page_moves(Arrow::Up);
                    self.quit_times = QUIT_TIMES;
                    Action::Continue
                },
                Key::PageDown => {
                    let n = self.rows.number_of_rows();
                    let reach = self.cursor.screen_rows - 1;
                    self.cursor.cursor_y = if reach <= n - self.cursor.row_offset {
                        self.cursor.row_offset + reach
                    } else {
                        n
                    };
                    self.page_moves(Arrow::Down);
                    self.quit_times = QUIT_TIMES;
                    Action::Continue
                },
                Key::CtrlS => {
                    self.quit_times = QUIT_TIMES;
                    if self.rows.filename.is_none() {
                        let scr: Vec<char> = Vec::new();
                        let m = make_prompt_msg(&scr);
                        self.status.set_message(m, now);
                        self.prompt = Some(scr);
                        Action::Continue
                    } else {
                        Action::Save
                    }
                },
                Key::Enter => {
                    self.insert_newline();
                    self.quit_times = QUIT_TIMES;
                    Action::Continue
                },
                Key::Backspace => {
                    self.delete_char();
                    self.quit_times = QUIT_TIMES;
                    Action::Continue
                },
                Key::Delete => {
                    self.cursor.move_cursor(Arrow::Right, &self.rows);
                    self.delete_char();
                    self.quit_times = QUIT_TIMES;
                    Action::Continue
                },
                Key::Tab => {
                    self.insert_char('\t');
                    self.quit_times = QUIT_TIMES;
                    Action::Continue
                },
                Key::Char(c) => {
                    if c != '\n' {
                        self.insert_char(c);
                    }
                    self.quit_times = QUIT_TIMES;
                    Action::Continue
                },
                Key::Escape | Key::Other => {
                    self.quit_times = QUIT_TIMES;
                    Action::Continue
                },
            }
        }
    }

    /// Repeats one movement command once per screen row, as the page keys
    /// do to trigger scrolling through the normal path.
    fn page_moves(&mut self, dir: Arrow)
        requires
            old(self).rows.wf(),
            old(self).cursor.cursor_y <= old(self).rows.contents().len(),
            old(self).cursor.screen_rows >= 1,
            old(self).cursor.screen_columns >= 1,
            old(self).quit_times <= QUIT_TIMES,
        ensures
            final(self).wf(),
            (final(self).cursor.cursor_y as nat, final(self).cursor.cursor_x as nat)
                == repeat_move(
                old(self).cursor.cursor_y as nat,
                old(self).cursor.cursor_x as nat,
                dir,
                old(self).rows.contents(),
                old(self).cursor.screen_rows as nat,
            ),
            final(self).rows == old(self).rows,
            final(self).status == old(self).status,
            final(self).dirty == old(self).dirty,
            final(self).quit_times == old(self).quit_times,
            final(self).prompt == old(self).prompt,
            Editor::view_unchanged(*old(self), *final(self)),
    {
        let steps = self.cursor.screen_rows;
        let mut k: usize = 0;
        while k < steps
            invariant
                k <= steps,
                self.rows == old(self).rows,
                self.status == old(self).status,
                self.dirty == old(self).dirty,
                self.quit_times == old(self).quit_times,
                self.prompt == old(self).prompt,
                self.rows.wf(),
                self.cursor.cursor_y <= self.rows.contents().len(),
                (self.cursor.cursor_y as nat, self.cursor.cursor_x as nat) == repeat_move(
                    old(self).cursor.cursor_y as nat,
                    old(self).cursor.cursor_x as nat,
                    dir,
                    old(self).rows.contents(),
                    k as nat,
                ),
                self.cursor.screen_rows == old(self).cursor.screen_rows,
                self.cursor.screen_columns == old(self).cursor.screen_columns,
                self.cursor.row_offset == old(self).cursor.row_offset,
                self.cursor.column_offset == old(self).cursor.column_offset,
                self.cursor.render_x == old(self).cursor.render_x,
                k > 0 ==> self.cursor.in_bounds(self.rows.contents()),
            decreases steps - k,
        {
            self.cursor.move_cursor(dir, &self.rows);
            k += 1;
        }
        proof {
            if steps == 0 {
            } else {
                assert(self.cursor.in_bounds(self.rows.contents()));
            }
        }
    }

    /// The serialized buffer, as written on save.
    pub fn serialize(&self) -> (out: Vec<char>)
        ensures
            out@ == join_rows(self.rows.contents()),
    {
        self.rows.serialize()
    }

    /// Records a successful save of `bytes_written` bytes: the buffer is
    /// clean again, the quit guard rearms, and the status bar reports the
    /// byte count.
    pub fn note_saved(&mut self, bytes_written: usize, now: u64)
        requires
            old(self).wf(),
        ensures
            final(self).wf(),
            final(self).dirty == 0,
            final(self).quit_times == QUIT_TIMES,
            final(self).status.text matches Some(m) && m@ == saved_msg(bytes_written as nat),
            final(self).status.set_time == Some(now),
            final(self).rows == old(self).rows,
            final(self).cursor == old(self).cursor,
            final(self).prompt == old(self).prompt,
    {
        let msg = make_saved_msg(bytes_written);
        self.status.set_message(msg, now);
        self.dirty = 0;
        self.quit_times = QUIT_TIMES;
    }
}

} // verus!
