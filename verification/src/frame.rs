//! Frame composition: one display frame as plain data. The text area lines
//! (tab-expanded, scrolled and truncated), the status bar, the message bar,
//! and where the terminal cursor goes. The caller turns this into terminal
//! control sequences and one write.

use vstd::prelude::*;
use crate::cursor::{render_col, scrolled_offset};
use crate::editor::Editor;
use crate::row::{render_of, spaces};
use crate::status::StatusMessage;
use crate::text::{append_chars, append_str, chars_of_str, copy_range, dec_chars, dec_of};

verus! {

/// The welcome banner shown in an empty buffer.
pub open spec fn welcome_text() -> Seq<char> {
    "Editor for Juspay Round_B 1.0"@
}

/// The banner line: the text truncated to the screen width and centered
/// behind a tilde whenever there is room to pad at all.
pub open spec fn welcome_line(cols: nat) -> Seq<char> {
    let wt = welcome_text();
    let w = if wt.len() <= cols {
        wt
    } else {
        wt.take(cols as int)
    };
    let padding = ((cols - w.len()) / 2) as nat;
    if padding == 0 {
        w
    } else {
        seq!['~'] + spaces((padding - 1) as nat) + w
    }
}

/// The part of a rendered row that is on screen: skip `off` columns, show
/// at most `cols`. A row that ends left of the viewport shows nothing.
pub open spec fn visible_slice(r: Seq<char>, off: nat, cols: nat) -> Seq<char> {
    if off >= r.len() {
        Seq::empty()
    } else if r.len() - off <= cols {
        r.subrange(off as int, r.len() as int)
    } else {
        r.subrange(off as int, (off + cols) as int)
    }
}

/// Screen line `i` of the text area: a visible slice of the rendered row
/// scrolled into it, a tilde below the end of the buffer, and the welcome
/// banner a third of the way down an empty buffer.
pub open spec fn frame_line(
    contents: Seq<Seq<char>>,
    ro: nat,
    co: nat,
    sr: nat,
    cols: nat,
    i: nat,
) -> Seq<char> {
    if i + ro >= contents.len() {
        if contents.len() == 0 && i == sr / 3 {
            welcome_line(cols)
        } else {
            seq!['~']
        }
    } else {
        visible_slice(render_of(contents[(i + ro) as int]), co, cols)
    }
}

/// A path with its trailing slashes removed; the status bar ignores them
/// when it names the file.
pub open spec fn strip_trailing_slashes(s: Seq<char>) -> Seq<char>
    decreases s.len(),
{
    if s.len() > 0 && s.last() == '/' {
        strip_trailing_slashes(s.drop_last())
    } else {
        s
    }
}

/// What follows the last slash of a path.
pub open spec fn last_component(s: Seq<char>) -> Seq<char>
    decreases s.len(),
{
    if s.len() == 0 {
        Seq::empty()
    } else if s.last() == '/' {
        Seq::empty()
    } else {
        last_component(s.drop_last()).push(s.last())
    }
}

/// The filename as shown in the status bar: the last path component, with
/// trailing slashes ignored. Empty when the path has no component at all.
pub open spec fn basename(s: Seq<char>) -> Seq<char> {
    last_component(strip_trailing_slashes(s))
}

/// The status bar layout: the left text truncated to the width, then
/// spaces, then the right text placed so it ends at the last column; the
/// right text is dropped when it does not fit.
pub open spec fn bar_layout(info: Seq<char>, right: Seq<char>, cols: nat) -> Seq<char> {
    let il = if info.len() <= cols {
        info.len()
    } else {
        cols
    };
    if il + right.len() <= cols {
        info.take(il as int) + spaces((cols - right.len() - il) as nat) + right
    } else {
        info.take(il as int) + spaces((cols - il) as nat)
    }
}

/// The whole status bar of an editor state: name (or a placeholder), a
/// modified marker, the line count on the left; `current/total` on the
/// right.
pub open spec fn status_bar_view(e: Editor) -> Seq<char> {
    let n = e.rows.contents().len();
    let name = match e.rows.filename {
        Some(f) => if basename(f@).len() == 0 {
            "[Unknown file]"@
        } else {
            basename(f@)
        },
        None => "[Unknown file]"@,
    };
    let info = name + " "@ + (if e.dirty > 0 {
        "(modified)"@
    } else {
        Seq::<char>::empty()
    }) + " -- "@ + dec_chars(n) + " lines of code"@;
    let right = dec_chars((e.cursor.cursor_y + 1) as nat) + "/"@ + dec_chars(n);
    bar_layout(info, right, e.cursor.screen_columns as nat)
}

/// What the message bar shows: the status message truncated to the screen
/// width while it is visible, nothing afterwards.
pub open spec fn message_bar_view(s: StatusMessage, now: u64, cols: nat) -> Seq<char> {
    if s.visible(now) {
        let m = s.text->0@;
        if m.len() <= cols {
            m
        } else {
            m.take(cols as int)
        }
    } else {
        Seq::empty()
    }
}

/// Everything below the last slash of `last_component`'s argument is kept
/// verbatim; this turns the scan for the last slash into that spec.
proof fn lemma_last_component_cut(s: Seq<char>, cut: int)
    requires
        0 <= cut <= s.len(),
        forall|k: int| cut <= k < s.len() ==> s[k] != '/',
        cut == 0 || s[cut - 1] == '/',
    ensures
        last_component(s) == s.subrange(cut, s.len() as int),
    decreases s.len(),
{
    if cut == s.len() {
        if s.len() == 0 {
            assert(last_component(s) =~= s.subrange(cut, s.len() as int));
        } else {
            assert(s[cut - 1] == '/');
            assert(s.last() == '/');
            assert(last_component(s) =~= s.subrange(cut, s.len() as int));
        }
    } else {
        assert(s.last() != '/');
        let head = s.drop_last();
        assert forall|k: int| cut <= k < head.len() implies head[k] != '/' by {
            assert(head[k] == s[k]);
        }
        if cut > 0 {
            assert(head[cut - 1] == s[cut - 1]);
        }
        lemma_last_component_cut(head, cut);
        assert(last_component(s) == last_component(head).push(s.last()));
        assert(head.subrange(cut, head.len() as int).push(s.last()) =~= s.subrange(
            cut,
            s.len() as int,
        ));
    }
}

/// Finds the last path component of a filename, ignoring trailing slashes.
pub fn basename_of(f: &Vec<char>) -> (r: Vec<char>)
    ensures
        r@ == basename(f@),
{
    let mut end: usize = f.len();
    proof {
        assert(f@.take(f@.len() as int) =~= f@);
    }
    while end > 0 && f[end - 1] == '/'
        invariant
            end <= f@.len(),
            strip_trailing_slashes(f@) == strip_trailing_slashes(f@.take(end as int)),
        decreases end,
    {
        proof {
            let pre = f@.take(end as int);
            assert(pre.last() == f@[end - 1]);
            assert(pre.drop_last() =~= f@.take(end - 1));
        }
        end -= 1;
    }
    let ghost stripped = f@.take(end as int);
    proof {
        assert(strip_trailing_slashes(stripped) == stripped);
    }
    let mut cut: usize = 0;
    let mut j: usize = 0;
    while j < end
        invariant
            cut <= j <= end <= f@.len(),
            forall|k: int| cut <= k < j ==> f@[k] != '/',
            cut == 0 || f@[cut - 1] == '/',
        decreases end - j,
    {
        if f[j] == '/' {
            cut = j + 1;
        }
        j += 1;
    }
    proof {
        assert forall|k: int| cut <= k < stripped.len() implies stripped[k] != '/' by {
            assert(stripped[k] == f@[k]);
        }
        if cut > 0 {
            assert(stripped[cut - 1] == f@[cut - 1]);
        }
        lemma_last_component_cut(stripped, cut as int);
    }
    let r = copy_range(f, cut, end);
    proof {
        assert(r@ =~= stripped.subrange(cut as int, stripped.len() as int));
    }
    r
}

/// Pushes `n` spaces onto `v`.
fn push_spaces(v: &mut Vec<char>, n: usize)
    ensures
        final(v)@ == old(v)@ + spaces(n as nat),
{
    let ghost start = v@;
    let mut p: usize = 0;
    proof {
        assert(start + spaces(0) =~= start);
    }
    while p < n
        invariant
            p <= n,
            v@ == start + spaces(p as nat),
        decreases n - p,
    {
        v.push(' ');
        proof {
            assert(start + spaces((p + 1) as nat) =~= (start + spaces(p as nat)).push(' '));
        }
        p += 1;
    }
}

/// Builds the welcome banner line for a screen `cols` wide.
fn make_welcome_line(cols: usize) -> (line: Vec<char>)
    ensures
        line@ == welcome_line(cols as nat),
{
    let mut w = chars_of_str("Editor for Juspay Round_B 1.0");
    if w.len() > cols {
        w.truncate(cols);
        proof {
            assert(w@ =~= welcome_text().take(cols as int));
        }
    }
    let padding = (cols - w.len()) / 2;
    if padding > 0 {
        let mut line: Vec<char> = Vec::new();
        line.push('~');
        proof {
            assert(line@ =~= seq!['~'] + spaces(0));
        }
        push_spaces(&mut line, padding - 1);
        proof {
            assert((seq!['~'] + spaces(0)) + spaces((padding - 1) as nat) =~= seq!['~'] + spaces(
                (padding - 1) as nat,
            ));
        }
        append_chars(&mut line, &w);
        proof {
            assert(line@ =~= welcome_line(cols as nat));
        }
        line
    } else {
        w
    }
}

/// Lays the status bar out to exactly `cols` characters.
fn layout_bar(info: Vec<char>, right: &Vec<char>, cols: usize) -> (bar: Vec<char>)
    ensures
        bar@ == bar_layout(info@, right@, cols as nat),
{
    let ghost info0 = info@;
    let mut bar = info;
    if bar.len() > cols {
        bar.truncate(cols);
    }
    let il = bar.len();
    proof {
        assert(bar@ =~= info0.take(il as int));
    }
    if cols - il >= right.len() {
        push_spaces(&mut bar, cols - il - right.len());
        append_chars(&mut bar, right);
        proof {
            assert(bar@ =~= bar_layout(info0, right@, cols as nat));
        }
    } else {
        push_spaces(&mut bar, cols - il);
        proof {
            assert(bar@ =~= bar_layout(info0, right@, cols as nat));
        }
    }
    bar
}

/// One composed frame, ready to be painted.
pub struct Frame {
    /// The text area, one entry per screen row.
    pub lines: Vec<Vec<char>>,
    /// The status bar, exactly as wide as the screen.
    pub status_bar: Vec<char>,
    /// The message bar (possibly empty).
    pub message_bar: Vec<char>,
    /// The screen column the cursor goes to.
    pub cursor_col: usize,
    /// The screen row the cursor goes to.
    pub cursor_row: usize,
}

impl Editor {
    /// Scrolls the viewport to the cursor, expires the status message if
    /// it is older than five seconds, and composes the full frame.
    pub fn compose_frame(&mut self, now: u64) -> (f: Frame)
        requires
            old(self).wf(),
            old(self).cursor.cursor_y < usize::MAX,
        ensures
            final(self).wf(),
            final(self).st() == old(self).st(),
            final(self).rows == old(self).rows,
            final(self).prompt == old(self).prompt,
            final(self).quit_times == old(self).quit_times,
            final(self).dirty == old(self).dirty,
            final(self).cursor.cursor_x == old(self).cursor.cursor_x,
            final(self).cursor.cursor_y == old(self).cursor.cursor_y,
            final(self).cursor.screen_rows == old(self).cursor.screen_rows,
            final(self).cursor.screen_columns == old(self).cursor.screen_columns,
            final(self).cursor.render_x == if old(self).cursor.cursor_y
                < old(self).rows.contents().len() {
                render_col(
                    old(self).rows.contents()[old(self).cursor.cursor_y as int],
                    old(self).cursor.cursor_x as nat,
                )
            } else {
                0 as nat
            },
            final(self).cursor.row_offset == scrolled_offset(
                old(self).cursor.row_offset as nat,
                old(self).cursor.cursor_y as nat,
                old(self).cursor.screen_rows as nat,
            ),
            final(self).cursor.column_offset == scrolled_offset(
                old(self).cursor.column_offset as nat,
                final(self).cursor.render_x as nat,
                old(self).cursor.screen_columns as nat,
            ),
            final(self).cursor.row_offset <= final(self).cursor.cursor_y,
            final(self).cursor.cursor_y < final(self).cursor.row_offset + final(self).cursor.screen_rows,
            final(self).cursor.column_offset <= final(self).cursor.render_x,
            final(self).cursor.render_x < final(self).cursor.column_offset + final(self).cursor.screen_columns,
            old(self).status.visible(now) ==> final(self).status == old(self).status,
            !old(self).status.visible(now) ==> final(self).status.text is None && final(self).status.set_time is None,
            f.lines@.len() == final(self).cursor.screen_rows,
            forall|i: int|
                0 <= i < f.lines@.len() ==> (#[trigger] f.lines@[i])@ == frame_line(
                    final(self).rows.contents(),
                    final(self).cursor.row_offset as nat,
                    final(self).cursor.column_offset as nat,
                    final(self).cursor.screen_rows as nat,
                    final(self).cursor.screen_columns as nat,
                    i as nat,
                ),
            f.status_bar@ == status_bar_view(*final(self)),
            f.message_bar@ == message_bar_view(old(self).status, now, final(self).cursor.screen_columns as nat),
            f.cursor_row == final(self).cursor.cursor_y - final(self).cursor.row_offset,
            f.cursor_col == final(self).cursor.render_x - final(self).cursor.column_offset,
    {
        self.cursor.scroll(&self.rows);
        let n = self.rows.number_of_rows();
        let sr = self.cursor.screen_rows;
        let cols = self.cursor.screen_columns;
        let ro = self.cursor.row_offset;
        let co = self.cursor.column_offset;
        let mut lines: Vec<Vec<char>> = Vec::new();
        let mut i: usize = 0;
        while i < sr
            invariant
                i <= sr,
                lines@.len() == i,
                self.rows.wf(),
                n == self.rows.contents().len(),
                ro <= n,
                forall|j: int|
                    0 <= j < i ==> (#[trigger] lines@[j])@ == frame_line(
                        self.rows.contents(),
                        ro as nat,
                        co as nat,
                        sr as nat,
                        cols as nat,
                        j as nat,
                    ),
            decreases sr - i,
        {
            let line: Vec<char> = if i >= n - ro {
                if n == 0 && i == sr / 3 {
                    make_welcome_line(cols)
                } else {
                    let mut tilde: Vec<char> = Vec::new();
                    tilde.push('~');
                    proof {
                        assert(tilde@ =~= seq!['~']);
                    }
                    tilde
                }
            } else {
                let file_row = ro + i;
                let render = self.rows.get_render(file_row);
                proof {
                    assert(self.rows.rows@[file_row as int].wf());
                    assert(render@ == render_of(self.rows.contents()[file_row as int]));
                }
                if co >= render.len() {
                    let empty_line: Vec<char> = Vec::new();
                    proof {
                        assert(empty_line@ =~= visible_slice(render@, co as nat, cols as nat));
                    }
                    empty_line
                } else {
                    let avail = render.len() - co;
                    let shown = if avail <= cols {
                        avail
                    } else {
                        cols
                    };
                    copy_range(render, co, co + shown)
                }
            };
            lines.push(line);
            i += 1;
        }
        let status_bar = self.build_status_bar();
        let present = self.status.message(now);
        let message_bar: Vec<char> = if present {
            match &self.status.text {
                Some(m) => {
                    let keep = if m.len() <= cols {
                        m.len()
                    } else {
                        cols
                    };
                    copy_range(m, 0, keep)
                },
                None => Vec::new(),
            }
        } else {
            Vec::new()
        };
        proof {
            assert(message_bar@ =~= message_bar_view(old(self).status, now, cols as nat));
        }
        Frame {
            lines,
            status_bar,
            message_bar,
            cursor_col: self.cursor.render_x - self.cursor.column_offset,
            cursor_row: self.cursor.cursor_y - self.cursor.row_offset,
        }
    }

    /// Builds the status bar for the current state.
    fn build_status_bar(&self) -> (bar: Vec<char>)
        requires
            self.cursor.cursor_y < usize::MAX,
        ensures
            bar@ == status_bar_view(*self),
    {
        let n = self.rows.number_of_rows();
        let mut info: Vec<char> = match &self.rows.filename {
            None => chars_of_str("[Unknown file]"),
            Some(f) => {
                let base = basename_of(f);
                if base.len() == 0 {
                    chars_of_str("[Unknown file]")
                } else {
                    base
                }
            },
        };
        append_str(&mut info, " ");
        if self.dirty > 0 {
            append_str(&mut info, "(modified)");
        }
        append_str(&mut info, " -- ");
        let count = dec_of(n);
        append_chars(&mut info, &count);
        append_str(&mut info, " lines of code");
        let mut right = dec_of(self.cursor.cursor_y + 1);
        append_str(&mut right, "/");
        append_chars(&mut right, &count);
        proof {
            let name = match &self.rows.filename {
                Some(f) => if basename(f@).len() == 0 {
                    "[Unknown file]"@
                } else {
                    basename(f@)
                },
                None => "[Unknown file]"@,
            };
            assert(info@ =~= name + " "@ + (if self.dirty > 0 {
                "(modified)"@
            } else {
                Seq::<char>::empty()
            }) + " -- "@ + dec_chars(n as nat) + " lines of code"@);
            assert(right@ =~= dec_chars((self.cursor.cursor_y + 1) as nat) + "/"@ + dec_chars(
                n as nat,
            ));
        }
        layout_bar(info, &right, self.cursor.screen_columns)
    }
}

} // verus!
