//! The viewport and cursor controller: the logical cursor position, the
//! screen size, the scroll offsets, and the rendered column of the cursor.

use vstd::prelude::*;
use crate::keys::Arrow;
use crate::row::{
    Row,
    TAB_STOP,
    render_of,
    render_from,
    spaces,
    tab_pad,
    lemma_render_from_append,
    lemma_render_prefix_len,
};
use crate::rows::EditorRows;

verus! {

/// Where an offset ends up after scrolling: clamped down to the cursor
/// coordinate, then pushed up just far enough to keep the cursor within
/// `span` visible units.
pub open spec fn scrolled_offset(offset: nat, pos: nat, span: nat) -> nat
    recommends
        span >= 1,
{
    let down = if offset <= pos {
        offset
    } else {
        pos
    };
    if pos >= down + span {
        (pos - span + 1) as nat
    } else {
        down
    }
}

/// The rendered column of logical column `cx` in a row with content `s`.
pub open spec fn render_col(s: Seq<char>, cx: nat) -> nat
    recommends
        cx <= s.len(),
{
    render_of(s.take(cx as int)).len()
}

/// The cursor position a movement command yields, before the final clamp.
pub open spec fn moved_unclamped(cy: nat, cx: nat, dir: Arrow, rows: Seq<Seq<char>>) -> (nat, nat) {
    let n = rows.len();
    match dir {
        Arrow::Up => (if cy > 0 {
            (cy - 1) as nat
        } else {
            0
        }, cx),
        Arrow::Down => (if cy < n {
            cy + 1
        } else {
            cy
        }, cx),
        Arrow::Left => if cx > 0 {
            (cy, (cx - 1) as nat)
        } else if cy > 0 {
            ((cy - 1) as nat, rows[cy - 1].len())
        } else {
            (cy, cx)
        },
        Arrow::Right => if cy < n {
            if cx < rows[cy as int].len() {
                (cy, cx + 1)
            } else if cx == rows[cy as int].len() {
                (cy + 1, 0 as nat)
            } else {
                (cy, cx)
            }
        } else {
            (cy, cx)
        },
        Arrow::Home => (cy, 0 as nat),
        Arrow::End => if cy < n {
            (cy, rows[cy as int].len())
        } else {
            (cy, cx)
        },
    }
}

/// The cursor position a movement command yields: the raw move, then the
/// column clamped to the length of the row the cursor lands on (or to 0
/// past the last row).
pub open spec fn moved(cy: nat, cx: nat, dir: Arrow, rows: Seq<Seq<char>>) -> (nat, nat) {
    let (ny, nx) = moved_unclamped(cy, cx, dir, rows);
    let limit = if ny < rows.len() {
        rows[ny as int].len()
    } else {
        0
    };
    (ny, if nx <= limit {
        nx
    } else {
        limit
    })
}

/// The logical cursor, the screen size, and the scroll offsets.
pub struct CursorController {
    pub cursor_x: usize,
    pub cursor_y: usize,
    pub screen_rows: usize,
    pub screen_columns: usize,
    pub row_offset: usize,
    pub column_offset: usize,
    pub render_x: usize,
}

impl CursorController {
    /// The cursor sits on an existing row at a column within its content,
    /// or on the virtual row one past the last at column 0.
    pub open spec fn in_bounds(self, rows: Seq<Seq<char>>) -> bool {
        &&& self.cursor_y <= rows.len()
        &&& if self.cursor_y < rows.len() {
            self.cursor_x <= rows[self.cursor_y as int].len()
        } else {
            self.cursor_x == 0
        }
    }

    /// A fresh controller at the origin for a text area of the given size.
    pub fn start(screen_columns: usize, screen_rows: usize) -> (c: CursorController)
        ensures
            c.cursor_x == 0,
            c.cursor_y == 0,
            c.screen_rows == screen_rows,
            c.screen_columns == screen_columns,
            c.row_offset == 0,
            c.column_offset == 0,
            c.render_x == 0,
    {
        CursorController {
            cursor_x: 0,
            cursor_y: 0,
            screen_rows,
            screen_columns,
            row_offset: 0,
            column_offset: 0,
            render_x: 0,
        }
    }

    /// The rendered column of the cursor within `row`: each of the first
    /// `cursor_x` characters advances one column, a tab to the next
    /// multiple of `TAB_STOP`.
    pub fn get_render_x(&self, row: &Row) -> (rx: usize)
        requires
            row.wf(),
            self.cursor_x <= row.content@.len(),
        ensures
            rx == render_col(row.content@, self.cursor_x as nat),
    {
        let s = &row.content;
        let render_len = row.render.len();
        let mut rx: usize = 0;
        let mut i: usize = 0;
        proof {
            assert(s@.take(0) =~= Seq::<char>::empty());
            assert(render_of(Seq::<char>::empty()).len() == 0);
        }
        while i < self.cursor_x
            invariant
                i <= self.cursor_x <= s@.len(),
                row.wf(),
                s == row.content,
                row.render@.len() == render_len,
                rx == render_col(s@, i as nat),
            decreases self.cursor_x - i,
        {
            proof {
                let c = s@[i as int];
                let l = render_col(s@, i as nat);
                assert(s@.take(i + 1) =~= s@.take(i as int) + seq![c]);
                lemma_render_from_append(s@.take(i as int), seq![c], 0);
                assert(seq![c].drop_first() =~= Seq::<char>::empty());
                assert(render_from(Seq::<char>::empty(), l + 1) =~= Seq::<char>::empty());
                assert(render_from(Seq::<char>::empty(), l + tab_pad(l)) =~= Seq::<char>::empty());
                if c == '\t' {
                    assert(render_from(seq![c], l) =~= spaces(tab_pad(l)) + render_from(
                        Seq::<char>::empty(),
                        l + tab_pad(l),
                    ));
                    assert(render_from(seq![c], l).len() == tab_pad(l));
                } else {
                    assert(render_from(seq![c], l) =~= seq![c] + render_from(
                        Seq::<char>::empty(),
                        l + 1,
                    ));
                    assert(render_from(seq![c], l).len() == 1);
                }
                assert(render_col(s@, (i + 1) as nat) == l + render_from(seq![c], l).len());
                lemma_render_prefix_len(s@, i + 1);
                assert(render_of(s@).len() == row.render@.len());
            }
            if s[i] == '\t' {
                rx = rx + (TAB_STOP - rx % TAB_STOP);
            } else {
                rx = rx + 1;
            }
            i += 1;
        }
        rx
    }

    /// Recomputes the rendered cursor column and moves both scroll offsets
    /// the least amount needed to bring the cursor back on screen.
    pub fn scroll(&mut self, rows: &EditorRows)
        requires
            rows.wf(),
            old(self).in_bounds(rows.contents()),
            old(self).screen_rows >= 1,
            old(self).screen_columns >= 1,
        ensures
            final(self).cursor_x == old(self).cursor_x,
            final(self).cursor_y == old(self).cursor_y,
            final(self).screen_rows == old(self).screen_rows,
            final(self).screen_columns == old(self).screen_columns,
            final(self).render_x == if old(self).cursor_y < rows.contents().len() {
                render_col(rows.contents()[old(self).cursor_y as int], old(self).cursor_x as nat)
            } else {
                0 as nat
            },
            final(self).row_offset == scrolled_offset(
                old(self).row_offset as nat,
                old(self).cursor_y as nat,
                old(self).screen_rows as nat,
            ),
            final(self).column_offset == scrolled_offset(
                old(self).column_offset as nat,
                final(self).render_x as nat,
                old(self).screen_columns as nat,
            ),
            final(self).row_offset <= final(self).cursor_y,
            final(self).cursor_y < final(self).row_offset + final(self).screen_rows,
            final(self).column_offset <= final(self).render_x,
            final(self).render_x < final(self).column_offset + final(self).screen_columns,
    {
        self.render_x = 0;
        if self.cursor_y < rows.number_of_rows() {
            let row = rows.get_editor_row(self.cursor_y);
            proof {
                assert(row.content@ == rows.contents()[self.cursor_y as int]);
            }
            self.render_x = self.get_render_x(row);
            proof {
                assert(self.render_x <= row.render@.len()) by {
                    lemma_render_prefix_len(row.content@, self.cursor_x as int);
                }
            }
        }
        if self.row_offset > self.cursor_y {
            self.row_offset = self.cursor_y;
        }
        if self.cursor_y - self.row_offset >= self.screen_rows {
            self.row_offset = self.cursor_y - self.screen_rows + 1;
        }
        if self.column_offset > self.render_x {
            self.column_offset = self.render_x;
        }
        if self.render_x - self.column_offset >= self.screen_columns {
            self.column_offset = self.render_x - self.screen_columns + 1;
        }
    }

    /// Applies one movement command and clamps the column to the row the
    /// cursor lands on.
    pub fn move_cursor(&mut self, dir: Arrow, rows: &EditorRows)
        requires
            rows.wf(),
            old(self).cursor_y <= rows.contents().len(),
        ensures
            final(self).in_bounds(rows.contents()),
            (final(self).cursor_y as nat, final(self).cursor_x as nat) == moved(
                old(self).cursor_y as nat,
                old(self).cursor_x as nat,
                dir,
                rows.contents(),
            ),
            final(self).screen_rows == old(self).screen_rows,
            final(self).screen_columns == old(self).screen_columns,
            final(self).row_offset == old(self).row_offset,
            final(self).column_offset == old(self).column_offset,
            final(self).render_x == old(self).render_x,
    {
        let number_of_rows = rows.number_of_rows();
        match dir {
            Arrow::Up => {
                if self.cursor_y > 0 {
                    self.cursor_y = self.cursor_y - 1;
                }
            },
            Arrow::Left => {
                if self.cursor_x != 0 {
                    self.cursor_x = self.cursor_x - 1;
                } else if self.cursor_y > 0 {
                    self.cursor_y = self.cursor_y - 1;
                    self.cursor_x = rows.get_row(self.cursor_y).len();
                }
            },
            Arrow::Down => {
                if self.cursor_y < number_of_rows {
                    self.cursor_y = self.cursor_y + 1;
                }
            },
            Arrow::Right => {
                if self.cursor_y < number_of_rows {
                    let len = rows.get_row(self.cursor_y).len();
                    if self.cursor_x < len {
                        self.cursor_x = self.cursor_x + 1;
                    } else if self.cursor_x == len {
                        self.cursor_y = self.cursor_y + 1;
                        self.cursor_x = 0;
                    }
                }
            },
            Arrow::End => {
                if self.cursor_y < number_of_rows {
                    self.cursor_x = rows.get_row(self.cursor_y).len();
                }
            },
            Arrow::Home => {
                self.cursor_x = 0;
            },
        }
        let row_len = if self.cursor_y < number_of_rows {
            rows.get_row(self.cursor_y).len()
        } else {
            0
        };
        if self.cursor_x > row_len {
            self.cursor_x = row_len;
        }
    }
}

} // verus!
