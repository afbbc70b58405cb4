//! Laws of the editing transitions: statements that relate several
//! operations, proved once and for all over the editor's mathematical core.

use vstd::prelude::*;
use crate::editor::{EdState, delete_char_t, insert_char_t, insert_newline_t};

verus! {

/// Inserting a character and deleting it backwards restores the buffer and
/// the cursor exactly, and records exactly two mutations.
pub proof fn lemma_edit_idempotence(s: EdState, ch: char)
    requires
        s.cy < s.rows.len(),
        s.cx <= s.rows[s.cy as int].len(),
        s.dirty + 2 <= u64::MAX,
    ensures
        delete_char_t(insert_char_t(s, ch)) == (EdState {
            rows: s.rows,
            cy: s.cy,
            cx: s.cx,
            dirty: (s.dirty + 2) as nat,
        }),
{
    let mid = insert_char_t(s, ch);
    assert(mid.rows.len() == s.rows.len());
    assert(mid.cy == s.cy && mid.cx == s.cx + 1);
    let fin = delete_char_t(mid);
    assert(mid.rows[s.cy as int].remove(s.cx as int) =~= s.rows[s.cy as int]);
    assert(fin.rows =~~= s.rows);
    assert(fin =~~= EdState { rows: s.rows, cy: s.cy, cx: s.cx, dirty: (s.dirty + 2) as nat });
}

/// Breaking a line and deleting backwards right afterwards rejoins it: the
/// buffer and the cursor come back exactly, with two mutations recorded.
/// (Past the last row the break first creates a row that a delete there
/// cannot remove, so that position is left out.)
pub proof fn lemma_newline_rejoin(s: EdState)
    requires
        s.cy < s.rows.len(),
        s.cx <= s.rows[s.cy as int].len(),
        s.dirty + 2 <= u64::MAX,
    ensures
        delete_char_t(insert_newline_t(s)) == (EdState {
            rows: s.rows,
            cy: s.cy,
            cx: s.cx,
            dirty: (s.dirty + 2) as nat,
        }),
{
    let mid = insert_newline_t(s);
    assert(mid.cy == s.cy + 1 && mid.cx == 0);
    assert(mid.rows.len() == s.rows.len() + 1);
    let fin = delete_char_t(mid);
    if s.cx == 0 {
        assert(mid.rows == s.rows.insert(s.cy as int, Seq::<char>::empty()));
        assert(mid.rows[s.cy as int] =~= Seq::<char>::empty());
        assert(mid.rows[s.cy + 1 as int] == s.rows[s.cy as int]);
        assert(mid.rows[s.cy as int] + mid.rows[s.cy + 1 as int] =~= s.rows[s.cy as int]);
        assert(fin.rows =~~= s.rows);
        assert(fin.cx == mid.rows[s.cy as int].len());
    } else {
        let row = s.rows[s.cy as int];
        assert(mid.rows[s.cy as int] == row.take(s.cx as int));
        assert(mid.rows[s.cy + 1 as int] == row.skip(s.cx as int));
        assert(row.take(s.cx as int) + row.skip(s.cx as int) =~= row);
        assert(fin.rows =~~= s.rows);
        assert(fin.cx == row.take(s.cx as int).len());
    }
    assert(fin =~~= EdState { rows: s.rows, cy: s.cy, cx: s.cx, dirty: (s.dirty + 2) as nat });
}

} // verus!
