//! The edit buffer: an ordered sequence of rows plus the optional name of the
//! file it came from. Loading splits a file's text on line feeds the way the
//! editor reads files (a trailing line feed ends the last line rather than
//! opening an empty one); saving joins the row contents with single line
//! feeds and no trailing newline.

use vstd::prelude::*;
use crate::row::Row;
use crate::text::append_chars;

verus! {

/// Splits `t` at every line feed. The result always has one more part than
/// `t` has line feeds; a trailing line feed therefore yields a final empty
/// part.
pub open spec fn split_parts(t: Seq<char>) -> Seq<Seq<char>>
    decreases t.len(),
{
    if t.len() == 0 {
        seq![Seq::<char>::empty()]
    } else if t[0] == '\n' {
        seq![Seq::<char>::empty()] + split_parts(t.drop_first())
    } else {
        let rest = split_parts(t.drop_first());
        rest.update(0, seq![t[0]] + rest[0])
    }
}

/// The rows a loaded file of text `t` produces: its parts between line
/// feeds, except that a trailing line feed closes the last row instead of
/// starting an empty one, and an empty file has no rows.
pub open spec fn file_lines(t: Seq<char>) -> Seq<Seq<char>> {
    if t.len() == 0 {
        Seq::empty()
    } else if t.last() == '\n' {
        split_parts(t).drop_last()
    } else {
        split_parts(t)
    }
}

/// The serialized form of a buffer: row contents joined by single line
/// feeds, with no trailing newline.
pub open spec fn join_rows(rs: Seq<Seq<char>>) -> Seq<char>
    decreases rs.len(),
{
    if rs.len() == 0 {
        Seq::empty()
    } else if rs.len() == 1 {
        rs[0]
    } else {
        rs[0] + seq!['\n'] + join_rows(rs.drop_first())
    }
}

/// `split_parts` never returns an empty sequence of parts.
pub proof fn lemma_split_parts_nonempty(t: Seq<char>)
    ensures
        split_parts(t).len() >= 1,
    decreases t.len(),
{
    if t.len() != 0 {
        lemma_split_parts_nonempty(t.drop_first());
    }
}

/// No part produced by `split_parts` contains a line feed.
pub proof fn lemma_split_parts_no_nl(t: Seq<char>)
    ensures
        forall|i: int|
            0 <= i < split_parts(t).len() ==> !(#[trigger] split_parts(t)[i]).contains('\n'),
    decreases t.len(),
{
    if t.len() == 0 {
        assert forall|i: int|
            0 <= i < split_parts(t).len() implies !(#[trigger] split_parts(t)[i]).contains(
            '\n',
        ) by {
            assert(split_parts(t)[i] =~= Seq::<char>::empty());
            if split_parts(t)[i].contains('\n') {
                let j = choose|j: int|
                    0 <= j < split_parts(t)[i].len() && split_parts(t)[i][j] == '\n';
                assert(false);
            }
        }
    } else {
        lemma_split_parts_no_nl(t.drop_first());
        lemma_split_parts_nonempty(t.drop_first());
        let rest = split_parts(t.drop_first());
        if t[0] == '\n' {
            assert forall|i: int|
                0 <= i < split_parts(t).len() implies !(#[trigger] split_parts(t)[i]).contains(
                '\n',
            ) by {
                if i == 0 {
                    if split_parts(t)[0].contains('\n') {
                        let j = choose|j: int|
                            0 <= j < split_parts(t)[0].len() && split_parts(t)[0][j] == '\n';
                        assert(false);
                    }
                } else {
                    assert(split_parts(t)[i] == rest[i - 1]);
                }
            }
        } else {
            assert forall|i: int|
                0 <= i < split_parts(t).len() implies !(#[trigger] split_parts(t)[i]).contains(
                '\n',
            ) by {
                if i == 0 {
                    let head = seq![t[0]] + rest[0];
                    assert(split_parts(t)[0] == head);
                    if head.contains('\n') {
                        let j = choose|j: int| 0 <= j < head.len() && head[j] == '\n';
                        if j == 0 {
                            assert(head[0] == t[0]);
                            assert(false);
                        } else {
                            assert(head[j] == rest[0][j - 1]);
                            assert(rest[0].contains('\n'));
                            assert(false);
                        }
                    }
                } else {
                    assert(split_parts(t)[i] == rest[i]);
                }
            }
        }
    }
}

/// Extending the text by one character extends the last part, or opens a
/// fresh empty part if the character is a line feed.
pub proof fn lemma_split_parts_snoc(t: Seq<char>, c: char)
    ensures
        c == '\n' ==> split_parts(t.push(c)) == split_parts(t).push(Seq::<char>::empty()),
        c != '\n' ==> split_parts(t.push(c)) == split_parts(t).update(
            split_parts(t).len() - 1,
            split_parts(t).last().push(c),
        ),
    decreases t.len(),
{
    lemma_split_parts_nonempty(t);
    if t.len() == 0 {
        assert(t.push(c).drop_first() =~= Seq::<char>::empty());
        assert(t.push(c)[0] == c);
        assert(split_parts(Seq::<char>::empty()) == seq![Seq::<char>::empty()]);
        if c == '\n' {
            assert(split_parts(t.push(c)) =~~= split_parts(t).push(Seq::<char>::empty()));
        } else {
            assert(seq![c] + Seq::<char>::empty() =~= Seq::<char>::empty().push(c));
            assert(split_parts(t.push(c)) =~~= split_parts(t).update(
                split_parts(t).len() - 1,
                split_parts(t).last().push(c),
            ));
        }
    } else {
        lemma_split_parts_snoc(t.drop_first(), c);
        lemma_split_parts_nonempty(t.drop_first());
        assert(t.push(c)[0] == t[0]);
        assert(t.push(c).drop_first() =~= t.drop_first().push(c));
        let rest = split_parts(t.drop_first());
        if c == '\n' {
            if t[0] == '\n' {
                assert(split_parts(t.push(c)) =~= split_parts(t).push(Seq::<char>::empty()));
            } else {
                assert(rest.push(Seq::<char>::empty())[0] == rest[0]);
                assert(split_parts(t.push(c)) =~= split_parts(t).push(Seq::<char>::empty()));
            }
        } else {
            if t[0] == '\n' {
                assert(split_parts(t.push(c)) =~= split_parts(t).update(
                    split_parts(t).len() - 1,
                    split_parts(t).last().push(c),
                ));
            } else {
                let snoc = rest.update(rest.len() - 1, rest.last().push(c));
                assert(split_parts(t.drop_first().push(c)) == snoc);
                if rest.len() == 1 {
                    assert(snoc[0] == rest[0].push(c));
                    assert(seq![t[0]] + rest[0].push(c) =~= (seq![t[0]] + rest[0]).push(c));
                    assert(split_parts(t.push(c)) =~= split_parts(t).update(
                        split_parts(t).len() - 1,
                        split_parts(t).last().push(c),
                    ));
                } else {
                    assert(snoc[0] == rest[0]);
                    assert(split_parts(t.push(c)) =~= split_parts(t).update(
                        split_parts(t).len() - 1,
                        split_parts(t).last().push(c),
                    ));
                }
            }
        }
    }
}

/// Appending one more row to a joined buffer appends a line feed and the
/// row, except that the very first row arrives bare.
pub proof fn lemma_join_snoc(rs: Seq<Seq<char>>, r: Seq<char>)
    ensures
        rs.len() == 0 ==> join_rows(rs.push(r)) == r,
        rs.len() > 0 ==> join_rows(rs.push(r)) == join_rows(rs) + seq!['\n'] + r,
    decreases rs.len(),
{
    if rs.len() == 0 {
        assert(rs.push(r)[0] == r);
        assert(join_rows(rs.push(r)) == r);
    } else if rs.len() == 1 {
        assert(rs.push(r).drop_first() =~= seq![r]);
        assert(rs.push(r)[0] == rs[0]);
        assert(join_rows(seq![r]) == r);
        assert(join_rows(rs.push(r)) == rs[0] + seq!['\n'] + r);
        assert(join_rows(rs) == rs[0]);
    } else {
        lemma_join_snoc(rs.drop_first(), r);
        assert(rs.push(r).drop_first() =~= rs.drop_first().push(r));
        assert(join_rows(rs.push(r)) == rs[0] + seq!['\n'] + (join_rows(rs.drop_first())
            + seq!['\n'] + r));
        assert(rs[0] + seq!['\n'] + (join_rows(rs.drop_first()) + seq!['\n'] + r) =~= (rs[0]
            + seq!['\n'] + join_rows(rs.drop_first())) + seq!['\n'] + r);
    }
}

/// Joining the parts of a split restores the text exactly.
pub proof fn lemma_join_split(t: Seq<char>)
    ensures
        join_rows(split_parts(t)) == t,
    decreases t.len(),
{
    lemma_split_parts_nonempty(t);
    if t.len() == 0 {
        assert(join_rows(split_parts(t)) =~= t);
    } else {
        lemma_join_split(t.drop_first());
        lemma_split_parts_nonempty(t.drop_first());
        let rest = split_parts(t.drop_first());
        if t[0] == '\n' {
            let parts = seq![Seq::<char>::empty()] + rest;
            assert(parts.len() >= 2);
            assert(parts[0] =~= Seq::<char>::empty());
            assert(parts.drop_first() =~= rest);
            assert(join_rows(parts) == parts[0] + seq!['\n'] + join_rows(rest));
            assert(parts[0] + seq!['\n'] + t.drop_first() =~= t);
        } else {
            let parts = rest.update(0, seq![t[0]] + rest[0]);
            if rest.len() == 1 {
                assert(join_rows(parts) == parts[0]);
                assert(join_rows(rest) == rest[0]);
                assert(seq![t[0]] + rest[0] =~= t);
            } else {
                assert(parts.drop_first() =~= rest.drop_first());
                assert(join_rows(parts) == (seq![t[0]] + rest[0]) + seq!['\n'] + join_rows(
                    rest.drop_first(),
                ));
                assert(join_rows(rest) == rest[0] + seq!['\n'] + join_rows(rest.drop_first()));
                assert((seq![t[0]] + rest[0]) + seq!['\n'] + join_rows(rest.drop_first())
                    =~= seq![t[0]] + (rest[0] + seq!['\n'] + join_rows(rest.drop_first())));
                assert(seq![t[0]] + t.drop_first() =~= t);
            }
        }
    }
}

/// Text that ends in a line feed splits into at least two parts, the last
/// of them empty.
pub proof fn lemma_split_trailing_nl(t: Seq<char>)
    requires
        t.len() > 0,
        t.last() == '\n',
    ensures
        split_parts(t).len() >= 2,
        split_parts(t).last() == Seq::<char>::empty(),
    decreases t.len(),
{
    lemma_split_parts_nonempty(t.drop_first());
    let rest = split_parts(t.drop_first());
    if t.len() == 1 {
        assert(split_parts(t) =~= seq![Seq::<char>::empty(), Seq::<char>::empty()]);
    } else {
        assert(t.drop_first().last() == t.last());
        lemma_split_trailing_nl(t.drop_first());
        if t[0] == '\n' {
            let parts = seq![Seq::<char>::empty()] + rest;
            assert(parts.last() == rest.last());
        } else {
            let parts = rest.update(0, seq![t[0]] + rest[0]);
            assert(parts.last() == rest.last());
        }
    }
}

/// Saving a freshly loaded file writes the same bytes back, except that a
/// trailing line feed of the original is not reproduced.
pub proof fn lemma_save_round_trip(t: Seq<char>)
    ensures
        join_rows(file_lines(t)) == if t.len() > 0 && t.last() == '\n' {
            t.drop_last()
        } else {
            t
        },
{
    lemma_join_split(t);
    if t.len() > 0 && t.last() == '\n' {
        lemma_split_trailing_nl(t);
        let parts = split_parts(t);
        let head = parts.drop_last();
        assert(parts =~= head.push(Seq::<char>::empty()));
        lemma_join_snoc(head, Seq::<char>::empty());
        assert(join_rows(parts) == join_rows(head) + seq!['\n'] + Seq::<char>::empty());
        assert(join_rows(head) + seq!['\n'] + Seq::<char>::empty() =~= join_rows(head).push('\n'));
        assert(join_rows(head).push('\n') == t);
        assert(join_rows(head) =~= t.drop_last());
    }
}

/// The ordered rows of the buffer and the optional origin filename.
pub struct EditorRows {
    pub rows: Vec<Row>,
    pub filename: Option<Vec<char>>,
}

impl EditorRows {
    /// Every row of the buffer satisfies the row invariant.
    pub open spec fn wf(self) -> bool {
        forall|i: int| 0 <= i < self.rows@.len() ==> (#[trigger] self.rows@[i]).wf()
    }

    /// The buffer as a sequence of row contents.
    pub open spec fn contents(self) -> Seq<Seq<char>> {
        self.rows@.map_values(|r: Row| r.content@)
    }

    /// An empty, unnamed buffer.
    pub fn new_empty() -> (r: EditorRows)
        ensures
            r.wf(),
            r.contents() == Seq::<Seq<char>>::empty(),
            r.filename is None,
    {
        let r = EditorRows { rows: Vec::new(), filename: None };
        proof {
            assert(r.contents() =~= Seq::<Seq<char>>::empty());
        }
        r
    }

    /// Builds the buffer a file with the given name and text produces.
    pub fn from_text(filename: Vec<char>, text: &Vec<char>) -> (r: EditorRows)
        ensures
            r.wf(),
            r.contents() == file_lines(text@),
            r.filename == Some(filename),
    {
        let mut rows: Vec<Row> = Vec::new();
        let mut cur: Vec<char> = Vec::new();
        let mut i: usize = 0;
        proof {
            assert(text@.take(0) =~= Seq::<char>::empty());
            assert(rows@.map_values(|r: Row| r.content@).push(cur@) =~= split_parts(
                text@.take(0),
            ));
        }
        while i < text.len()
            invariant
                i <= text@.len(),
                rows@.map_values(|r: Row| r.content@).push(cur@) == split_parts(
                    text@.take(i as int),
                ),
                forall|j: int| 0 <= j < rows@.len() ==> (#[trigger] rows@[j]).wf(),
            decreases text@.len() - i,
        {
            let ghost pre = text@.take(i as int);
            proof {
                assert(text@.take(i + 1) =~= pre.push(text@[i as int]));
                lemma_split_parts_snoc(pre, text@[i as int]);
                lemma_split_parts_nonempty(pre);
                lemma_split_parts_no_nl(pre);
                assert(split_parts(pre).last() == cur@);
                assert(!cur@.contains('\n'));
            }
            let c = text[i];
            if c == '\n' {
                let row = Row::from_content(cur);
                rows.push(row);
                cur = Vec::new();
                proof {
                    assert(rows@.map_values(|r: Row| r.content@).push(cur@) =~= split_parts(
                        text@.take(i + 1),
                    ));
                }
            } else {
                cur.push(c);
                proof {
                    assert(rows@.map_values(|r: Row| r.content@).push(cur@) =~= split_parts(
                        text@.take(i + 1),
                    ));
                }
            }
            i += 1;
        }
        proof {
            assert(text@.take(text@.len() as int) =~= text@);
        }
        let push_last = text.len() > 0 && text[text.len() - 1] != '\n';
        if push_last {
            proof {
                lemma_split_parts_no_nl(text@);
                lemma_split_parts_nonempty(text@);
                assert(rows@.map_values(|r: Row| r.content@).push(cur@) == split_parts(text@));
                assert(cur@ == split_parts(text@).last());
                assert(!cur@.contains('\n'));
            }
            let row = Row::from_content(cur);
            let ghost rows0 = rows@;
            rows.push(row);
            proof {
                assert(rows@.map_values(|r: Row| r.content@) =~= rows0.map_values(
                    |r: Row| r.content@,
                ).push(row.content@));
            }
            let r = EditorRows { rows, filename: Some(filename) };
            proof {
                assert(r.contents() =~= file_lines(text@));
            }
            r
        } else {
            if text.len() == 0 {
                let r = EditorRows { rows, filename: Some(filename) };
                proof {
                    assert(split_parts(text@) =~= seq![Seq::<char>::empty()]);
                    assert(r.contents() =~= file_lines(text@));
                }
                r
            } else {
                proof {
                    lemma_split_trailing_nl(text@);
                    assert(split_parts(text@).last() == cur@);
                }
                let r = EditorRows { rows, filename: Some(filename) };
                proof {
                    assert(r.contents().push(cur@) == split_parts(text@));
                    assert(r.contents() =~= split_parts(text@).drop_last());
                    assert(r.contents() =~= file_lines(text@));
                }
                r
            }
        }
    }

    /// How many rows the buffer holds.
    pub fn number_of_rows(&self) -> (n: usize)
        ensures
            n == self.contents().len(),
    {
        self.rows.len()
    }

    /// The stored content of row `at`.
    pub fn get_row(&self, at: usize) -> (r: &Vec<char>)
        requires
            at < self.contents().len(),
        ensures
            r@ == self.contents()[at as int],
    {
        &self.rows[at].content
    }

    /// The rendered form of row `at`.
    pub fn get_render(&self, at: usize) -> (r: &Vec<char>)
        requires
            at < self.contents().len(),
    ensures
            r@ == self.rows@[at as int].render@,
    {
        &self.rows[at].render
    }

    /// Row `at` itself.
    pub fn get_editor_row(&self, at: usize) -> (r: &Row)
        requires
            at < self.contents().len(),
        ensures
            r == self.rows@[at as int],
    {
        &self.rows[at]
    }

    /// Inserts a new row with the given content at position `at`.
    pub fn insert_row(&mut self, at: usize, contents: Vec<char>)
        requires
            old(self).wf(),
            at <= old(self).contents().len(),
            !contents@.contains('\n'),
        ensures
            final(self).wf(),
            final(self).contents() == old(self).contents().insert(at as int, contents@),
            final(self).filename == old(self).filename,
    {
        let row = Row::from_content(contents);
        let ghost rows0 = self.rows@;
        self.rows.insert(at, row);
        proof {
            assert forall|j: int| 0 <= j < self.rows@.len() implies (#[trigger] self.rows@[j]).wf()
                by {
                if j < at {
                    assert(self.rows@[j] == rows0[j]);
                } else if j > at {
                    assert(self.rows@[j] == rows0[j - 1]);
                }
            }
            assert(self.contents() =~= rows0.map_values(|r: Row| r.content@).insert(
                at as int,
                row.content@,
            ));
        }
    }

    /// Removes row `at` and appends its content to row `at - 1`, which is
    /// re-rendered.
    pub fn join_adjacent_rows(&mut self, at: usize)
        requires
            old(self).wf(),
            1 <= at < old(self).contents().len(),
        ensures
            final(self).wf(),
            final(self).contents() == old(self).contents().update(
                at - 1,
                old(self).contents()[at - 1] + old(self).contents()[at as int],
            ).remove(at as int),
            final(self).filename == old(self).filename,
    {
        let ghost rows0 = self.rows@;
        let row = self.rows.remove(at);
        let prev = self.rows.remove(at - 1);
        let mut merged = prev.content;
        let ghost a = merged@;
        let ghost b = row.content@;
        append_chars(&mut merged, &row.content);
        proof {
            assert(!merged@.contains('\n')) by {
                assert forall|j: int| 0 <= j < merged@.len() implies merged@[j] != '\n' by {
                    if j < a.len() {
                        assert(merged@[j] == a[j]);
                    } else {
                        assert(merged@[j] == b[j - a.len()]);
                    }
                    assert(rows0[at - 1].wf());
                    assert(rows0[at as int].wf());
                }
                if merged@.contains('\n') {
                    let j = choose|j: int| 0 <= j < merged@.len() && merged@[j] == '\n';
                    assert(false);
                }
            }
        }
        let joined = Row::from_content(merged);
        let ghost mid = self.rows@;
        self.rows.insert(at - 1, joined);
        proof {
            assert forall|j: int| 0 <= j < self.rows@.len() implies (#[trigger] self.rows@[j]).wf()
                by {
                if j < at - 1 {
                    assert(self.rows@[j] == mid[j]);
                    assert(mid[j] == rows0[j]);
                } else if j > at - 1 {
                    assert(self.rows@[j] == mid[j - 1]);
                    assert(mid[j - 1] == rows0[j + 1]);
                }
            }
            assert(self.contents() =~= old(self).contents().update(
                at - 1,
                old(self).contents()[at - 1] + old(self).contents()[at as int],
            ).remove(at as int));
        }
    }

    /// Inserts `ch` before column `col` of row `at` and re-renders it.
    pub fn insert_char_at(&mut self, at: usize, col: usize, ch: char)
        requires
            old(self).wf(),
            at < old(self).contents().len(),
            col <= old(self).contents()[at as int].len(),
            ch != '\n',
        ensures
            final(self).wf(),
            final(self).contents() == old(self).contents().update(
                at as int,
                old(self).contents()[at as int].insert(col as int, ch),
            ),
            final(self).filename == old(self).filename,
    {
        let ghost rows0 = self.rows@;
        let mut row = self.rows.remove(at);
        row.insert_char(col, ch);
        let ghost mid = self.rows@;
        self.rows.insert(at, row);
        proof {
            assert forall|j: int| 0 <= j < self.rows@.len() implies (#[trigger] self.rows@[j]).wf()
                by {
                if j < at {
                    assert(self.rows@[j] == mid[j]);
                    assert(mid[j] == rows0[j]);
                } else if j > at {
                    assert(self.rows@[j] == mid[j - 1]);
                    assert(mid[j - 1] == rows0[j]);
                }
            }
            assert(self.contents() =~= old(self).contents().update(
                at as int,
                old(self).contents()[at as int].insert(col as int, ch),
            ));
        }
    }

    /// Removes the character at column `col` of row `at` and re-renders it.
    pub fn delete_char_at(&mut self, at: usize, col: usize)
        requires
            old(self).wf(),
            at < old(self).contents().len(),
            col < old(self).contents()[at as int].len(),
        ensures
            final(self).wf(),
            final(self).contents() == old(self).contents().update(
                at as int,
                old(self).contents()[at as int].remove(col as int),
            ),
            final(self).filename == old(self).filename,
    {
        let ghost rows0 = self.rows@;
        let mut row = self.rows.remove(at);
        row.delete_char(col);
        let ghost mid = self.rows@;
        self.rows.insert(at, row);
        proof {
            assert forall|j: int| 0 <= j < self.rows@.len() implies (#[trigger] self.rows@[j]).wf()
                by {
                if j < at {
                    assert(self.rows@[j] == mid[j]);
                    assert(mid[j] == rows0[j]);
                } else if j > at {
                    assert(self.rows@[j] == mid[j - 1]);
                    assert(mid[j - 1] == rows0[j]);
                }
            }
            assert(self.contents() =~= old(self).contents().update(
                at as int,
                old(self).contents()[at as int].remove(col as int),
            ));
        }
    }

    /// Splits row `at` at column `col`: the prefix stays in place, the
    /// suffix becomes a new row right below it.
    pub fn split_row(&mut self, at: usize, col: usize)
        requires
            old(self).wf(),
            at < old(self).contents().len(),
            col <= old(self).contents()[at as int].len(),
        ensures
            final(self).wf(),
            final(self).contents() == old(self).contents().update(
                at as int,
                old(self).contents()[at as int].take(col as int),
            ).insert(at + 1, old(self).contents()[at as int].skip(col as int)),
            final(self).filename == old(self).filename,
    {
        let ghost rows0 = self.rows@;
        let n = self.rows.len();
        let row = self.rows.remove(at);
        proof {
            assert(at + 1 <= n);
            crate::row::lemma_no_nl_subrange(row.content@, 0, col as int);
            crate::row::lemma_no_nl_subrange(row.content@, col as int, row.content@.len() as int);
        }
        let prefix = crate::text::copy_range(&row.content, 0, col);
        let suffix = crate::text::copy_range(&row.content, col, row.content.len());
        let pre_row = Row::from_content(prefix);
        let suf_row = Row::from_content(suffix);
        let ghost mid0 = self.rows@;
        self.rows.insert(at, pre_row);
        let ghost mid1 = self.rows@;
        self.rows.insert(at + 1, suf_row);
        proof {
            assert forall|j: int| 0 <= j < self.rows@.len() implies (#[trigger] self.rows@[j]).wf()
                by {
                if j < at {
                    assert(self.rows@[j] == mid1[j]);
                    assert(mid1[j] == mid0[j]);
                    assert(mid0[j] == rows0[j]);
                } else if j > at + 1 {
                    assert(self.rows@[j] == mid1[j - 1]);
                    assert(mid1[j - 1] == mid0[j - 2]);
                    assert(mid0[j - 2] == rows0[j - 1]);
                } else if j == at + 1 {
                    assert(self.rows@[j] == suf_row);
                } else {
                    assert(self.rows@[j] == mid1[j]);
                    assert(mid1[j] == pre_row);
                }
            }
            assert(self.contents() =~= old(self).contents().update(
                at as int,
                old(self).contents()[at as int].take(col as int),
            ).insert(at + 1, old(self).contents()[at as int].skip(col as int)));
        }
    }

    /// The serialized buffer: row contents joined by line feeds.
    pub fn serialize(&self) -> (out: Vec<char>)
        ensures
            out@ == join_rows(self.contents()),
    {
        let mut out: Vec<char> = Vec::new();
        let mut i: usize = 0;
        proof {
            assert(self.contents().take(0) =~= Seq::<Seq<char>>::empty());
        }
        while i < self.rows.len()
            invariant
                i <= self.rows@.len(),
                self.contents().len() == self.rows@.len(),
                out@ == join_rows(self.contents().take(i as int)),
            decreases self.rows@.len() - i,
        {
            let ghost sofar = self.contents().take(i as int);
            if i > 0 {
                out.push('\n');
            }
            append_chars(&mut out, &self.rows[i].content);
            proof {
                lemma_join_snoc(sofar, self.contents()[i as int]);
                assert(self.contents().take(i + 1) =~= sofar.push(self.contents()[i as int]));
                if i > 0 {
                    assert(out@ =~= join_rows(sofar) + seq!['\n'] + self.contents()[i as int]);
                } else {
                    assert(out@ =~= self.contents()[i as int]);
                }
            }
            i += 1;
        }
        proof {
            assert(self.contents().take(self.contents().len() as int) =~= self.contents());
        }
        out
    }
}

} // verus!
