//! One logical line of the edit buffer: the stored content and its rendered
//! form, where each tab is expanded to spaces reaching the next multiple of
//! `TAB_STOP`. The rendered form is a pure function of the content and is
//! regenerated after every mutation.

use vstd::prelude::*;

verus! {

/// The column grid to which tab characters expand.
pub const TAB_STOP: usize = 8;

/// How many spaces a tab starting at rendered column `col` produces:
/// enough to advance to the next multiple of `TAB_STOP`, so between 1 and 8.
pub open spec fn tab_pad(col: nat) -> nat {
    ((TAB_STOP as nat) - col % (TAB_STOP as nat)) as nat
}

/// A run of `n` spaces.
pub open spec fn spaces(n: nat) -> Seq<char> {
    Seq::new(n, |i: int| ' ')
}

/// The rendered form of `s` when its first character sits at rendered
/// column `col`: tabs become space runs up to the next tab stop, every
/// other character passes through unchanged.
pub open spec fn render_from(s: Seq<char>, col: nat) -> Seq<char>
    decreases s.len(),
{
    if s.len() == 0 {
        Seq::empty()
    } else if s[0] == '\t' {
        spaces(tab_pad(col)) + render_from(s.drop_first(), col + tab_pad(col))
    } else {
        seq![s[0]] + render_from(s.drop_first(), col + 1)
    }
}

/// The rendered form of a whole row, which starts at column 0.
pub open spec fn render_of(s: Seq<char>) -> Seq<char> {
    render_from(s, 0)
}

/// Rendering distributes over concatenation: the right part is rendered
/// starting at the column where the left part ends, and that column equals
/// the length of the left part's rendering.
pub proof fn lemma_render_from_append(s: Seq<char>, t: Seq<char>, col: nat)
    ensures
        render_from(s + t, col) == render_from(s, col) + render_from(
            t,
            col + render_from(s, col).len(),
        ),
    decreases s.len(),
{
    if s.len() == 0 {
        assert(s + t =~= t);
        assert(render_from(s, col) =~= Seq::<char>::empty());
        assert(render_from(s, col) + render_from(t, col + render_from(s, col).len()) =~= render_from(
            t,
            col,
        ));
    } else {
        let rest = s.drop_first();
        assert((s + t).len() > 0);
        assert((s + t)[0] == s[0]);
        assert((s + t).drop_first() =~= rest + t);
        if s[0] == '\t' {
            let p = tab_pad(col);
            lemma_render_from_append(rest, t, col + p);
            assert(render_from(s + t, col) =~= render_from(s, col) + render_from(
                t,
                col + render_from(s, col).len(),
            ));
        } else {
            lemma_render_from_append(rest, t, col + 1);
            assert(render_from(s + t, col) =~= render_from(s, col) + render_from(
                t,
                col + render_from(s, col).len(),
            ));
        }
    }
}

/// The rendering of a prefix is a prefix of the rendering, so it is no longer.
pub proof fn lemma_render_prefix_len(s: Seq<char>, i: int)
    requires
        0 <= i <= s.len(),
    ensures
        render_of(s.take(i)).len() <= render_of(s).len(),
{
    assert(s =~= s.take(i) + s.skip(i));
    lemma_render_from_append(s.take(i), s.skip(i), 0);
}

/// A contiguous slice of a sequence without line feeds has none either.
pub proof fn lemma_no_nl_subrange(s: Seq<char>, i: int, j: int)
    requires
        !s.contains('\n'),
        0 <= i <= j <= s.len(),
    ensures
        !s.subrange(i, j).contains('\n'),
{
    let sub = s.subrange(i, j);
    assert forall|k: int| 0 <= k < sub.len() implies sub[k] != '\n' by {
        assert(sub[k] == s[k + i]);
    }
    if sub.contains('\n') {
        let k = choose|k: int| 0 <= k < sub.len() && sub[k] == '\n';
        assert(false);
    }
}

/// Computes the rendered form of `content`.
pub fn rendered(content: &Vec<char>) -> (render: Vec<char>)
    ensures
        render@ == render_of(content@),
{
    let mut out: Vec<char> = Vec::new();
    let mut i: usize = 0;
    proof {
        assert(content@.skip(0) =~= content@);
        assert(out@ + render_from(content@, 0) =~= render_from(content@, 0));
    }
    while i < content.len()
        invariant
            i <= content@.len(),
            render_of(content@) == out@ + render_from(
                content@.skip(i as int),
                out@.len() as nat,
            ),
        decreases content@.len() - i,
    {
        let ghost rest = content@.skip(i as int);
        proof {
            assert(rest.len() == content@.len() - i);
            assert(rest[0] == content@[i as int]);
            assert(rest.drop_first() =~= content@.skip(i + 1));
        }
        let c = content[i];
        if c == '\t' {
            let l0 = out.len();
            let pad = TAB_STOP - l0 % TAB_STOP;
            let ghost out0 = out@;
            proof {
                assert(pad as nat == tab_pad(out0.len() as nat));
            }
            let mut k: usize = 0;
            while k < pad
                invariant
                    k <= pad,
                    out@ == out0 + spaces(k as nat),
                decreases pad - k,
            {
                out.push(' ');
                proof {
                    assert(out0 + spaces((k + 1) as nat) =~= (out0 + spaces(k as nat)).push(' '));
                }
                k += 1;
            }
            proof {
                assert(out@ == out0 + spaces(tab_pad(out0.len() as nat)));
                assert(out0 + (spaces(tab_pad(out0.len() as nat)) + render_from(
                    content@.skip(i + 1),
                    out0.len() as nat + tab_pad(out0.len() as nat),
                )) =~= out@ + render_from(content@.skip(i + 1), out@.len() as nat));
            }
        } else {
            let ghost out0 = out@;
            out.push(c);
            proof {
                assert(out0 + (seq![rest[0]] + render_from(content@.skip(i + 1), out0.len() as nat
                    + 1)) =~= out@ + render_from(content@.skip(i + 1), out@.len() as nat));
            }
        }
        i += 1;
    }
    proof {
        assert(content@.skip(content@.len() as int) =~= Seq::<char>::empty());
        assert(out@ + render_from(Seq::<char>::empty(), out@.len() as nat) =~= out@);
    }
    out
}

/// One logical line: the stored characters and their rendered form.
pub struct Row {
    pub content: Vec<char>,
    pub render: Vec<char>,
}

impl Row {
    /// The row's invariant: the rendered form is exactly the tab expansion
    /// of the content, and the content holds no line feed.
    pub open spec fn wf(self) -> bool {
        &&& self.render@ == render_of(self.content@)
        &&& !self.content@.contains('\n')
    }

    /// Builds a row from its content and renders it.
    pub fn from_content(content: Vec<char>) -> (r: Row)
        requires
            !content@.contains('\n'),
        ensures
            r.wf(),
            r.content@ == content@,
    {
        let render = rendered(&content);
        Row { content, render }
    }

    /// Inserts `ch` before position `at` of the content and re-renders.
    pub fn insert_char(&mut self, at: usize, ch: char)
        requires
            old(self).wf(),
            at <= old(self).content@.len(),
            ch != '\n',
        ensures
            final(self).wf(),
            final(self).content@ == old(self).content@.insert(at as int, ch),
    {
        let ghost before = self.content@;
        self.content.insert(at, ch);
        proof {
            let now = self.content@;
            assert(!now.contains('\n')) by {
                assert forall|j: int| 0 <= j < now.len() implies now[j] != '\n' by {
                    if j < at {
                        assert(now[j] == before[j]);
                        assert(!before.contains('\n'));
                    } else if j == at {
                        assert(now[j] == ch);
                    } else {
                        assert(now[j] == before[j - 1]);
                        assert(!before.contains('\n'));
                    }
                }
                if now.contains('\n') {
                    let j = choose|j: int| 0 <= j < now.len() && now[j] == '\n';
                    assert(false);
                }
            }
        }
        self.render = rendered(&self.content);
    }

    /// Removes the character at position `at` of the content and re-renders.
    pub fn delete_char(&mut self, at: usize)
        requires
            old(self).wf(),
            at < old(self).content@.len(),
        ensures
            final(self).wf(),
            final(self).content@ == old(self).content@.remove(at as int),
    {
        let ghost before = self.content@;
        self.content.remove(at);
        proof {
            let now = self.content@;
            assert(!now.contains('\n')) by {
                assert forall|j: int| 0 <= j < now.len() implies now[j] != '\n' by {
                    if j < at {
                        assert(now[j] == before[j]);
                    } else {
                        assert(now[j] == before[j + 1]);
                    }
                    assert(!before.contains('\n'));
                }
                if now.contains('\n') {
                    let j = choose|j: int| 0 <= j < now.len() && now[j] == '\n';
                    assert(false);
                }
            }
        }
        self.render = rendered(&self.content);
    }
}

} // verus!
