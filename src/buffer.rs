//! The text body of the open note: a sequence of lines and a cursor.

use vstd::prelude::*;

use crate::chars::{char_views, chars_of, push_char, string_of, string_views};

verus! {

/// Splits `s` at every newline: `n` newlines give `n + 1` pieces.
pub open spec fn split_all(s: Seq<char>) -> Seq<Seq<char>>
    decreases s.len(),
{
    if s.len() == 0 {
        seq![Seq::<char>::empty()]
    } else {
        let rest = split_all(s.drop_last());
        if s.last() == '\n' {
            rest.push(Seq::<char>::empty())
        } else {
            rest.update(rest.len() - 1, rest.last().push(s.last()))
        }
    }
}

/// The lines of a text: a single trailing newline ends the last line and
/// opens no further one; the empty text is one empty line.
pub open spec fn lines_of(s: Seq<char>) -> Seq<Seq<char>> {
    if s.len() > 0 && s.last() == '\n' {
        split_all(s.drop_last())
    } else {
        split_all(s)
    }
}

/// Lines joined with one newline between neighbours.
pub open spec fn join_lines(ls: Seq<Seq<char>>) -> Seq<char>
    decreases ls.len(),
{
    if ls.len() == 0 {
        Seq::<char>::empty()
    } else if ls.len() == 1 {
        ls[0]
    } else {
        join_lines(ls.drop_last()) + seq!['\n'] + ls.last()
    }
}

pub proof fn lemma_split_all_nonempty(s: Seq<char>)
    ensures
        split_all(s).len() >= 1,
    decreases s.len(),
{
    if s.len() > 0 {
        lemma_split_all_nonempty(s.drop_last());
    }
}

/// Splits a text into lines, keeping empty lines; see `lines_of`.
pub fn split_lines_preserve(s: &str) -> (out: Vec<String>)
    ensures
        string_views(out@) == lines_of(s@),
{
    let mut out: Vec<String> = Vec::new();
    let mut cur = String::new();
    let mut ends_with_newline = false;
    for c in it: s.chars()
        invariant
            it.seq() == s@,
            string_views(out@).push(cur@) == split_all(s@.take(it.index() as int)),
            ends_with_newline == (it.index() > 0 && s@[it.index() - 1] == '\n'),
            ends_with_newline ==> cur@.len() == 0,
    {
        let ghost k = it.index() as int;
        assert(s@.take(k + 1).drop_last() == s@.take(k));
        proof { lemma_split_all_nonempty(s@.take(k)); }
        if c == '\n' {
            out.push(cur);
            cur = String::new();
            ends_with_newline = true;
        } else {
            push_char(&mut cur, c);
            ends_with_newline = false;
        }
        assert(string_views(out@).push(cur@) =~= split_all(s@.take(k + 1)));
    }
    assert(s@.take(s@.len() as int) == s@);
    if ends_with_newline {
        assert(s@.drop_last() == s@.take(s@.len() - 1));
        assert(string_views(out@) =~= split_all(s@).drop_last());
    } else {
        out.push(cur);
        assert(string_views(out@) =~= split_all(s@));
    }
    out
}

/// What a `LineBuffer` holds: its lines, the cursor, and whether it was
/// edited since it was loaded or saved.
pub ghost struct BufferModel {
    pub lines: Seq<Seq<char>>,
    pub row: nat,
    pub col: nat,
    pub dirty: bool,
}

impl BufferModel {
    /// There is a line, the cursor row names one, and the column is an
    /// insertion point in that line (it may stand after the last character).
    pub open spec fn wf(self) -> bool {
        &&& self.lines.len() > 0
        &&& self.row < self.lines.len()
        &&& self.col <= self.lines[self.row as int].len()
    }

    pub open spec fn cur_line(self) -> Seq<char> {
        self.lines[self.row as int]
    }

    pub open spec fn at(self, row: nat, col: nat) -> BufferModel {
        BufferModel { lines: self.lines, row, col, dirty: self.dirty }
    }

    pub open spec fn with_lines(self, lines: Seq<Seq<char>>, row: nat, col: nat) -> BufferModel {
        BufferModel { lines, row, col, dirty: true }
    }

    pub open spec fn move_left(self) -> BufferModel {
        if self.col > 0 {
            self.at(self.row, (self.col - 1) as nat)
        } else if self.row > 0 {
            self.at((self.row - 1) as nat, self.lines[self.row - 1].len())
        } else {
            self
        }
    }

    pub open spec fn move_right(self) -> BufferModel {
        if self.col < self.cur_line().len() {
            self.at(self.row, self.col + 1)
        } else if self.row + 1 < self.lines.len() {
            self.at(self.row + 1, 0)
        } else {
            self
        }
    }

    pub open spec fn move_up(self) -> BufferModel {
        if self.row > 0 {
            let r = (self.row - 1) as nat;
            self.at(r, min_nat(self.col, self.lines[r as int].len()))
        } else {
            self
        }
    }

    pub open spec fn move_down(self) -> BufferModel {
        if self.row + 1 < self.lines.len() {
            let r = self.row + 1;
            self.at(r, min_nat(self.col, self.lines[r as int].len()))
        } else {
            self
        }
    }

    pub open spec fn move_home(self) -> BufferModel {
        self.at(self.row, 0)
    }

    pub open spec fn move_end(self) -> BufferModel {
        self.at(self.row, self.cur_line().len())
    }

    pub open spec fn insert_char(self, c: char) -> BufferModel {
        self.with_lines(
            self.lines.update(self.row as int, self.cur_line().insert(self.col as int, c)),
            self.row,
            self.col + 1,
        )
    }

    pub open spec fn backspace(self) -> BufferModel {
        if self.col > 0 {
            self.with_lines(
                self.lines.update(self.row as int, self.cur_line().remove(self.col - 1)),
                self.row,
                (self.col - 1) as nat,
            )
        } else if self.row > 0 {
            let prev = self.lines[self.row - 1];
            self.with_lines(
                self.lines.update(self.row - 1, prev + self.cur_line()).remove(self.row as int),
                (self.row - 1) as nat,
                prev.len(),
            )
        } else {
            self.with_lines(self.lines, self.row, self.col)
        }
    }

    pub open spec fn delete_forward(self) -> BufferModel {
        if self.col < self.cur_line().len() {
            self.with_lines(
                self.lines.update(self.row as int, self.cur_line().remove(self.col as int)),
                self.row,
                self.col,
            )
        } else if self.row + 1 < self.lines.len() {
            let next = self.lines[self.row + 1 as int];
            self.with_lines(
                self.lines.update(self.row as int, self.cur_line() + next).remove(self.row + 1 as int),
                self.row,
                self.col,
            )
        } else {
            self.with_lines(self.lines, self.row, self.col)
        }
    }

    pub open spec fn split_line(self) -> BufferModel {
        let line = self.cur_line();
        self.with_lines(
            self.lines.update(self.row as int, line.take(self.col as int)).insert(
                self.row + 1 as int,
                line.skip(self.col as int),
            ),
            self.row + 1,
            0,
        )
    }
}

pub open spec fn min_nat(a: nat, b: nat) -> nat {
    if a <= b {
        a
    } else {
        b
    }
}

/// The text body of a note, edited at a cursor.
pub struct LineBuffer {
    lines: Vec<Vec<char>>,
    row: usize,
    col: usize,
    dirty: bool,
}

impl View for LineBuffer {
    type V = BufferModel;

    closed spec fn view(&self) -> BufferModel {
        BufferModel {
            lines: char_views(self.lines@),
            row: self.row as nat,
            col: self.col as nat,
            dirty: self.dirty,
        }
    }
}

impl LineBuffer {
    /// The model of an empty document.
    pub open spec fn new_model() -> BufferModel {
        BufferModel { lines: seq![Seq::<char>::empty()], row: 0, col: 0, dirty: false }
    }

    /// Records that the content was saved.
    pub fn mark_clean(&mut self)
        ensures
            final(self)@ == (BufferModel { dirty: false, ..old(self)@ }),
    {
        self.dirty = false;
    }

    proof fn lemma_view_lengths(&self)
        ensures
            self@.lines.len() == self.lines.len(),
            forall|i: int| 0 <= i < self.lines.len() ==> #[trigger] self@.lines[i].len() == self.lines@[i].len(),
    {
    }

    /// An empty document: one empty line, cursor at its start, not edited.
    pub fn new() -> (r: LineBuffer)
        ensures
            r@ == Self::new_model(),
            r@.wf(),
    {
        let mut lines: Vec<Vec<char>> = Vec::new();
        lines.push(Vec::new());
        let r = LineBuffer { lines, row: 0, col: 0, dirty: false };
        assert(r@.lines =~= seq![Seq::<char>::empty()]);
        r
    }

    /// The buffer holding the lines of `s` (see `lines_of`), cursor at the
    /// start, not edited.
    pub fn from_text(s: &str) -> (r: LineBuffer)
        ensures
            r@.lines == lines_of(s@),
            r@.row == 0,
            r@.col == 0,
            !r@.dirty,
            r@.wf(),
    {
        let parts = split_lines_preserve(s);
        let mut lines: Vec<Vec<char>> = Vec::new();
        let mut i: usize = 0;
        while i < parts.len()
            invariant
                i <= parts.len(),
                char_views(lines@) == string_views(parts@).take(i as int),
                string_views(parts@).len() == parts.len(),
                char_views(lines@).len() == lines.len(),
            decreases parts.len() - i,
        {
            let l = chars_of(parts[i].as_str());
            assert(l@ == string_views(parts@)[i as int]);
            lines.push(l);
            assert(char_views(lines@)[i as int] == l@);
            i = i + 1;
            assert(char_views(lines@) =~= string_views(parts@).take(i as int));
        }
        assert(string_views(parts@).take(i as int) =~= string_views(parts@));
        proof {
            lemma_lines_of_nonempty(s@);
        }
        LineBuffer { lines, row: 0, col: 0, dirty: false }
    }

    /// The lines joined by single newlines, with no newline added at the end.
    pub fn to_text(&self) -> (r: String)
        ensures
            r@ == join_lines(self@.lines),
    {
        let mut r = String::new();
        let mut i: usize = 0;
        while i < self.lines.len()
            invariant
                i <= self.lines.len(),
                r@ == join_lines(char_views(self.lines@).take(i as int)),
            decreases self.lines.len() - i,
        {
            let ghost before = char_views(self.lines@).take(i as int);
            if i > 0 {
                push_char(&mut r, '\n');
            }
            let line = &self.lines[i];
            let mut j: usize = 0;
            let ghost base = r@;
            while j < line.len()
                invariant
                    j <= line.len(),
                    r@ == base + line@.take(j as int),
                decreases line.len() - j,
            {
                push_char(&mut r, line[j]);
                j = j + 1;
                assert(r@ =~= base + line@.take(j as int));
            }
            let ghost after = char_views(self.lines@).take(i + 1);
            assert(after.drop_last() =~= before);
            assert(line@.take(j as int) =~= line@);
            if i == 0 {
                assert(r@ =~= join_lines(after));
            } else {
                assert(r@ =~= join_lines(after));
            }
            i = i + 1;
        }
        assert(char_views(self.lines@).take(i as int) =~= char_views(self.lines@));
        r
    }

    /// The lines as strings.
    pub fn lines(&self) -> (r: Vec<String>)
        ensures
            string_views(r@) == self@.lines,
    {
        let mut r: Vec<String> = Vec::new();
        let mut i: usize = 0;
        while i < self.lines.len()
            invariant
                i <= self.lines.len(),
                string_views(r@) == char_views(self.lines@).take(i as int),
                string_views(r@).len() == r.len(),
                char_views(self.lines@).len() == self.lines.len(),
            decreases self.lines.len() - i,
        {
            let l = string_of(&self.lines[i]);
            assert(l@ == char_views(self.lines@)[i as int]);
            r.push(l);
            assert(string_views(r@)[i as int] == l@);
            i = i + 1;
            assert(string_views(r@) =~= char_views(self.lines@).take(i as int));
        }
        assert(char_views(self.lines@).take(i as int) =~= char_views(self.lines@));
        r
    }

    pub fn move_left(&mut self)
        requires
            old(self)@.wf(),
        ensures
            final(self)@ == old(self)@.move_left(),
            final(self)@.wf(),
    {
        if self.col > 0 {
            self.col = self.col - 1;
        } else if self.row > 0 {
            self.row = self.row - 1;
            self.col = self.lines[self.row].len();
        }
    }

    pub fn move_right(&mut self)
        requires
            old(self)@.wf(),
        ensures
            final(self)@ == old(self)@.move_right(),
            final(self)@.wf(),
    {
        proof {
            self.lemma_view_lengths();
        }
        if self.col < self.lines[self.row].len() {
            self.col = self.col + 1;
        } else if self.row + 1 < self.lines.len() {
            self.row = self.row + 1;
            self.col = 0;
        }
    }

    pub fn move_up(&mut self)
        requires
            old(self)@.wf(),
        ensures
            final(self)@ == old(self)@.move_up(),
            final(self)@.wf(),
    {
        if self.row > 0 {
            self.row = self.row - 1;
            let len = self.lines[self.row].len();
            if len < self.col {
                self.col = len;
            }
        }
    }

    pub fn move_down(&mut self)
        requires
            old(self)@.wf(),
        ensures
            final(self)@ == old(self)@.move_down(),
            final(self)@.wf(),
    {
        proof {
            self.lemma_view_lengths();
        }
        if self.row + 1 < self.lines.len() {
            self.row = self.row + 1;
            let len = self.lines[self.row].len();
            if len < self.col {
                self.col = len;
            }
        }
    }

    pub fn move_home(&mut self)
        requires
            old(self)@.wf(),
        ensures
            final(self)@ == old(self)@.move_home(),
            final(self)@.wf(),
    {
        self.col = 0;
    }

    pub fn move_end(&mut self)
        requires
            old(self)@.wf(),
        ensures
            final(self)@ == old(self)@.move_end(),
            final(self)@.wf(),
    {
        self.col = self.lines[self.row].len();
    }

    /// Inserts `c` at the cursor and moves the cursor past it.
    pub fn insert_char(&mut self, c: char)
        requires
            old(self)@.wf(),
        ensures
            final(self)@ == old(self)@.insert_char(c),
            final(self)@.wf(),
    {
        proof {
            self.lemma_view_lengths();
        }
        let ghost m = self@;
        let r = self.row;
        self.lines[r].insert(self.col, c);
        assert(self.lines@[r as int].len() == m.cur_line().len() + 1);
        self.col = self.col + 1;
        self.dirty = true;
        assert(self@.lines =~= m.insert_char(c).lines);
    }

    /// Removes the character before the cursor; at the start of a line
    /// after the first, joins the line onto the previous one.
    pub fn backspace(&mut self)
        requires
            old(self)@.wf(),
        ensures
            final(self)@ == old(self)@.backspace(),
            final(self)@.wf(),
    {
        let ghost m = self@;
        let r = self.row;
        if self.col > 0 {
            self.lines[r].remove(self.col - 1);
            self.col = self.col - 1;
            assert(self@.lines =~= m.backspace().lines);
        } else if r > 0 {
            let mut cur = self.lines.remove(r);
            let prev_len = self.lines[r - 1].len();
            self.lines[r - 1].append(&mut cur);
            self.row = r - 1;
            self.col = prev_len;
            assert(self@.lines =~= m.backspace().lines);
        }
        self.dirty = true;
    }

    /// Removes the character after the cursor; at the end of a line before
    /// the last, joins the next line onto this one.
    pub fn delete_forward(&mut self)
        requires
            old(self)@.wf(),
        ensures
            final(self)@ == old(self)@.delete_forward(),
            final(self)@.wf(),
    {
        proof {
            self.lemma_view_lengths();
        }
        let ghost m = self@;
        let r = self.row;
        if self.col < self.lines[r].len() {
            self.lines[r].remove(self.col);
            assert(self@.lines =~= m.delete_forward().lines);
        } else if r + 1 < self.lines.len() {
            let mut next = self.lines.remove(r + 1);
            self.lines[r].append(&mut next);
            assert(self@.lines =~= m.delete_forward().lines);
        }
        self.dirty = true;
    }

    /// Breaks the line at the cursor; the tail becomes the next line and the
    /// cursor moves to its start.
    pub fn split_line(&mut self)
        requires
            old(self)@.wf(),
        ensures
            final(self)@ == old(self)@.split_line(),
            final(self)@.wf(),
    {
        proof {
            self.lemma_view_lengths();
        }
        let ghost m = self@;
        let r = self.row;
        let rest = self.lines[r].split_off(self.col);
        self.lines.insert(r + 1, rest);
        self.row = r + 1;
        self.col = 0;
        self.dirty = true;
        assert(self@.lines =~= m.split_line().lines);
    }

    pub fn line_count(&self) -> (r: usize)
        ensures
            r == self@.lines.len(),
    {
        self.lines.len()
    }

    pub fn row(&self) -> (r: usize)
        ensures
            r == self@.row,
    {
        self.row
    }

    pub fn col(&self) -> (r: usize)
        ensures
            r == self@.col,
    {
        self.col
    }

    pub fn is_dirty(&self) -> (r: bool)
        ensures
            r == self@.dirty,
    {
        self.dirty
    }
}

pub proof fn lemma_lines_of_nonempty(s: Seq<char>)
    ensures
        lines_of(s).len() >= 1,
{
    lemma_split_all_nonempty(s);
    if s.len() > 0 {
        lemma_split_all_nonempty(s.drop_last());
    }
}

/// One editing or cursor-moving key applied to a buffer.
#[derive(Clone, Copy, Debug, PartialEq, Eq)]
pub enum Edit {
    Left,
    Right,
    Up,
    Down,
    Home,
    End,
    Insert(char),
    Backspace,
    Delete,
    Newline,
}

impl BufferModel {
    pub open spec fn apply(self, e: Edit) -> BufferModel {
        match e {
            Edit::Left => self.move_left(),
            Edit::Right => self.move_right(),
            Edit::Up => self.move_up(),
            Edit::Down => self.move_down(),
            Edit::Home => self.move_home(),
            Edit::End => self.move_end(),
            Edit::Insert(c) => self.insert_char(c),
            Edit::Backspace => self.backspace(),
            Edit::Delete => self.delete_forward(),
            Edit::Newline => self.split_line(),
        }
    }

    /// The model after the edits, first to last.
    pub open spec fn apply_all(self, edits: Seq<Edit>) -> BufferModel
        decreases edits.len(),
    {
        if edits.len() == 0 {
            self
        } else {
            self.apply_all(edits.drop_last()).apply(edits.last())
        }
    }
}

impl LineBuffer {
    /// Applies one edit; see `BufferModel::apply`.
    pub fn apply(&mut self, e: Edit)
        requires
            old(self)@.wf(),
        ensures
            final(self)@ == old(self)@.apply(e),
            final(self)@.wf(),
    {
        match e {
            Edit::Left => self.move_left(),
            Edit::Right => self.move_right(),
            Edit::Up => self.move_up(),
            Edit::Down => self.move_down(),
            Edit::Home => self.move_home(),
            Edit::End => self.move_end(),
            Edit::Insert(c) => self.insert_char(c),
            Edit::Backspace => self.backspace(),
            Edit::Delete => self.delete_forward(),
            Edit::Newline => self.split_line(),
        }
    }
}

/// Every single edit keeps the cursor on a line and inside it.
pub proof fn lemma_edit_keeps_cursor_valid(m: BufferModel, e: Edit)
    requires
        m.wf(),
    ensures
        m.apply(e).wf(),
{
    let line = m.cur_line();
    match e {
        Edit::Backspace => {
            if m.col == 0 && m.row > 0 {
                let prev = m.lines[m.row - 1];
                let joined = m.lines.update(m.row - 1, prev + line);
                assert(joined.remove(m.row as int)[m.row - 1] == prev + line);
            }
        },
        Edit::Delete => {
            if m.col >= line.len() && m.row + 1 < m.lines.len() {
                let joined = m.lines.update(m.row as int, line + m.lines[m.row + 1 as int]);
                assert(joined.remove(m.row + 1 as int)[m.row as int] == line + m.lines[m.row + 1 as int]);
            }
        },
        Edit::Newline => {
            let split = m.lines.update(m.row as int, line.take(m.col as int)).insert(
                m.row + 1 as int,
                line.skip(m.col as int),
            );
            assert(split[m.row + 1 as int] == line.skip(m.col as int));
        },
        _ => {},
    }
}

/// After any sequence of moves and edits from a valid state, the cursor row
/// names a line and the column lies within that line.
pub proof fn lemma_cursor_stays_valid(m: BufferModel, edits: Seq<Edit>)
    requires
        m.wf(),
    ensures
        m.apply_all(edits).wf(),
    decreases edits.len(),
{
    if edits.len() > 0 {
        lemma_cursor_stays_valid(m, edits.drop_last());
        lemma_edit_keeps_cursor_valid(m.apply_all(edits.drop_last()), edits.last());
    }
}

/// Joining the lines of a text gives the text back, less one trailing
/// newline if it had one.
pub proof fn lemma_round_trip(s: Seq<char>)
    ensures
        join_lines(lines_of(s)) == (if s.len() > 0 && s.last() == '\n' {
            s.drop_last()
        } else {
            s
        }),
{
    if s.len() > 0 && s.last() == '\n' {
        lemma_join_split_all(s.drop_last());
    } else {
        lemma_join_split_all(s);
    }
}

pub proof fn lemma_join_split_all(s: Seq<char>)
    ensures
        join_lines(split_all(s)) == s,
    decreases s.len(),
{
    if s.len() > 0 {
        let t = s.drop_last();
        let rest = split_all(t);
        lemma_join_split_all(t);
        lemma_split_all_nonempty(t);
        if s.last() == '\n' {
            assert(rest.push(Seq::<char>::empty()).drop_last() =~= rest);
            assert(join_lines(split_all(s)) =~= s);
        } else {
            let upd = rest.update(rest.len() - 1, rest.last().push(s.last()));
            if rest.len() == 1 {
                assert(join_lines(upd) =~= s);
            } else {
                assert(upd.drop_last() =~= rest.drop_last());
                assert(upd.last() == rest.last().push(s.last()));
                let pre = join_lines(rest.drop_last()) + seq!['\n'];
                assert(join_lines(rest) == pre + rest.last());
                assert(join_lines(upd) == pre + rest.last().push(s.last()));
                assert(pre + rest.last().push(s.last()) =~= (pre + rest.last()).push(s.last()));
                assert(s =~= t.push(s.last()));
            }
        }
    }
}

/// Backspace at the start of a line after the first removes exactly one
/// line and leaves the cursor where the previous line used to end; delete
/// at the end of a line before the last removes exactly one line and keeps
/// the cursor where it was.
pub proof fn lemma_line_joins(m: BufferModel)
    requires
        m.wf(),
    ensures
        m.row > 0 && m.col == 0 ==> {
            &&& m.backspace().lines.len() == m.lines.len() - 1
            &&& m.backspace().row == m.row - 1
            &&& m.backspace().col == m.lines[m.row - 1].len()
        },
        m.row + 1 < m.lines.len() && m.col == m.cur_line().len() ==> {
            &&& m.delete_forward().lines.len() == m.lines.len() - 1
            &&& m.delete_forward().row == m.row
            &&& m.delete_forward().col == m.col
        },
{
}

/// Breaking a line and then deleting backwards restores the lines and the
/// cursor.
pub proof fn lemma_split_then_backspace(m: BufferModel)
    requires
        m.wf(),
    ensures
        m.split_line().backspace().lines == m.lines,
        m.split_line().backspace().row == m.row,
        m.split_line().backspace().col == m.col,
{
    let line = m.cur_line();
    let s = m.split_line();
    assert(s.lines[m.row as int] == line.take(m.col as int));
    assert(s.lines[m.row + 1 as int] == line.skip(m.col as int));
    assert(line.take(m.col as int) + line.skip(m.col as int) =~= line);
    assert(s.backspace().lines =~= m.lines);
}

} // verus!
