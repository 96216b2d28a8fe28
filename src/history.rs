//! Recent version-control history of the notes directory.

use vstd::prelude::*;

use crate::buffer::{lines_of, split_lines_preserve};
use crate::chars::{chars_of, push_char, string_views};

verus! {

/// How many commits the history shows.
pub const HISTORY_LIMIT: usize = 30;

/// One commit: short id, subject line, author, relative date, and the paths
/// it changed.
#[derive(Debug)]
pub struct CommitInfo {
    pub hash: String,
    pub summary: String,
    pub author: String,
    pub date: String,
    pub changed_files: Vec<String>,
}

/// The four text fields of a commit.
pub ghost struct CommitFields {
    pub hash: Seq<char>,
    pub summary: Seq<char>,
    pub author: Seq<char>,
    pub date: Seq<char>,
}

impl CommitInfo {
    pub open spec fn fields(&self) -> CommitFields {
        CommitFields {
            hash: self.hash@,
            summary: self.summary@,
            author: self.author@,
            date: self.date@,
        }
    }
}

/// Index of the first `c` in `s`, or -1 when there is none.
pub open spec fn index_of(s: Seq<char>, c: char) -> int
    decreases s.len(),
{
    if s.len() == 0 {
        -1
    } else if s[0] == c {
        0
    } else if index_of(s.skip(1), c) < 0 {
        -1
    } else {
        index_of(s.skip(1), c) + 1
    }
}

/// A line less one trailing carriage return.
pub open spec fn strip_cr(l: Seq<char>) -> Seq<char> {
    if l.len() > 0 && l.last() == '\r' {
        l.drop_last()
    } else {
        l
    }
}

/// A log line `hash|summary|author|date`: the first three bars separate the
/// fields and the date keeps any further bars; a line with fewer than three
/// bars is no commit.
pub open spec fn parse_record(line: Seq<char>) -> Option<CommitFields> {
    let i1 = index_of(line, '|');
    let r1 = line.skip(i1 + 1);
    let i2 = index_of(r1, '|');
    let r2 = r1.skip(i2 + 1);
    let i3 = index_of(r2, '|');
    if i1 < 0 || i2 < 0 || i3 < 0 {
        None
    } else {
        Some(
            CommitFields {
                hash: line.take(i1),
                summary: r1.take(i2),
                author: r2.take(i3),
                date: r2.skip(i3 + 1),
            },
        )
    }
}

/// The commits read from the given lines, in order.
pub open spec fn records(ls: Seq<Seq<char>>) -> Seq<CommitFields>
    decreases ls.len(),
{
    if ls.len() == 0 {
        Seq::empty()
    } else {
        let rest = records(ls.drop_last());
        match parse_record(strip_cr(ls.last())) {
            Some(r) => rest.push(r),
            None => rest,
        }
    }
}

/// The non-empty lines, each less a trailing carriage return.
pub open spec fn nonempty_lines(ls: Seq<Seq<char>>) -> Seq<Seq<char>>
    decreases ls.len(),
{
    if ls.len() == 0 {
        Seq::empty()
    } else {
        let rest = nonempty_lines(ls.drop_last());
        if strip_cr(ls.last()).len() > 0 {
            rest.push(strip_cr(ls.last()))
        } else {
            rest
        }
    }
}

proof fn lemma_index_of_bounds(s: Seq<char>, c: char)
    ensures
        -1 <= index_of(s, c) < s.len(),
        index_of(s, c) >= 0 ==> s[index_of(s, c)] == c,
        forall|j: int| 0 <= j < s.len() && (index_of(s, c) < 0 || j < index_of(s, c)) ==> s[j] != c,
    decreases s.len(),
{
    if s.len() > 0 && s[0] != c {
        lemma_index_of_bounds(s.skip(1), c);
        assert forall|j: int| 0 <= j < s.len() && (index_of(s, c) < 0 || j < index_of(s, c)) implies s[j] != c by {
            if j > 0 {
                assert(s.skip(1)[j - 1] == s[j]);
            }
        }
    }
}

fn find_from(v: &Vec<char>, start: usize, c: char) -> (r: Option<usize>)
    requires
        start <= v.len(),
    ensures
        match r {
            Some(i) => start + index_of(v@.skip(start as int), c) == i && start <= i < v.len(),
            None => index_of(v@.skip(start as int), c) < 0,
        },
{
    proof {
        lemma_index_of_bounds(v@.skip(start as int), c);
    }
    let mut i: usize = start;
    while i < v.len()
        invariant
            start <= i <= v.len(),
            forall|j: int| start <= j < i ==> v@[j] != c,
        decreases v.len() - i,
    {
        if v[i] == c {
            proof {
                lemma_index_first(v@.skip(start as int), c, i - start);
            }
            return Some(i);
        }
        i = i + 1;
    }
    proof {
        if index_of(v@.skip(start as int), c) >= 0 {
            let k = index_of(v@.skip(start as int), c);
            assert(v@.skip(start as int)[k] == v@[start + k]);
        }
    }
    None
}

proof fn lemma_index_first(s: Seq<char>, c: char, i: int)
    requires
        0 <= i < s.len(),
        s[i] == c,
        forall|j: int| 0 <= j < i ==> s[j] != c,
    ensures
        index_of(s, c) == i,
{
    lemma_index_of_bounds(s, c);
}

fn slice_string(v: &Vec<char>, from: usize, to: usize) -> (r: String)
    requires
        from <= to <= v.len(),
    ensures
        r@ == v@.subrange(from as int, to as int),
{
    let mut r = String::new();
    let mut i: usize = from;
    while i < to
        invariant
            from <= i <= to <= v.len(),
            r@ == v@.subrange(from as int, i as int),
        decreases to - i,
    {
        push_char(&mut r, v[i]);
        i = i + 1;
        assert(r@ =~= v@.subrange(from as int, i as int));
    }
    r
}

fn without_cr(l: &str) -> (r: Vec<char>)
    ensures
        r@ == strip_cr(l@),
{
    let mut v = chars_of(l);
    if v.len() > 0 && v[v.len() - 1] == '\r' {
        v.pop();
    }
    v
}

/// Reads one log line; see `parse_record`. The commit has no changed files
/// yet.
pub fn parse_commit_line(line: &str) -> (r: Option<CommitInfo>)
    ensures
        match r {
            Some(ci) => parse_record(strip_cr(line@)) == Some(ci.fields()) && ci.changed_files@.len() == 0,
            None => parse_record(strip_cr(line@)) is None,
        },
{
    let v = without_cr(line);
    let ghost l = v@;
    let i1 = match find_from(&v, 0, '|') {
        Some(i) => i,
        None => {
            assert(l.skip(0) =~= l);
            return None;
        },
    };
    assert(l.skip(0) =~= l);
    proof {
        lemma_index_of_bounds(l, '|');
    }
    let i2 = match find_from(&v, i1 + 1, '|') {
        Some(i) => i,
        None => return None,
    };
    proof {
        lemma_index_of_bounds(l.skip(i1 + 1), '|');
        assert(l.skip(i1 + 1).skip(i2 - i1) =~= l.skip(i2 + 1));
    }
    let i3 = match find_from(&v, i2 + 1, '|') {
        Some(i) => i,
        None => return None,
    };
    proof {
        lemma_index_of_bounds(l.skip(i2 + 1), '|');
        let r1 = l.skip(i1 + 1);
        let r2 = l.skip(i2 + 1);
        assert(r1.take(i2 - i1 - 1) =~= l.subrange(i1 + 1, i2 as int));
        assert(r2.take(i3 - i2 - 1) =~= l.subrange(i2 + 1, i3 as int));
        assert(r2.skip(i3 - i2) =~= l.subrange(i3 + 1, l.len() as int));
        assert(l.take(i1 as int) =~= l.subrange(0, i1 as int));
    }
    Some(
        CommitInfo {
            hash: slice_string(&v, 0, i1),
            summary: slice_string(&v, i1 + 1, i2),
            author: slice_string(&v, i2 + 1, i3),
            date: slice_string(&v, i3 + 1, v.len()),
            changed_files: Vec::new(),
        },
    )
}

/// The commits of a log listing, one line each; lines that are no commit
/// are skipped.
pub fn parse_log(output: &str) -> (r: Vec<CommitInfo>)
    ensures
        r@.map_values(|c: CommitInfo| c.fields()) == records(lines_of(output@)),
        forall|i: int| 0 <= i < r@.len() ==> (#[trigger] r@[i]).changed_files@.len() == 0,
{
    let lines = split_lines_preserve(output);
    let ghost ls = string_views(lines@);
    let mut r: Vec<CommitInfo> = Vec::new();
    let mut i: usize = 0;
    while i < lines.len()
        invariant
            i <= lines.len(),
            ls == string_views(lines@),
            ls.len() == lines.len(),
            r@.map_values(|c: CommitInfo| c.fields()) == records(ls.take(i as int)),
            forall|k: int| 0 <= k < r@.len() ==> (#[trigger] r@[k]).changed_files@.len() == 0,
        decreases lines.len() - i,
    {
        let parsed = parse_commit_line(lines[i].as_str());
        let ghost before = r@;
        assert(ls.take(i + 1).drop_last() =~= ls.take(i as int));
        assert(ls.take(i + 1).last() == lines@[i as int]@);
        match parsed {
            Some(ci) => {
                r.push(ci);
                assert(r@.map_values(|c: CommitInfo| c.fields()) =~= before.map_values(
                    |c: CommitInfo| c.fields(),
                ).push(ci.fields()));
            },
            None => {},
        }
        i = i + 1;
    }
    assert(ls.take(i as int) =~= ls);
    r
}

/// The changed paths listed one per line; empty lines are skipped.
pub fn parse_changed_files(output: &str) -> (r: Vec<String>)
    ensures
        string_views(r@) == nonempty_lines(lines_of(output@)),
{
    let lines = split_lines_preserve(output);
    let ghost ls = string_views(lines@);
    let mut r: Vec<String> = Vec::new();
    let mut i: usize = 0;
    while i < lines.len()
        invariant
            i <= lines.len(),
            ls == string_views(lines@),
            ls.len() == lines.len(),
            string_views(r@) == nonempty_lines(ls.take(i as int)),
        decreases lines.len() - i,
    {
        let v = without_cr(lines[i].as_str());
        assert(ls.take(i + 1).drop_last() =~= ls.take(i as int));
        assert(ls.take(i + 1).last() == lines@[i as int]@);
        if v.len() > 0 {
            let ghost before = r@;
            let s = slice_string(&v, 0, v.len());
            assert(v@.subrange(0, v.len() as int) =~= v@);
            r.push(s);
            assert(string_views(r@) =~= string_views(before).push(s@));
        }
        i = i + 1;
    }
    assert(ls.take(i as int) =~= ls);
    r
}

/// The selection after moving down: one further, stopping at the last.
pub open spec fn after_next(sel: usize, len: nat) -> usize {
    if len == 0 {
        sel
    } else if sel + 1 < len {
        (sel + 1) as usize
    } else {
        (len - 1) as usize
    }
}

/// The selection after moving up: one back, stopping at the first.
pub open spec fn after_prev(sel: usize, len: nat) -> usize {
    if len > 0 && sel > 0 {
        (sel - 1) as usize
    } else {
        sel
    }
}

/// The history list and its selection.
pub struct GitSection {
    pub commits: Vec<CommitInfo>,
    pub selected: usize,
    pub path: Option<String>,
}

impl GitSection {
    /// The history of the repository at `path`, given its recent commits,
    /// with the newest selected.
    pub fn new_for(path: Option<String>, commits: Vec<CommitInfo>) -> (r: GitSection)
        ensures
            r.commits == commits,
            r.selected == 0,
            r.path == path,
    {
        GitSection { commits, selected: 0, path }
    }

    /// Replaces the commits and selects the newest.
    pub fn refresh(&mut self, commits: Vec<CommitInfo>)
        ensures
            final(self).commits == commits,
            final(self).selected == 0,
            final(self).path == old(self).path,
    {
        self.commits = commits;
        self.selected = 0;
    }

    /// The paths changed by the selected commit; none when there is no
    /// selected commit.
    pub fn selected_changed_files(&self) -> (r: Vec<String>)
        ensures
            self.selected < self.commits.len() ==> string_views(r@) == string_views(
                self.commits@[self.selected as int].changed_files@,
            ),
            self.selected >= self.commits.len() ==> r@.len() == 0,
    {
        if self.selected < self.commits.len() {
            let files = &self.commits[self.selected].changed_files;
            let mut r: Vec<String> = Vec::new();
            let mut i: usize = 0;
            while i < files.len()
                invariant
                    i <= files.len(),
                    string_views(r@) == string_views(files@).take(i as int),
                    string_views(files@).len() == files.len(),
                decreases files.len() - i,
            {
                let ghost before = r@;
                r.push(files[i].clone());
                assert(string_views(r@) =~= string_views(before).push(files@[i as int]@));
                i = i + 1;
                assert(string_views(r@) =~= string_views(files@).take(i as int));
            }
            assert(string_views(files@).take(i as int) =~= string_views(files@));
            r
        } else {
            Vec::new()
        }
    }

    /// Moves the selection one commit down, stopping at the last.
    pub fn select_next(&mut self)
        ensures
            final(self).commits == old(self).commits,
            final(self).path == old(self).path,
            final(self).selected == after_next(old(self).selected, old(self).commits.len() as nat),
    {
        let n = self.commits.len();
        if n > 0 {
            if self.selected < n - 1 {
                self.selected = self.selected + 1;
            } else {
                self.selected = n - 1;
            }
        }
    }

    /// Moves the selection one commit up, stopping at the first.
    pub fn select_prev(&mut self)
        ensures
            final(self).commits == old(self).commits,
            final(self).path == old(self).path,
            final(self).selected == after_prev(old(self).selected, old(self).commits.len() as nat),
    {
        if self.commits.len() > 0 && self.selected > 0 {
            self.selected = self.selected - 1;
        }
    }

    /// Selects the newest commit, if there is one.
    pub fn select_first(&mut self)
        ensures
            final(self).commits == old(self).commits,
            final(self).path == old(self).path,
            final(self).selected == (if old(self).commits.len() > 0 {
                0
            } else {
                old(self).selected
            }),
    {
        if self.commits.len() > 0 {
            self.selected = 0;
        }
    }

    /// Selects the oldest commit, if there is one.
    pub fn select_last(&mut self)
        ensures
            final(self).commits == old(self).commits,
            final(self).path == old(self).path,
            final(self).selected == (if old(self).commits.len() > 0 {
                old(self).commits.len() - 1
            } else {
                old(self).selected as int
            }),
    {
        if self.commits.len() > 0 {
            self.selected = self.commits.len() - 1;
        }
    }
}

} // verus!
