//! The single-line title of the open note.

use vstd::prelude::*;

use crate::chars::{chars_of, string_of};

verus! {

/// `char::is_whitespace`: the Unicode White_Space property.
pub open spec fn white(c: char) -> bool {
    let u = c as u32;
    ||| 0x09 <= u <= 0x0d
    ||| u == 0x20
    ||| u == 0x85
    ||| u == 0xa0
    ||| u == 0x1680
    ||| 0x2000 <= u <= 0x200a
    ||| u == 0x2028
    ||| u == 0x2029
    ||| u == 0x202f
    ||| u == 0x205f
    ||| u == 0x3000
}

pub fn is_white(c: char) -> (r: bool)
    ensures
        r == white(c),
{
    let u = c as u32;
    (0x09 <= u && u <= 0x0d) || u == 0x20 || u == 0x85 || u == 0xa0 || u == 0x1680 || (0x2000 <= u
        && u <= 0x200a) || u == 0x2028 || u == 0x2029 || u == 0x202f || u == 0x205f || u == 0x3000
}

/// `s` less its leading white space.
pub open spec fn trim_start(s: Seq<char>) -> Seq<char>
    decreases s.len(),
{
    if s.len() > 0 && white(s[0]) {
        trim_start(s.skip(1))
    } else {
        s
    }
}

/// `s` less its trailing white space.
pub open spec fn trim_end(s: Seq<char>) -> Seq<char>
    decreases s.len(),
{
    if s.len() > 0 && white(s.last()) {
        trim_end(s.drop_last())
    } else {
        s
    }
}

/// `s` less white space at both ends, as `str::trim` gives it.
pub open spec fn trimmed(s: Seq<char>) -> Seq<char> {
    trim_end(trim_start(s))
}

/// The text of `s` with white space at both ends removed.
pub fn trim(s: &str) -> (r: String)
    ensures
        r@ == trimmed(s@),
{
    let v = chars_of(s);
    let mut start: usize = 0;
    assert(v@.skip(0) =~= v@);
    while start < v.len() && is_white(v[start])
        invariant
            start <= v.len(),
            trim_start(v@) == trim_start(v@.skip(start as int)),
        decreases v.len() - start,
    {
        assert(v@.skip(start as int).skip(1) =~= v@.skip(start + 1));
        start = start + 1;
    }
    let mut end: usize = v.len();
    assert(v@.skip(start as int) =~= v@.subrange(start as int, end as int));
    while end > start && is_white(v[end - 1])
        invariant
            start <= end <= v.len(),
            trim_end(trim_start(v@)) == trim_end(v@.subrange(start as int, end as int)),
        decreases end - start,
    {
        assert(v@.subrange(start as int, end as int).drop_last() =~= v@.subrange(start as int, end - 1));
        end = end - 1;
    }
    let mut part: Vec<char> = Vec::new();
    let mut i: usize = start;
    while i < end
        invariant
            start <= i <= end <= v.len(),
            part@ == v@.subrange(start as int, i as int),
        decreases end - i,
    {
        part.push(v[i]);
        i = i + 1;
        assert(part@ =~= v@.subrange(start as int, i as int));
    }
    string_of(&part)
}

/// Characters a title may not hold: path separators, a dot, line breaks.
pub open spec fn allowed_in_title(c: char) -> bool {
    c != '/' && c != '\\' && c != '.' && c != '\n' && c != '\r'
}

/// What a `TitleField` holds.
pub ghost struct TitleModel {
    pub text: Seq<char>,
    pub cursor: nat,
}

impl TitleModel {
    pub open spec fn wf(self) -> bool {
        self.cursor <= self.text.len()
    }
}

/// An editable title with a cursor between characters.
pub struct TitleField {
    text: Vec<char>,
    cursor: usize,
}

impl View for TitleField {
    type V = TitleModel;

    closed spec fn view(&self) -> TitleModel {
        TitleModel { text: self.text@, cursor: self.cursor as nat }
    }
}

impl TitleField {
    /// An empty title.
    pub fn new() -> (r: TitleField)
        ensures
            r@.text.len() == 0,
            r@.cursor == 0,
    {
        TitleField { text: Vec::new(), cursor: 0 }
    }

    /// The title `s`, cursor after its last character.
    pub fn from_text(s: &str) -> (r: TitleField)
        ensures
            r@.text == s@,
            r@.cursor == s@.len(),
    {
        let text = chars_of(s);
        let cursor = text.len();
        TitleField { text, cursor }
    }

    pub fn text(&self) -> (r: String)
        ensures
            r@ == self@.text,
    {
        string_of(&self.text)
    }

    pub fn cursor(&self) -> (r: usize)
        ensures
            r == self@.cursor,
    {
        self.cursor
    }

    pub fn move_left(&mut self)
        requires
            old(self)@.wf(),
        ensures
            final(self)@.text == old(self)@.text,
            final(self)@.cursor == (if old(self)@.cursor > 0 {
                old(self)@.cursor - 1
            } else {
                0
            }),
            final(self)@.wf(),
    {
        if self.cursor > 0 {
            self.cursor = self.cursor - 1;
        }
    }

    pub fn move_right(&mut self)
        requires
            old(self)@.wf(),
        ensures
            final(self)@.text == old(self)@.text,
            final(self)@.cursor == (if old(self)@.cursor < old(self)@.text.len() {
                old(self)@.cursor + 1
            } else {
                old(self)@.cursor
            }),
            final(self)@.wf(),
    {
        if self.cursor < self.text.len() {
            self.cursor = self.cursor + 1;
        }
    }

    pub fn move_home(&mut self)
        ensures
            final(self)@.text == old(self)@.text,
            final(self)@.cursor == 0,
            final(self)@.wf(),
    {
        self.cursor = 0;
    }

    pub fn move_end(&mut self)
        ensures
            final(self)@.text == old(self)@.text,
            final(self)@.cursor == old(self)@.text.len(),
            final(self)@.wf(),
    {
        self.cursor = self.text.len();
    }

    /// Removes the character before the cursor; tells whether there was one.
    pub fn backspace(&mut self) -> (edited: bool)
        requires
            old(self)@.wf(),
        ensures
            edited == (old(self)@.cursor > 0),
            edited ==> final(self)@ == (TitleModel {
                text: old(self)@.text.remove(old(self)@.cursor - 1),
                cursor: (old(self)@.cursor - 1) as nat,
            }),
            !edited ==> final(self)@ == old(self)@,
            final(self)@.wf(),
    {
        if self.cursor > 0 {
            self.text.remove(self.cursor - 1);
            self.cursor = self.cursor - 1;
            true
        } else {
            false
        }
    }

    /// Removes the character after the cursor; tells whether there was one.
    pub fn delete(&mut self) -> (edited: bool)
        requires
            old(self)@.wf(),
        ensures
            edited == (old(self)@.cursor < old(self)@.text.len()),
            edited ==> final(self)@ == (TitleModel {
                text: old(self)@.text.remove(old(self)@.cursor as int),
                cursor: old(self)@.cursor,
            }),
            !edited ==> final(self)@ == old(self)@,
            final(self)@.wf(),
    {
        if self.cursor < self.text.len() {
            self.text.remove(self.cursor);
            true
        } else {
            false
        }
    }

    /// Inserts `c` at the cursor unless a title may not hold it; tells
    /// whether it was inserted.
    pub fn insert(&mut self, c: char) -> (edited: bool)
        requires
            old(self)@.wf(),
        ensures
            edited == allowed_in_title(c),
            edited ==> final(self)@ == (TitleModel {
                text: old(self)@.text.insert(old(self)@.cursor as int, c),
                cursor: old(self)@.cursor + 1,
            }),
            !edited ==> final(self)@ == old(self)@,
            final(self)@.wf(),
    {
        if c != '/' && c != '\\' && c != '.' && c != '\n' && c != '\r' {
            self.text.insert(self.cursor, c);
            assert(self.cursor < self.text.len());
            self.cursor = self.cursor + 1;
            true
        } else {
            false
        }
    }
}

} // verus!
