//! Paths as text: components separated by `/`.

use vstd::prelude::*;

use crate::chars::{chars_of, push_char, string_of};
use crate::tree::{lower_of, lowercase};

verus! {

/// Index of the last `c` in `s`, or -1 when there is none.
pub open spec fn last_index_of(s: Seq<char>, c: char) -> int
    decreases s.len(),
{
    if s.len() == 0 {
        -1
    } else if s.last() == c {
        s.len() - 1
    } else {
        last_index_of(s.drop_last(), c)
    }
}

pub proof fn lemma_last_index_bounds(s: Seq<char>, c: char)
    ensures
        -1 <= last_index_of(s, c) < s.len(),
        last_index_of(s, c) >= 0 ==> s[last_index_of(s, c)] == c,
        forall|j: int| last_index_of(s, c) < j < s.len() ==> s[j] != c,
    decreases s.len(),
{
    if s.len() > 0 && s.last() != c {
        lemma_last_index_bounds(s.drop_last(), c);
        assert forall|j: int| last_index_of(s, c) < j < s.len() implies s[j] != c by {
            if j < s.len() - 1 {
                assert(s.drop_last()[j] == s[j]);
            }
        }
    }
}

/// `name` appended to `dir` with one separator between them.
pub open spec fn join_path(dir: Seq<char>, name: Seq<char>) -> Seq<char> {
    if dir.len() == 0 {
        name
    } else if dir.last() == '/' {
        dir + name
    } else {
        dir + seq!['/'] + name
    }
}

/// The last component of a path: what follows its last separator.
pub open spec fn file_name_of(p: Seq<char>) -> Seq<char> {
    p.skip(last_index_of(p, '/') + 1)
}

/// The path less its last component: empty for a bare name, `/` for a name
/// directly under the root.
pub open spec fn parent_of(p: Seq<char>) -> Seq<char> {
    let i = last_index_of(p, '/');
    if i < 0 {
        Seq::<char>::empty()
    } else if i == 0 {
        seq!['/']
    } else {
        p.take(i)
    }
}

/// A file name less its extension: up to the last dot, unless that dot
/// opens the name.
pub open spec fn stem_of(name: Seq<char>) -> Seq<char> {
    let i = last_index_of(name, '.');
    if i > 0 {
        name.take(i)
    } else {
        name
    }
}

/// Names that begin with a dot are hidden.
pub open spec fn hidden(name: Seq<char>) -> bool {
    name.len() > 0 && name[0] == '.'
}

/// A leading `~/` stands for the home directory, when one is known.
pub open spec fn expanded_path(p: Seq<char>, home: Option<Seq<char>>) -> Seq<char> {
    if p.len() >= 2 && p[0] == '~' && p[1] == '/' && home is Some {
        join_path(home->0, p.skip(2))
    } else {
        p
    }
}

fn last_index(v: &Vec<char>, c: char) -> (r: Option<usize>)
    ensures
        r is None ==> last_index_of(v@, c) == -1,
        r is Some ==> r->0 == last_index_of(v@, c),
{
    let mut i: usize = v.len();
    assert(v@.take(i as int) =~= v@);
    while i > 0
        invariant
            i <= v.len(),
            last_index_of(v@, c) == last_index_of(v@.take(i as int), c),
        decreases i,
    {
        if v[i - 1] == c {
            return Some(i - 1);
        }
        assert(v@.take(i as int).drop_last() =~= v@.take(i - 1));
        i = i - 1;
    }
    None
}

fn take_chars(v: &Vec<char>, n: usize) -> (r: String)
    requires
        n <= v.len(),
    ensures
        r@ == v@.take(n as int),
{
    let mut r = String::new();
    let mut i: usize = 0;
    while i < n
        invariant
            i <= n <= v.len(),
            r@ == v@.take(i as int),
        decreases n - i,
    {
        push_char(&mut r, v[i]);
        i = i + 1;
        assert(r@ =~= v@.take(i as int));
    }
    r
}

fn skip_chars(v: &Vec<char>, n: usize) -> (r: String)
    requires
        n <= v.len(),
    ensures
        r@ == v@.skip(n as int),
{
    let mut r = String::new();
    let mut i: usize = n;
    while i < v.len()
        invariant
            n <= i <= v.len(),
            r@ == v@.subrange(n as int, i as int),
        decreases v.len() - i,
    {
        push_char(&mut r, v[i]);
        i = i + 1;
        assert(r@ =~= v@.subrange(n as int, i as int));
    }
    r
}

/// Joins a directory and a name; see `join_path`.
pub fn path_join(dir: &str, name: &str) -> (r: String)
    ensures
        r@ == join_path(dir@, name@),
{
    let d = chars_of(dir);
    let n = chars_of(name);
    let mut r = string_of(&d);
    if d.len() > 0 && d[d.len() - 1] != '/' {
        push_char(&mut r, '/');
    }
    let mut i: usize = 0;
    let ghost base = r@;
    while i < n.len()
        invariant
            i <= n.len(),
            r@ == base + n@.take(i as int),
        decreases n.len() - i,
    {
        push_char(&mut r, n[i]);
        i = i + 1;
        assert(r@ =~= base + n@.take(i as int));
    }
    assert(n@.take(i as int) =~= n@);
    assert(r@ =~= join_path(dir@, name@));
    r
}

/// The last component of a path; see `file_name_of`.
pub fn file_name(p: &str) -> (r: String)
    ensures
        r@ == file_name_of(p@),
{
    let v = chars_of(p);
    proof {
        lemma_last_index_bounds(v@, '/');
    }
    match last_index(&v, '/') {
        Some(i) => skip_chars(&v, i + 1),
        None => string_of(&v),
    }
}

/// The parent of a path; see `parent_of`.
pub fn parent(p: &str) -> (r: String)
    ensures
        r@ == parent_of(p@),
{
    let v = chars_of(p);
    proof {
        lemma_last_index_bounds(v@, '/');
    }
    match last_index(&v, '/') {
        Some(i) => {
            if i == 0 {
                let mut r = String::new();
                push_char(&mut r, '/');
                assert(r@ =~= seq!['/']);
                r
            } else {
                take_chars(&v, i)
            }
        },
        None => String::new(),
    }
}

/// A file name less its extension; see `stem_of`.
pub fn file_stem(name: &str) -> (r: String)
    ensures
        r@ == stem_of(name@),
{
    let v = chars_of(name);
    proof {
        lemma_last_index_bounds(v@, '.');
    }
    match last_index(&v, '.') {
        Some(i) => {
            if i > 0 {
                take_chars(&v, i)
            } else {
                string_of(&v)
            }
        },
        None => string_of(&v),
    }
}

/// Whether a directory entry is hidden; see `hidden`.
pub fn is_hidden(name: &str) -> (r: bool)
    ensures
        r == hidden(name@),
{
    let v = chars_of(name);
    v.len() > 0 && v[0] == '.'
}

/// Expands a leading `~/` against `home`; see `expanded_path`.
pub fn expand_tilde(p: &str, home: Option<String>) -> (r: String)
    ensures
        r@ == expanded_path(p@, match home { Some(h) => Some(h@), None => None }),
{
    let v = chars_of(p);
    if v.len() >= 2 && v[0] == '~' && v[1] == '/' {
        match home {
            Some(h) => {
                let rest = skip_chars(&v, 2);
                path_join(h.as_str(), rest.as_str())
            },
            None => string_of(&v),
        }
    } else {
        string_of(&v)
    }
}

/// A title file name: the title with `.md` appended.
pub open spec fn note_file_name(title: Seq<char>) -> Seq<char> {
    title + seq!['.', 'm', 'd']
}

/// The path of the note titled `title` in `dir`.
pub fn note_path(dir: &str, title: &str) -> (r: String)
    ensures
        r@ == join_path(dir@, note_file_name(title@)),
{
    let mut name = string_of(&chars_of(title));
    push_char(&mut name, '.');
    push_char(&mut name, 'm');
    push_char(&mut name, 'd');
    assert(name@ =~= note_file_name(title@));
    path_join(dir, name.as_str())
}

/// A file name's extension: what follows its last dot, unless that dot
/// opens the name; empty when there is none.
pub open spec fn extension_of(name: Seq<char>) -> Seq<char> {
    let i = last_index_of(name, '.');
    if i > 0 {
        name.skip(i + 1)
    } else {
        Seq::empty()
    }
}

/// Extensions of picture files.
pub open spec fn image_extension(e: Seq<char>) -> bool {
    ||| e == "png"@
    ||| e == "jpg"@
    ||| e == "jpeg"@
    ||| e == "gif"@
    ||| e == "svg"@
    ||| e == "webp"@
    ||| e == "bmp"@
}

/// Whether the file at `path` is a picture, by its extension in any case.
pub fn is_image_file(path: &str) -> (r: bool)
    ensures
        r == image_extension(lower_of(extension_of(file_name_of(path@)))),
{
    let name = chars_of(file_name(path).as_str());
    proof {
        lemma_last_index_bounds(name@, '.');
    }
    let ext = match last_index(&name, '.') {
        Some(i) => if i > 0 {
            skip_chars(&name, i + 1)
        } else {
            String::new()
        },
        None => String::new(),
    };
    let e = lowercase(ext.as_str());
    e == "png".to_owned() || e == "jpg".to_owned() || e == "jpeg".to_owned() || e == "gif".to_owned()
        || e == "svg".to_owned() || e == "webp".to_owned() || e == "bmp".to_owned()
}

} // verus!
