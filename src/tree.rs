//! The note tree: directories and notes under a root directory.

use vstd::prelude::*;

use crate::chars::{chars_of, string_of};
use crate::paths::{file_name, file_name_of, file_stem, hidden, is_hidden, join_path, path_join, stem_of};

verus! {

/// A directory or a note file.
#[derive(Debug)]
pub enum NoteNode {
    Dir { name: String, path: String, children: Vec<NoteNode> },
    File { title: String, path: String },
}

/// The mathematical content of a `NoteNode`.
pub ghost enum Shape {
    Dir { name: Seq<char>, path: Seq<char>, children: Seq<Shape> },
    File { title: Seq<char>, path: Seq<char> },
}

impl NoteNode {
    pub open spec fn shape(&self) -> Shape
        decreases self,
    {
        match self {
            NoteNode::Dir { name, path, children } => Shape::Dir {
                name: name@,
                path: path@,
                children: Seq::new(
                    children.len() as nat,
                    |i: int|
                        if 0 <= i < children.len() {
                            children[i].shape()
                        } else {
                            Shape::File { title: Seq::empty(), path: Seq::empty() }
                        },
                ),
            },
            NoteNode::File { title, path } => Shape::File { title: title@, path: path@ },
        }
    }
}

impl Shape {
    pub open spec fn is_dir(self) -> bool {
        self is Dir
    }

    /// The displayed name: a directory's name or a note's title.
    pub open spec fn label(self) -> Seq<char> {
        match self {
            Shape::Dir { name, .. } => name,
            Shape::File { title, .. } => title,
        }
    }
}

/// The shapes of a sequence of nodes.
pub open spec fn shapes_of(v: Seq<NoteNode>) -> Seq<Shape> {
    v.map_values(|n: NoteNode| n.shape())
}

/// One entry of a directory listing; a directory entry carries the listing
/// of its own contents.
#[derive(Debug)]
pub struct ListedEntry {
    pub name: String,
    pub is_dir: bool,
    pub contents: Vec<ListedEntry>,
}

/// What `str::to_lowercase` makes of a text.
pub uninterp spec fn lower_of(s: Seq<char>) -> Seq<char>;

/// Relies on `str::to_lowercase`: the lowercase form of a text, a function
/// of its characters alone.
#[verifier::external_body]
pub(crate) fn lowercase(s: &str) -> (r: String)
    ensures
        r@ == lower_of(s@),
{
    s.to_lowercase()
}

/// Lexicographic order of texts by code point, which is the order of their
/// UTF-8 bytes.
pub open spec fn text_less(a: Seq<char>, b: Seq<char>) -> bool
    decreases a.len(),
{
    if a.len() == 0 {
        b.len() > 0
    } else if b.len() == 0 {
        false
    } else if a[0] != b[0] {
        (a[0] as u32) < (b[0] as u32)
    } else {
        text_less(a.skip(1), b.skip(1))
    }
}

/// In the sidebar order `a` comes strictly after `b`: directories come
/// before notes, and within each group names compare case-insensitively.
pub open spec fn goes_after(a: Shape, b: Shape) -> bool {
    ||| (!a.is_dir() && b.is_dir())
    ||| (a.is_dir() == b.is_dir() && text_less(lower_of(b.label()), lower_of(a.label())))
}

/// `x` placed into `s` after every element that does not come after it.
pub open spec fn insert_sorted(s: Seq<Shape>, x: Shape) -> Seq<Shape>
    decreases s.len(),
{
    if s.len() == 0 {
        seq![x]
    } else if goes_after(s.last(), x) {
        insert_sorted(s.drop_last(), x).push(s.last())
    } else {
        s.push(x)
    }
}

/// The stable sort of `s` in sidebar order: equal keys keep their order.
pub open spec fn sorted_shapes(s: Seq<Shape>) -> Seq<Shape>
    decreases s.len(),
{
    if s.len() == 0 {
        s
    } else {
        insert_sorted(sorted_shapes(s.drop_last()), s.last())
    }
}

/// The node for a listing entry found in directory `dir`.
pub open spec fn entry_shape(dir: Seq<char>, e: ListedEntry) -> Shape
    decreases e, 0int,
{
    let path = join_path(dir, e.name@);
    if e.is_dir {
        Shape::Dir {
            name: e.name@,
            path,
            children: sorted_shapes(visible_shapes(path, e.contents, e.contents.len() as int)),
        }
    } else {
        Shape::File { title: stem_of(e.name@), path }
    }
}

/// The nodes for the first `n` entries of a listing of `dir`, hidden ones
/// left out, in listing order.
pub open spec fn visible_shapes(dir: Seq<char>, entries: Vec<ListedEntry>, n: int) -> Seq<Shape>
    decreases entries, n,
{
    if n <= 0 || n > entries.len() {
        Seq::empty()
    } else {
        let rest = visible_shapes(dir, entries, n - 1);
        let e = entries[n - 1];
        if hidden(e.name@) {
            rest
        } else {
            rest.push(entry_shape(dir, e))
        }
    }
}

/// The children of directory `dir` given its listing: visible entries in
/// sidebar order.
pub open spec fn level_shapes(dir: Seq<char>, entries: Vec<ListedEntry>) -> Seq<Shape> {
    sorted_shapes(visible_shapes(dir, entries, entries.len() as int))
}

/// The name shown for the root directory: its last component, or the whole
/// path when that is empty.
pub open spec fn root_name(dir: Seq<char>) -> Seq<char> {
    if file_name_of(dir).len() > 0 {
        file_name_of(dir)
    } else {
        dir
    }
}

/// Lexicographic order is asymmetric.
proof fn lemma_text_less_asym(a: Seq<char>, b: Seq<char>)
    ensures
        !(text_less(a, b) && text_less(b, a)),
    decreases a.len(),
{
    if a.len() > 0 && b.len() > 0 && a[0] == b[0] {
        lemma_text_less_asym(a.skip(1), b.skip(1));
    }
}

/// Lexicographic order is total: two texts are equal or one comes first.
proof fn lemma_text_less_total(a: Seq<char>, b: Seq<char>)
    ensures
        a == b || text_less(a, b) || text_less(b, a),
    decreases a.len(),
{
    if a.len() > 0 && b.len() > 0 && a[0] == b[0] {
        lemma_text_less_total(a.skip(1), b.skip(1));
        if a.skip(1) == b.skip(1) {
            assert(a =~= seq![a[0]] + a.skip(1));
            assert(b =~= seq![b[0]] + b.skip(1));
        }
    } else if a.len() > 0 && b.len() > 0 {
        vstd::utf8::char_u32_cast(a[0], a[0] as u32);
        vstd::utf8::char_u32_cast(b[0], b[0] as u32);
        assert((a[0] as u32) != (b[0] as u32));
    } else if a.len() == 0 && b.len() == 0 {
        assert(a =~= b);
    }
}

/// Lexicographic order is transitive.
proof fn lemma_text_less_trans(a: Seq<char>, b: Seq<char>, c: Seq<char>)
    requires
        text_less(a, b),
        text_less(b, c),
    ensures
        text_less(a, c),
    decreases a.len(),
{
    if a.len() > 0 && b.len() > 0 && c.len() > 0 && a[0] == b[0] && b[0] == c[0] {
        lemma_text_less_trans(a.skip(1), b.skip(1), c.skip(1));
    }
}

/// Neither comes after the other: same group and same lowercase name.
proof fn lemma_goes_after_total(a: Shape, b: Shape)
    ensures
        !(goes_after(a, b) && goes_after(b, a)),
        !goes_after(a, b) && !goes_after(b, a) ==> a.is_dir() == b.is_dir() && lower_of(a.label())
            == lower_of(b.label()),
{
    lemma_text_less_asym(lower_of(a.label()), lower_of(b.label()));
    lemma_text_less_total(lower_of(a.label()), lower_of(b.label()));
}

/// Not coming after is transitive.
proof fn lemma_not_after_trans(a: Shape, b: Shape, c: Shape)
    requires
        !goes_after(a, b),
        !goes_after(b, c),
    ensures
        !goes_after(a, c),
{
    let (ka, kb, kc) = (lower_of(a.label()), lower_of(b.label()), lower_of(c.label()));
    lemma_text_less_total(ka, kb);
    lemma_text_less_total(kb, kc);
    lemma_text_less_asym(kc, ka);
    if text_less(kc, ka) && a.is_dir() == b.is_dir() && b.is_dir() == c.is_dir() {
        if text_less(ka, kb) {
            lemma_text_less_trans(kc, ka, kb);
            lemma_text_less_asym(kc, kb);
        }
        if text_less(kb, kc) {
            lemma_text_less_trans(kb, kc, ka);
            lemma_text_less_asym(kb, ka);
        }
    }
}

/// In sidebar order: no element comes after a later one.
pub open spec fn in_sidebar_order(s: Seq<Shape>) -> bool {
    forall|i: int, j: int| 0 <= i < j < s.len() ==> !goes_after(#[trigger] s[i], #[trigger] s[j])
}

proof fn lemma_insert_sorted_ordered(s: Seq<Shape>, x: Shape)
    requires
        in_sidebar_order(s),
    ensures
        in_sidebar_order(insert_sorted(s, x)),
        insert_sorted(s, x).to_multiset() == s.to_multiset().insert(x),
    decreases s.len(),
{
    if s.len() == 0 {
        assert(insert_sorted(s, x) =~= seq![x]);
        broadcast use vstd::seq_lib::group_seq_properties;
        assert(seq![x] =~= Seq::<Shape>::empty().push(x));
    } else if goes_after(s.last(), x) {
        let t = s.drop_last();
        assert(in_sidebar_order(t)) by {
            assert forall|i: int, j: int| 0 <= i < j < t.len() implies !goes_after(#[trigger] t[i], #[trigger] t[j]) by {
                assert(t[i] == s[i] && t[j] == s[j]);
            }
        }
        lemma_insert_sorted_ordered(t, x);
        let r = insert_sorted(t, x);
        let out = r.push(s.last());
        lemma_goes_after_total(s.last(), x);
        assert forall|i: int, j: int| 0 <= i < j < out.len() implies !goes_after(#[trigger] out[i], #[trigger] out[j]) by {
            if j == out.len() - 1 {
                assert(out[j] == s.last());
                let e = r[i];
                assert(r.to_multiset().count(e) > 0) by {
                    broadcast use vstd::seq_lib::group_seq_properties;
                    assert(r.contains(e));
                }
                assert(t.to_multiset().insert(x).count(e) > 0);
                if e == x {
                } else {
                    assert(t.to_multiset().count(e) > 0);
                    broadcast use vstd::seq_lib::group_seq_properties;
                    assert(t.contains(e));
                    let k = choose|k: int| 0 <= k < t.len() && t[k] == e;
                    assert(s[k] == e);
                    assert(s[s.len() - 1] == s.last());
                }
            } else {
                assert(out[i] == r[i] && out[j] == r[j]);
            }
        }
        broadcast use vstd::seq_lib::group_seq_properties;
        assert(s =~= t.push(s.last()));
        assert(out.to_multiset() == r.to_multiset().insert(s.last()));
        assert(s.to_multiset() == t.to_multiset().insert(s.last()));
        assert(out.to_multiset() =~= s.to_multiset().insert(x));
    } else {
        let out = s.push(x);
        assert forall|i: int, j: int| 0 <= i < j < out.len() implies !goes_after(#[trigger] out[i], #[trigger] out[j]) by {
            if j == out.len() - 1 {
                if i < s.len() - 1 {
                    lemma_not_after_trans(s[i], s[s.len() - 1], x);
                }
            } else {
                assert(out[i] == s[i] && out[j] == s[j]);
            }
        }
        broadcast use vstd::seq_lib::group_seq_properties;
    }
}

/// The sidebar sort puts every level in sidebar order: directories first,
/// then notes, each group by lowercase name; and it neither adds nor drops
/// an element.
pub proof fn lemma_sorted_shapes_ordered(s: Seq<Shape>)
    ensures
        in_sidebar_order(sorted_shapes(s)),
        sorted_shapes(s).to_multiset() == s.to_multiset(),
    decreases s.len(),
{
    broadcast use vstd::seq_lib::group_seq_properties;
    if s.len() > 0 {
        lemma_sorted_shapes_ordered(s.drop_last());
        lemma_insert_sorted_ordered(sorted_shapes(s.drop_last()), s.last());
        assert(s =~= s.drop_last().push(s.last()));
    }
}

fn less_text(a: &Vec<char>, b: &Vec<char>) -> (r: bool)
    ensures
        r == text_less(a@, b@),
{
    let mut i: usize = 0;
    assert(a@.skip(0) =~= a@);
    assert(b@.skip(0) =~= b@);
    while i < a.len() && i < b.len() && a[i] == b[i]
        invariant
            i <= a.len(),
            i <= b.len(),
            text_less(a@, b@) == text_less(a@.skip(i as int), b@.skip(i as int)),
        decreases a.len() - i,
    {
        assert(a@.skip(i as int).skip(1) =~= a@.skip(i + 1));
        assert(b@.skip(i as int).skip(1) =~= b@.skip(i + 1));
        i = i + 1;
    }
    if i == a.len() {
        i < b.len()
    } else if i == b.len() {
        false
    } else {
        assert(a@.skip(i as int)[0] == a@[i as int]);
        assert(b@.skip(i as int)[0] == b@[i as int]);
        (a[i] as u32) < (b[i] as u32)
    }
}

fn sort_key(n: &NoteNode) -> (r: Vec<char>)
    ensures
        r@ == lower_of(n.shape().label()),
{
    match n {
        NoteNode::Dir { name, .. } => chars_of(lowercase(name.as_str()).as_str()),
        NoteNode::File { title, .. } => chars_of(lowercase(title.as_str()).as_str()),
    }
}

fn node_goes_after(a: &NoteNode, b: &NoteNode) -> (r: bool)
    ensures
        r == goes_after(a.shape(), b.shape()),
{
    let a_dir = matches!(a, NoteNode::Dir { .. });
    let b_dir = matches!(b, NoteNode::Dir { .. });
    if !a_dir && b_dir {
        true
    } else if a_dir == b_dir {
        less_text(&sort_key(b), &sort_key(a))
    } else {
        false
    }
}

proof fn lemma_insert_sorted_at(s: Seq<Shape>, x: Shape, j: int)
    requires
        0 <= j <= s.len(),
        forall|k: int| j <= k < s.len() ==> goes_after(#[trigger] s[k], x),
    ensures
        insert_sorted(s, x) == insert_sorted(s.take(j), x) + s.skip(j),
    decreases s.len() - j,
{
    if j < s.len() {
        lemma_insert_sorted_at(s, x, j + 1);
        let t = s.take(j + 1);
        assert(t.drop_last() =~= s.take(j));
        assert(t.last() == s[j]);
        assert(insert_sorted(t, x) == insert_sorted(s.take(j), x).push(s[j]));
        assert(insert_sorted(s.take(j), x).push(s[j]) + s.skip(j + 1) =~= insert_sorted(s.take(j), x)
            + s.skip(j));
    } else {
        assert(s.take(j) =~= s);
        assert(s.skip(j) =~= Seq::<Shape>::empty());
        assert(insert_sorted(s, x) + Seq::<Shape>::empty() =~= insert_sorted(s, x));
    }
}

/// Sorts nodes in sidebar order, stably.
pub fn sort_nodes(v: Vec<NoteNode>) -> (r: Vec<NoteNode>)
    ensures
        shapes_of(r@) == sorted_shapes(shapes_of(v@)),
{
    let ghost orig = v@;
    let mut rest = v;
    let mut out: Vec<NoteNode> = Vec::new();
    let ghost mut k: int = 0;
    while rest.len() > 0
        invariant
            0 <= k <= orig.len(),
            rest@ == orig.skip(k),
            shapes_of(out@) == sorted_shapes(shapes_of(orig).take(k)),
        decreases rest.len(),
    {
        let x = rest.remove(0);
        let ghost s = shapes_of(out@);
        let mut j: usize = out.len();
        assert(s.len() == out.len());
        while j > 0 && node_goes_after(&out[j - 1], &x)
            invariant
                j <= out.len(),
                s == shapes_of(out@),
                s.len() == out.len(),
                forall|m: int| j <= m < s.len() ==> goes_after(#[trigger] s[m], x.shape()),
            decreases j,
        {
            j = j - 1;
        }
        proof {
            lemma_insert_sorted_at(s, x.shape(), j as int);
            let t = s.take(j as int);
            if j > 0 {
                assert(t.last() == s[j - 1]);
                assert(!goes_after(t.last(), x.shape()));
            }
        }
        out.insert(j, x);
        assert(shapes_of(out@) =~= s.take(j as int).push(x.shape()) + s.skip(j as int));
        proof {
            assert(orig[k] == x);
            let p = shapes_of(orig).take(k + 1);
            assert(p.drop_last() =~= shapes_of(orig).take(k));
            assert(p.last() == x.shape());
        }
        proof {
            k = k + 1;
        }
        assert(rest@ =~= orig.skip(k));
    }
    assert(shapes_of(orig).take(k) =~= shapes_of(orig));
    out
}

/// A directory node's shape is built from its own fields.
pub proof fn lemma_dir_shape(n: &NoteNode)
    ensures
        n matches NoteNode::Dir { name, path, children } ==> n.shape() == (Shape::Dir {
            name: name@,
            path: path@,
            children: shapes_of(children@),
        }),
{
    if let NoteNode::Dir { name, path, children } = n {
        let sh = n.shape();
        assert(sh is Dir);
        let kids = sh->Dir_children;
        assert(kids.len() == children.len());
        assert forall|i: int| 0 <= i < children.len() implies shapes_of(children@)[i] == kids[i] by {
            assert(kids[i] == children[i].shape());
        }
        assert(shapes_of(children@) =~= kids);
    }
}

fn build_entry(dir: &str, e: &ListedEntry) -> (r: NoteNode)
    ensures
        r.shape() == entry_shape(dir@, *e),
    decreases e, 0int,
{
    let path = path_join(dir, e.name.as_str());
    if e.is_dir {
        let children = build_children(path.as_str(), &e.contents);
        let r = NoteNode::Dir { name: string_of(&chars_of(e.name.as_str())), path, children };
        proof {
            lemma_dir_shape(&r);
        }
        r
    } else {
        NoteNode::File { title: file_stem(e.name.as_str()), path }
    }
}

fn build_children(dir: &str, entries: &Vec<ListedEntry>) -> (r: Vec<NoteNode>)
    ensures
        shapes_of(r@) == level_shapes(dir@, *entries),
    decreases entries, 1int,
{
    let mut raw: Vec<NoteNode> = Vec::new();
    let mut i: usize = 0;
    while i < entries.len()
        invariant
            i <= entries.len(),
            shapes_of(raw@) == visible_shapes(dir@, *entries, i as int),
        decreases entries.len() - i,
    {
        let e = &entries[i];
        if !is_hidden(e.name.as_str()) {
            let n = build_entry(dir, e);
            raw.push(n);
        }
        i = i + 1;
        assert(shapes_of(raw@) =~= visible_shapes(dir@, *entries, i as int));
    }
    sort_nodes(raw)
}

/// The tree of the directory at `dir`, given its listing: hidden entries
/// are left out, each directory becomes a node with its children, each
/// other file a note titled by its stem, and every level is in sidebar
/// order.
pub fn build_notes_tree(dir: &str, entries: &Vec<ListedEntry>) -> (r: NoteNode)
    ensures
        r.shape() == (Shape::Dir {
            name: root_name(dir@),
            path: dir@,
            children: level_shapes(dir@, *entries),
        }),
{
    let children = build_children(dir, entries);
    let last = file_name(dir);
    let name = if chars_of(last.as_str()).len() > 0 {
        last
    } else {
        string_of(&chars_of(dir))
    };
    let r = NoteNode::Dir { name, path: string_of(&chars_of(dir)), children };
    proof {
        lemma_dir_shape(&r);
    }
    r
}

} // verus!
