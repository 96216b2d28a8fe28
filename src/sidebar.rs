//! The sidebar: the note tree flattened into rows, with the set of expanded
//! directories.

use vstd::prelude::*;

use crate::chars::push_char;
use crate::tree::{lemma_dir_shape, shapes_of, NoteNode, Shape};

verus! {

/// The set of directory paths that are shown open.
pub struct ExpansionState {
    paths: Vec<String>,
}

impl View for ExpansionState {
    type V = Set<Seq<char>>;

    closed spec fn view(&self) -> Set<Seq<char>> {
        Set::new(|p: Seq<char>| exists|i: int| 0 <= i < self.paths.len() && #[trigger] self.paths@[i]@ == p)
    }
}

/// The expansion set after toggling `d`: removed if it was there, added if
/// it was not.
pub open spec fn toggled(e: Set<Seq<char>>, d: Seq<char>) -> Set<Seq<char>> {
    if e.contains(d) {
        e.remove(d)
    } else {
        e.insert(d)
    }
}

impl ExpansionState {
    /// The state in which only `root` is open.
    pub fn new(root: &str) -> (r: ExpansionState)
        ensures
            r@ == set![root@],
    {
        let mut paths: Vec<String> = Vec::new();
        paths.push(root.to_owned());
        let r = ExpansionState { paths };
        assert(r.paths@[0]@ == root@);
        assert(r@ =~= set![root@]);
        r
    }

    pub fn contains(&self, p: &str) -> (r: bool)
        ensures
            r == self@.contains(p@),
    {
        let key = p.to_owned();
        let mut i: usize = 0;
        while i < self.paths.len()
            invariant
                key@ == p@,
                i <= self.paths.len(),
                forall|j: int| 0 <= j < i ==> #[trigger] self.paths@[j]@ != p@,
            decreases self.paths.len() - i,
        {
            if self.paths[i] == key {
                assert(self.paths@[i as int]@ == p@);
                return true;
            }
            i = i + 1;
        }
        false
    }

    /// Opens `p`.
    pub fn insert(&mut self, p: &str)
        ensures
            final(self)@ == old(self)@.insert(p@),
    {
        let ghost before = self@;
        self.paths.push(p.to_owned());
        assert(self.paths@[self.paths.len() - 1]@ == p@);
        assert forall|q: Seq<char>| before.insert(p@).contains(q) implies self@.contains(q) by {
            if before.contains(q) {
                let i = choose|i: int| 0 <= i < old(self).paths.len() && #[trigger] old(self).paths@[i]@ == q;
                assert(self.paths@[i]@ == q);
            }
        }
        assert(self@ =~= before.insert(p@));
    }

    /// Closes `p`.
    pub fn remove(&mut self, p: &str)
        ensures
            final(self)@ == old(self)@.remove(p@),
    {
        let ghost before = self@;
        let key = p.to_owned();
        let mut kept: Vec<String> = Vec::new();
        let mut i: usize = 0;
        while i < self.paths.len()
            invariant
                key@ == p@,
                i <= self.paths.len(),
                forall|j: int| 0 <= j < kept.len() ==> #[trigger] kept@[j]@ != p@,
                forall|j: int|
                    0 <= j < kept.len() ==> exists|k: int| 0 <= k < i && #[trigger] self.paths@[k]@ == (#[trigger] kept@[j])@,
                forall|k: int|
                    0 <= k < i && #[trigger] self.paths@[k]@ != p@ ==> exists|j: int| 0 <= j < kept.len() && kept@[j]@ == self.paths@[k]@,
            decreases self.paths.len() - i,
        {
            let ghost kept_before = kept@;
            if self.paths[i] != key {
                let s = self.paths[i].clone();
                kept.push(s);
                assert(kept@[kept.len() - 1]@ == self.paths@[i as int]@);
            }
            assert forall|k: int| 0 <= k < i + 1 && #[trigger] self.paths@[k]@ != p@ implies exists|j: int|
                0 <= j < kept.len() && kept@[j]@ == self.paths@[k]@ by {
                if k < i {
                    let j = choose|j: int| 0 <= j < kept_before.len() && kept_before[j]@ == self.paths@[k]@;
                    assert(kept@[j] == kept_before[j]);
                } else {
                    assert(kept@[kept.len() - 1]@ == self.paths@[k]@);
                }
            }
            i = i + 1;
        }
        let ghost old_paths = self.paths@;
        self.paths = kept;
        assert forall|q: Seq<char>| self@.contains(q) == before.remove(p@).contains(q) by {
            if self@.contains(q) {
                let j = choose|j: int| 0 <= j < self.paths.len() && #[trigger] self.paths@[j]@ == q;
                let k = choose|k: int| 0 <= k < old_paths.len() && #[trigger] old_paths[k]@ == self.paths@[j]@;
                assert(before.contains(q));
            }
            if before.remove(p@).contains(q) {
                let k = choose|k: int| 0 <= k < old_paths.len() && #[trigger] old_paths[k]@ == q;
                assert(old_paths[k]@ != p@);
            }
        }
        assert(self@ =~= before.remove(p@));
    }

    /// Opens `p` if it was closed, closes it if it was open.
    pub fn toggle(&mut self, p: &str)
        ensures
            final(self)@ == toggled(old(self)@, p@),
    {
        if self.contains(p) {
            self.remove(p);
        } else {
            self.insert(p);
        }
    }
}

/// One row of the sidebar.
#[derive(Debug)]
pub struct FlatNode {
    pub name: String,
    /// The number of ancestors below the root.
    pub depth: usize,
    pub path: String,
    pub is_dir: bool,
    /// Whether the directory is open; false for notes.
    pub expanded: bool,
    /// Whether this is the last child of its parent.
    pub last_in_parent: bool,
    /// For each ancestor level, whether that ancestor was the last child of
    /// its own parent.
    pub last_ancestors: Vec<bool>,
}

/// The content of a `FlatNode`.
pub ghost struct Row {
    pub name: Seq<char>,
    pub depth: nat,
    pub path: Seq<char>,
    pub is_dir: bool,
    pub expanded: bool,
    pub last_in_parent: bool,
    pub last_ancestors: Seq<bool>,
}

impl FlatNode {
    pub open spec fn row(&self) -> Row {
        Row {
            name: self.name@,
            depth: self.depth as nat,
            path: self.path@,
            is_dir: self.is_dir,
            expanded: self.expanded,
            last_in_parent: self.last_in_parent,
            last_ancestors: self.last_ancestors@,
        }
    }
}

pub open spec fn rows(v: Seq<FlatNode>) -> Seq<Row> {
    v.map_values(|f: FlatNode| f.row())
}

/// The rows of `node` and, when it is an open directory, of everything
/// under it, depth first.
pub open spec fn rows_of(
    node: Shape,
    depth: nat,
    last: bool,
    anc: Seq<bool>,
    exp: Set<Seq<char>>,
) -> Seq<Row>
    decreases node, 0int,
{
    match node {
        Shape::Dir { name, path, children } => {
            let open = exp.contains(path);
            let head = Row {
                name,
                depth,
                path,
                is_dir: true,
                expanded: open,
                last_in_parent: last,
                last_ancestors: anc,
            };
            if open {
                seq![head] + rows_list(children, children.len() as int, depth + 1, anc.push(last), exp)
            } else {
                seq![head]
            }
        },
        Shape::File { title, path } => seq![
            Row {
                name: title,
                depth,
                path,
                is_dir: false,
                expanded: false,
                last_in_parent: last,
                last_ancestors: anc,
            },
        ],
    }
}

/// The rows of the first `n` of `children`, siblings at one level.
pub open spec fn rows_list(
    children: Seq<Shape>,
    n: int,
    depth: nat,
    anc: Seq<bool>,
    exp: Set<Seq<char>>,
) -> Seq<Row>
    decreases children, n,
{
    if n <= 0 || n > children.len() {
        Seq::empty()
    } else {
        rows_list(children, n - 1, depth, anc, exp) + rows_of(
            children[n - 1],
            depth,
            n == children.len(),
            anc,
            exp,
        )
    }
}

/// The sidebar of a tree: the root itself is never a row, only what lies
/// under it.
pub open spec fn sidebar_rows(root: Shape, exp: Set<Seq<char>>) -> Seq<Row> {
    match root {
        Shape::Dir { children, .. } => rows_list(children, children.len() as int, 0, Seq::empty(), exp),
        Shape::File { .. } => rows_of(root, 0, true, Seq::empty(), exp),
    }
}

fn copy_flags(v: &Vec<bool>) -> (r: Vec<bool>)
    ensures
        r@ == v@,
{
    let mut r: Vec<bool> = Vec::new();
    let mut i: usize = 0;
    while i < v.len()
        invariant
            i <= v.len(),
            r@ == v@.take(i as int),
        decreases v.len() - i,
    {
        r.push(v[i]);
        i = i + 1;
        assert(r@ =~= v@.take(i as int));
    }
    assert(r@ =~= v@);
    r
}

fn flatten_node(
    node: &NoteNode,
    depth: usize,
    expanded: &ExpansionState,
    last_in_parent: bool,
    out: &mut Vec<FlatNode>,
    ancestors_last: &mut Vec<bool>,
)
    requires
        old(ancestors_last).len() == depth,
    ensures
        rows(final(out)@) == rows(old(out)@) + rows_of(
            node.shape(),
            depth as nat,
            last_in_parent,
            old(ancestors_last)@,
            expanded@,
        ),
        final(ancestors_last)@ == old(ancestors_last)@,
    decreases node,
{
    let ghost out0 = rows(out@);
    match node {
        NoteNode::Dir { name, path, children } => {
            proof {
                lemma_dir_shape(node);
            }
            let is_expanded = expanded.contains(path.as_str());
            let row = FlatNode {
                name: name.clone(),
                depth,
                path: path.clone(),
                is_dir: true,
                expanded: is_expanded,
                last_in_parent,
                last_ancestors: copy_flags(ancestors_last),
            };
            out.push(row);
            let ghost head = rows(out@);
            assert(head =~= out0 + seq![row.row()]);
            if is_expanded {
                let ghost anc0 = ancestors_last@;
                ancestors_last.push(last_in_parent);
                let child_depth = ancestors_last.len();
                let ghost kids = shapes_of(children@);
                let mut i: usize = 0;
                while i < children.len()
                    invariant
                        i <= children.len(),
                        node is Dir,
                        node->Dir_children == *children,
                        kids == shapes_of(children@),
                        kids.len() == children.len(),
                        ancestors_last@ == anc0.push(last_in_parent),
                        child_depth == ancestors_last.len(),
                        rows(out@) == head + rows_list(kids, i as int, child_depth as nat, anc0.push(last_in_parent), expanded@),
                    decreases children.len() - i,
                {
                    let child_is_last = i + 1 == children.len();
                    proof {
                        assert(decreases_to!(children => children[i as int])) by {
                            vstd::std_specs::vec::axiom_vec_index_decreases(*children, i as int);
                        }
                        assert(decreases_to!(*node => node->Dir_children));
                        assert(decreases_to!(*node => children[i as int]));
                    }
                    flatten_node(&children[i], child_depth, expanded, child_is_last, out, ancestors_last);
                    assert(kids[i as int] == children@[i as int].shape());
                    i = i + 1;
                    assert(rows(out@) =~= head + rows_list(kids, i as int, child_depth as nat, anc0.push(last_in_parent), expanded@));
                }
                ancestors_last.pop();
                assert(ancestors_last@ =~= anc0);
                assert(rows(out@) =~= out0 + rows_of(node.shape(), depth as nat, last_in_parent, anc0, expanded@));
            } else {
                assert(rows(out@) =~= out0 + rows_of(node.shape(), depth as nat, last_in_parent, ancestors_last@, expanded@));
            }
        },
        NoteNode::File { title, path } => {
            let row = FlatNode {
                name: title.clone(),
                depth,
                path: path.clone(),
                is_dir: false,
                expanded: false,
                last_in_parent,
                last_ancestors: copy_flags(ancestors_last),
            };
            out.push(row);
            assert(rows(out@) =~= out0 + rows_of(node.shape(), depth as nat, last_in_parent, ancestors_last@, expanded@));
        },
    }
}

/// The rows a sidebar shows for `root` when the directories in `expanded`
/// are open; see `sidebar_rows`.
pub fn flatten_tree_for_sidebar(root: &NoteNode, expanded: &ExpansionState) -> (r: Vec<FlatNode>)
    ensures
        rows(r@) == sidebar_rows(root.shape(), expanded@),
{
    let mut out: Vec<FlatNode> = Vec::new();
    match root {
        NoteNode::Dir { children, .. } => {
            proof {
                lemma_dir_shape(root);
            }
            let ghost kids = shapes_of(children@);
            let mut i: usize = 0;
            while i < children.len()
                invariant
                    i <= children.len(),
                    kids == shapes_of(children@),
                    kids.len() == children.len(),
                    rows(out@) == rows_list(kids, i as int, 0, Seq::empty(), expanded@),
                decreases children.len() - i,
            {
                let is_last = i + 1 == children.len();
                let mut anc: Vec<bool> = Vec::new();
                assert(anc@ =~= Seq::<bool>::empty());
                flatten_node(&children[i], 0, expanded, is_last, &mut out, &mut anc);
                assert(kids[i as int] == children@[i as int].shape());
                i = i + 1;
                assert(rows(out@) =~= rows_list(kids, i as int, 0, Seq::empty(), expanded@));
            }
        },
        NoteNode::File { .. } => {
            let mut anc: Vec<bool> = Vec::new();
            assert(anc@ =~= Seq::<bool>::empty());
            flatten_node(root, 0, expanded, true, &mut out, &mut anc);
            assert(rows(out@) =~= rows_of(root.shape(), 0, true, Seq::empty(), expanded@));
        },
    }
    out
}

/// A row agrees with the expansion set: one ancestor flag per level, and a
/// directory row is open exactly when its path is in the set; note rows are
/// never open.
pub open spec fn row_consistent(r: Row, exp: Set<Seq<char>>) -> bool {
    &&& r.last_ancestors.len() == r.depth
    &&& r.is_dir ==> (r.expanded <==> exp.contains(r.path))
    &&& !r.is_dir ==> !r.expanded
}

proof fn lemma_rows_of_consistent(
    node: Shape,
    depth: nat,
    last: bool,
    anc: Seq<bool>,
    exp: Set<Seq<char>>,
)
    requires
        anc.len() == depth,
    ensures
        forall|k: int|
            0 <= k < rows_of(node, depth, last, anc, exp).len() ==> row_consistent(
                #[trigger] rows_of(node, depth, last, anc, exp)[k],
                exp,
            ),
    decreases node, 0int,
{
    if let Shape::Dir { name, path, children } = node {
        if exp.contains(path) {
            lemma_rows_list_consistent(children, children.len() as int, depth + 1, anc.push(last), exp);
            let tail = rows_list(children, children.len() as int, depth + 1, anc.push(last), exp);
            let all = rows_of(node, depth, last, anc, exp);
            assert forall|k: int| 0 <= k < all.len() implies row_consistent(#[trigger] all[k], exp) by {
                if k > 0 {
                    assert(all[k] == tail[k - 1]);
                }
            }
        }
    }
}

proof fn lemma_rows_list_consistent(
    children: Seq<Shape>,
    n: int,
    depth: nat,
    anc: Seq<bool>,
    exp: Set<Seq<char>>,
)
    requires
        anc.len() == depth,
    ensures
        forall|k: int|
            0 <= k < rows_list(children, n, depth, anc, exp).len() ==> row_consistent(
                #[trigger] rows_list(children, n, depth, anc, exp)[k],
                exp,
            ),
    decreases children, n,
{
    if 0 < n <= children.len() {
        lemma_rows_list_consistent(children, n - 1, depth, anc, exp);
        lemma_rows_of_consistent(children[n - 1], depth, n == children.len(), anc, exp);
        let a = rows_list(children, n - 1, depth, anc, exp);
        let b = rows_of(children[n - 1], depth, n == children.len(), anc, exp);
        let all = rows_list(children, n, depth, anc, exp);
        assert forall|k: int| 0 <= k < all.len() implies row_consistent(#[trigger] all[k], exp) by {
            if k < a.len() {
                assert(all[k] == a[k]);
            } else {
                assert(all[k] == b[k - a.len()]);
            }
        }
    }
}

/// Every sidebar row has one ancestor flag per level of depth, and the
/// directory rows that are open are exactly the shown directories whose
/// paths are in the expansion set.
pub proof fn lemma_sidebar_rows_consistent(root: Shape, exp: Set<Seq<char>>)
    ensures
        forall|k: int|
            0 <= k < sidebar_rows(root, exp).len() ==> row_consistent(
                #[trigger] sidebar_rows(root, exp)[k],
                exp,
            ),
{
    match root {
        Shape::Dir { children, .. } => {
            lemma_rows_list_consistent(children, children.len() as int, 0, Seq::empty(), exp);
        },
        Shape::File { .. } => {
            lemma_rows_of_consistent(root, 0, true, Seq::empty(), exp);
        },
    }
}

/// Toggling a directory twice restores the expansion set, and with it the
/// exact sidebar rows.
pub proof fn lemma_toggle_twice(root: Shape, exp: Set<Seq<char>>, d: Seq<char>)
    ensures
        toggled(toggled(exp, d), d) == exp,
        sidebar_rows(root, toggled(toggled(exp, d), d)) == sidebar_rows(root, exp),
{
    assert(toggled(toggled(exp, d), d) =~= exp);
}

/// One indent column per ancestor level: blank under an ancestor that was
/// the last of its siblings, a vertical connector otherwise.
pub open spec fn indent_columns(anc: Seq<bool>) -> Seq<char>
    decreases anc.len(),
{
    if anc.len() == 0 {
        Seq::empty()
    } else {
        indent_columns(anc.drop_last()) + (if anc.last() {
            seq![' ', ' ']
        } else {
            seq!['│', ' ']
        })
    }
}

/// What is drawn before a row's name: nothing at the top level, else the
/// indent columns and a branch that closes under the last sibling.
pub open spec fn prefix_of(r: Row) -> Seq<char> {
    if r.depth == 0 {
        Seq::empty()
    } else {
        indent_columns(r.last_ancestors) + (if r.last_in_parent {
            seq!['└', '─', ' ']
        } else {
            seq!['├', '─', ' ']
        })
    }
}

impl FlatNode {
    /// The tree connectors drawn before the row's name; see `prefix_of`.
    pub fn prefix(&self) -> (r: String)
        ensures
            r@ == prefix_of(self.row()),
    {
        let mut r = String::new();
        if self.depth == 0 {
            return r;
        }
        let mut i: usize = 0;
        while i < self.last_ancestors.len()
            invariant
                i <= self.last_ancestors.len(),
                r@ == indent_columns(self.last_ancestors@.take(i as int)),
            decreases self.last_ancestors.len() - i,
        {
            assert(self.last_ancestors@.take(i + 1).drop_last() =~= self.last_ancestors@.take(i as int));
            let ghost before = r@;
            if self.last_ancestors[i] {
                push_char(&mut r, ' ');
                push_char(&mut r, ' ');
                assert(r@ =~= before + seq![' ', ' ']);
            } else {
                push_char(&mut r, '│');
                push_char(&mut r, ' ');
                assert(r@ =~= before + seq!['│', ' ']);
            }
            i = i + 1;
        }
        assert(self.last_ancestors@.take(i as int) =~= self.last_ancestors@);
        let ghost cols = r@;
        if self.last_in_parent {
            push_char(&mut r, '└');
            push_char(&mut r, '─');
            push_char(&mut r, ' ');
            assert(r@ =~= cols + seq!['└', '─', ' ']);
        } else {
            push_char(&mut r, '├');
            push_char(&mut r, '─');
            push_char(&mut r, ' ');
            assert(r@ =~= cols + seq!['├', '─', ' ']);
        }
        r
    }
}

} // verus!
