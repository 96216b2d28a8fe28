use lazynotes::paths::{
    expand_tilde, file_name, file_stem, is_hidden, is_image_file, note_path, parent, path_join,
};
use lazynotes::sidebar::{flatten_tree_for_sidebar, ExpansionState, FlatNode};
use lazynotes::tree::{build_notes_tree, sort_nodes, ListedEntry, NoteNode};

fn file(name: &str) -> ListedEntry {
    ListedEntry { name: name.to_string(), is_dir: false, contents: Vec::new() }
}

fn dir(name: &str, contents: Vec<ListedEntry>) -> ListedEntry {
    ListedEntry { name: name.to_string(), is_dir: true, contents }
}

fn names(rows: &[FlatNode]) -> Vec<String> {
    rows.iter().map(|r| r.name.clone()).collect()
}

#[test]
fn path_helpers() {
    assert_eq!(path_join("notes", "a.md"), "notes/a.md");
    assert_eq!(path_join("notes/", "a.md"), "notes/a.md");
    assert_eq!(path_join("", "a.md"), "a.md");
    assert_eq!(file_name("notes/sub/a.md"), "a.md");
    assert_eq!(file_name("a.md"), "a.md");
    assert_eq!(parent("notes/sub/a.md"), "notes/sub");
    assert_eq!(parent("/a.md"), "/");
    assert_eq!(parent("a.md"), "");
    assert_eq!(file_stem("x.md"), "x");
    assert_eq!(file_stem("a.tar.gz"), "a.tar");
    assert_eq!(file_stem("README"), "README");
    assert_eq!(file_stem(".profile"), ".profile");
    assert!(is_hidden(".git"));
    assert!(!is_hidden("notes"));
    assert_eq!(note_path("notes", "new"), "notes/new.md");
}

#[test]
fn tilde_expansion() {
    assert_eq!(expand_tilde("~/notes", Some("/home/u".to_string())), "/home/u/notes");
    assert_eq!(expand_tilde("~/notes", None), "~/notes");
    assert_eq!(expand_tilde("/abs/notes", Some("/home/u".to_string())), "/abs/notes");
    assert_eq!(expand_tilde("~notes", Some("/home/u".to_string())), "~notes");
}

#[test]
fn build_skips_hidden_and_sorts_dirs_first() {
    let listing = vec![
        file("zeta.md"),
        dir(".git", vec![file("config")]),
        file(".hidden.md"),
        dir("beta", vec![file("b2.md"), file("B1.md")]),
        file("Alpha.md"),
        dir("Alpha", vec![]),
        file("pic.png"),
    ];
    let tree = build_notes_tree("/n/notes", &listing);
    match &tree {
        NoteNode::Dir { name, path, children } => {
            assert_eq!(name, "notes");
            assert_eq!(path, "/n/notes");
            let labels: Vec<String> = children
                .iter()
                .map(|c| match c {
                    NoteNode::Dir { name, .. } => format!("{}/", name),
                    NoteNode::File { title, .. } => title.clone(),
                })
                .collect();
            assert_eq!(labels, vec!["Alpha/", "beta/", "Alpha", "pic", "zeta"]);
            match &children[1] {
                NoteNode::Dir { path, children, .. } => {
                    assert_eq!(path, "/n/notes/beta");
                    match &children[0] {
                        NoteNode::File { title, path } => {
                            assert_eq!(title, "B1");
                            assert_eq!(path, "/n/notes/beta/B1.md");
                        }
                        _ => panic!("expected a note"),
                    }
                }
                _ => panic!("expected a directory"),
            }
        }
        _ => panic!("expected the root directory"),
    }
}

#[test]
fn sort_is_case_insensitive_and_stable() {
    let nodes = vec![
        NoteNode::File { title: "b".to_string(), path: "1".to_string() },
        NoteNode::File { title: "B".to_string(), path: "2".to_string() },
        NoteNode::File { title: "a".to_string(), path: "3".to_string() },
        NoteNode::Dir { name: "Z".to_string(), path: "4".to_string(), children: Vec::new() },
    ];
    let sorted = sort_nodes(nodes);
    let paths: Vec<String> = sorted
        .iter()
        .map(|n| match n {
            NoteNode::Dir { path, .. } => path.clone(),
            NoteNode::File { path, .. } => path.clone(),
        })
        .collect();
    assert_eq!(paths, vec!["4", "3", "1", "2"]);
}

fn scenario_tree() -> NoteNode {
    build_notes_tree("notes", &vec![file("b.md"), dir("a", vec![file("x.md")])])
}

#[test]
fn flatten_scenario_with_open_directory() {
    let tree = scenario_tree();
    let mut exp = ExpansionState::new("notes");
    exp.insert("notes/a");
    let rows = flatten_tree_for_sidebar(&tree, &exp);
    assert_eq!(rows.len(), 3);
    assert_eq!(rows[0].name, "a");
    assert!(rows[0].is_dir && rows[0].expanded);
    assert_eq!(rows[0].depth, 0);
    assert!(!rows[0].last_in_parent);
    assert_eq!(rows[1].name, "x");
    assert_eq!(rows[1].depth, 1);
    assert!(rows[1].last_in_parent);
    assert_eq!(rows[1].last_ancestors, vec![false]);
    assert_eq!(rows[1].path, "notes/a/x.md");
    assert_eq!(rows[2].name, "b");
    assert_eq!(rows[2].depth, 0);
    assert!(rows[2].last_in_parent);
    assert_eq!(rows[1].prefix(), "│ └─ ");
    assert_eq!(rows[0].prefix(), "");
}

#[test]
fn collapsed_directory_is_one_row() {
    let tree = build_notes_tree(
        "r",
        &vec![dir("d", vec![file("1.md"), file("2.md"), dir("e", vec![file("3.md")])]), file("z.md")],
    );
    let exp = ExpansionState::new("r");
    let rows = flatten_tree_for_sidebar(&tree, &exp);
    assert_eq!(names(&rows), vec!["d", "z"]);
    assert!(!rows[0].expanded);
}

#[test]
fn rows_agree_with_expansion_set() {
    let tree = build_notes_tree(
        "r",
        &vec![dir("d", vec![dir("e", vec![file("3.md")]), file("1.md")]), dir("f", vec![]), file("z.md")],
    );
    let mut exp = ExpansionState::new("r");
    exp.insert("r/d");
    exp.insert("r/d/e");
    let rows = flatten_tree_for_sidebar(&tree, &exp);
    assert_eq!(names(&rows), vec!["d", "e", "3", "1", "f", "z"]);
    for r in &rows {
        assert_eq!(r.last_ancestors.len(), r.depth);
        if r.is_dir {
            assert_eq!(r.expanded, exp.contains(&r.path));
        } else {
            assert!(!r.expanded);
        }
    }
    assert_eq!(rows[2].last_ancestors, vec![false, false]);
    assert_eq!(rows[2].prefix(), "│ │ └─ ");
    assert_eq!(rows[3].prefix(), "│ └─ ");
}

#[test]
fn toggling_twice_restores_rows() {
    let tree = build_notes_tree("r", &vec![dir("d", vec![file("1.md")]), file("z.md")]);
    let mut exp = ExpansionState::new("r");
    let before: Vec<(String, usize, bool)> =
        flatten_tree_for_sidebar(&tree, &exp).iter().map(|r| (r.path.clone(), r.depth, r.expanded)).collect();
    exp.toggle("r/d");
    assert!(exp.contains("r/d"));
    assert_eq!(flatten_tree_for_sidebar(&tree, &exp).len(), 3);
    exp.toggle("r/d");
    assert!(!exp.contains("r/d"));
    let after: Vec<(String, usize, bool)> =
        flatten_tree_for_sidebar(&tree, &exp).iter().map(|r| (r.path.clone(), r.depth, r.expanded)).collect();
    assert_eq!(before, after);
}

#[test]
fn expansion_set_operations() {
    let mut exp = ExpansionState::new("root");
    assert!(exp.contains("root"));
    assert!(!exp.contains("other"));
    exp.insert("other");
    exp.insert("other");
    exp.remove("other");
    assert!(!exp.contains("other"));
    assert!(exp.contains("root"));
}

#[test]
fn file_root_is_one_row() {
    let tree = NoteNode::File { title: "solo".to_string(), path: "solo.md".to_string() };
    let rows = flatten_tree_for_sidebar(&tree, &ExpansionState::new("x"));
    assert_eq!(rows.len(), 1);
    assert!(rows[0].last_in_parent);
    assert_eq!(rows[0].depth, 0);
}

#[test]
fn picture_files_by_extension() {
    assert!(is_image_file("notes/a/photo.PNG"));
    assert!(is_image_file("x.jpeg"));
    assert!(!is_image_file("notes/a.md"));
    assert!(!is_image_file("notes/.png"));
    assert!(!is_image_file("notes/png"));
}
