use lazynotes::config::Config;
use lazynotes::focus::{route, Focus, Key, KeyCode, RightFocus, Route};
use lazynotes::history::GitSection;
use lazynotes::screen::{content_cursor_to_screen, title_cursor_to_screen};
use lazynotes::app::{Effect, Modal, App};
use lazynotes::title::{trim, TitleField};
use lazynotes::tree::{build_notes_tree, ListedEntry};

fn plain(code: KeyCode) -> Key {
    Key { code, plain: true, ctrl: false }
}

fn ch(c: char) -> Key {
    plain(KeyCode::Char(c))
}

fn ctrl(c: char) -> Key {
    Key { code: KeyCode::Char(c), plain: false, ctrl: true }
}

fn file(name: &str) -> ListedEntry {
    ListedEntry { name: name.to_string(), is_dir: false, contents: Vec::new() }
}

fn dir(name: &str, contents: Vec<ListedEntry>) -> ListedEntry {
    ListedEntry { name: name.to_string(), is_dir: true, contents }
}

fn session() -> App {
    let tree = build_notes_tree("notes", &vec![file("b.md"), dir("a", vec![file("x.md")])]);
    App::new("notes".to_string(), Some(tree), GitSection::new_for(None, Vec::new()))
}

#[test]
fn new_session_state() {
    let s = session();
    assert_eq!(s.focus, Focus::Sidebar);
    assert_eq!(s.sidebar_items.len(), 2);
    assert_eq!(s.sidebar_selected, Some(0));
    assert!(s.status_message.is_some());
    assert!(!s.is_dirty());
    let empty = App::new("notes".to_string(), None, GitSection::new_for(None, Vec::new()));
    assert!(empty.sidebar_items.is_empty());
    assert_eq!(empty.sidebar_selected, None);
}

#[test]
fn routing_table() {
    assert_eq!(route(Focus::Content, ch('2')), Route::Jump(Focus::Title));
    assert_eq!(route(Focus::Sidebar, ch('q')), Route::Quit);
    assert_eq!(route(Focus::Title, ctrl('s')), Route::Save);
    assert_eq!(route(Focus::Title, plain(KeyCode::Tab)), Route::Cycle);
    assert_eq!(route(Focus::Title, plain(KeyCode::Left)), Route::ToSidebar);
    assert_eq!(route(Focus::Content, plain(KeyCode::Left)), Route::Local(Focus::Content));
    assert_eq!(route(Focus::Commits, plain(KeyCode::Right)), Route::ToRight);
    assert_eq!(route(Focus::Sidebar, ch('l')), Route::ToRight);
    assert_eq!(route(Focus::Content, ch('x')), Route::Local(Focus::Content));
    assert_eq!(route(Focus::Sidebar, ch('n')), Route::NewNote);
    let shifted = Key { code: KeyCode::Char('Q'), plain: false, ctrl: false };
    assert_eq!(route(Focus::Content, shifted), Route::Local(Focus::Content));
}

#[test]
fn tab_cycles_and_remembers_right_surface() {
    let mut s = session();
    s.handle_key(plain(KeyCode::Tab));
    assert_eq!((s.focus, s.last_right_focus), (Focus::Title, RightFocus::Title));
    s.handle_key(plain(KeyCode::Tab));
    assert_eq!((s.focus, s.last_right_focus), (Focus::Content, RightFocus::Content));
    s.handle_key(plain(KeyCode::Tab));
    assert_eq!((s.focus, s.last_right_focus), (Focus::Commits, RightFocus::Content));
    s.handle_key(plain(KeyCode::Tab));
    assert_eq!(s.focus, Focus::Sidebar);
    s.handle_key(ch('l'));
    assert_eq!(s.focus, Focus::Content);
    s.handle_key(ch('h'));
    assert_eq!(s.focus, Focus::Sidebar);
    s.handle_key(ch('4'));
    assert_eq!(s.focus, Focus::Commits);
}

#[test]
fn quit_key() {
    let mut s = session();
    assert!(matches!(s.handle_key(ch('q')), Effect::Quit));
}

#[test]
fn sidebar_moves_toggles_and_opens() {
    let mut s = session();
    assert_eq!(s.sidebar_items[0].name, "a");
    s.handle_key(plain(KeyCode::Up));
    assert_eq!(s.sidebar_selected, Some(0));
    assert!(matches!(s.handle_key(plain(KeyCode::Enter)), Effect::Nothing));
    assert_eq!(s.sidebar_items.len(), 3);
    assert!(s.sidebar_items[0].expanded);
    assert_eq!(s.sidebar_selected, Some(0));
    s.handle_key(plain(KeyCode::Down));
    s.handle_key(plain(KeyCode::Down));
    s.handle_key(plain(KeyCode::Down));
    assert_eq!(s.sidebar_selected, Some(2));
    match s.handle_key(plain(KeyCode::Enter)) {
        Effect::Open { path } => assert_eq!(path, "notes/b.md"),
        other => panic!("unexpected {:?}", other),
    }
    s.handle_key(plain(KeyCode::Up));
    s.handle_key(plain(KeyCode::Up));
    s.handle_key(ch(' '));
    assert_eq!(s.sidebar_items.len(), 2);
}

#[test]
fn open_note_fills_title_and_body() {
    let mut s = session();
    s.open_note("notes/a/x.md".to_string(), "line one\nline two\n");
    assert_eq!(s.title.text(), "x");
    assert_eq!(s.body.lines(), vec!["line one", "line two"]);
    assert_eq!(s.focus, Focus::Title);
    assert_eq!(s.opened_path.as_deref(), Some("notes/a/x.md"));
    assert!(!s.is_dirty());
}

#[test]
fn content_keys_edit_the_body() {
    let mut s = session();
    s.open_note("notes/b.md".to_string(), "ab");
    s.handle_key(ch('3'));
    assert_eq!(s.last_right_focus, RightFocus::Content);
    s.handle_key(plain(KeyCode::End));
    s.handle_key(ch('c'));
    s.handle_key(plain(KeyCode::Enter));
    s.handle_key(ch('d'));
    assert_eq!(s.body.to_text(), "abc\nd");
    assert!(s.is_dirty());
    let ignored = ctrl('x');
    s.handle_key(ignored);
    assert_eq!(s.body.to_text(), "abc\nd");
}

#[test]
fn content_scrolls_to_cursor() {
    let mut s = session();
    let text: Vec<String> = (0..30).map(|i| i.to_string()).collect();
    s.open_note("notes/b.md".to_string(), &text.join("\n"));
    s.handle_key(ch('3'));
    for _ in 0..25 {
        s.handle_key(plain(KeyCode::Down));
    }
    assert_eq!(s.body.row(), 25);
    assert_eq!(s.scroll_y, 6);
    for _ in 0..20 {
        s.handle_key(plain(KeyCode::Up));
    }
    assert_eq!(s.scroll_y, 5);
}

#[test]
fn title_rejects_path_characters() {
    let mut s = session();
    s.handle_key(ch('2'));
    for c in ['a', '/', '.', '\\', 'b'] {
        s.handle_key(ch(c));
    }
    assert_eq!(s.title.text(), "ab");
    assert!(s.dirty);
    s.handle_key(plain(KeyCode::Home));
    s.handle_key(plain(KeyCode::Delete));
    assert_eq!(s.title.text(), "b");
    s.handle_key(plain(KeyCode::End));
    s.handle_key(plain(KeyCode::Backspace));
    assert_eq!(s.title.text(), "");
}

#[test]
fn empty_title_input_changes_nothing() {
    let mut s = session();
    s.open_note("notes/b.md".to_string(), "keep");
    s.handle_key(ch('1'));
    s.handle_key(ch('n'));
    assert!(matches!(s.modal, Some(Modal::InputName { .. })));
    s.handle_key(ch(' '));
    s.handle_key(ch(' '));
    s.handle_key(plain(KeyCode::Enter));
    assert!(s.modal.is_none());
    assert_eq!(s.body.lines(), vec!["keep"]);
    assert_eq!(s.title.text(), "b");
    assert_eq!(s.focus, Focus::Sidebar);
}

#[test]
fn new_note_in_selected_directory() {
    let mut s = session();
    s.handle_key(ch('n'));
    match &s.modal {
        Some(Modal::InputName { current, target_dir }) => {
            assert_eq!(current, "");
            assert_eq!(target_dir, "notes/a");
        }
        _ => panic!("expected the name dialog"),
    }
    for c in [' ', 'i', 'd', 'x', 'a'] {
        s.handle_key(ch(c));
    }
    s.handle_key(plain(KeyCode::Backspace));
    s.handle_key(plain(KeyCode::Enter));
    assert!(s.modal.is_none());
    assert_eq!(s.title.text(), "idx");
    assert_eq!(s.focus, Focus::Title);
    assert!(s.is_dirty());
    assert_eq!(s.new_note_dir.as_deref(), Some("notes/a"));
    match s.handle_key(ctrl('s')) {
        Effect::Save(p) => {
            assert_eq!(p.path, "notes/a/idx.md");
            assert_eq!(p.content, "");
            assert!(p.replaces.is_none());
        }
        other => panic!("unexpected {:?}", other),
    }
}

#[test]
fn new_note_from_file_row_goes_to_its_directory() {
    let mut s = session();
    s.handle_key(plain(KeyCode::Down));
    s.handle_key(ch('n'));
    match &s.modal {
        Some(Modal::InputName { target_dir, .. }) => assert_eq!(target_dir, "notes"),
        _ => panic!("expected the name dialog"),
    }
    s.handle_key(plain(KeyCode::Esc));
    assert!(s.modal.is_none());
}

#[test]
fn renamed_note_saves_under_new_name() {
    let mut s = session();
    s.open_note("notes/old.md".to_string(), "body");
    s.handle_key(ch('2'));
    for _ in 0..3 {
        s.handle_key(plain(KeyCode::Backspace));
    }
    assert_eq!(s.title.text(), "");
    // A plain `n` is the new-note shortcut, so the new title is set directly.
    s.title = TitleField::from_text("new");
    s.handle_key(ch('3'));
    s.handle_key(plain(KeyCode::End));
    s.handle_key(ch('!'));
    let plan = match s.handle_key(ctrl('s')) {
        Effect::Save(p) => p,
        other => panic!("unexpected {:?}", other),
    };
    assert_eq!(plan.path, "notes/new.md");
    assert_eq!(plan.content, "body!");
    assert_eq!(plan.replaces.as_deref(), Some("notes/old.md"));
    let tree = build_notes_tree("notes", &vec![file("new.md"), file("b.md"), dir("a", vec![])]);
    s.note_saved(plan.path.clone(), Some(tree));
    assert!(!s.is_dirty());
    assert_eq!(s.opened_path.as_deref(), Some("notes/new.md"));
    let sel = s.sidebar_selected.unwrap();
    assert_eq!(s.sidebar_items[sel].path, "notes/new.md");
}

#[test]
fn save_with_unchanged_name_replaces_nothing() {
    let mut s = session();
    s.open_note("notes/a/x.md".to_string(), "t");
    match s.handle_key(ctrl('s')) {
        Effect::Save(p) => {
            assert_eq!(p.path, "notes/a/x.md");
            assert!(p.replaces.is_none());
        }
        other => panic!("unexpected {:?}", other),
    }
}

#[test]
fn blank_title_is_not_saved() {
    let mut s = session();
    assert!(matches!(s.handle_key(ctrl('s')), Effect::Nothing));
}

#[test]
fn delete_asks_then_reports() {
    let mut s = session();
    s.handle_key(ch('d'));
    assert!(s.modal.is_none());
    s.handle_key(plain(KeyCode::Down));
    s.handle_key(ch('d'));
    assert!(matches!(s.modal, Some(Modal::ConfirmDelete { .. })));
    assert!(matches!(s.handle_key(ch('x')), Effect::Nothing));
    assert!(s.modal.is_some());
    match s.handle_key(ch('y')) {
        Effect::Delete { path } => assert_eq!(path, "notes/b.md"),
        other => panic!("unexpected {:?}", other),
    }
    assert!(s.modal.is_none());
    let tree = build_notes_tree("notes", &vec![dir("a", vec![file("x.md")])]);
    s.note_deleted(Some(tree));
    assert_eq!(s.sidebar_items.len(), 1);
    assert_eq!(s.sidebar_selected, Some(0));
    assert_eq!(s.status_message.as_deref(), Some("Deleted"));
    s.delete_failed("Delete failed: gone".to_string());
    assert_eq!(s.status_message.as_deref(), Some("Delete failed: gone"));
}

#[test]
fn declining_delete_keeps_note() {
    let mut s = session();
    s.handle_key(plain(KeyCode::Down));
    s.handle_key(ch('d'));
    assert!(matches!(s.handle_key(ch('n')), Effect::Nothing));
    assert!(s.modal.is_none());
    assert_eq!(s.sidebar_items.len(), 2);
}

#[test]
fn history_keys() {
    let mut s = session();
    s.handle_key(ch('4'));
    assert!(matches!(s.handle_key(ch('r')), Effect::FetchHistory));
    s.history_fetched(Vec::new());
    assert_eq!(s.status_message.as_deref(), Some("Fetched and refreshed commits"));
    s.handle_key(plain(KeyCode::Right));
    assert_eq!(s.focus, Focus::Title);
    s.handle_key(ch('4'));
    s.handle_key(plain(KeyCode::Left));
    assert_eq!(s.focus, Focus::Sidebar);
}

#[test]
fn save_failure_is_reported() {
    let mut s = session();
    s.save_failed("Save failed".to_string());
    assert_eq!(s.status_message.as_deref(), Some("Save failed"));
}

#[test]
fn trimming_and_config() {
    assert_eq!(trim("  a b \t\n"), "a b");
    assert_eq!(trim(" \u{3000} "), "");
    let c = Config { notes_dir: "/data/notes".to_string() };
    assert_eq!(c.notes_path(), "/data/notes");
    let home = Config { notes_dir: "~/notes".to_string() };
    if dirs::home_dir().is_some() {
        assert!(!home.notes_path().starts_with("~/"));
    }
    assert_eq!(Config::default_for(Some("/home/u".to_string())).notes_dir, "/home/u/Documents/Notes");
    assert_eq!(Config::default_for(None).notes_dir, "Documents/Notes");
}

#[test]
fn cursor_positions_on_screen() {
    assert_eq!(content_cursor_to_screen(10, 5, 40, 12, 3, 7, 0), (18, 9));
    assert_eq!(content_cursor_to_screen(10, 5, 40, 12, 50, 100, 45), (48, 11));
    assert_eq!(content_cursor_to_screen(0, 0, 1, 1, 0, 0, 4), (1, 1));
    assert_eq!(title_cursor_to_screen(2, 20, 3), 6);
    assert_eq!(title_cursor_to_screen(2, 20, 300), 20);
}
