//! The session: one open note, the sidebar, the history, the focus and the
//! dialog, and how each key changes them.

use vstd::prelude::*;

use crate::buffer::{BufferModel, Edit, LineBuffer, join_lines, lines_of};
use crate::chars::{push_char, push_str, without_last};
use crate::focus::{
    Focus, Key, KeyCode, RightFocus, Route, focus_of, next_in_cycle, remembered, route, route_of,
};
use crate::history::{CommitInfo, GitSection};
use crate::paths::{
    file_name, file_name_of, file_stem, join_path, note_file_name, note_path, parent, parent_of, stem_of,
};
use crate::sidebar::{
    ExpansionState, FlatNode, flatten_tree_for_sidebar, rows, sidebar_rows, toggled,
};
use crate::title::{TitleField, TitleModel, allowed_in_title, trim, trimmed};
use crate::tree::NoteNode;

verus! {

/// The status shown when the notes directory could not be read.
pub const TREE_UNREADABLE: &'static str = "Could not read the notes directory";

/// How many content lines the editor shows at once.
pub const VISIBLE_LINES: usize = 20;

/// A dialog that takes every key while it is open.
#[derive(Debug)]
pub enum Modal {
    /// Asks whether to delete the note at `path`.
    ConfirmDelete { path: String },
    /// Reads the title of a new note to be created in `target_dir`.
    InputName { current: String, target_dir: String },
}

/// What saving writes: `content` to the file at `path`, after which the file
/// at `replaces`, the note's former name, is to go.
#[derive(Debug)]
pub struct SavePlan {
    pub path: String,
    pub content: String,
    pub replaces: Option<String>,
}

/// Outside work that a key asks for; the caller performs it and reports
/// back.
#[derive(Debug)]
pub enum Effect {
    Nothing,
    Quit,
    /// Read the note at `path` and hand it to `open_note`.
    Open { path: String },
    /// Carry out the plan and report to `note_saved` or `save_failed`.
    Save(SavePlan),
    /// Delete the note at `path` and report to `note_deleted` or
    /// `delete_failed`.
    Delete { path: String },
    /// Fetch from the remote, read the history again and hand it to
    /// `history_fetched`.
    FetchHistory,
}

/// A valid selection: none in an empty list, else an index into it.
pub open spec fn selection_ok(sel: Option<usize>, len: nat) -> bool {
    if len == 0 {
        sel is None
    } else {
        sel matches Some(i) && i < len
    }
}

/// The selection after a rebuild of a list of `len` rows: the preferred
/// index, clamped to the last row.
pub open spec fn reselected(prefer: Option<usize>, len: nat) -> Option<usize> {
    if len == 0 {
        None
    } else {
        let want = match prefer {
            Some(i) => i as int,
            None => 0,
        };
        Some((if want < len - 1 { want } else { len - 1 }) as usize)
    }
}

/// The first line shown after scrolling just enough to show `row`.
pub open spec fn scrolled(scroll: nat, row: nat) -> nat {
    if row < scroll {
        row
    } else if row >= scroll + VISIBLE_LINES {
        (row + 1 - VISIBLE_LINES) as nat
    } else {
        scroll
    }
}

/// The buffer edit a key stands for in the content editor.
pub open spec fn edit_of(key: Key) -> Option<Edit> {
    match key.code {
        KeyCode::Left => Some(Edit::Left),
        KeyCode::Right => Some(Edit::Right),
        KeyCode::Up => Some(Edit::Up),
        KeyCode::Down => Some(Edit::Down),
        KeyCode::Home => Some(Edit::Home),
        KeyCode::End => Some(Edit::End),
        KeyCode::Backspace => Some(Edit::Backspace),
        KeyCode::Delete => Some(Edit::Delete),
        KeyCode::Enter => Some(Edit::Newline),
        KeyCode::Char(c) => if key.ctrl {
            None
        } else {
            Some(Edit::Insert(c))
        },
        _ => None,
    }
}

/// The content buffer after a key.
pub open spec fn content_after(b: BufferModel, key: Key) -> BufferModel {
    match edit_of(key) {
        Some(e) => b.apply(e),
        None => b,
    }
}

/// The title after a key, and whether the key changed its text.
pub open spec fn title_after(t: TitleModel, key: Key) -> (TitleModel, bool) {
    match key.code {
        KeyCode::Left => (TitleModel { text: t.text, cursor: if t.cursor > 0 { (t.cursor - 1) as nat } else { 0 } }, false),
        KeyCode::Right => (TitleModel { text: t.text, cursor: if t.cursor < t.text.len() { t.cursor + 1 } else { t.cursor } }, false),
        KeyCode::Home => (TitleModel { text: t.text, cursor: 0 }, false),
        KeyCode::End => (TitleModel { text: t.text, cursor: t.text.len() }, false),
        KeyCode::Backspace => if t.cursor > 0 {
            (TitleModel { text: t.text.remove(t.cursor - 1), cursor: (t.cursor - 1) as nat }, true)
        } else {
            (t, false)
        },
        KeyCode::Delete => if t.cursor < t.text.len() {
            (TitleModel { text: t.text.remove(t.cursor as int), cursor: t.cursor }, true)
        } else {
            (t, false)
        },
        KeyCode::Char(c) => if !key.ctrl && allowed_in_title(c) {
            (TitleModel { text: t.text.insert(t.cursor as int, c), cursor: t.cursor + 1 }, true)
        } else {
            (t, false)
        },
        _ => (t, false),
    }
}

/// Everything the user sees and edits.
pub struct App {
    pub notes_dir: String,
    /// The tree last read from disk; none when reading it failed.
    pub tree: Option<NoteNode>,
    pub expanded: ExpansionState,
    pub sidebar_items: Vec<FlatNode>,
    pub sidebar_selected: Option<usize>,
    pub title: TitleField,
    pub body: LineBuffer,
    /// The first content line shown.
    pub scroll_y: usize,
    /// The file the open note was read from or last saved to.
    pub opened_path: Option<String>,
    /// The title was edited, or the note is new and not yet saved.
    pub dirty: bool,
    pub focus: Focus,
    pub last_right_focus: RightFocus,
    pub git_section: GitSection,
    pub status_message: Option<String>,
    /// Where a new, not yet saved note is to be created.
    pub new_note_dir: Option<String>,
    pub modal: Option<Modal>,
}

impl App {
    /// The rows that the sidebar must show for the current tree.
    pub open spec fn expected_rows(&self) -> Seq<crate::sidebar::Row> {
        match self.tree {
            Some(t) => sidebar_rows(t.shape(), self.expanded@),
            None => Seq::empty(),
        }
    }

    /// The sidebar shows the tree as the expansion set opens it, with a
    /// valid selection; the buffer and the title are valid.
    pub open spec fn wf(&self) -> bool {
        &&& rows(self.sidebar_items@) == self.expected_rows()
        &&& selection_ok(self.sidebar_selected, self.sidebar_items.len() as nat)
        &&& self.body@.wf()
        &&& self.title@.wf()
    }

    /// A session on the notes directory `notes_dir`, whose tree was read as
    /// `tree` (none when reading failed), with only the root open, the first
    /// row selected, an empty untitled note, and the sidebar focused.
    pub fn new(notes_dir: String, tree: Option<NoteNode>, git_section: GitSection) -> (r: App)
        ensures
            r.wf(),
            r.notes_dir == notes_dir,
            r.tree == tree,
            r.expanded@ == set![notes_dir@],
            r.sidebar_selected == reselected(None, r.sidebar_items.len() as nat),
            r.body@ == LineBuffer::new_model(),
            r.title@.text.len() == 0,
            r.focus == Focus::Sidebar,
            r.last_right_focus == RightFocus::Title,
            r.modal is None,
            r.opened_path is None,
            !r.dirty,
            r.git_section == git_section,
            (r.status_message is Some) == (tree is None || git_section.commits.len() == 0),
    {
        let expanded = ExpansionState::new(notes_dir.as_str());
        let status_message = if tree.is_none() {
            Some(TREE_UNREADABLE.to_owned())
        } else if git_section.commits.len() == 0 {
            Some("No commits found in notes folder or git not initialized".to_owned())
        } else {
            None
        };
        let mut s = App {
            notes_dir,
            tree,
            expanded,
            sidebar_items: Vec::new(),
            sidebar_selected: None,
            title: TitleField::new(),
            body: LineBuffer::new(),
            scroll_y: 0,
            opened_path: None,
            dirty: false,
            focus: Focus::Sidebar,
            last_right_focus: RightFocus::Title,
            git_section,
            status_message,
            new_note_dir: None,
            modal: None,
        };
        s.refresh_sidebar(None);
        s
    }

    /// Flattens the tree again and selects the preferred row, or the row
    /// selected before, clamped to the last row.
    pub fn refresh_sidebar(&mut self, prefer_idx: Option<usize>)
        ensures
            rows(final(self).sidebar_items@) == final(self).expected_rows(),
            final(self).sidebar_selected == reselected(
                match prefer_idx {
                    Some(i) => Some(i),
                    None => old(self).sidebar_selected,
                },
                final(self).sidebar_items.len() as nat,
            ),
            final(self).tree == old(self).tree,
            final(self).expanded == old(self).expanded,
            final(self).title == old(self).title,
            final(self).body == old(self).body,
            final(self).focus == old(self).focus,
            final(self).last_right_focus == old(self).last_right_focus,
            final(self).modal == old(self).modal,
            final(self).opened_path == old(self).opened_path,
            final(self).dirty == old(self).dirty,
            final(self).git_section == old(self).git_section,
            final(self).status_message == old(self).status_message,
            final(self).new_note_dir == old(self).new_note_dir,
            final(self).notes_dir == old(self).notes_dir,
            final(self).scroll_y == old(self).scroll_y,
    {
        let old_idx = match prefer_idx {
            Some(i) => Some(i),
            None => self.sidebar_selected,
        };
        let items = match &self.tree {
            Some(t) => flatten_tree_for_sidebar(t, &self.expanded),
            None => {
                let v: Vec<FlatNode> = Vec::new();
                assert(rows(v@) =~= Seq::<crate::sidebar::Row>::empty());
                v
            },
        };
        self.sidebar_items = items;
        let len = self.sidebar_items.len();
        if len > 0 {
            let want = match old_idx {
                Some(i) => i,
                None => 0,
            };
            self.sidebar_selected = Some(if want < len - 1 { want } else { len - 1 });
        } else {
            self.sidebar_selected = None;
        }
    }
}

/// The sidebar, the tree and the expansion set are the same.
pub open spec fn keeps_sidebar(a: &App, b: &App) -> bool {
    &&& a.notes_dir == b.notes_dir
    &&& a.tree == b.tree
    &&& a.expanded == b.expanded
    &&& a.sidebar_items == b.sidebar_items
    &&& a.sidebar_selected == b.sidebar_selected
}

/// The open note is the same.
pub open spec fn keeps_note(a: &App, b: &App) -> bool {
    &&& a.title == b.title
    &&& a.body == b.body
    &&& a.scroll_y == b.scroll_y
    &&& a.opened_path == b.opened_path
    &&& a.dirty == b.dirty
    &&& a.new_note_dir == b.new_note_dir
}

/// The history, the status line and the dialog are the same.
pub open spec fn keeps_rest(a: &App, b: &App) -> bool {
    &&& a.git_section == b.git_section
    &&& a.status_message == b.status_message
    &&& a.modal == b.modal
}

/// Only the focus and the remembered editing surface may differ.
pub open spec fn only_focus_changed(a: &App, b: &App) -> bool {
    keeps_sidebar(a, b) && keeps_note(a, b) && keeps_rest(a, b)
}

/// The row index the sidebar acts on: the selection, or the first row.
pub open spec fn acted_row(s: &App) -> int {
    match s.sidebar_selected {
        Some(i) => i as int,
        None => 0,
    }
}

/// Toggling the directory at row `idx`: the expansion set changes for its
/// path, the rows are derived again, and the selection stays at `idx`,
/// clamped; on any other row nothing changes.
pub open spec fn toggle_ok(o: &App, n: &App, idx: int) -> bool {
    if 0 <= idx < o.sidebar_items.len() && o.sidebar_items@[idx].is_dir {
        &&& n.expanded@ == toggled(o.expanded@, o.sidebar_items@[idx].path@)
        &&& n.sidebar_selected == reselected(Some(idx as usize), n.sidebar_items.len() as nat)
        &&& n.notes_dir == o.notes_dir
        &&& n.tree == o.tree
        &&& keeps_note(o, n)
        &&& keeps_rest(o, n)
        &&& n.focus == o.focus
        &&& n.last_right_focus == o.last_right_focus
    } else {
        *n == *o
    }
}

/// Acting on row `idx`: a directory toggles, a note is to be opened.
pub open spec fn enter_ok(o: &App, n: &App, idx: int, r: Effect) -> bool {
    if 0 <= idx < o.sidebar_items.len() && !o.sidebar_items@[idx].is_dir {
        &&& r matches Effect::Open { path } && path@ == o.sidebar_items@[idx].path@
        &&& *n == *o
    } else {
        r is Nothing && toggle_ok(o, n, idx)
    }
}

/// What a key does in the sidebar.
pub open spec fn sidebar_key_ok(o: &App, n: &App, key: Key, r: Effect) -> bool {
    let len = o.sidebar_items.len();
    let idx = acted_row(o);
    match key.code {
        KeyCode::Up => {
            &&& r is Nothing
            &&& n.sidebar_selected == (if len > 0 {
                Some((if idx > 0 { idx - 1 } else { 0 }) as usize)
            } else {
                o.sidebar_selected
            })
            &&& *n == App { sidebar_selected: n.sidebar_selected, ..*o }
        },
        KeyCode::Down => {
            &&& r is Nothing
            &&& n.sidebar_selected == (if len > 0 {
                Some((if idx + 1 < len { idx + 1 } else { len - 1 }) as usize)
            } else {
                o.sidebar_selected
            })
            &&& *n == App { sidebar_selected: n.sidebar_selected, ..*o }
        },
        KeyCode::Enter | KeyCode::Right => enter_ok(o, n, idx, r),
        KeyCode::Char(' ') => r is Nothing && toggle_ok(o, n, idx),
        KeyCode::Char('d') => {
            &&& r is Nothing
            &&& if 0 <= idx < len && !o.sidebar_items@[idx].is_dir {
                &&& n.modal matches Some(Modal::ConfirmDelete { path }) && path@
                    == o.sidebar_items@[idx].path@
                &&& *n == App { modal: n.modal, ..*o }
            } else {
                *n == *o
            }
        },
        _ => r is Nothing && *n == *o,
    }
}

/// What a key does in the history list.
pub open spec fn commits_key_ok(o: &App, n: &App, key: Key, r: Effect) -> bool {
    let len = o.git_section.commits.len() as nat;
    let sel = o.git_section.selected;
    let moved = |s: usize|
        {
            &&& r is Nothing
            &&& n.git_section.selected == s
            &&& n.git_section.commits == o.git_section.commits
            &&& n.git_section.path == o.git_section.path
            &&& *n == App { git_section: n.git_section, ..*o }
        };
    match key.code {
        KeyCode::Up => moved(crate::history::after_prev(sel, len)),
        KeyCode::Down => moved(crate::history::after_next(sel, len)),
        KeyCode::Home => moved(if len > 0 { 0 } else { sel }),
        KeyCode::End => moved(if len > 0 { (len - 1) as usize } else { sel }),
        KeyCode::Char('r') => if key.plain {
            r is FetchHistory && *n == *o
        } else {
            r is Nothing && *n == *o
        },
        _ => r is Nothing && *n == *o,
    }
}

/// Confirming a new title `current`: a non-blank title, trimmed, becomes
/// the title of an empty unsaved note to be created in `target_dir`, and
/// the title gains the focus; a blank one changes nothing. The dialog
/// closes either way.
pub open spec fn new_note_ok(o: &App, n: &App, current: Seq<char>, target_dir: Seq<char>) -> bool {
    &&& n.modal is None
    &&& if trimmed(current).len() > 0 {
        &&& n.title@.text == trimmed(current)
        &&& n.title@.cursor == trimmed(current).len()
        &&& n.body@ == LineBuffer::new_model()
        &&& n.scroll_y == 0
        &&& n.new_note_dir matches Some(d) && d@ == target_dir
        &&& n.opened_path is None
        &&& n.dirty
        &&& n.focus == Focus::Title
        &&& n.last_right_focus == RightFocus::Title
        &&& n.status_message is Some
        &&& keeps_sidebar(o, n)
        &&& n.git_section == o.git_section
    } else {
        *n == App { modal: None, ..*o }
    }
}

/// What a key does while a dialog is open: it alone takes the key.
pub open spec fn modal_key_ok(o: &App, n: &App, key: Key, r: Effect) -> bool {
    match o.modal {
        Some(Modal::ConfirmDelete { path }) => match key.code {
            KeyCode::Char('y') | KeyCode::Char('Y') => {
                &&& r matches Effect::Delete { path: p } && p@ == path@
                &&& *n == App { modal: None, ..*o }
            },
            KeyCode::Char('n') | KeyCode::Char('N') | KeyCode::Esc => {
                r is Nothing && *n == App { modal: None, ..*o }
            },
            _ => r is Nothing && *n == *o,
        },
        Some(Modal::InputName { current, target_dir }) => {
            &&& r is Nothing
            &&& match key.code {
                KeyCode::Char(c) => if key.ctrl {
                    *n == *o
                } else {
                    &&& n.modal matches Some(Modal::InputName { current: c2, target_dir: t2 })
                        && c2@ == current@.push(c) && t2 == target_dir
                    &&& *n == App { modal: n.modal, ..*o }
                },
                KeyCode::Backspace => {
                    &&& n.modal matches Some(Modal::InputName { current: c2, target_dir: t2 })
                        && c2@ == (if current@.len() > 0 {
                        current@.drop_last()
                    } else {
                        current@
                    }) && t2 == target_dir
                    &&& *n == App { modal: n.modal, ..*o }
                },
                KeyCode::Enter => new_note_ok(o, n, current@, target_dir@),
                KeyCode::Esc => *n == App { modal: None, ..*o },
                _ => *n == *o,
            }
        },
        None => true,
    }
}

/// The directory a new note goes to: the selected directory, or the
/// directory of the selected note, when the sidebar has the focus; else the
/// notes directory.
pub open spec fn new_note_target_of(s: &App) -> Seq<char> {
    let i = acted_row(s);
    if s.focus == Focus::Sidebar && s.sidebar_selected is Some && i < s.sidebar_items.len() {
        let row = s.sidebar_items@[i];
        if row.is_dir {
            row.path@
        } else {
            parent_of(row.path@)
        }
    } else {
        s.notes_dir@
    }
}

/// The directory a note is saved in: the one chosen for a new note, else
/// the one it was read from, else the notes directory.
pub open spec fn save_dir_of(s: &App) -> Seq<char> {
    match s.new_note_dir {
        Some(d) => d@,
        None => match s.opened_path {
            Some(p) => parent_of(p@),
            None => s.notes_dir@,
        },
    }
}

/// The plan that saving follows: the note's trimmed title names the file
/// `<title>.md` in the directory of `save_dir_of`; the content is the lines joined by newlines; a note that was
/// read from or saved to another file replaces it.
pub open spec fn plan_ok(s: &App, p: SavePlan) -> bool {
    let dir = save_dir_of(s);
    let path = join_path(dir, note_file_name(trimmed(s.title@.text)));
    &&& p.path@ == path
    &&& p.content@ == join_lines(s.body@.lines)
    &&& match s.opened_path {
        Some(old) => if old@ != path {
            p.replaces matches Some(r) && r@ == old@
        } else {
            p.replaces is None
        },
        None => p.replaces is None,
    }
}

impl App {
    /// Scrolls just enough to show the cursor row.
    pub fn ensure_cursor_visible(&mut self)
        ensures
            final(self).scroll_y == scrolled(old(self).scroll_y as nat, old(self).body@.row),
            *final(self) == (App { scroll_y: final(self).scroll_y, ..*old(self) }),
    {
        let row = self.body.row();
        if row < self.scroll_y {
            self.scroll_y = row;
        } else if row - self.scroll_y >= VISIBLE_LINES {
            self.scroll_y = row - VISIBLE_LINES + 1;
        }
    }

    /// A key in the content editor: the buffer edit it stands for, then
    /// scrolling to the cursor.
    pub fn handle_content_key(&mut self, key: Key)
        requires
            old(self).wf(),
        ensures
            final(self).wf(),
            final(self).body@ == content_after(old(self).body@, key),
            final(self).last_right_focus == RightFocus::Content,
            final(self).scroll_y == scrolled(old(self).scroll_y as nat, final(self).body@.row),
            *final(self) == (App {
                body: final(self).body,
                last_right_focus: final(self).last_right_focus,
                scroll_y: final(self).scroll_y,
                ..*old(self)
            }),
    {
        self.last_right_focus = RightFocus::Content;
        let edit = match key.code {
            KeyCode::Left => Some(Edit::Left),
            KeyCode::Right => Some(Edit::Right),
            KeyCode::Up => Some(Edit::Up),
            KeyCode::Down => Some(Edit::Down),
            KeyCode::Home => Some(Edit::Home),
            KeyCode::End => Some(Edit::End),
            KeyCode::Backspace => Some(Edit::Backspace),
            KeyCode::Delete => Some(Edit::Delete),
            KeyCode::Enter => Some(Edit::Newline),
            KeyCode::Char(c) => if key.ctrl {
                None
            } else {
                Some(Edit::Insert(c))
            },
            _ => None,
        };
        if let Some(e) = edit {
            self.body.apply(e);
        }
        self.ensure_cursor_visible();
    }

    /// A key in the title field; an edit marks the note as changed.
    pub fn handle_title_key(&mut self, key: Key)
        requires
            old(self).wf(),
        ensures
            final(self).wf(),
            final(self).title@ == title_after(old(self).title@, key).0,
            final(self).dirty == (old(self).dirty || title_after(old(self).title@, key).1),
            final(self).last_right_focus == RightFocus::Title,
            *final(self) == (App {
                title: final(self).title,
                dirty: final(self).dirty,
                last_right_focus: final(self).last_right_focus,
                ..*old(self)
            }),
    {
        self.last_right_focus = RightFocus::Title;
        let edited = match key.code {
            KeyCode::Left => {
                self.title.move_left();
                false
            },
            KeyCode::Right => {
                self.title.move_right();
                false
            },
            KeyCode::Home => {
                self.title.move_home();
                false
            },
            KeyCode::End => {
                self.title.move_end();
                false
            },
            KeyCode::Backspace => self.title.backspace(),
            KeyCode::Delete => self.title.delete(),
            KeyCode::Char(c) => if key.ctrl {
                false
            } else {
                self.title.insert(c)
            },
            _ => false,
        };
        if edited {
            self.dirty = true;
        }
    }

    /// A key in the history list.
    pub fn handle_commits_key(&mut self, key: Key) -> (r: Effect)
        requires
            old(self).wf(),
        ensures
            final(self).wf(),
            commits_key_ok(old(self), final(self), key, r),
    {
        match key.code {
            KeyCode::Up => {
                self.git_section.select_prev();
                Effect::Nothing
            },
            KeyCode::Down => {
                self.git_section.select_next();
                Effect::Nothing
            },
            KeyCode::Home => {
                self.git_section.select_first();
                Effect::Nothing
            },
            KeyCode::End => {
                self.git_section.select_last();
                Effect::Nothing
            },
            KeyCode::Char(c) => {
                if c == 'r' && key.plain {
                    Effect::FetchHistory
                } else {
                    Effect::Nothing
                }
            },
            _ => Effect::Nothing,
        }
    }

    /// Toggles the directory at row `idx`; see `toggle_ok`.
    pub fn sidebar_toggle_dir(&mut self, idx: usize)
        requires
            old(self).wf(),
        ensures
            final(self).wf(),
            toggle_ok(old(self), final(self), idx as int),
    {
        if idx >= self.sidebar_items.len() {
            return;
        }
        if !self.sidebar_items[idx].is_dir {
            return;
        }
        let path = self.sidebar_items[idx].path.clone();
        self.expanded.toggle(path.as_str());
        self.refresh_sidebar(Some(idx));
    }

    /// Acts on row `idx`; see `enter_ok`.
    pub fn sidebar_enter_action(&mut self, idx: usize) -> (r: Effect)
        requires
            old(self).wf(),
        ensures
            final(self).wf(),
            enter_ok(old(self), final(self), idx as int, r),
    {
        if idx < self.sidebar_items.len() && !self.sidebar_items[idx].is_dir {
            return Effect::Open { path: self.sidebar_items[idx].path.clone() };
        }
        self.sidebar_toggle_dir(idx);
        Effect::Nothing
    }

    /// A key in the sidebar; see `sidebar_key_ok`.
    pub fn handle_sidebar_key(&mut self, key: Key) -> (r: Effect)
        requires
            old(self).wf(),
        ensures
            final(self).wf(),
            sidebar_key_ok(old(self), final(self), key, r),
    {
        let len = self.sidebar_items.len();
        let selected = match self.sidebar_selected {
            Some(i) => i,
            None => 0,
        };
        match key.code {
            KeyCode::Up => {
                if len > 0 {
                    self.sidebar_selected = Some(if selected > 0 { selected - 1 } else { 0 });
                }
                Effect::Nothing
            },
            KeyCode::Down => {
                if len > 0 {
                    self.sidebar_selected = Some(if selected < len - 1 { selected + 1 } else { len - 1 });
                }
                Effect::Nothing
            },
            KeyCode::Enter | KeyCode::Right => self.sidebar_enter_action(selected),
            KeyCode::Char(c) => {
                if c == ' ' {
                    self.sidebar_toggle_dir(selected);
                } else if c == 'd' {
                    if selected < len && !self.sidebar_items[selected].is_dir {
                        self.modal = Some(Modal::ConfirmDelete { path: self.sidebar_items[selected].path.clone() });
                    }
                }
                Effect::Nothing
            },
            _ => Effect::Nothing,
        }
    }
}

/// What a key does in the title field.
pub open spec fn title_key_ok(o: &App, n: &App, key: Key) -> bool {
    &&& n.title@ == title_after(o.title@, key).0
    &&& n.dirty == (o.dirty || title_after(o.title@, key).1)
    &&& n.last_right_focus == RightFocus::Title
    &&& *n == App { title: n.title, dirty: n.dirty, last_right_focus: n.last_right_focus, ..*o }
}

/// What a key does in the content editor.
pub open spec fn content_key_ok(o: &App, n: &App, key: Key) -> bool {
    &&& n.body@ == content_after(o.body@, key)
    &&& n.last_right_focus == RightFocus::Content
    &&& n.scroll_y == scrolled(o.scroll_y as nat, n.body@.row)
    &&& *n == App {
        body: n.body,
        last_right_focus: n.last_right_focus,
        scroll_y: n.scroll_y,
        ..*o
    }
}

/// What a key does when no dialog is open, by the route it takes.
pub open spec fn key_ok(o: &App, n: &App, key: Key, r: Effect) -> bool {
    match route_of(o.focus, key) {
        Route::Jump(f) => {
            &&& r is Nothing
            &&& n.focus == f
            &&& n.last_right_focus == remembered(f, o.last_right_focus)
            &&& only_focus_changed(o, n)
        },
        Route::Quit => r is Quit && *n == *o,
        Route::Save => {
            &&& *n == *o
            &&& if trimmed(o.title@.text).len() > 0 {
                r matches Effect::Save(p) && plan_ok(o, p)
            } else {
                r is Nothing
            }
        },
        Route::NewNote => {
            &&& r is Nothing
            &&& n.modal matches Some(Modal::InputName { current, target_dir }) && current@.len()
                == 0 && target_dir@ == new_note_target_of(o)
            &&& *n == App { modal: n.modal, ..*o }
        },
        Route::Cycle => {
            &&& r is Nothing
            &&& n.focus == next_in_cycle(o.focus)
            &&& n.last_right_focus == remembered(next_in_cycle(o.focus), o.last_right_focus)
            &&& only_focus_changed(o, n)
        },
        Route::ToSidebar => {
            &&& r is Nothing
            &&& n.focus == Focus::Sidebar
            &&& n.last_right_focus == o.last_right_focus
            &&& only_focus_changed(o, n)
        },
        Route::ToRight => {
            &&& r is Nothing
            &&& n.focus == focus_of(o.last_right_focus)
            &&& n.last_right_focus == o.last_right_focus
            &&& only_focus_changed(o, n)
        },
        Route::Local(Focus::Sidebar) => sidebar_key_ok(o, n, key, r),
        Route::Local(Focus::Title) => r is Nothing && title_key_ok(o, n, key),
        Route::Local(Focus::Content) => r is Nothing && content_key_ok(o, n, key),
        Route::Local(Focus::Commits) => commits_key_ok(o, n, key, r),
    }
}

/// The index of the first note row at `path`, if there is one.
pub open spec fn first_note_row(items: Seq<FlatNode>, path: Seq<char>) -> Option<int>
    decreases items.len(),
{
    if items.len() == 0 {
        None
    } else {
        match first_note_row(items.drop_last(), path) {
            Some(i) => Some(i),
            None => if !items.last().is_dir && items.last().path@ == path {
                Some(items.len() - 1)
            } else {
                None
            },
        }
    }
}

impl App {
    /// The directory a new note goes to; see `new_note_target_of`.
    pub fn new_note_target(&self) -> (r: String)
        ensures
            r@ == new_note_target_of(self),
    {
        if let Focus::Sidebar = self.focus {
            if let Some(i) = self.sidebar_selected {
                if i < self.sidebar_items.len() {
                    let row = &self.sidebar_items[i];
                    if row.is_dir {
                        return row.path.clone();
                    } else {
                        return parent(row.path.as_str());
                    }
                }
            }
        }
        self.notes_dir.clone()
    }

    /// What saving writes; none when the title is blank. See `plan_ok`.
    pub fn save_plan(&self) -> (r: Option<SavePlan>)
        requires
            self.wf(),
        ensures
            r is Some <==> trimmed(self.title@.text).len() > 0,
            r matches Some(p) ==> plan_ok(self, p),
    {
        let title = self.title.text();
        let t = trim(title.as_str());
        if t.as_str().is_empty() {
            return None;
        }
        let dir = match &self.new_note_dir {
            Some(d) => d.clone(),
            None => match &self.opened_path {
                Some(p) => parent(p.as_str()),
                None => self.notes_dir.clone(),
            },
        };
        let path = note_path(dir.as_str(), t.as_str());
        let content = self.body.to_text();
        let replaces = match &self.opened_path {
            Some(old) => if *old != path {
                Some(old.clone())
            } else {
                None
            },
            None => None,
        };
        Some(SavePlan { path, content, replaces })
    }

    /// Confirms the title typed into the new-note dialog; see `new_note_ok`.
    fn confirm_new_note(&mut self, current: String, target_dir: String)
        requires
            old(self).wf(),
            old(self).modal is None,
        ensures
            final(self).wf(),
            new_note_ok(old(self), final(self), current@, target_dir@),
    {
        let t = trim(current.as_str());
        if t.as_str().is_empty() {
            return;
        }
        let mut message = "New note will be created in ".to_owned();
        push_str(&mut message, target_dir.as_str());
        self.title = TitleField::from_text(t.as_str());
        self.body = LineBuffer::new();
        self.scroll_y = 0;
        self.new_note_dir = Some(target_dir);
        self.opened_path = None;
        self.dirty = true;
        self.focus = Focus::Title;
        self.last_right_focus = RightFocus::Title;
        self.status_message = Some(message);
    }

    /// A key while a dialog is open; see `modal_key_ok`.
    pub fn handle_modal_key(&mut self, key: Key) -> (r: Effect)
        requires
            old(self).wf(),
        ensures
            final(self).wf(),
            modal_key_ok(old(self), final(self), key, r),
            old(self).modal is None ==> r is Nothing && *final(self) == *old(self),
    {
        let m = self.modal.take();
        match m {
            Some(Modal::ConfirmDelete { path }) => match key.code {
                KeyCode::Char(c) => {
                    if c == 'y' || c == 'Y' {
                        Effect::Delete { path }
                    } else if c == 'n' || c == 'N' {
                        Effect::Nothing
                    } else {
                        self.modal = Some(Modal::ConfirmDelete { path });
                        Effect::Nothing
                    }
                },
                KeyCode::Esc => Effect::Nothing,
                _ => {
                    self.modal = Some(Modal::ConfirmDelete { path });
                    Effect::Nothing
                },
            },
            Some(Modal::InputName { current, target_dir }) => {
                match key.code {
                    KeyCode::Char(c) => {
                        if key.ctrl {
                            self.modal = Some(Modal::InputName { current, target_dir });
                        } else {
                            let mut current = current;
                            push_char(&mut current, c);
                            self.modal = Some(Modal::InputName { current, target_dir });
                        }
                    },
                    KeyCode::Backspace => {
                        let current = without_last(current.as_str());
                        self.modal = Some(Modal::InputName { current, target_dir });
                    },
                    KeyCode::Enter => {
                        self.confirm_new_note(current, target_dir);
                    },
                    KeyCode::Esc => {},
                    _ => {
                        self.modal = Some(Modal::InputName { current, target_dir });
                    },
                }
                Effect::Nothing
            },
            None => Effect::Nothing,
        }
    }

    /// Routes a key: an open dialog takes it; else the route of `route_of`
    /// decides. See `modal_key_ok` and `key_ok`.
    pub fn handle_key(&mut self, key: Key) -> (r: Effect)
        requires
            old(self).wf(),
        ensures
            final(self).wf(),
            old(self).modal is Some ==> modal_key_ok(old(self), final(self), key, r),
            old(self).modal is None ==> key_ok(old(self), final(self), key, r),
    {
        if self.modal.is_some() {
            return self.handle_modal_key(key);
        }
        match route(self.focus, key) {
            Route::Jump(f) => {
                self.focus = f;
                match f {
                    Focus::Title => self.last_right_focus = RightFocus::Title,
                    Focus::Content => self.last_right_focus = RightFocus::Content,
                    _ => {},
                }
                Effect::Nothing
            },
            Route::Quit => Effect::Quit,
            Route::Save => match self.save_plan() {
                Some(p) => Effect::Save(p),
                None => Effect::Nothing,
            },
            Route::NewNote => {
                let target_dir = self.new_note_target();
                self.modal = Some(Modal::InputName { current: String::new(), target_dir });
                Effect::Nothing
            },
            Route::Cycle => {
                match self.focus {
                    Focus::Sidebar => {
                        self.focus = Focus::Title;
                        self.last_right_focus = RightFocus::Title;
                    },
                    Focus::Title => {
                        self.focus = Focus::Content;
                        self.last_right_focus = RightFocus::Content;
                    },
                    Focus::Content => self.focus = Focus::Commits,
                    Focus::Commits => self.focus = Focus::Sidebar,
                }
                Effect::Nothing
            },
            Route::ToSidebar => {
                self.focus = Focus::Sidebar;
                Effect::Nothing
            },
            Route::ToRight => {
                self.focus = self.last_right_focus.into();
                Effect::Nothing
            },
            Route::Local(Focus::Sidebar) => self.handle_sidebar_key(key),
            Route::Local(Focus::Title) => {
                self.handle_title_key(key);
                Effect::Nothing
            },
            Route::Local(Focus::Content) => {
                self.handle_content_key(key);
                Effect::Nothing
            },
            Route::Local(Focus::Commits) => self.handle_commits_key(key),
        }
    }

    /// Shows the note read from `path`: its title is the file's stem, its
    /// lines those of `content`, nothing is edited yet, and the editing
    /// surface used last gains the focus.
    pub fn open_note(&mut self, path: String, content: &str)
        requires
            old(self).wf(),
        ensures
            final(self).wf(),
            final(self).title@.text == stem_of(file_name_of(path@)),
            final(self).title@.cursor == final(self).title@.text.len(),
            final(self).body@.lines == lines_of(content@),
            final(self).body@.row == 0 && final(self).body@.col == 0 && !final(self).body@.dirty,
            final(self).scroll_y == 0,
            final(self).opened_path == Some(path),
            final(self).new_note_dir is None,
            !final(self).dirty,
            final(self).focus == focus_of(old(self).last_right_focus),
            keeps_sidebar(old(self), final(self)),
            keeps_rest(old(self), final(self)),
            final(self).last_right_focus == old(self).last_right_focus,
    {
        let name = file_name(path.as_str());
        let stem = file_stem(name.as_str());
        self.title = TitleField::from_text(stem.as_str());
        self.body = LineBuffer::from_text(content);
        self.scroll_y = 0;
        self.opened_path = Some(path);
        self.new_note_dir = None;
        self.dirty = false;
        self.focus = self.last_right_focus.into();
    }

    /// Selects the first note row at `path`, if there is one.
    pub fn select_path(&mut self, path: &str)
        requires
            old(self).wf(),
        ensures
            final(self).wf(),
            match first_note_row(old(self).sidebar_items@, path@) {
                Some(i) => final(self).sidebar_selected == Some(i as usize),
                None => final(self).sidebar_selected == old(self).sidebar_selected,
            },
            *final(self) == (App { sidebar_selected: final(self).sidebar_selected, ..*old(self) }),
    {
        let key = path.to_owned();
        let mut i: usize = 0;
        while i < self.sidebar_items.len()
            invariant
                i <= self.sidebar_items.len(),
                key@ == path@,
                *self == *old(self),
                old(self).wf(),
                first_note_row(self.sidebar_items@.take(i as int), path@) is None,
            decreases self.sidebar_items.len() - i,
        {
            assert(self.sidebar_items@.take(i + 1).drop_last() =~= self.sidebar_items@.take(i as int));
            if !self.sidebar_items[i].is_dir && self.sidebar_items[i].path == key {
                proof {
                    lemma_first_note_row_prefix(self.sidebar_items@, path@, i + 1);
                }
                self.sidebar_selected = Some(i);
                return;
            }
            i = i + 1;
        }
        assert(self.sidebar_items@.take(i as int) =~= self.sidebar_items@);
    }

    /// Records a save to `path` and shows the tree read again afterwards,
    /// with the saved note selected when it is shown.
    pub fn note_saved(&mut self, path: String, tree: Option<NoteNode>)
        requires
            old(self).wf(),
        ensures
            final(self).wf(),
            final(self).opened_path == Some(path),
            !final(self).dirty,
            !final(self).body@.dirty,
            final(self).body@.lines == old(self).body@.lines,
            final(self).new_note_dir is None,
            final(self).tree == tree,
            final(self).expanded == old(self).expanded,
            final(self).title == old(self).title,
            final(self).focus == old(self).focus,
            tree is None ==> final(self).status_message is Some,
    {
        if tree.is_none() {
            self.status_message = Some(TREE_UNREADABLE.to_owned());
        }
        self.opened_path = Some(path.clone());
        self.dirty = false;
        self.body.mark_clean();
        self.new_note_dir = None;
        self.tree = tree;
        self.refresh_sidebar(None);
        self.select_path(path.as_str());
    }

    /// Reports a failed save; the note stays as it was.
    pub fn save_failed(&mut self, message: String)
        ensures
            final(self).status_message == Some(message),
            *final(self) == (App { status_message: Some(message), ..*old(self) }),
    {
        self.status_message = Some(message);
    }

    /// Records a deletion and shows the tree read again afterwards.
    pub fn note_deleted(&mut self, tree: Option<NoteNode>)
        requires
            old(self).wf(),
        ensures
            final(self).wf(),
            final(self).tree == tree,
            final(self).status_message is Some,
            final(self).sidebar_selected == reselected(old(self).sidebar_selected, final(self).sidebar_items.len() as nat),
            keeps_note(old(self), final(self)),
            final(self).expanded == old(self).expanded,
            final(self).focus == old(self).focus,
    {
        if tree.is_none() {
            self.status_message = Some(TREE_UNREADABLE.to_owned());
        } else {
            self.status_message = Some("Deleted".to_owned());
        }
        self.tree = tree;
        self.refresh_sidebar(None);
    }

    /// Reports a failed deletion.
    pub fn delete_failed(&mut self, message: String)
        ensures
            *final(self) == (App { status_message: Some(message), ..*old(self) }),
    {
        self.status_message = Some(message);
    }

    /// Shows the history read again after a fetch.
    pub fn history_fetched(&mut self, commits: Vec<CommitInfo>)
        ensures
            final(self).git_section.commits == commits,
            final(self).git_section.selected == 0,
            final(self).git_section.path == old(self).git_section.path,
            final(self).status_message is Some,
            *final(self) == (App {
                git_section: final(self).git_section,
                status_message: final(self).status_message,
                ..*old(self)
            }),
    {
        self.git_section.refresh(commits);
        self.status_message = Some("Fetched and refreshed commits".to_owned());
    }

    /// Whether the title or the content changed since the note was read or
    /// saved.
    pub fn is_dirty(&self) -> (r: bool)
        ensures
            r == (self.dirty || self.body@.dirty),
    {
        self.dirty || self.body.is_dirty()
    }
}

proof fn lemma_first_note_row_prefix(items: Seq<FlatNode>, path: Seq<char>, n: int)
    requires
        0 < n <= items.len(),
        first_note_row(items.take(n - 1), path) is None,
        !items[n - 1].is_dir && items[n - 1].path@ == path,
    ensures
        first_note_row(items, path) == Some(n - 1),
    decreases items.len() - n,
{
    if n == items.len() {
        assert(items.drop_last() =~= items.take(n - 1));
    } else {
        assert(items.drop_last().take(n - 1) =~= items.take(n - 1));
        assert(items.drop_last()[n - 1] == items[n - 1]);
        lemma_first_note_row_prefix(items.drop_last(), path, n);
    }
}

/// Toggling a directory and then toggling it again, with the tree unchanged,
/// gives back the sidebar rows shown before.
pub proof fn lemma_app_toggle_twice(before: &App, between: &App, after: &App, d: Seq<char>)
    requires
        before.wf(),
        between.wf(),
        after.wf(),
        between.tree == before.tree,
        after.tree == before.tree,
        between.expanded@ == toggled(before.expanded@, d),
        after.expanded@ == toggled(between.expanded@, d),
    ensures
        rows(after.sidebar_items@) == rows(before.sidebar_items@),
{
    if let Some(t) = before.tree {
        crate::sidebar::lemma_toggle_twice(t.shape(), before.expanded@, d);
    }
}

} // verus!
