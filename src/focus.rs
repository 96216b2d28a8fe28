//! Focus targets, keys, and the routing of a key to the surface that owns it.

use vstd::prelude::*;

verus! {

/// The interaction surface that receives keys.
#[derive(Debug, Clone, Copy, PartialEq, Eq, Structural)]
pub enum Focus {
    Sidebar,
    Title,
    Content,
    Commits,
}

/// The editing surface to return to from the sidebar or the history.
#[derive(Debug, Clone, Copy, PartialEq, Eq, Structural)]
pub enum RightFocus {
    Title,
    Content,
}

pub open spec fn focus_of(r: RightFocus) -> Focus {
    match r {
        RightFocus::Title => Focus::Title,
        RightFocus::Content => Focus::Content,
    }
}

impl From<RightFocus> for Focus {
    fn from(value: RightFocus) -> (r: Focus)
        ensures
            r == focus_of(value),
    {
        match value {
            RightFocus::Title => Focus::Title,
            RightFocus::Content => Focus::Content,
        }
    }
}

impl vstd::std_specs::convert::FromSpecImpl<RightFocus> for Focus {
    open spec fn obeys_from_spec() -> bool {
        true
    }

    open spec fn from_spec(v: RightFocus) -> Focus {
        focus_of(v)
    }
}

/// The key that was pressed, less its modifiers.
#[derive(Debug, Clone, Copy, PartialEq, Eq, Structural)]
pub enum KeyCode {
    Char(char),
    Enter,
    Backspace,
    Delete,
    Left,
    Right,
    Up,
    Down,
    Home,
    End,
    Tab,
    Esc,
    Other,
}

/// A key press: the key, whether no modifier was held, and whether Control
/// was held.
#[derive(Debug, Clone, Copy, PartialEq, Eq, Structural)]
pub struct Key {
    pub code: KeyCode,
    pub plain: bool,
    pub ctrl: bool,
}

/// Where a key goes when no dialog is open.
#[derive(Debug, Clone, Copy, PartialEq, Eq, Structural)]
pub enum Route {
    /// A quick-select digit: focus the named surface.
    Jump(Focus),
    Quit,
    Save,
    NewNote,
    /// Tab: the next surface in the cycle.
    Cycle,
    /// Back to the sidebar.
    ToSidebar,
    /// Back to the editing surface last used.
    ToRight,
    /// Handled by the surface that has the focus.
    Local(Focus),
}

/// The routing table: global shortcuts first, then the shortcuts that only
/// some surfaces honour, and everything else to the focused surface.
pub open spec fn route_of(focus: Focus, key: Key) -> Route {
    if key.plain && key.code == KeyCode::Char('1') {
        Route::Jump(Focus::Sidebar)
    } else if key.plain && key.code == KeyCode::Char('2') {
        Route::Jump(Focus::Title)
    } else if key.plain && key.code == KeyCode::Char('3') {
        Route::Jump(Focus::Content)
    } else if key.plain && key.code == KeyCode::Char('4') {
        Route::Jump(Focus::Commits)
    } else if key.plain && key.code == KeyCode::Char('q') {
        Route::Quit
    } else if key.ctrl && key.code == KeyCode::Char('s') {
        Route::Save
    } else if key.plain && key.code == KeyCode::Char('n') {
        Route::NewNote
    } else if key.plain && key.code == KeyCode::Char('h') {
        Route::ToSidebar
    } else if key.plain && key.code == KeyCode::Char('l') {
        Route::ToRight
    } else if key.code == KeyCode::Tab {
        Route::Cycle
    } else if key.code == KeyCode::Left && (focus == Focus::Title || focus == Focus::Commits) {
        Route::ToSidebar
    } else if key.code == KeyCode::Right && focus == Focus::Commits {
        Route::ToRight
    } else {
        Route::Local(focus)
    }
}

fn is_plain_char(key: Key, c: char) -> (r: bool)
    ensures
        r == (key.plain && key.code == KeyCode::Char(c)),
{
    key.plain && match key.code {
        KeyCode::Char(k) => k == c,
        _ => false,
    }
}

/// Routes a key; see `route_of`.
pub fn route(focus: Focus, key: Key) -> (r: Route)
    ensures
        r == route_of(focus, key),
{
    if is_plain_char(key, '1') {
        Route::Jump(Focus::Sidebar)
    } else if is_plain_char(key, '2') {
        Route::Jump(Focus::Title)
    } else if is_plain_char(key, '3') {
        Route::Jump(Focus::Content)
    } else if is_plain_char(key, '4') {
        Route::Jump(Focus::Commits)
    } else if is_plain_char(key, 'q') {
        Route::Quit
    } else if key.ctrl && match key.code {
        KeyCode::Char(k) => k == 's',
        _ => false,
    } {
        Route::Save
    } else if is_plain_char(key, 'n') {
        Route::NewNote
    } else if is_plain_char(key, 'h') {
        Route::ToSidebar
    } else if is_plain_char(key, 'l') {
        Route::ToRight
    } else {
        match key.code {
            KeyCode::Tab => Route::Cycle,
            KeyCode::Left => match focus {
                Focus::Title | Focus::Commits => Route::ToSidebar,
                _ => Route::Local(focus),
            },
            KeyCode::Right => match focus {
                Focus::Commits => Route::ToRight,
                _ => Route::Local(focus),
            },
            _ => Route::Local(focus),
        }
    }
}

/// The surface after `focus` in the Tab cycle.
pub open spec fn next_in_cycle(focus: Focus) -> Focus {
    match focus {
        Focus::Sidebar => Focus::Title,
        Focus::Title => Focus::Content,
        Focus::Content => Focus::Commits,
        Focus::Commits => Focus::Sidebar,
    }
}

/// The editing surface remembered after `focus` gains the focus: entering
/// the title or the content records it, the other surfaces leave it.
pub open spec fn remembered(focus: Focus, right: RightFocus) -> RightFocus {
    match focus {
        Focus::Title => RightFocus::Title,
        Focus::Content => RightFocus::Content,
        _ => right,
    }
}

/// A focus change together with the remembered editing surface.
pub fn enter_focus(target: Focus, right: RightFocus) -> (r: (Focus, RightFocus))
    ensures
        r.0 == target,
        r.1 == remembered(target, right),
{
    let rem = match target {
        Focus::Title => RightFocus::Title,
        Focus::Content => RightFocus::Content,
        _ => right,
    };
    (target, rem)
}

/// The surface after `focus` in the Tab cycle; see `next_in_cycle`.
pub fn cycle(focus: Focus) -> (r: Focus)
    ensures
        r == next_in_cycle(focus),
{
    match focus {
        Focus::Sidebar => Focus::Title,
        Focus::Title => Focus::Content,
        Focus::Content => Focus::Commits,
        Focus::Commits => Focus::Sidebar,
    }
}

} // verus!
