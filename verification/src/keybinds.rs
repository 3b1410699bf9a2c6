//! Key bindings: which key press asks for which action, and the legend of
//! bindings shown at the bottom of the screen.

use vstd::prelude::*;

verus! {

/// A key, as far as the bindings tell keys apart.
#[derive(Debug, Clone, Copy, PartialEq, Eq, Structural)]
pub enum KeyCode {
    Char(char),
    Tab,
    Up,
    Down,
    Enter,
    Backspace,
    Delete,
    Esc,
    F(u8),
    Other,
}

/// No modifier key held.
pub const MODIFIERS_NONE: u8 = 0u8;

/// The Shift modifier bit.
pub const MODIFIER_SHIFT: u8 = 1u8;

/// The Control modifier bit.
pub const MODIFIER_CONTROL: u8 = 2u8;

/// The Alt modifier bit.
pub const MODIFIER_ALT: u8 = 4u8;

/// A key press: the key and the set of held modifiers, one bit each.
#[derive(Debug, Clone, Copy, PartialEq, Eq, Structural)]
pub struct KeyInput {
    pub code: KeyCode,
    pub modifiers: u8,
}

/// What the user asks for.
#[derive(Debug, Clone, Copy, PartialEq, Eq, Structural)]
pub enum Action {
    Quit,
    SwitchPane,
    MoveUp,
    MoveDown,
    Enter,
    GoUp,
    GoHome,
    ToggleSelect,
    Copy,
    Move,
    MkDir,
    Delete,
    Rename,
    ToggleHidden,
    Confirm,
    Cancel,
    Noop,
}

/// The binding table. A binding applies only with exactly the modifiers it
/// names: none, except Ctrl-C, which quits.
pub open spec fn action_for(key: KeyInput) -> Action {
    if key.modifiers == MODIFIER_CONTROL {
        if key.code == KeyCode::Char('c') {
            Action::Quit
        } else {
            Action::Noop
        }
    } else if key.modifiers != MODIFIERS_NONE {
        Action::Noop
    } else {
        match key.code {
            KeyCode::Char(c) => if c == 'q' {
                Action::Quit
            } else if c == 'k' {
                Action::MoveUp
            } else if c == 'j' {
                Action::MoveDown
            } else if c == 'h' {
                Action::GoUp
            } else if c == '~' {
                Action::GoHome
            } else if c == ' ' {
                Action::ToggleSelect
            } else if c == '.' {
                Action::ToggleHidden
            } else if c == 'y' {
                Action::Confirm
            } else {
                Action::Noop
            },
            KeyCode::Tab => Action::SwitchPane,
            KeyCode::Up => Action::MoveUp,
            KeyCode::Down => Action::MoveDown,
            KeyCode::Enter => Action::Enter,
            KeyCode::Backspace => Action::GoUp,
            KeyCode::Delete => Action::Delete,
            KeyCode::Esc => Action::Cancel,
            KeyCode::F(n) => if n == 2 {
                Action::Rename
            } else if n == 5 {
                Action::Copy
            } else if n == 6 {
                Action::Move
            } else if n == 7 {
                Action::MkDir
            } else if n == 8 {
                Action::Delete
            } else {
                Action::Noop
            },
            KeyCode::Other => Action::Noop,
        }
    }
}

/// Looks a key press up in the binding table.
pub fn map_key(event: KeyInput) -> (a: Action)
    ensures
        a == action_for(event),
{
    if event.modifiers == MODIFIER_CONTROL {
        return match event.code {
            KeyCode::Char('c') => Action::Quit,
            _ => Action::Noop,
        };
    }
    if event.modifiers != MODIFIERS_NONE {
        return Action::Noop;
    }
    match event.code {
        KeyCode::Char('q') => Action::Quit,
        KeyCode::Tab => Action::SwitchPane,
        KeyCode::Up | KeyCode::Char('k') => Action::MoveUp,
        KeyCode::Down | KeyCode::Char('j') => Action::MoveDown,
        KeyCode::Enter => Action::Enter,
        KeyCode::Backspace | KeyCode::Char('h') => Action::GoUp,
        KeyCode::Char('~') => Action::GoHome,
        KeyCode::Char(' ') => Action::ToggleSelect,
        KeyCode::F(2) => Action::Rename,
        KeyCode::F(5) => Action::Copy,
        KeyCode::F(6) => Action::Move,
        KeyCode::F(7) => Action::MkDir,
        KeyCode::F(8) | KeyCode::Delete => Action::Delete,
        KeyCode::Char('.') => Action::ToggleHidden,
        KeyCode::Esc => Action::Cancel,
        KeyCode::Char('y') => Action::Confirm,
        _ => Action::Noop,
    }
}

/// The key legend.
pub struct KeyLegend;

/// The legend: pairs of key label and description, in display order.
pub open spec fn legend() -> Seq<(Seq<char>, Seq<char>)> {
    seq![
        ("Tab"@, "Switch"@),
        ("Enter"@, "Open"@),
        ("h/Bsp"@, "Up"@),
        ("~"@, "Home"@),
        ("Space"@, "Sel"@),
        ("F2"@, "Rename"@),
        ("F5"@, "Copy"@),
        ("F6"@, "Move"@),
        ("F7"@, "MkDir"@),
        ("F8"@, "Del"@),
        ("."@, "Hidden"@),
        ("q"@, "Quit"@),
    ]
}

impl KeyLegend {
    /// The legend entries.
    pub fn entries() -> (r: Vec<(&'static str, &'static str)>)
        ensures
            r@.map_values(|p: (&'static str, &'static str)| (p.0@, p.1@)) == legend(),
    {
        let mut v: Vec<(&'static str, &'static str)> = Vec::new();
        v.push(("Tab", "Switch"));
        v.push(("Enter", "Open"));
        v.push(("h/Bsp", "Up"));
        v.push(("~", "Home"));
        v.push(("Space", "Sel"));
        v.push(("F2", "Rename"));
        v.push(("F5", "Copy"));
        v.push(("F6", "Move"));
        v.push(("F7", "MkDir"));
        v.push(("F8", "Del"));
        v.push((".", "Hidden"));
        v.push(("q", "Quit"));
        assert(v@.map_values(|p: (&'static str, &'static str)| (p.0@, p.1@)) =~= legend());
        v
    }
}

} // verus!
