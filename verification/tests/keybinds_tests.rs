use shaft::keybinds::{map_key, Action, KeyCode, KeyInput, KeyLegend, MODIFIERS_NONE, MODIFIER_ALT, MODIFIER_CONTROL, MODIFIER_SHIFT};

fn key(code: KeyCode) -> KeyInput {
    KeyInput { code, modifiers: MODIFIERS_NONE }
}

#[test]
fn plain_bindings() {
    assert_eq!(map_key(key(KeyCode::Char('q'))), Action::Quit);
    assert_eq!(map_key(key(KeyCode::Tab)), Action::SwitchPane);
    assert_eq!(map_key(key(KeyCode::Up)), Action::MoveUp);
    assert_eq!(map_key(key(KeyCode::Char('k'))), Action::MoveUp);
    assert_eq!(map_key(key(KeyCode::Down)), Action::MoveDown);
    assert_eq!(map_key(key(KeyCode::Char('j'))), Action::MoveDown);
    assert_eq!(map_key(key(KeyCode::Enter)), Action::Enter);
    assert_eq!(map_key(key(KeyCode::Backspace)), Action::GoUp);
    assert_eq!(map_key(key(KeyCode::Char('h'))), Action::GoUp);
    assert_eq!(map_key(key(KeyCode::Char('~'))), Action::GoHome);
    assert_eq!(map_key(key(KeyCode::Char(' '))), Action::ToggleSelect);
    assert_eq!(map_key(key(KeyCode::F(2))), Action::Rename);
    assert_eq!(map_key(key(KeyCode::F(5))), Action::Copy);
    assert_eq!(map_key(key(KeyCode::F(6))), Action::Move);
    assert_eq!(map_key(key(KeyCode::F(7))), Action::MkDir);
    assert_eq!(map_key(key(KeyCode::F(8))), Action::Delete);
    assert_eq!(map_key(key(KeyCode::Delete)), Action::Delete);
    assert_eq!(map_key(key(KeyCode::Char('.'))), Action::ToggleHidden);
    assert_eq!(map_key(key(KeyCode::Esc)), Action::Cancel);
    assert_eq!(map_key(key(KeyCode::Char('y'))), Action::Confirm);
}

#[test]
fn unbound_keys() {
    assert_eq!(map_key(key(KeyCode::Char('x'))), Action::Noop);
    assert_eq!(map_key(key(KeyCode::F(1))), Action::Noop);
    assert_eq!(map_key(key(KeyCode::Other)), Action::Noop);
}

#[test]
fn modifiers() {
    assert_eq!(map_key(KeyInput { code: KeyCode::Char('c'), modifiers: MODIFIER_CONTROL }), Action::Quit);
    assert_eq!(map_key(KeyInput { code: KeyCode::Char('q'), modifiers: MODIFIER_CONTROL }), Action::Noop);
    assert_eq!(map_key(KeyInput { code: KeyCode::Char('c'), modifiers: MODIFIERS_NONE }), Action::Noop);
    assert_eq!(map_key(KeyInput { code: KeyCode::Char('Q'), modifiers: MODIFIER_SHIFT }), Action::Noop);
    assert_eq!(map_key(KeyInput { code: KeyCode::Tab, modifiers: MODIFIER_ALT }), Action::Noop);
    assert_eq!(
        map_key(KeyInput { code: KeyCode::Char('c'), modifiers: MODIFIER_CONTROL | MODIFIER_SHIFT }),
        Action::Noop
    );
}

#[test]
fn legend_lists_bindings_in_order() {
    let l = KeyLegend::entries();
    assert_eq!(l.len(), 12);
    assert_eq!(l[0], ("Tab", "Switch"));
    assert_eq!(l[4], ("Space", "Sel"));
    assert_eq!(l[11], ("q", "Quit"));
}

#[test]
fn legend_keys_are_bound_as_described() {
    assert_eq!(map_key(key(KeyCode::Tab)), Action::SwitchPane);
    assert_eq!(map_key(key(KeyCode::Enter)), Action::Enter);
    assert_eq!(map_key(key(KeyCode::F(2))), Action::Rename);
    assert_eq!(map_key(key(KeyCode::F(5))), Action::Copy);
    assert_eq!(map_key(key(KeyCode::F(6))), Action::Move);
    assert_eq!(map_key(key(KeyCode::F(7))), Action::MkDir);
    assert_eq!(map_key(key(KeyCode::F(8))), Action::Delete);
}
