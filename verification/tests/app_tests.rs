use shaft::app::{App, AppMode, Command, ConnectOutcome, DialogKind, InputEvent};
use shaft::fs::{Entry, FileKind};
use shaft::keybinds::{KeyCode, KeyInput, MODIFIERS_NONE, MODIFIER_CONTROL};
use shaft::ssh::SshTarget;

fn press(code: KeyCode) -> InputEvent {
    InputEvent::Key { key: KeyInput { code, modifiers: MODIFIERS_NONE }, press: true }
}

fn entry(dir: &str, name: &str, kind: FileKind) -> Entry {
    Entry { name: name.to_string(), path: format!("{}/{}", dir, name), kind, size: 3, modified: None }
}

fn local_app() -> App {
    let (mut app, cmds) = App::new_local("/home/u".to_string());
    assert_eq!(cmds.len(), 2);
    app.listing_arrived(0, Ok(vec![entry("/home/u", "docs", FileKind::Dir), entry("/home/u", "a.txt", FileKind::File)]), None);
    app.listing_arrived(1, Ok(vec![entry("/home/u", "docs", FileKind::Dir)]), None);
    app
}

fn list_path(c: &Command) -> (usize, String, Option<String>) {
    match c {
        Command::List { side, path, focus } => (*side, path.clone(), focus.clone()),
        other => panic!("expected a listing, got {:?}", other),
    }
}

#[test]
fn new_local_lists_both_panes() {
    let (app, cmds) = App::new_local("/home/u".to_string());
    assert_eq!(app.left.label, "Local");
    assert_eq!(app.right.label, "Local");
    assert_eq!(app.active, 0);
    assert_eq!(app.visible_rows, 20);
    assert!(matches!(app.mode, AppMode::Normal));
    assert_eq!(list_path(&cmds[0]), (0, "/home/u".to_string(), None));
    assert_eq!(list_path(&cmds[1]), (1, "/home/u".to_string(), None));
}

#[test]
fn new_with_remote_outcomes() {
    let target = SshTarget::parse("bob@srv");
    let (app, cmds) = App::new_with_remote(target.clone(), ConnectOutcome::Connected { home: "/home/bob".to_string() }, "/home/u".to_string()).unwrap();
    assert_eq!(app.right.cwd, "/home/bob");
    assert_eq!(app.right.label, "bob@srv");
    assert_eq!(list_path(&cmds[1]), (1, "/home/bob".to_string(), None));
    let (app, _) = App::new_with_remote(target.clone(), ConnectOutcome::NeedsPassword, "/home/u".to_string()).unwrap();
    match &app.mode {
        AppMode::Dialog(DialogKind::Password(h)) => assert_eq!(h, "bob@srv"),
        other => panic!("unexpected mode {:?}", other),
    }
    assert_eq!(app.right.cwd, "/home/u");
    let (app, _) = App::new_with_remote(target.clone(), ConnectOutcome::NeedsKeyPassphrase { key: Some("/k".to_string()) }, "/home/u".to_string()).unwrap();
    match &app.mode {
        AppMode::Dialog(DialogKind::KeyPassphrase(k)) => assert_eq!(k, "/k"),
        other => panic!("unexpected mode {:?}", other),
    }
    assert_eq!(app.ssh_target.as_ref().unwrap().key_passphrase_for, Some("/k".to_string()));
    let r = App::new_with_remote(target, ConnectOutcome::Failed { message: "refused".to_string() }, "/home/u".to_string());
    assert_eq!(r.err(), Some("refused".to_string()));
}

#[test]
fn quit_and_switch() {
    let mut app = local_app();
    assert!(app.handle_event(press(KeyCode::Tab)).is_empty());
    assert_eq!(app.active, 1);
    app.handle_event(press(KeyCode::Tab));
    assert_eq!(app.active, 0);
    app.handle_event(InputEvent::Key { key: KeyInput { code: KeyCode::Char('c'), modifiers: MODIFIER_CONTROL }, press: true });
    assert!(app.should_quit);
}

#[test]
fn releases_and_resizes_do_nothing() {
    let mut app = local_app();
    assert!(app.handle_event(InputEvent::Key { key: KeyInput { code: KeyCode::Char('q'), modifiers: MODIFIERS_NONE }, press: false }).is_empty());
    assert!(!app.should_quit);
    assert!(app.handle_event(InputEvent::Resize).is_empty());
    assert!(app.handle_event(InputEvent::Other).is_empty());
}

#[test]
fn enter_directory_lists_it() {
    let mut app = local_app();
    let cmds = app.handle_event(press(KeyCode::Enter));
    assert_eq!(app.left.cwd, "/home/u/docs");
    assert_eq!(list_path(&cmds[0]), (0, "/home/u/docs".to_string(), None));
    app.handle_event(press(KeyCode::Down));
    assert!(app.handle_event(press(KeyCode::Enter)).is_empty() || app.left.entries.is_empty());
}

#[test]
fn go_up_lists_parent_and_focuses_previous() {
    let mut app = local_app();
    let cmds = app.handle_event(press(KeyCode::Backspace));
    assert_eq!(app.left.cwd, "/home");
    assert_eq!(list_path(&cmds[0]), (0, "/home".to_string(), Some("/home/u".to_string())));
    app.listing_arrived(0, Ok(vec![entry("/home", "a", FileKind::Dir), entry("/home", "u", FileKind::Dir)]), Some("/home/u".to_string()));
    assert_eq!(app.left.cursor, 1);
}

#[test]
fn go_home_asks_for_home() {
    let mut app = local_app();
    let cmds = app.handle_event(press(KeyCode::Char('~')));
    assert!(matches!(cmds[0], Command::FetchHome { side: 0 }));
    let cmds = app.home_arrived(0, "/root".to_string());
    assert_eq!(app.left.cwd, "/root");
    assert_eq!(list_path(&cmds[0]), (0, "/root".to_string(), None));
}

#[test]
fn toggle_hidden_relists() {
    let mut app = local_app();
    let cmds = app.handle_event(press(KeyCode::Char('.')));
    assert!(app.left.show_hidden);
    assert_eq!(list_path(&cmds[0]), (0, "/home/u".to_string(), None));
}

#[test]
fn mkdir_dialog() {
    let mut app = local_app();
    app.input_buf = "junk".to_string();
    app.handle_event(press(KeyCode::F(7)));
    assert!(matches!(app.mode, AppMode::Dialog(DialogKind::MkDir)));
    assert_eq!(app.input_buf, "");
    for c in " new ".chars() {
        app.handle_event(press(KeyCode::Char(c)));
    }
    let cmds = app.handle_event(press(KeyCode::Enter));
    assert!(matches!(app.mode, AppMode::Dialog(DialogKind::MkDir)));
    assert_eq!(app.input_buf, " new ");
    assert_eq!(cmds.len(), 1);
    match &cmds[0] {
        Command::MakeDir { side, path } => {
            assert_eq!(*side, 0);
            assert_eq!(path, "/home/u/new");
        }
        other => panic!("unexpected {:?}", other),
    }
    let cmds = app.dialog_work_done();
    assert!(matches!(app.mode, AppMode::Normal));
    assert_eq!(app.input_buf, "");
    assert_eq!(cmds.len(), 1);
    assert_eq!(list_path(&cmds[0]), (0, "/home/u".to_string(), None));
}

#[test]
fn mkdir_with_blank_name_only_relists() {
    let mut app = local_app();
    app.handle_event(press(KeyCode::F(7)));
    app.handle_event(press(KeyCode::Char(' ')));
    let cmds = app.handle_event(press(KeyCode::Enter));
    assert_eq!(cmds.len(), 1);
    assert_eq!(list_path(&cmds[0]), (0, "/home/u".to_string(), None));
}

#[test]
fn delete_needs_y() {
    let mut app = local_app();
    app.handle_event(press(KeyCode::Delete));
    match &app.mode {
        AppMode::Dialog(DialogKind::ConfirmDelete(n)) => assert_eq!(n, "docs"),
        other => panic!("unexpected {:?}", other),
    }
    app.handle_event(press(KeyCode::Char('n')));
    let cmds = app.handle_event(press(KeyCode::Enter));
    assert!(cmds.is_empty());
    assert!(matches!(app.mode, AppMode::Normal));
    app.handle_event(press(KeyCode::F(8)));
    app.handle_event(press(KeyCode::Char(' ')));
    app.handle_event(press(KeyCode::Char('Y')));
    let cmds = app.handle_event(press(KeyCode::Enter));
    match &cmds[0] {
        Command::Delete { side, path } => {
            assert_eq!(*side, 0);
            assert_eq!(path, "/home/u/docs");
        }
        other => panic!("unexpected {:?}", other),
    }
    assert_eq!(cmds.len(), 1);
    assert!(matches!(app.mode, AppMode::Dialog(DialogKind::ConfirmDelete(_))));
    assert_eq!(app.input_buf, " Y");
    let cmds = app.dialog_work_done();
    assert!(matches!(app.mode, AppMode::Normal));
    assert_eq!(app.input_buf, "");
    assert_eq!(list_path(&cmds[0]), (0, "/home/u".to_string(), None));
}

#[test]
fn delete_confirmed_without_entry_only_relists() {
    let (mut app, _) = App::new_local("/e".to_string());
    app.mode = AppMode::Dialog(DialogKind::ConfirmDelete("gone".to_string()));
    app.input_buf = "y".to_string();
    let cmds = app.handle_event(press(KeyCode::Enter));
    assert_eq!(cmds.len(), 1);
    assert_eq!(list_path(&cmds[0]), (0, "/e".to_string(), None));
    assert!(matches!(app.mode, AppMode::Normal));
}

#[test]
fn only_quit_acts_during_transfer() {
    let mut app = local_app();
    app.mode = AppMode::Transfer;
    assert!(app.handle_event(press(KeyCode::Tab)).is_empty());
    assert_eq!(app.active, 0);
    assert!(app.handle_event(press(KeyCode::Down)).is_empty());
    assert_eq!(app.left.cursor, 0);
    assert!(!app.should_quit);
    assert!(app.handle_event(press(KeyCode::Char('q'))).is_empty());
    assert!(app.should_quit);
    assert!(matches!(app.mode, AppMode::Transfer));
}

#[test]
fn escape_closes_dialog() {
    let mut app = local_app();
    app.handle_event(press(KeyCode::F(7)));
    app.handle_event(press(KeyCode::Char('x')));
    assert!(app.handle_event(press(KeyCode::Esc)).is_empty());
    assert!(matches!(app.mode, AppMode::Normal));
    assert_eq!(app.input_buf, "");
}

#[test]
fn typing_and_backspace() {
    let mut app = local_app();
    app.handle_event(press(KeyCode::F(7)));
    app.handle_event(press(KeyCode::Char('a')));
    app.handle_event(press(KeyCode::Char('b')));
    app.handle_event(press(KeyCode::Backspace));
    assert_eq!(app.input_buf, "a");
    app.handle_event(press(KeyCode::Backspace));
    app.handle_event(press(KeyCode::Backspace));
    assert_eq!(app.input_buf, "");
    assert!(app.handle_event(press(KeyCode::Tab)).is_empty());
    assert_eq!(app.active, 0);
}

#[test]
fn rename_prefills_and_renames_in_place() {
    let mut app = local_app();
    app.handle_event(press(KeyCode::Down));
    app.handle_event(press(KeyCode::F(2)));
    assert_eq!(app.input_buf, "a.txt");
    app.handle_event(press(KeyCode::Backspace));
    app.handle_event(press(KeyCode::Backspace));
    app.handle_event(press(KeyCode::Backspace));
    app.handle_event(press(KeyCode::Char('m')));
    app.handle_event(press(KeyCode::Char('d')));
    let cmds = app.handle_event(press(KeyCode::Enter));
    match &cmds[0] {
        Command::Rename { side, from, to } => {
            assert_eq!(*side, 0);
            assert_eq!(from, "/home/u/a.txt");
            assert_eq!(to, "/home/u/a.md");
        }
        other => panic!("unexpected {:?}", other),
    }
    app.rename_failed(0, "exists".to_string());
    assert_eq!(app.left.error, Some("exists".to_string()));
}

#[test]
fn copy_current_entry_to_other_pane() {
    let mut app = local_app();
    app.handle_event(press(KeyCode::Tab));
    app.right.cwd = "/mnt".to_string();
    app.handle_event(press(KeyCode::Tab));
    let cmds = app.handle_event(press(KeyCode::F(5)));
    assert!(matches!(app.mode, AppMode::Transfer));
    match &cmds[0] {
        Command::Transfer { from_side, entries, dst_dir, is_move } => {
            assert_eq!(*from_side, 0);
            assert_eq!(entries.len(), 1);
            assert_eq!(entries[0].name, "docs");
            assert_eq!(dst_dir, "/mnt");
            assert!(!*is_move);
        }
        other => panic!("unexpected {:?}", other),
    }
    assert!(app.handle_event(press(KeyCode::Tab)).is_empty());
    assert_eq!(app.active, 0);
    assert!(!app.should_quit);
    let cmds = app.transfer_finished();
    assert!(matches!(app.mode, AppMode::Normal));
    assert_eq!(list_path(&cmds[0]), (0, "/home/u".to_string(), None));
    assert_eq!(list_path(&cmds[1]), (1, "/mnt".to_string(), None));
}

#[test]
fn failed_transfer_returns_to_browsing_and_relists() {
    let mut app = local_app();
    app.handle_event(press(KeyCode::Tab));
    app.right.cwd = "/mnt".to_string();
    let cmds = app.handle_event(press(KeyCode::F(5)));
    assert_eq!(cmds.len(), 1);
    assert!(matches!(app.mode, AppMode::Transfer));
    let cmds = app.transfer_failed();
    assert!(matches!(app.mode, AppMode::Normal));
    assert_eq!(app.active, 1);
    assert_eq!(list_path(&cmds[0]), (1, "/mnt".to_string(), None));
    assert_eq!(list_path(&cmds[1]), (0, "/home/u".to_string(), None));
}

#[test]
fn move_selection() {
    let mut app = local_app();
    app.handle_event(press(KeyCode::Char(' ')));
    app.handle_event(press(KeyCode::Down));
    app.handle_event(press(KeyCode::Char(' ')));
    let cmds = app.handle_event(press(KeyCode::F(6)));
    match &cmds[0] {
        Command::Transfer { entries, is_move, .. } => {
            assert_eq!(entries.len(), 2);
            assert!(*is_move);
        }
        other => panic!("unexpected {:?}", other),
    }
}

#[test]
fn transfer_with_nothing_does_nothing() {
    let (mut app, _) = App::new_local("/e".to_string());
    assert!(app.handle_event(press(KeyCode::F(5))).is_empty());
    assert!(matches!(app.mode, AppMode::Normal));
}

#[test]
fn connect_dialog_resolves_trimmed_input() {
    let mut app = local_app();
    app.mode = AppMode::Dialog(DialogKind::Connect);
    for c in " bob@srv ".chars() {
        app.handle_event(press(KeyCode::Char(c)));
    }
    let cmds = app.handle_event(press(KeyCode::Enter));
    match &cmds[0] {
        Command::Resolve { raw } => assert_eq!(raw, "bob@srv"),
        other => panic!("unexpected {:?}", other),
    }
}

#[test]
fn connect_outcomes() {
    let mut app = local_app();
    let t = SshTarget::parse("bob@srv");
    let cmds = app.connect_finished(t.clone(), ConnectOutcome::Failed { message: "no route".to_string() }, false);
    assert!(cmds.is_empty());
    assert_eq!(app.right.error, Some("Connect failed: no route".to_string()));
    app.connect_finished(t.clone(), ConnectOutcome::NeedsPassword, false);
    assert!(matches!(app.mode, AppMode::Dialog(DialogKind::Password(_))));
    for c in "pw".chars() {
        app.handle_event(press(KeyCode::Char(c)));
    }
    let cmds = app.handle_event(press(KeyCode::Enter));
    match &cmds[0] {
        Command::Connect { target, retry } => {
            assert!(*retry);
            assert_eq!(target.password, Some("pw".to_string()));
            assert_eq!(target.host, "srv");
        }
        other => panic!("unexpected {:?}", other),
    }
    app.connect_finished(t.clone(), ConnectOutcome::NeedsPassword, true);
    assert_eq!(app.right.error, Some("Auth failed: authentication requires a password".to_string()));
    let cmds = app.connect_finished(t, ConnectOutcome::Connected { home: "/home/bob".to_string() }, true);
    assert_eq!(app.right.cwd, "/home/bob");
    assert_eq!(app.right.label, "bob@srv");
    assert_eq!(list_path(&cmds[0]), (1, "/home/bob".to_string(), None));
}

#[test]
fn key_passphrase_dialog() {
    let mut app = local_app();
    let t = SshTarget::parse("bob@srv");
    app.connect_finished(t, ConnectOutcome::NeedsKeyPassphrase { key: None }, false);
    match &app.mode {
        AppMode::Dialog(DialogKind::KeyPassphrase(k)) => assert_eq!(k, ""),
        other => panic!("unexpected {:?}", other),
    }
    app.handle_event(press(KeyCode::Char('s')));
    let cmds = app.handle_event(press(KeyCode::Enter));
    match &cmds[0] {
        Command::Connect { target, retry } => {
            assert!(*retry);
            assert_eq!(target.key_passphrase, Some("s".to_string()));
        }
        other => panic!("unexpected {:?}", other),
    }
    app.connect_finished(SshTarget::parse("x"), ConnectOutcome::Failed { message: "bad".to_string() }, true);
    assert_eq!(app.right.error, Some("Auth failed: bad".to_string()));
}

#[test]
fn connect_remote_reports_other_failures() {
    let mut app = local_app();
    let r = app.connect_remote(SshTarget::parse("h"), ConnectOutcome::Failed { message: "timeout".to_string() });
    assert_eq!(r.err(), Some("timeout".to_string()));
    assert!(app.ssh_target.is_none());
}

#[test]
fn refresh_and_rows() {
    let mut app = local_app();
    app.set_visible_rows(7);
    assert_eq!(app.visible_rows, 7);
    app.active = 1;
    assert_eq!(list_path(&app.refresh_active()), (1, "/home/u".to_string(), None));
}
