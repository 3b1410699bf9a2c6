use shaft::fs::{Entry, FileKind};
use shaft::pane::{keep_unhidden, starts_with_dot, Pane};

fn entry(name: &str, kind: FileKind) -> Entry {
    Entry { name: name.to_string(), path: format!("/d/{}", name), kind, size: 1, modified: None }
}

fn pane_with(names: &[(&str, FileKind)]) -> Pane {
    let mut p = Pane::new("/d".to_string(), "Local".to_string());
    p.refresh(Ok(names.iter().map(|(n, k)| entry(n, *k)).collect()));
    p
}

#[test]
fn new_pane_is_empty() {
    let p = Pane::new("/home".to_string(), "Local".to_string());
    assert_eq!(p.cwd, "/home");
    assert_eq!(p.label, "Local");
    assert!(p.entries.is_empty());
    assert_eq!(p.cursor, 0);
    assert!(p.current_entry().is_none());
    assert!(p.selected_entries().is_empty());
}

#[test]
fn refresh_hides_dot_entries_unless_shown() {
    let mut p = pane_with(&[(".git", FileKind::Dir), ("src", FileKind::Dir), ("a", FileKind::File)]);
    assert_eq!(p.entries.len(), 2);
    p.toggle_hidden();
    assert!(p.show_hidden);
    p.refresh(Ok(vec![entry(".git", FileKind::Dir), entry("src", FileKind::Dir)]));
    assert_eq!(p.entries.len(), 2);
    assert_eq!(p.entries[0].name, ".git");
}

#[test]
fn refresh_clamps_cursor_and_clears_selection() {
    let mut p = pane_with(&[("a", FileKind::File), ("b", FileKind::File), ("c", FileKind::File)]);
    p.move_down(10);
    p.move_down(10);
    assert_eq!(p.cursor, 2);
    p.toggle_select();
    p.refresh(Ok(vec![entry("a", FileKind::File)]));
    assert_eq!(p.cursor, 0);
    assert!(p.selected.is_empty());
    assert!(p.error.is_none());
}

#[test]
fn refresh_error_empties_pane() {
    let mut p = pane_with(&[("a", FileKind::File), ("b", FileKind::File)]);
    p.move_down(10);
    p.refresh(Err("permission denied".to_string()));
    assert!(p.entries.is_empty());
    assert_eq!(p.error, Some("permission denied".to_string()));
    assert_eq!(p.cursor, 1);
    assert!(p.current_entry().is_none());
}

#[test]
fn cursor_moves_within_entries_and_scrolls() {
    let mut p = pane_with(&[("a", FileKind::File), ("b", FileKind::File), ("c", FileKind::File), ("d", FileKind::File)]);
    p.move_up();
    assert_eq!(p.cursor, 0);
    p.move_down(2);
    assert_eq!((p.cursor, p.scroll), (1, 0));
    p.move_down(2);
    assert_eq!((p.cursor, p.scroll), (2, 1));
    p.move_down(2);
    assert_eq!((p.cursor, p.scroll), (3, 2));
    p.move_down(2);
    assert_eq!((p.cursor, p.scroll), (3, 2));
    p.move_up();
    assert_eq!((p.cursor, p.scroll), (2, 2));
    p.move_up();
    assert_eq!((p.cursor, p.scroll), (1, 1));
}

#[test]
fn down_then_up_returns() {
    let mut p = pane_with(&[("a", FileKind::File), ("b", FileKind::File)]);
    p.move_down(5);
    p.move_up();
    assert_eq!(p.cursor, 0);
}

#[test]
fn enter_dir_only_on_directories() {
    let mut p = pane_with(&[("sub", FileKind::Dir), ("f", FileKind::File)]);
    assert!(p.enter_dir());
    assert_eq!(p.cwd, "/d/sub");
    assert_eq!((p.cursor, p.scroll), (0, 0));
    let mut q = pane_with(&[("f", FileKind::File)]);
    assert!(!q.enter_dir());
    assert_eq!(q.cwd, "/d");
}

#[test]
fn go_up_and_focus_previous() {
    let mut p = Pane::new("/srv/b".to_string(), "x".to_string());
    let prev = p.go_up();
    assert_eq!(prev, Some("/srv/b".to_string()));
    assert_eq!(p.cwd, "/srv");
    p.refresh(Ok(vec![
        Entry { name: "a".to_string(), path: "/srv/a".to_string(), kind: FileKind::Dir, size: 0, modified: None },
        Entry { name: "b".to_string(), path: "/srv/b".to_string(), kind: FileKind::Dir, size: 0, modified: None },
    ]));
    p.focus_path("/srv/b");
    assert_eq!(p.cursor, 1);
    p.focus_path("/nowhere");
    assert_eq!(p.cursor, 1);
    p.focus_path("/srv/a/");
    assert_eq!(p.cursor, 0);
    p.focus_path("/srv//b");
    assert_eq!(p.cursor, 1);
}

#[test]
fn go_up_at_root_does_nothing() {
    let mut p = Pane::new("/".to_string(), "x".to_string());
    assert_eq!(p.go_up(), None);
    assert_eq!(p.cwd, "/");
}

#[test]
fn go_home_resets_position() {
    let mut p = pane_with(&[("a", FileKind::File), ("b", FileKind::File)]);
    p.move_down(1);
    p.go_home("/home/me".to_string());
    assert_eq!(p.cwd, "/home/me");
    assert_eq!((p.cursor, p.scroll), (0, 0));
}

#[test]
fn toggle_select_twice_restores() {
    let mut p = pane_with(&[("a", FileKind::File), ("b", FileKind::File)]);
    p.toggle_select();
    assert!(p.selected.contains(&0));
    p.toggle_select();
    assert!(p.selected.is_empty());
}

#[test]
fn selected_entries_fall_back_to_cursor() {
    let mut p = pane_with(&[("a", FileKind::File), ("b", FileKind::File), ("c", FileKind::File)]);
    p.move_down(5);
    let rows = p.selected_entries();
    assert_eq!(rows.len(), 1);
    assert_eq!(rows[0].name, "b");
}

#[test]
fn selected_entries_are_the_selection() {
    let mut p = pane_with(&[("a", FileKind::File), ("b", FileKind::File), ("c", FileKind::File)]);
    p.toggle_select();
    p.move_down(5);
    p.move_down(5);
    p.toggle_select();
    p.selected.insert(9);
    let mut names: Vec<String> = p.selected_entries().iter().map(|e| e.name.clone()).collect();
    names.sort();
    assert_eq!(names, vec!["a", "c"]);
}

#[test]
fn hidden_filter() {
    let v = keep_unhidden(vec![entry(".x", FileKind::File), entry("y", FileKind::File), entry(".", FileKind::Dir)]);
    assert_eq!(v.len(), 1);
    assert_eq!(v[0].name, "y");
    assert!(starts_with_dot(&".bashrc".to_string()));
    assert!(!starts_with_dot(&"".to_string()));
}

#[test]
fn moves_keep_cursor_in_window() {
    let mut p = pane_with(&[("a", FileKind::File), ("b", FileKind::File), ("c", FileKind::File), ("d", FileKind::File), ("e", FileKind::File)]);
    let visible = 3;
    for step in 0..12 {
        if step % 5 < 3 {
            p.move_down(visible);
        } else {
            p.move_up();
        }
        assert!(p.scroll <= p.cursor && p.cursor < p.scroll + visible, "step {}: cursor {} scroll {}", step, p.cursor, p.scroll);
    }
}

#[test]
fn enter_then_go_up_restores_cursor() {
    let mut p = pane_with(&[("a", FileKind::File), ("b", FileKind::Dir), ("c", FileKind::Dir)]);
    p.move_down(5);
    p.move_down(5);
    let before = p.entries.clone();
    assert!(p.enter_dir());
    assert_eq!(p.cwd, "/d/c");
    p.refresh(Ok(vec![entry("x", FileKind::File)]));
    let prev = p.go_up().expect("has a parent");
    assert_eq!(p.cwd, "/d");
    p.refresh(Ok(before));
    p.focus_path(&prev);
    assert_eq!(p.cursor, 2);
    assert_eq!(p.entries[p.cursor].path, "/d/c");
    assert_eq!(p.scroll, 0);
}
