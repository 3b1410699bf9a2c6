use shaft::fs::{
    local_entry, local_kind, local_listing, remote_entry, remote_entry_with, remote_listing, sort_entries,
    dot_name, Entry, FileKind, LocalItem,
    LocalProvider, RemoteItem,
};
use shaft::transfer::{copy_step, CopyStep};

fn entry(name: &str, kind: FileKind) -> Entry {
    Entry { name: name.to_string(), path: format!("/d/{}", name), kind, size: 10, modified: None }
}

fn names(v: &[Entry]) -> Vec<String> {
    v.iter().map(|e| e.name.clone()).collect()
}

#[test]
fn icons_by_kind() {
    assert_eq!(entry("a", FileKind::Dir).icon(), "\u{f07b}");
    assert_eq!(entry("a", FileKind::Symlink).icon(), "\u{f0c1}");
    assert_eq!(entry("a", FileKind::Executable).icon(), "\u{f489}");
    assert_eq!(entry("a", FileKind::File).icon(), "\u{f15b}");
    assert_eq!(entry("a", FileKind::Unknown).icon(), "\u{f128}");
}

#[test]
fn size_of_directory_is_a_dash() {
    let mut e = entry("a", FileKind::Dir);
    e.size = 4096;
    assert_eq!(e.size_human(), "-");
}

#[test]
fn size_of_files_in_binary_units() {
    let mut e = entry("a", FileKind::File);
    e.size = 1024;
    assert_eq!(e.size_human(), "1 KiB");
    e.size = 0;
    assert_eq!(e.size_human(), "0 B");
    e.size = 1536;
    assert_eq!(e.size_human(), "1.50 KiB");
    e.size = 512;
    assert_eq!(e.size_human(), "512 B");
    e.size = 1048576;
    assert_eq!(e.size_human(), "1 MiB");
}

#[test]
fn sort_puts_directories_first_then_names_case_insensitively() {
    let v = vec![
        entry("beta", FileKind::File),
        entry("Zed", FileKind::Dir),
        entry("Alpha", FileKind::File),
        entry("alpha2", FileKind::Dir),
        entry("gamma", FileKind::Executable),
    ];
    let s = sort_entries(&v);
    assert_eq!(names(&s), vec!["alpha2", "Zed", "Alpha", "beta", "gamma"]);
}

#[test]
fn sort_keeps_order_of_equal_names() {
    let mut a = entry("Same", FileKind::File);
    a.size = 1;
    let mut b = entry("same", FileKind::File);
    b.size = 2;
    let mut c = entry("SAME", FileKind::File);
    c.size = 3;
    let s = sort_entries(&vec![a, b, c]);
    let sizes: Vec<u64> = s.iter().map(|e| e.size).collect();
    assert_eq!(sizes, vec![1, 2, 3]);
}

#[test]
fn sort_of_empty_listing() {
    assert!(sort_entries(&vec![]).is_empty());
}

#[test]
fn local_kinds() {
    assert_eq!(local_kind(true, true, 0o755), FileKind::Symlink);
    assert_eq!(local_kind(false, true, 0o755), FileKind::Dir);
    assert_eq!(local_kind(false, false, 0o100), FileKind::Executable);
    assert_eq!(local_kind(false, false, 0o001), FileKind::Executable);
    assert_eq!(local_kind(false, false, 0o644), FileKind::File);
}

fn local(name: &str, is_dir: bool, mode: u32) -> LocalItem {
    LocalItem {
        name: name.to_string(),
        path: format!("/home/u/{}", name),
        is_symlink: false,
        is_dir,
        mode,
        size: 7,
        modified: Some(1_700_000_000),
    }
}

#[test]
fn local_entry_keeps_fields() {
    let e = local_entry(local("run.sh", false, 0o755));
    assert_eq!(e.name, "run.sh");
    assert_eq!(e.path, "/home/u/run.sh");
    assert_eq!(e.kind, FileKind::Executable);
    assert_eq!(e.size, 7);
    assert_eq!(e.modified, Some(1_700_000_000));
}

#[test]
fn local_listing_sorts_and_keeps_hidden() {
    let items = vec![local("b.txt", false, 0o644), local(".cfg", true, 0o755), local("A", false, 0o644)];
    let l = local_listing(items);
    assert_eq!(names(&l), vec![".cfg", "A", "b.txt"]);
}


fn remote(path: &str, perm: Option<u32>, mtime: Option<u64>) -> RemoteItem {
    RemoteItem { path: path.to_string(), perm, size: Some(5), mtime }
}

#[test]
fn remote_kind_from_file_type_bits() {
    assert_eq!(remote_entry(remote("/srv/d", Some(0o040700), None)).kind, FileKind::Dir);
    assert_eq!(remote_entry(remote("/srv/d", Some(0o040000), None)).kind, FileKind::Dir);
    assert_eq!(remote_entry(remote("/srv/l", Some(0o120777), None)).kind, FileKind::Executable);
    assert_eq!(remote_entry(remote("/srv/p", Some(0o010644), None)).kind, FileKind::File);
    assert_eq!(remote_entry(remote("/srv/n", None, None)).kind, FileKind::File);
}

#[test]
fn remote_timestamps_in_range() {
    assert_eq!(remote_entry(remote("/srv/a", Some(0o100644), Some(0))).modified, Some(0));
    assert_eq!(remote_entry(remote("/srv/a", Some(0o100644), Some(1_431_648_000))).modified, Some(1_431_648_000));
    assert_eq!(remote_entry(remote("/srv/a", Some(0o100644), Some(i64::MAX as u64))).modified, None);
}

#[test]
fn remote_entry_kinds_and_names() {
    let d = remote_entry(remote("/srv/data", Some(0o040755), Some(100)));
    assert_eq!(d.kind, FileKind::Dir);
    assert_eq!(d.name, "data");
    assert_eq!(d.modified, Some(100));
    let x = remote_entry(remote("/srv/tool", Some(0o100755), None));
    assert_eq!(x.kind, FileKind::Executable);
    assert_eq!(x.modified, None);
    let f = remote_entry(remote("/srv/notes.txt", Some(0o100644), Some(1u64 << 62)));
    assert_eq!(f.kind, FileKind::File);
    assert_eq!(f.modified, None);
    let w = remote_entry(remote("/srv/w", Some(0o100644), Some(u64::MAX)));
    assert_eq!(w.modified, Some(-1));
    let u = remote_entry(RemoteItem { path: "/srv/u".to_string(), perm: None, size: None, mtime: None });
    assert_eq!(u.kind, FileKind::File);
    assert_eq!(u.size, 0);
}

#[test]
fn remote_entry_with_given_name_and_stamp() {
    let e = remote_entry_with(remote("/srv/a", Some(0o100644), Some(42)), Some("shown".to_string()), false);
    assert_eq!(e.name, "shown");
    assert_eq!(e.modified, None);
    let e = remote_entry_with(remote("/srv/a", Some(0o100644), Some(42)), None, true);
    assert_eq!(e.name, "");
    assert_eq!(e.modified, Some(42));
}

#[test]
fn remote_listing_sorts() {
    let items = vec![
        remote("/srv/zeta", Some(0o100644), None),
        remote("/srv/Beta", Some(0o040755), None),
        remote("/srv/alpha", Some(0o100644), None),
    ];
    let l = remote_listing(items);
    assert_eq!(names(&l), vec!["Beta", "alpha", "zeta"]);
}

#[test]
fn remote_listing_keeps_paths_without_final_name_unnamed() {
    let items = vec![remote("/srv/zeta", Some(0o100644), None), remote("/srv/..", Some(0o040755), None)];
    let l = remote_listing(items);
    assert_eq!(names(&l), vec!["", "zeta"]);
}

#[test]
fn dot_names() {
    assert!(dot_name(&".".to_string()));
    assert!(dot_name(&"..".to_string()));
    assert!(!dot_name(&"...".to_string()));
    assert!(!dot_name(&".git".to_string()));
}

#[test]
fn local_provider_is_made() {
    let _p: LocalProvider = LocalProvider::new();
}

#[test]
fn copy_step_for_directory_and_file() {
    let d = entry("photos", FileKind::Dir);
    match copy_step(&d, "/backup") {
        CopyStep::Dir { src, dst } => {
            assert_eq!(src, "/d/photos");
            assert_eq!(dst, "/backup/photos");
        }
        _ => panic!("expected a directory step"),
    }
    let f = entry("a.txt", FileKind::File);
    match copy_step(&f, "/backup/") {
        CopyStep::File { src, dst, name, size } => {
            assert_eq!(src, "/d/a.txt");
            assert_eq!(dst, "/backup/a.txt");
            assert_eq!(name, "a.txt");
            assert_eq!(size, 10);
        }
        _ => panic!("expected a file step"),
    }
}

#[test]
fn remote_timestamp_range_bounds() {
    let lo: i64 = -8_334_601_228_800;
    let hi: i64 = 8_210_266_876_799;
    let m = |s: i64| remote_entry(remote("/srv/a", Some(0o100644), Some(s as u64))).modified;
    assert_eq!(m(lo), Some(lo));
    assert_eq!(m(lo - 1), None);
    assert_eq!(m(hi), Some(hi));
    assert_eq!(m(hi + 1), None);
}
