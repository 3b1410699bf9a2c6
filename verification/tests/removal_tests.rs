use shaft::removal::{DeleteJob, RemovalAction};

fn is(a: &RemovalAction, kind: &str, want: &str) -> bool {
    match (a, kind) {
        (RemovalAction::Stat { path }, "stat") => path == want,
        (RemovalAction::List { path }, "list") => path == want,
        (RemovalAction::Unlink { path }, "unlink") => path == want,
        (RemovalAction::RemoveDir { path }, "rmdir") => path == want,
        _ => false,
    }
}

#[test]
fn deleting_a_file_unlinks_it() {
    let mut job = DeleteJob::new("/srv/f".to_string());
    assert!(is(&job.next_action(), "stat", "/srv/f"));
    assert!(is(&job.stat_arrived(Some(0o100644)), "unlink", "/srv/f"));
    assert!(matches!(job.next_action(), RemovalAction::Finished));
}

#[test]
fn deleting_a_directory_empties_it_first() {
    let mut job = DeleteJob::new("/srv/d".to_string());
    assert!(is(&job.next_action(), "stat", "/srv/d"));
    assert!(is(&job.stat_arrived(Some(0o040755)), "list", "/srv/d"));
    job.listed(vec!["/srv/d/a".to_string(), "/srv/d/s".to_string()]);
    assert!(is(&job.next_action(), "stat", "/srv/d/a"));
    assert!(is(&job.stat_arrived(None), "unlink", "/srv/d/a"));
    assert!(is(&job.next_action(), "stat", "/srv/d/s"));
    assert!(is(&job.stat_arrived(Some(0o040700)), "list", "/srv/d/s"));
    job.listed(vec![]);
    assert!(is(&job.next_action(), "rmdir", "/srv/d/s"));
    assert!(is(&job.next_action(), "rmdir", "/srv/d"));
    assert!(matches!(job.next_action(), RemovalAction::Finished));
}
