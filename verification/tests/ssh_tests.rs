use shaft::ssh::{auth_failure, auth_plan, AttemptResult, AuthRun, AuthStep, expand_tilde, first_existing, home_from_output, parse_u16, AuthAttempt, HostConfig, NeedsKeyPassphrase, NeedsPassword, SshTarget};
use shaft::app::ConnectOutcome;

fn parts(t: &SshTarget) -> (String, String, u16) {
    (t.user.clone(), t.host.clone(), t.port)
}

#[test]
fn parse_forms() {
    assert_eq!(parts(&SshTarget::parse("example.com")), ("".to_string(), "example.com".to_string(), 22));
    assert_eq!(parts(&SshTarget::parse("example.com:2222")), ("".to_string(), "example.com".to_string(), 2222));
    assert_eq!(parts(&SshTarget::parse("bob@example.com")), ("bob".to_string(), "example.com".to_string(), 22));
    assert_eq!(parts(&SshTarget::parse("bob@example.com:2200")), ("bob".to_string(), "example.com".to_string(), 2200));
}

#[test]
fn parse_keeps_a_colon_that_is_no_port() {
    assert_eq!(parts(&SshTarget::parse("host:abc")), ("".to_string(), "host:abc".to_string(), 22));
    assert_eq!(parts(&SshTarget::parse("host:70000")), ("".to_string(), "host:70000".to_string(), 22));
    assert_eq!(parts(&SshTarget::parse("host:")), ("".to_string(), "host:".to_string(), 22));
    assert_eq!(parts(&SshTarget::parse("fe80::1:22")), ("".to_string(), "fe80::1".to_string(), 22));
    assert_eq!(parts(&SshTarget::parse("a:+80")), ("".to_string(), "a".to_string(), 80));
}

#[test]
fn parse_splits_at_first_at_sign() {
    assert_eq!(parts(&SshTarget::parse("a@b@c:1")), ("a".to_string(), "b@c".to_string(), 1));
    assert_eq!(parts(&SshTarget::parse("@host")), ("".to_string(), "host".to_string(), 22));
    let t = SshTarget::parse("u@h");
    assert!(t.identity_file.is_none());
    assert!(t.password.is_none());
}

#[test]
fn port_parsing_like_from_str() {
    let p = |s: &str| parse_u16(&s.chars().collect::<Vec<char>>(), 0);
    assert_eq!(p("22"), Some(22));
    assert_eq!(p("+22"), Some(22));
    assert_eq!(p("0022"), Some(22));
    assert_eq!(p("65535"), Some(65535));
    assert_eq!(p("65536"), None);
    assert_eq!(p(""), None);
    assert_eq!(p("+"), None);
    assert_eq!(p("-1"), None);
    assert_eq!(p("2x"), None);
    assert_eq!(p("99999999999999999999"), None);
    for s in ["0", "1", "443", "+7", "65535", "65536", "x", "", "1 "] {
        assert_eq!(p(s), s.parse::<u16>().ok());
    }
}

fn config(host_name: Option<&str>, port: Option<u16>, user: Option<&str>, ids: &[&str]) -> HostConfig {
    HostConfig {
        host_name: host_name.map(|s| s.to_string()),
        port,
        user: user.map(|s| s.to_string()),
        identity_files: ids.iter().map(|s| s.to_string()).collect(),
    }
}

#[test]
fn ssh_config_fills_in() {
    let mut t = SshTarget::parse("myalias");
    let home = Some("/home/me".to_string());
    t.apply_ssh_config(config(Some("10.0.0.5"), Some(2022), Some("deploy"), &["~/.ssh/a", "~/.ssh/b"]), &home, &vec![false, true]);
    assert_eq!(t.host, "10.0.0.5");
    assert_eq!(t.port, 2022);
    assert_eq!(t.user, "deploy");
    assert_eq!(t.identity_file, Some("/home/me/.ssh/b".to_string()));
}

#[test]
fn ssh_config_keeps_given_user_and_missing_keys() {
    let mut t = SshTarget::parse("alice@myalias:2200");
    t.apply_ssh_config(config(None, None, Some("deploy"), &["/k"]), &None, &vec![false]);
    assert_eq!(t.user, "alice");
    assert_eq!(t.host, "myalias");
    assert_eq!(t.port, 2200);
    assert_eq!(t.identity_file, None);
}

#[test]
fn default_user() {
    let mut t = SshTarget::parse("host");
    t.fill_default_user("me".to_string());
    assert_eq!(t.user, "me");
    let mut t = SshTarget::parse("bob@host");
    t.fill_default_user("me".to_string());
    assert_eq!(t.user, "bob");
    assert_eq!(t.user_at_host(), "bob@host");
}

#[test]
fn tilde_expansion() {
    let home = Some("/home/me".to_string());
    assert_eq!(expand_tilde("~/.ssh/id", &home), "/home/me/.ssh/id");
    assert_eq!(expand_tilde("~/.ssh/id", &None), "~/.ssh/id");
    assert_eq!(expand_tilde("~user/id", &home), "~user/id");
    assert_eq!(expand_tilde("/etc/key", &home), "/etc/key");
    assert_eq!(expand_tilde("~", &home), "~");
}

#[test]
fn first_existing_index() {
    assert_eq!(first_existing(&vec![false, true, true]), Some(1));
    assert_eq!(first_existing(&vec![false]), None);
    assert_eq!(first_existing(&vec![]), None);
}

#[test]
fn messages() {
    assert_eq!(NeedsPassword.message(), "authentication requires a password");
    assert_eq!(NeedsKeyPassphrase("/k".to_string()).message(), "the private key needs a passphrase");
}

fn describe(a: &AuthAttempt) -> String {
    match a {
        AuthAttempt::Key { path, passphrase } => format!("key {} {:?}", path, passphrase),
        AuthAttempt::Agent => "agent".to_string(),
        AuthAttempt::Password { password } => format!("password {}", password),
    }
}

#[test]
fn auth_order_without_password() {
    let t = SshTarget::parse("u@h");
    let plan: Vec<String> = auth_plan(&t, "/home/u").iter().map(describe).collect();
    assert_eq!(
        plan,
        vec![
            "key /home/u/.ssh/id_ed25519 None",
            "key /home/u/.ssh/id_rsa None",
            "key /home/u/.ssh/id_ecdsa None",
            "agent",
        ]
    );
}

#[test]
fn auth_order_with_identity_and_password() {
    let mut t = SshTarget::parse("u@h");
    t.identity_file = Some("/keys/k".to_string());
    t.password = Some("pw".to_string());
    let plan: Vec<String> = auth_plan(&t, "/").iter().map(describe).collect();
    assert_eq!(
        plan,
        vec![
            "key /keys/k None",
            "key /keys/k Some(\"pw\")",
            "key /.ssh/id_ed25519 None",
            "key /.ssh/id_ed25519 Some(\"pw\")",
            "key /.ssh/id_rsa None",
            "key /.ssh/id_rsa Some(\"pw\")",
            "key /.ssh/id_ecdsa None",
            "key /.ssh/id_ecdsa Some(\"pw\")",
            "agent",
            "password pw",
        ]
    );
}

#[test]
fn remote_home_from_echo_output() {
    assert_eq!(home_from_output("/home/bob\n"), "/home/bob");
    assert_eq!(home_from_output("  /srv/u  "), "/srv/u");
    assert_eq!(home_from_output("\n"), "/home");
    assert_eq!(home_from_output(""), "/home");
    assert_eq!(home_from_output("\u{3000}\u{85}/h\u{a0} \u{2028}"), "/h");
    assert_eq!(home_from_output("\u{200b}/h\u{1680}"), "\u{200b}/h");
    assert_eq!(home_from_output("\u{2000}\u{200a}\u{202f}\u{205f}\u{2029}\u{1680}\t\r\x0b\x0c"), "/home");
}

#[test]
fn written_port_wins_over_config() {
    let cfg = || config(Some("real.example.com"), Some(2200), Some("cfguser"), &[]);
    let mut t = SshTarget::parse("myalias");
    assert!(!t.port_given);
    t.apply_ssh_config(cfg(), &None, &vec![]);
    assert_eq!(parts(&t), ("cfguser".to_string(), "real.example.com".to_string(), 2200));
    let mut t = SshTarget::parse("bob@myalias");
    t.apply_ssh_config(cfg(), &None, &vec![]);
    assert_eq!(parts(&t), ("bob".to_string(), "real.example.com".to_string(), 2200));
    let mut t = SshTarget::parse("bob@myalias:2222");
    assert!(t.port_given);
    t.apply_ssh_config(cfg(), &None, &vec![]);
    assert_eq!(parts(&t), ("bob".to_string(), "real.example.com".to_string(), 2222));
    let mut t = SshTarget::parse("bob@myalias:22");
    t.apply_ssh_config(cfg(), &None, &vec![]);
    assert_eq!(t.port, 22);
}

#[test]
fn key_passphrase_unlocks_keys_before_password() {
    let mut t = SshTarget::parse("u@h");
    t.key_passphrase = Some("kp".to_string());
    t.password = Some("pw".to_string());
    let plan: Vec<String> = auth_plan(&t, "/").iter().map(describe).collect();
    assert_eq!(plan[0], "key /.ssh/id_ed25519 None");
    assert_eq!(plan[1], "key /.ssh/id_ed25519 Some(\"kp\")");
    assert_eq!(plan[plan.len() - 1], "password pw");
    t.password = None;
    let plan: Vec<String> = auth_plan(&t, "/").iter().map(describe).collect();
    assert_eq!(plan[5], "key /.ssh/id_ecdsa Some(\"kp\")");
    assert_eq!(plan[plan.len() - 1], "agent");
}

#[test]
fn failed_authentication_outcomes() {
    let t = SshTarget::parse("u@h");
    match auth_failure(&t, Some("/home/u/.ssh/id_rsa".to_string())) {
        ConnectOutcome::NeedsKeyPassphrase { key } => assert_eq!(key, Some("/home/u/.ssh/id_rsa".to_string())),
        _ => panic!("expected a passphrase request"),
    }
    assert!(matches!(auth_failure(&t, None), ConnectOutcome::NeedsPassword));
    let mut with_pw = SshTarget::parse("u@h");
    with_pw.password = Some("pw".to_string());
    assert!(matches!(auth_failure(&with_pw, Some("/k".to_string())), ConnectOutcome::NeedsPassword));
    let mut with_kp = SshTarget::parse("u@h");
    with_kp.key_passphrase = Some("kp".to_string());
    assert!(matches!(auth_failure(&with_kp, Some("/k".to_string())), ConnectOutcome::NeedsPassword));
}

fn tried(s: &AuthStep) -> String {
    match s {
        AuthStep::Try(a) => describe(a),
        AuthStep::Authenticated => "authenticated".to_string(),
        AuthStep::GaveUp(ConnectOutcome::NeedsPassword) => "needs password".to_string(),
        AuthStep::GaveUp(ConnectOutcome::NeedsKeyPassphrase { key }) => format!("needs passphrase {:?}", key),
        AuthStep::GaveUp(_) => "other".to_string(),
    }
}

#[test]
fn auth_run_stops_at_first_acceptance() {
    let t = SshTarget::parse("u@h");
    let (mut run, step) = AuthRun::new(&t, "/home/u");
    assert_eq!(tried(&step), "key /home/u/.ssh/id_ed25519 None");
    let step = run.attempt_done(AttemptResult::Rejected);
    assert_eq!(tried(&step), "key /home/u/.ssh/id_rsa None");
    let step = run.attempt_done(AttemptResult::Accepted);
    assert_eq!(tried(&step), "authenticated");
    assert_eq!(run.next, 1);
}

#[test]
fn auth_run_gives_up_asking_for_the_first_locked_key() {
    let t = SshTarget::parse("u@h");
    let (mut run, _) = AuthRun::new(&t, "/home/u");
    assert_eq!(tried(&run.attempt_done(AttemptResult::Rejected)), "key /home/u/.ssh/id_rsa None");
    assert_eq!(tried(&run.attempt_done(AttemptResult::Unreadable)), "key /home/u/.ssh/id_ecdsa None");
    assert_eq!(tried(&run.attempt_done(AttemptResult::Unreadable)), "agent");
    assert_eq!(run.locked_key, Some("/home/u/.ssh/id_rsa".to_string()));
    assert_eq!(tried(&run.attempt_done(AttemptResult::Rejected)), "needs passphrase Some(\"/home/u/.ssh/id_rsa\")");
}

#[test]
fn auth_run_with_password_gives_up_asking_for_a_password() {
    let mut t = SshTarget::parse("u@h");
    t.password = Some("pw".to_string());
    let (mut run, _) = AuthRun::new(&t, "/");
    let mut step = run.attempt_done(AttemptResult::Unreadable);
    while let AuthStep::Try(_) = step {
        step = run.attempt_done(AttemptResult::Rejected);
    }
    assert_eq!(tried(&step), "needs password");
    assert_eq!(run.locked_key, Some("/.ssh/id_ed25519".to_string()));
}
