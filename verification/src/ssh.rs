//! SSH targets: parsing `host`, `host:port`, `user@host` and
//! `user@host:port`, filling in what the user's SSH configuration says of the
//! host, expanding `~/` in key paths, and the outcomes of a connection
//! attempt that ask the user for more.

use vstd::prelude::*;
use vstd::string::StringExecFns;
use crate::text::{chars_of, string_from_chars, substring, trim_str, trimmed};
use crate::paths::{joined, path_join};
use crate::app::ConnectOutcome;

verus! {

/// Authentication failed with every method tried and no password was given.
pub struct NeedsPassword;

impl NeedsPassword {
    /// The message shown for this condition.
    pub fn message(&self) -> (r: &'static str)
        ensures
            r@ == "authentication requires a password"@,
    {
        "authentication requires a password"
    }
}

/// The private key at the given path is protected by a passphrase.
pub struct NeedsKeyPassphrase(pub String);

impl NeedsKeyPassphrase {
    /// The message shown for this condition.
    pub fn message(&self) -> (r: &'static str)
        ensures
            r@ == "the private key needs a passphrase"@,
    {
        "the private key needs a passphrase"
    }
}

/// Where and as whom to connect, and the secrets collected so far.
#[derive(Debug)]
pub struct SshTarget {
    pub user: String,
    pub host: String,
    pub port: u16,
    /// Whether the port was written in the target (`host:port`); such a
    /// port is kept over the SSH configuration's.
    pub port_given: bool,
    pub identity_file: Option<String>,
    pub password: Option<String>,
    pub key_passphrase: Option<String>,
    pub key_passphrase_for: Option<String>,
}

/// Copies an optional string.
pub fn clone_opt(s: &Option<String>) -> (r: Option<String>)
    ensures
        r == *s,
{
    match s {
        Some(x) => Some(x.clone()),
        None => None,
    }
}

impl Clone for SshTarget {
    fn clone(&self) -> (r: Self)
        ensures
            r == *self,
    {
        SshTarget {
            user: self.user.clone(),
            host: self.host.clone(),
            port: self.port,
            port_given: self.port_given,
            identity_file: clone_opt(&self.identity_file),
            password: clone_opt(&self.password),
            key_passphrase: clone_opt(&self.key_passphrase),
            key_passphrase_for: clone_opt(&self.key_passphrase_for),
        }
    }
}

/// Whether `c` is an ASCII decimal digit.
pub open spec fn is_digit(c: char) -> bool {
    '0' <= c && c <= '9'
}

/// The value of a string of decimal digits.
pub open spec fn digits_value(s: Seq<char>) -> nat
    decreases s.len(),
{
    if s.len() == 0 {
        0
    } else {
        digits_value(s.drop_last()) * 10 + ((s.last() as int) - ('0' as int)) as nat
    }
}

/// What `u16::from_str` accepts: an optional `+`, then one or more decimal
/// digits whose value fits in 16 bits.
pub open spec fn parse_u16_of(s: Seq<char>) -> Option<u16> {
    let d = without_plus(s);
    if d.len() > 0 && all_digits(d) && digits_value(d) <= 65535 {
        Some(digits_value(d) as u16)
    } else {
        None
    }
}

/// `s` without one leading `+`.
pub open spec fn without_plus(s: Seq<char>) -> Seq<char> {
    if s.len() > 0 && s[0] == '+' {
        s.drop_first()
    } else {
        s
    }
}

/// Every character of `s` is a decimal digit.
pub open spec fn all_digits(s: Seq<char>) -> bool {
    forall|i: int| 0 <= i < s.len() ==> is_digit(#[trigger] s[i])
}

proof fn lemma_digits_value_grows(s: Seq<char>, k: int)
    requires
        0 <= k <= s.len(),
        forall|i: int| 0 <= i < s.len() ==> is_digit(#[trigger] s[i]),
    ensures
        digits_value(s) >= digits_value(s.subrange(0, k)),
    decreases s.len() - k,
{
    if k < s.len() {
        lemma_digits_value_grows(s, k + 1);
        assert(s.subrange(0, k + 1).drop_last() =~= s.subrange(0, k));
    } else {
        assert(s.subrange(0, k) =~= s);
    }
}

/// Parses a port number the way `u16::from_str` does.
pub fn parse_u16(s: &Vec<char>, from: usize) -> (r: Option<u16>)
    requires
        from <= s.len(),
    ensures
        r == parse_u16_of(s@.subrange(from as int, s.len() as int)),
{
    let ghost t = s@.subrange(from as int, s.len() as int);
    let mut start = from;
    if start < s.len() && s[start] == '+' {
        start = start + 1;
    }
    let ghost d = s@.subrange(start as int, s.len() as int);
    assert(d =~= without_plus(t));
    if start >= s.len() {
        return None;
    }
    let mut value: u32 = 0;
    let mut k: usize = start;
    while k < s.len()
        invariant
            start <= k <= s.len(),
            start < s.len(),
            from <= start,
            t == s@.subrange(from as int, s.len() as int),
            d == s@.subrange(start as int, s.len() as int),
            d == without_plus(t),
            forall|i: int| start <= i < k ==> is_digit(#[trigger] s@[i]),
            value as nat == digits_value(s@.subrange(start as int, k as int)),
            value <= 65535,
        decreases s.len() - k,
    {
        let c = s[k];
        if !('0' <= c && c <= '9') {
            proof {
                assert(!is_digit(d[k - start]));
                assert(!all_digits(d));
            }
            return None;
        }
        let digit = (c as u32) - ('0' as u32);
        proof {
            assert(s@.subrange(start as int, k + 1).drop_last() =~= s@.subrange(start as int, k as int));
        }
        let next = value * 10 + digit;
        if next > 65535 {
            proof {
                if all_digits(d) {
                    lemma_digits_value_grows(d, (k + 1 - start) as int);
                    assert(d.subrange(0, (k + 1 - start) as int) =~= s@.subrange(start as int, k + 1));
                }
            }
            return None;
        }
        value = next;
        k = k + 1;
    }
    assert(s@.subrange(start as int, k as int) =~= d);
    Some(value as u16)
}

/// Index of the last `c` in `s`.
pub open spec fn last_index_of(s: Seq<char>, c: char) -> Option<int>
    decreases s.len(),
{
    if s.len() == 0 {
        None
    } else if s.last() == c {
        Some(s.len() - 1)
    } else {
        last_index_of(s.drop_last(), c)
    }
}

/// Index of the first `c` in `s`.
pub open spec fn first_index_of(s: Seq<char>, c: char) -> Option<int>
    decreases s.len(),
{
    if s.len() == 0 {
        None
    } else if s[0] == c {
        Some(0)
    } else {
        match first_index_of(s.drop_first(), c) {
            Some(i) => Some(i + 1),
            None => None,
        }
    }
}

proof fn lemma_last_index_range(s: Seq<char>, c: char)
    ensures
        match last_index_of(s, c) {
            Some(i) => 0 <= i < s.len() && s[i] == c,
            None => true,
        },
    decreases s.len(),
{
    if s.len() > 0 && s.last() != c {
        lemma_last_index_range(s.drop_last(), c);
    }
}

fn find_last(s: &Vec<char>, c: char) -> (r: Option<usize>)
    ensures
        match last_index_of(s@, c) {
            Some(i) => 0 <= i < s.len() && r == Some(i as usize),
            None => r is None,
        },
        match r {
            Some(i) => i < s.len(),
            None => true,
        },
{
    proof {
        lemma_last_index_range(s@, c);
    }
    let mut k: usize = s.len();
    assert(s@.subrange(0, s.len() as int) =~= s@);
    while k > 0
        invariant
            k <= s.len(),
            last_index_of(s@, c) == last_index_of(s@.subrange(0, k as int), c),
        decreases k,
    {
        proof {
            assert(s@.subrange(0, k as int).drop_last() =~= s@.subrange(0, k - 1));
        }
        if s[k - 1] == c {
            return Some(k - 1);
        }
        k = k - 1;
    }
    None
}

proof fn lemma_first_index_range(s: Seq<char>, c: char)
    ensures
        match first_index_of(s, c) {
            Some(i) => 0 <= i < s.len() && s[i] == c,
            None => true,
        },
    decreases s.len(),
{
    if s.len() > 0 && s[0] != c {
        lemma_first_index_range(s.drop_first(), c);
    }
}

fn find_first(s: &Vec<char>, c: char) -> (r: Option<usize>)
    ensures
        match first_index_of(s@, c) {
            Some(i) => 0 <= i < s.len() && r == Some(i as usize),
            None => r is None,
        },
{
    proof {
        lemma_first_index_range(s@, c);
    }
    let mut k: usize = 0;
    assert(s@.subrange(0, s.len() as int) =~= s@);
    while k < s.len()
        invariant
            k <= s.len(),
            first_index_of(s@, c) == match first_index_of(s@.subrange(k as int, s.len() as int), c) {
                Some(i) => Some(i + k),
                None => None,
            },
        decreases s.len() - k,
    {
        proof {
            assert(s@.subrange(k as int, s.len() as int).drop_first() =~= s@.subrange(k + 1, s.len() as int));
        }
        if s[k] == c {
            return Some(k);
        }
        k = k + 1;
    }
    proof {
        assert(s@.subrange(k as int, s.len() as int).len() == 0);
    }
    None
}

/// The `user@host` part of a target string and its port: a trailing
/// `:port` counts only when what follows the last colon parses as a port,
/// and the port is 22 otherwise.
pub open spec fn split_port(r: Seq<char>) -> (Seq<char>, u16) {
    match last_index_of(r, ':') {
        Some(i) => match parse_u16_of(r.subrange(i + 1, r.len() as int)) {
            Some(p) => (r.subrange(0, i), p),
            None => (r, 22u16),
        },
        None => (r, 22u16),
    }
}

/// Whether `r` ends in `:port` with a port number that parses.
pub open spec fn explicit_port(r: Seq<char>) -> bool {
    match last_index_of(r, ':') {
        Some(i) => parse_u16_of(r.subrange(i + 1, r.len() as int)) is Some,
        None => false,
    }
}

/// The user and host of `user@host`, split at the first `@`; without one,
/// the user is empty (a bare host name or an alias).
pub open spec fn split_user(uh: Seq<char>) -> (Seq<char>, Seq<char>) {
    match first_index_of(uh, '@') {
        Some(i) => (uh.subrange(0, i), uh.subrange(i + 1, uh.len() as int)),
        None => (Seq::empty(), uh),
    }
}

/// `~/rest` becomes `home` joined with `rest` when the home directory is
/// known; every other path stays as it is.
pub open spec fn tilde_expanded(p: Seq<char>, home: Option<Seq<char>>) -> Seq<char> {
    if p.len() >= 2 && p[0] == '~' && p[1] == '/' && home is Some {
        joined(home->0, p.subrange(2, p.len() as int))
    } else {
        p
    }
}

/// Expands a leading `~/` against the home directory, if it is known.
pub fn expand_tilde(p: &str, home: &Option<String>) -> (r: String)
    ensures
        r@ == tilde_expanded(
            p@,
            match home {
                Some(h) => Some(h@),
                None => None,
            },
        ),
{
    let cs = chars_of(p);
    match home {
        Some(h) => {
            if cs.len() >= 2 && cs[0] == '~' && cs[1] == '/' {
                let rest = substring(&cs, 2, cs.len());
                return path_join(h.as_str(), rest.as_str());
            }
        },
        None => {},
    }
    string_from_chars(&cs)
}

/// What the user's SSH configuration says of a host (those settings that
/// are used here).
pub struct HostConfig {
    pub host_name: Option<String>,
    pub port: Option<u16>,
    pub user: Option<String>,
    pub identity_files: Vec<String>,
}

/// Index of the first `true` in `s`.
pub open spec fn first_true(s: Seq<bool>) -> Option<int>
    decreases s.len(),
{
    if s.len() == 0 {
        None
    } else if s[0] {
        Some(0)
    } else {
        match first_true(s.drop_first()) {
            Some(i) => Some(i + 1),
            None => None,
        }
    }
}

proof fn lemma_first_true_range(s: Seq<bool>)
    ensures
        match first_true(s) {
            Some(i) => 0 <= i < s.len() && s[i],
            None => true,
        },
    decreases s.len(),
{
    if s.len() > 0 && !s[0] {
        lemma_first_true_range(s.drop_first());
    }
}

/// Index of the first `true`.
pub fn first_existing(exists: &Vec<bool>) -> (r: Option<usize>)
    ensures
        match first_true(exists@) {
            Some(i) => 0 <= i < exists.len() && r == Some(i as usize),
            None => r is None,
        },
        match r {
            Some(i) => i < exists.len(),
            None => true,
        },
{
    proof {
        lemma_first_true_range(exists@);
    }
    let mut k: usize = 0;
    assert(exists@.subrange(0, exists.len() as int) =~= exists@);
    while k < exists.len()
        invariant
            k <= exists.len(),
            first_true(exists@) == match first_true(exists@.subrange(k as int, exists.len() as int)) {
                Some(i) => Some(i + k),
                None => None,
            },
        decreases exists.len() - k,
    {
        proof {
            assert(exists@.subrange(k as int, exists.len() as int).drop_first() =~= exists@.subrange(
                k + 1,
                exists.len() as int,
            ));
        }
        if exists[k] {
            return Some(k);
        }
        k = k + 1;
    }
    proof {
        assert(exists@.subrange(k as int, exists.len() as int).len() == 0);
    }
    None
}

impl SshTarget {
    /// Parses `host`, `host:port`, `user@host` or `user@host:port`. The user
    /// stays empty when the string names none; the SSH configuration and the
    /// local user name fill it in afterwards.
    pub fn parse(raw: &str) -> (t: SshTarget)
        ensures
            t.user@ == split_user(split_port(raw@).0).0,
            t.host@ == split_user(split_port(raw@).0).1,
            t.port == split_port(raw@).1,
            t.port_given == explicit_port(raw@),
            t.identity_file is None,
            t.password is None,
            t.key_passphrase is None,
            t.key_passphrase_for is None,
    {
        let cs = chars_of(raw);
        let colon = find_last(&cs, ':');
        let parsed = match colon {
            Some(i) => parse_u16(&cs, i + 1),
            None => None,
        };
        let (end, port, port_given) = match (colon, parsed) {
            (Some(i), Some(p)) => (i, p, true),
            _ => (cs.len(), 22u16, false),
        };
        let ghost r = raw@;
        proof {
            assert(cs@.subrange(0, cs@.len() as int) =~= cs@);
            match last_index_of(r, ':') {
                Some(i) => {
                    match parse_u16_of(r.subrange(i + 1, r.len() as int)) {
                        Some(p) => {
                            assert(end == i && port == p && port_given);
                        },
                        None => {
                            assert(end == cs.len() && port == 22);
                        },
                    }
                },
                None => {
                    assert(end == cs.len() && port == 22);
                },
            }
        }
        let uh = chars_of(substring(&cs, 0, end).as_str());
        assert(uh@ == split_port(raw@).0);
        let (user, host) = match find_first(&uh, '@') {
            Some(i) => {
                proof {
                    lemma_first_index_range(uh@, '@');
                }
                (substring(&uh, 0, i), substring(&uh, i + 1, uh.len()))
            },
            None => (String::new(), substring(&uh, 0, uh.len())),
        };
        assert(uh@.subrange(0, uh@.len() as int) =~= uh@);
        SshTarget {
            user,
            host,
            port,
            port_given,
            identity_file: None,
            password: None,
            key_passphrase: None,
            key_passphrase_for: None,
        }
    }

    /// Applies what the SSH configuration says of the host: its real host
    /// name replaces the given one, its port replaces the default port (a
    /// port written in the target is kept), its user fills an empty user,
    /// and the first of its identity files that exists once `~/` is
    /// expanded becomes the key to offer. `exists[i]` tells whether the
    /// expansion of the `i`-th identity file exists.
    pub fn apply_ssh_config(&mut self, config: HostConfig, home: &Option<String>, exists: &Vec<bool>)
        requires
            exists.len() == config.identity_files.len(),
        ensures
            final(self).host == match config.host_name {
                Some(h) => h,
                None => old(self).host,
            },
            final(self).port == match config.port {
                Some(p) => if old(self).port_given {
                    old(self).port
                } else {
                    p
                },
                None => old(self).port,
            },
            final(self).port_given == old(self).port_given,
            final(self).user == match config.user {
                Some(u) => if old(self).user@.len() == 0 {
                    u
                } else {
                    old(self).user
                },
                None => old(self).user,
            },
            match first_true(exists@) {
                Some(i) => final(self).identity_file matches Some(f) && f@ == tilde_expanded(
                    config.identity_files[i]@,
                    match home {
                        Some(h) => Some(h@),
                        None => None,
                    },
                ),
                None => final(self).identity_file == old(self).identity_file,
            },
            final(self).password == old(self).password,
            final(self).key_passphrase == old(self).key_passphrase,
            final(self).key_passphrase_for == old(self).key_passphrase_for,
    {
        match config.host_name {
            Some(h) => {
                self.host = h;
            },
            None => {},
        }
        match config.port {
            Some(p) => {
                if !self.port_given {
                    self.port = p;
                }
            },
            None => {},
        }
        match config.user {
            Some(u) => {
                if self.user.as_str().is_empty() {
                    self.user = u;
                }
            },
            None => {},
        }
        let found = first_existing(exists);
        match found {
            Some(k) => {
                let f = expand_tilde(config.identity_files[k].as_str(), home);
                self.identity_file = Some(f);
            },
            None => {},
        }
    }

    /// Uses `local_user` when no user has been named.
    pub fn fill_default_user(&mut self, local_user: String)
        ensures
            final(self).user == if old(self).user@.len() == 0 {
                local_user
            } else {
                old(self).user
            },
            final(self).host == old(self).host,
            final(self).port == old(self).port,
            final(self).port_given == old(self).port_given,
            final(self).identity_file == old(self).identity_file,
            final(self).password == old(self).password,
            final(self).key_passphrase == old(self).key_passphrase,
            final(self).key_passphrase_for == old(self).key_passphrase_for,
    {
        if self.user.as_str().is_empty() {
            self.user = local_user;
        }
    }

    /// `user@host`.
    pub fn user_at_host(&self) -> (r: String)
        ensures
            r@ == self.user@ + "@"@ + self.host@,
    {
        let mut s = self.user.clone();
        s.append("@");
        s.append(self.host.as_str());
        s
    }
}

/// One way of authenticating, in the order they are tried.
pub enum AuthAttempt {
    /// Offer the private key at `path` (with its `.pub` file when that
    /// exists), unlocked with `passphrase` if given. Skipped when the key
    /// file does not exist.
    Key { path: String, passphrase: Option<String> },
    /// Offer each identity of the running SSH agent.
    Agent,
    /// Log in with a password.
    Password { password: String },
}

/// The abstract value of an attempt.
pub enum AuthAttemptView {
    Key { path: Seq<char>, passphrase: Option<Seq<char>> },
    Agent,
    Password { password: Seq<char> },
}

impl View for AuthAttempt {
    type V = AuthAttemptView;

    open spec fn view(&self) -> AuthAttemptView {
        match self {
            AuthAttempt::Key { path, passphrase } => AuthAttemptView::Key {
                path: path@,
                passphrase: match passphrase {
                    Some(p) => Some(p@),
                    None => None,
                },
            },
            AuthAttempt::Agent => AuthAttemptView::Agent,
            AuthAttempt::Password { password } => AuthAttemptView::Password { password: password@ },
        }
    }
}

/// Offering one key: first without a passphrase, then with the given
/// secret if there is one.
pub open spec fn key_attempts(path: Seq<char>, secret: Option<Seq<char>>) -> Seq<AuthAttemptView> {
    seq![AuthAttemptView::Key { path, passphrase: None }] + match secret {
        Some(p) => seq![AuthAttemptView::Key { path, passphrase: Some(p) }],
        None => Seq::empty(),
    }
}

/// The path of a default key: `<home>/.ssh/<name>`.
pub open spec fn default_key(home: Seq<char>, name: Seq<char>) -> Seq<char> {
    joined(joined(home, ".ssh"@), name)
}

/// The secret offered to unlock a key: the key passphrase when one was
/// given, else the password, if any.
pub open spec fn key_secret(t: SshTarget) -> Option<Seq<char>> {
    match t.key_passphrase {
        Some(k) => Some(k@),
        None => match t.password {
            Some(p) => Some(p@),
            None => None,
        },
    }
}

/// The order in which authentication is tried: the configured identity
/// file, then the default keys `id_ed25519`, `id_rsa` and `id_ecdsa`, each
/// without and then with `key_secret` as passphrase; then the agent; then
/// the password itself, when one is given.
pub open spec fn auth_plan_of(t: SshTarget, home: Seq<char>) -> Seq<AuthAttemptView> {
    let secret = key_secret(t);
    (match t.identity_file {
        Some(f) => key_attempts(f@, secret),
        None => Seq::empty(),
    }) + key_attempts(default_key(home, "id_ed25519"@), secret) + key_attempts(
        default_key(home, "id_rsa"@),
        secret,
    ) + key_attempts(default_key(home, "id_ecdsa"@), secret) + seq![AuthAttemptView::Agent]
        + match t.password {
        Some(p) => seq![AuthAttemptView::Password { password: p@ }],
        None => Seq::empty(),
    }
}

/// The views of a sequence of attempts.
pub open spec fn attempt_views(s: Seq<AuthAttempt>) -> Seq<AuthAttemptView> {
    s.map_values(|a: AuthAttempt| a@)
}

fn push_key_attempts(plan: &mut Vec<AuthAttempt>, path: String, secret: &Option<String>)
    ensures
        attempt_views(final(plan)@) == attempt_views(old(plan)@) + key_attempts(
            path@,
            match secret {
                Some(p) => Some(p@),
                None => None,
            },
        ),
{
    let ghost before = plan@;
    match secret {
        Some(p) => {
            plan.push(AuthAttempt::Key { path: path.clone(), passphrase: None });
            plan.push(AuthAttempt::Key { path, passphrase: Some(p.clone()) });
        },
        None => {
            plan.push(AuthAttempt::Key { path, passphrase: None });
        },
    }
    assert(attempt_views(plan@) =~= attempt_views(before) + key_attempts(
        path@,
        match secret {
            Some(p) => Some(p@),
            None => None,
        },
    ));
}

/// The authentication attempts for `t`, in order; `home` is the local home
/// directory (`/` when unknown), under which the default keys lie.
pub fn auth_plan(t: &SshTarget, home: &str) -> (plan: Vec<AuthAttempt>)
    ensures
        attempt_views(plan@) == auth_plan_of(*t, home@),
{
    let mut plan: Vec<AuthAttempt> = Vec::new();
    let ghost e = attempt_views(plan@);
    let secret = match &t.key_passphrase {
        Some(k) => Some(k.clone()),
        None => clone_opt(&t.password),
    };
    assert(match secret {
        Some(p) => Some(p@),
        None => None::<Seq<char>>,
    } == key_secret(*t));
    match &t.identity_file {
        Some(f) => push_key_attempts(&mut plan, f.clone(), &secret),
        None => {},
    }
    let ssh_dir = path_join(home, ".ssh");
    push_key_attempts(&mut plan, path_join(ssh_dir.as_str(), "id_ed25519"), &secret);
    push_key_attempts(&mut plan, path_join(ssh_dir.as_str(), "id_rsa"), &secret);
    push_key_attempts(&mut plan, path_join(ssh_dir.as_str(), "id_ecdsa"), &secret);
    let ghost before_agent = plan@;
    plan.push(AuthAttempt::Agent);
    assert(attempt_views(plan@) =~= attempt_views(before_agent) + seq![AuthAttemptView::Agent]);
    let ghost before_pw = plan@;
    match &t.password {
        Some(p) => {
            plan.push(AuthAttempt::Password { password: p.clone() });
            assert(attempt_views(plan@) =~= attempt_views(before_pw) + seq![AuthAttemptView::Password { password: p@ }]);
        },
        None => {
            assert(attempt_views(plan@) =~= attempt_views(before_pw) + Seq::<AuthAttemptView>::empty());
        },
    }
    assert(e =~= Seq::<AuthAttemptView>::empty());
    assert(attempt_views(plan@) =~= auth_plan_of(*t, home@));
    plan
}

/// How a connection ends when no attempt authenticated: a key that could
/// not be read without a passphrase (`locked_key`), while no secret was
/// given yet, asks for that key's passphrase; every other case asks for a
/// password.
pub open spec fn auth_failure_of(t: SshTarget, locked_key: Option<String>) -> ConnectOutcome {
    match locked_key {
        Some(k) => if t.key_passphrase is None && t.password is None {
            ConnectOutcome::NeedsKeyPassphrase { key: Some(k) }
        } else {
            ConnectOutcome::NeedsPassword
        },
        None => ConnectOutcome::NeedsPassword,
    }
}

/// The outcome when every authentication attempt for `t` failed;
/// `locked_key` is the first key whose file could not be read without a
/// passphrase, if any.
pub fn auth_failure(t: &SshTarget, locked_key: Option<String>) -> (r: ConnectOutcome)
    ensures
        r == auth_failure_of(*t, locked_key),
{
    match locked_key {
        Some(k) => {
            if t.key_passphrase.is_none() && t.password.is_none() {
                ConnectOutcome::NeedsKeyPassphrase { key: Some(k) }
            } else {
                ConnectOutcome::NeedsPassword
            }
        },
        None => ConnectOutcome::NeedsPassword,
    }
}

/// How one authentication attempt went.
pub enum AttemptResult {
    /// The server accepted it.
    Accepted,
    /// It was refused, or could not be made (a key file that is missing).
    Rejected,
    /// The key file could not be read, as happens to a key protected by a
    /// passphrase when none was given.
    Unreadable,
}

/// What to do next while authenticating.
pub enum AuthStep {
    /// Make this attempt and report it to `AuthRun::attempt_done`.
    Try(AuthAttempt),
    /// An attempt was accepted: the session is authenticated.
    Authenticated,
    /// Every attempt failed; the connection ends this way.
    GaveUp(ConnectOutcome),
}

/// Authentication in progress: the attempts of `auth_plan` in order, the
/// index of the one being made, and the first key met that could not be
/// read without a passphrase.
pub struct AuthRun {
    pub target: SshTarget,
    pub attempts: Vec<AuthAttempt>,
    pub next: usize,
    pub locked_key: Option<String>,
}

impl AuthRun {
    /// The step a run in state `r` asks for: the attempt at `next` while
    /// there is one, else giving up with `auth_failure_of`.
    pub open spec fn step_of(r: AuthRun, step: AuthStep) -> bool {
        if r.next < r.attempts.len() {
            step matches AuthStep::Try(a) && a@ == attempt_views(r.attempts@)[r.next as int]
        } else {
            step == AuthStep::GaveUp(auth_failure_of(r.target, r.locked_key))
        }
    }

    /// A run over the attempts for `t`, with `home` the local home
    /// directory, and its first step.
    pub fn new(t: &SshTarget, home: &str) -> (r: (AuthRun, AuthStep))
        ensures
            r.0.target == *t,
            attempt_views(r.0.attempts@) == auth_plan_of(*t, home@),
            r.0.next == 0,
            r.0.locked_key is None,
            AuthRun::step_of(r.0, r.1),
    {
        let run = AuthRun { target: t.clone(), attempts: auth_plan(t, home), next: 0, locked_key: None };
        let step = run.current_step();
        (run, step)
    }

    fn current_step(&self) -> (step: AuthStep)
        ensures
            AuthRun::step_of(*self, step),
    {
        if self.next < self.attempts.len() {
            AuthStep::Try(copy_attempt(&self.attempts[self.next]))
        } else {
            AuthStep::GaveUp(auth_failure(&self.target, clone_opt(&self.locked_key)))
        }
    }

    /// Takes how the attempt at `next` went. Accepted, the run is done;
    /// otherwise a key attempt without a passphrase whose file could not be
    /// read is remembered when it is the first such key, and the run moves
    /// on to the next attempt, or gives up after the last.
    pub fn attempt_done(&mut self, result: AttemptResult) -> (step: AuthStep)
        requires
            old(self).next < old(self).attempts.len(),
        ensures
            match result {
                AttemptResult::Accepted => step == AuthStep::Authenticated && *final(self) == *old(self),
                _ => {
                    let a = attempt_views(old(self).attempts@)[old(self).next as int];
                    &&& final(self).target == old(self).target
                    &&& final(self).attempts == old(self).attempts
                    &&& final(self).next == old(self).next + 1
                    &&& final(self).locked_key == if (result is Unreadable && old(self).locked_key is None
                        && a matches AuthAttemptView::Key { passphrase: None, .. }) {
                        Some(old(self).attempts@[old(self).next as int]->Key_path)
                    } else {
                        old(self).locked_key
                    }
                    &&& AuthRun::step_of(*final(self), step)
                },
            },
    {
        match result {
            AttemptResult::Accepted => {
                return AuthStep::Authenticated;
            },
            AttemptResult::Unreadable => {
                if self.locked_key.is_none() {
                    match &self.attempts[self.next] {
                        AuthAttempt::Key { path, passphrase: None } => {
                            self.locked_key = Some(path.clone());
                        },
                        _ => {},
                    }
                }
            },
            AttemptResult::Rejected => {},
        }
        self.next = self.next + 1;
        self.current_step()
    }
}

/// Copies an attempt.
fn copy_attempt(a: &AuthAttempt) -> (r: AuthAttempt)
    ensures
        r@ == a@,
{
    match a {
        AuthAttempt::Key { path, passphrase } => AuthAttempt::Key { path: path.clone(), passphrase: clone_opt(passphrase) },
        AuthAttempt::Agent => AuthAttempt::Agent,
        AuthAttempt::Password { password } => AuthAttempt::Password { password: password.clone() },
    }
}

/// The remote home directory, from what `echo $HOME` printed on the
/// remote host: the output without surrounding white space, or `/home` when
/// nothing is left.
pub fn home_from_output(output: &str) -> (home: String)
    ensures
        home@ == if trimmed(output@).len() == 0 {
            "/home"@
        } else {
            trimmed(output@)
        },
{
    let t = trim_str(output);
    if t.as_str().is_empty() {
        "/home".to_string()
    } else {
        t
    }
}

} // verus!
