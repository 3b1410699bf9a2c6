//! The application: two panes, which one is active, the mode (browsing, a
//! transfer in progress, or a dialog collecting input), the connection
//! target, and the transitions taken on each key press.
//!
//! The application never performs input or output itself. Each transition
//! hands back the commands the caller is to carry out, in order (list a
//! directory, delete a path, connect to a host, ...), and the caller reports
//! their results through the `*_arrived` / `*_finished` methods, which may in
//! turn ask for more commands.

use vstd::prelude::*;
use crate::fs::{Entry, EntryView, views};
use crate::keybinds::{Action, KeyCode, KeyInput, action_for, map_key};
use crate::pane::{Pane, rows_of};
use crate::paths::{joined, parent_of, path_join, path_parent};
use crate::ssh::{NeedsKeyPassphrase, NeedsPassword, SshTarget};
use crate::text::{concat_str, lowercase_of, pop_char, push_char, to_lowercase_chars, trim_str, trimmed};

verus! {

/// The dialogs. The strings are what the dialog shows: the name to delete,
/// the key file, or `user@host`.
#[derive(Debug)]
pub enum DialogKind {
    ConfirmDelete(String),
    MkDir,
    Rename,
    Connect,
    KeyPassphrase(String),
    Password(String),
}

impl Clone for DialogKind {
    fn clone(&self) -> (r: Self)
        ensures
            r == *self,
    {
        match self {
            DialogKind::ConfirmDelete(s) => DialogKind::ConfirmDelete(s.clone()),
            DialogKind::MkDir => DialogKind::MkDir,
            DialogKind::Rename => DialogKind::Rename,
            DialogKind::Connect => DialogKind::Connect,
            DialogKind::KeyPassphrase(s) => DialogKind::KeyPassphrase(s.clone()),
            DialogKind::Password(s) => DialogKind::Password(s.clone()),
        }
    }
}

/// What the application is doing. While a transfer runs, its progress is
/// kept by the caller, which performs it.
#[derive(Debug)]
pub enum AppMode {
    Normal,
    Transfer,
    Dialog(DialogKind),
}

/// An input event. Only key presses (not repeats or releases) act.
pub enum InputEvent {
    Key { key: KeyInput, press: bool },
    Resize,
    Other,
}

/// What the caller is asked to do. Sides are 0 (left) and 1 (right).
///
/// - `List`: list `path` with the side's provider and hand the result to
///   `listing_arrived` together with `focus`.
/// - `FetchHome`: ask the side's provider for its home directory and hand it
///   to `home_arrived`.
/// - `Delete`, `MakeDir`: perform them; success goes to
///   `dialog_work_done`, and a failure ends the program with the dialog
///   that asked for them still open.
/// - `Rename`: perform it; a failure goes to `rename_failed`.
/// - `Transfer`: copy (or move) the entries from `from_side` into `dst_dir`
///   on the other side; success goes to `transfer_finished`; a failure
///   stops at the first error, goes to `transfer_failed`, and then ends the
///   program.
/// - `Connect`: connect to `target` and hand the outcome to
///   `connect_finished` with `retry`.
/// - `Resolve`: parse `raw` into a target, complete it from the SSH
///   configuration and the local user name, connect, and hand the outcome to
///   `connect_finished` with `retry` false.
#[derive(Debug)]
pub enum Command {
    List { side: usize, path: String, focus: Option<String> },
    FetchHome { side: usize },
    Delete { side: usize, path: String },
    MakeDir { side: usize, path: String },
    Rename { side: usize, from: String, to: String },
    Transfer { from_side: usize, entries: Vec<Entry>, dst_dir: String, is_move: bool },
    Connect { target: SshTarget, retry: bool },
    Resolve { raw: String },
}

/// The abstract value of a command.
pub enum CommandView {
    List { side: usize, path: Seq<char>, focus: Option<Seq<char>> },
    FetchHome { side: usize },
    Delete { side: usize, path: Seq<char> },
    MakeDir { side: usize, path: Seq<char> },
    Rename { side: usize, from: Seq<char>, to: Seq<char> },
    Transfer { from_side: usize, entries: Seq<EntryView>, dst_dir: Seq<char>, is_move: bool },
    Connect { target: SshTarget, retry: bool },
    Resolve { raw: Seq<char> },
}

/// The view of an optional string.
pub open spec fn opt_view(o: Option<String>) -> Option<Seq<char>> {
    match o {
        Some(s) => Some(s@),
        None => None,
    }
}

impl View for Command {
    type V = CommandView;

    open spec fn view(&self) -> CommandView {
        match self {
            Command::List { side, path, focus } => CommandView::List {
                side: *side,
                path: path@,
                focus: opt_view(*focus),
            },
            Command::FetchHome { side } => CommandView::FetchHome { side: *side },
            Command::Delete { side, path } => CommandView::Delete { side: *side, path: path@ },
            Command::MakeDir { side, path } => CommandView::MakeDir { side: *side, path: path@ },
            Command::Rename { side, from, to } => CommandView::Rename {
                side: *side,
                from: from@,
                to: to@,
            },
            Command::Transfer { from_side, entries, dst_dir, is_move } => CommandView::Transfer {
                from_side: *from_side,
                entries: views(entries@),
                dst_dir: dst_dir@,
                is_move: *is_move,
            },
            Command::Connect { target, retry } => CommandView::Connect {
                target: *target,
                retry: *retry,
            },
            Command::Resolve { raw } => CommandView::Resolve { raw: raw@ },
        }
    }
}

/// The views of a sequence of commands.
pub open spec fn cmd_views(cs: Seq<Command>) -> Seq<CommandView> {
    cs.map_values(|c: Command| c@)
}

/// How an attempt to connect ended.
pub enum ConnectOutcome {
    /// Connected; `home` is the remote home directory.
    Connected { home: String },
    /// The private key (at `key`, when known) needs a passphrase.
    NeedsKeyPassphrase { key: Option<String> },
    /// Every method failed and no password was given.
    NeedsPassword,
    /// Any other failure, with its message.
    Failed { message: String },
}

/// The message a failed outcome carries.
pub open spec fn failure_message(o: ConnectOutcome) -> Seq<char> {
    match o {
        ConnectOutcome::Connected { .. } => Seq::empty(),
        ConnectOutcome::NeedsKeyPassphrase { .. } => "the private key needs a passphrase"@,
        ConnectOutcome::NeedsPassword => "authentication requires a password"@,
        ConnectOutcome::Failed { message } => message@,
    }
}

/// The application state.
pub struct App {
    pub left: Pane,
    pub right: Pane,
    pub active: usize,
    pub mode: AppMode,
    pub input_buf: String,
    pub ssh_target: Option<SshTarget>,
    pub should_quit: bool,
    pub visible_rows: usize,
}

/// The pane label of a local pane.
pub open spec fn local_label() -> Seq<char> {
    "Local"@
}

impl App {
    /// The active side is 0 or 1, and each pane's cursor is on an entry
    /// when there is one.
    pub open spec fn wf(&self) -> bool {
        &&& self.active < 2
        &&& self.left.wf()
        &&& self.right.wf()
    }

    /// The pane on `side`.
    pub open spec fn pane(&self, side: usize) -> Pane {
        if side == 0 {
            self.left
        } else {
            self.right
        }
    }

    /// The command that lists the current directory of `side`.
    pub open spec fn list_of(&self, side: usize) -> CommandView {
        CommandView::List { side, path: self.pane(side).cwd@, focus: None }
    }

    /// `b` is `a` with only the pane on `side` changed.
    pub open spec fn same_but_pane(a: App, b: App, side: usize) -> bool {
        &&& b.active == a.active
        &&& b.mode == a.mode
        &&& b.input_buf == a.input_buf
        &&& b.ssh_target == a.ssh_target
        &&& b.should_quit == a.should_quit
        &&& b.visible_rows == a.visible_rows
        &&& if side == 0 {
            b.right == a.right
        } else {
            b.left == a.left
        }
    }

    /// `b` is `a` with only the mode and the input changed: back to normal
    /// with an empty input.
    pub open spec fn dialog_closed(a: App, b: App) -> bool {
        &&& b.mode == AppMode::Normal
        &&& b.input_buf@ == Seq::<char>::empty()
        &&& b.left == a.left
        &&& b.right == a.right
        &&& b.active == a.active
        &&& b.should_quit == a.should_quit
        &&& b.visible_rows == a.visible_rows
    }

    /// The rows a transfer takes from pane `p`: see `Pane::selected_entries`.
    pub open spec fn transfer_rows(p: Pane, rows: Seq<Entry>) -> bool {
        &&& p.selected@.len() == 0 ==> rows == match p.entry_at_cursor() {
            Some(e) => seq![e],
            None => Seq::<Entry>::empty(),
        }
        &&& p.selected@.len() != 0 ==> exists|q: Seq<usize>|
            {
                &&& #[trigger] q.no_duplicates()
                &&& q.to_set() == p.selected@
                &&& rows == rows_of(p.entries@, q)
            }
    }

    /// The transition of a key press in normal mode, by action.
    pub open spec fn normal_step(a: App, b: App, action: Action, cmds: Seq<CommandView>) -> bool {
        let side = a.active;
        let pa = a.pane(side);
        let pb = b.pane(side);
        match action {
            Action::Quit => b == App { should_quit: true, ..a } && cmds.len() == 0,
            Action::SwitchPane => b == App { active: (1 - a.active) as usize, ..a } && cmds.len() == 0,
            Action::MoveUp => App::same_but_pane(a, b, side) && Pane::moved_up(pa, pb) && cmds.len()
                == 0,
            Action::MoveDown => App::same_but_pane(a, b, side) && Pane::moved_down(
                pa,
                pb,
                a.visible_rows,
            ) && cmds.len() == 0,
            Action::Enter => {
                let entered = pa.entry_at_cursor() matches Some(e) && e.kind
                    == crate::fs::FileKind::Dir;
                &&& App::same_but_pane(a, b, side)
                &&& Pane::entered_dir(pa, pb, entered)
                &&& cmds == if entered {
                    seq![b.list_of(side)]
                } else {
                    Seq::empty()
                }
            },
            Action::GoUp => {
                let prev = if parent_of(pa.cwd@) is Some {
                    Some(pa.cwd)
                } else {
                    None
                };
                &&& App::same_but_pane(a, b, side)
                &&& Pane::went_up(pa, pb, prev)
                &&& cmds == match prev {
                    Some(pv) => seq![
                        CommandView::List { side, path: pb.cwd@, focus: Some(pv@) },
                    ],
                    None => Seq::empty(),
                }
            },
            Action::GoHome => b == a && cmds == seq![CommandView::FetchHome { side }],
            Action::ToggleSelect => App::same_but_pane(a, b, side) && Pane::select_toggled(pa, pb)
                && cmds.len() == 0,
            Action::Copy => App::transfer_step(a, b, false, cmds),
            Action::Move => App::transfer_step(a, b, true, cmds),
            Action::MkDir => {
                &&& b == App { mode: AppMode::Dialog(DialogKind::MkDir), input_buf: b.input_buf, ..a }
                &&& b.input_buf@ == Seq::<char>::empty()
                &&& cmds.len() == 0
            },
            Action::Delete => {
                &&& cmds.len() == 0
                &&& match pa.entry_at_cursor() {
                    Some(e) => if e.name@.len() > 0 {
                        b == App { mode: AppMode::Dialog(DialogKind::ConfirmDelete(e.name)), ..a }
                    } else {
                        b == a
                    },
                    None => b == a,
                }
            },
            Action::Rename => {
                &&& cmds.len() == 0
                &&& match pa.entry_at_cursor() {
                    Some(e) => b == App { mode: AppMode::Dialog(DialogKind::Rename), input_buf: e.name, ..a },
                    None => b == a,
                }
            },
            Action::ToggleHidden => {
                &&& App::same_but_pane(a, b, side)
                &&& Pane::hidden_toggled(pa, pb)
                &&& cmds == seq![b.list_of(side)]
            },
            _ => b == a && cmds.len() == 0,
        }
    }

    /// Starting a copy or move: with no rows to take nothing happens;
    /// otherwise the mode becomes `Transfer` and the rows go to the other
    /// pane's directory.
    pub open spec fn transfer_step(a: App, b: App, is_move: bool, cmds: Seq<CommandView>) -> bool {
        let side = a.active;
        let other = (1 - side) as usize;
        exists|rows: Seq<Entry>|
            {
                &&& #[trigger] App::transfer_rows(a.pane(side), rows)
                &&& if rows.len() == 0 {
                    b == a && cmds.len() == 0
                } else {
                    &&& b == App { mode: AppMode::Transfer, ..a }
                    &&& cmds == seq![
                        CommandView::Transfer {
                            from_side: side,
                            entries: views(rows),
                            dst_dir: a.pane(other).cwd@,
                            is_move,
                        },
                    ]
                }
            }
    }

    /// The transition of a key press while a dialog is open.
    pub open spec fn dialog_step(
        a: App,
        b: App,
        key: KeyInput,
        kind: DialogKind,
        cmds: Seq<CommandView>,
    ) -> bool {
        match key.code {
            KeyCode::Esc => App::dialog_closed(a, b) && b.ssh_target == a.ssh_target && cmds.len()
                == 0,
            KeyCode::Enter => App::confirm_step(a, b, kind, cmds),
            KeyCode::Backspace => {
                &&& b == App { input_buf: b.input_buf, ..a }
                &&& b.input_buf@ == if a.input_buf@.len() > 0 {
                    a.input_buf@.drop_last()
                } else {
                    a.input_buf@
                }
                &&& cmds.len() == 0
            },
            KeyCode::Char(c) => {
                &&& b == App { input_buf: b.input_buf, ..a }
                &&& b.input_buf@ == a.input_buf@.push(c)
                &&& cmds.len() == 0
            },
            _ => b == a && cmds.len() == 0,
        }
    }

    /// Confirming a dialog with Enter. A confirmed deletion of the entry
    /// under the cursor, and a new directory with a non-empty name, keep the
    /// dialog and its input open while the work is requested (see
    /// `work_finished`); every other confirmation closes the dialog, and what
    /// it asked for is requested.
    pub open spec fn confirm_step(a: App, b: App, kind: DialogKind, cmds: Seq<CommandView>) -> bool {
        let side = a.active;
        let pa = a.pane(side);
        let input = a.input_buf@;
        let closed = App::dialog_closed(a, b) && b.ssh_target == a.ssh_target;
        match kind {
            DialogKind::ConfirmDelete(_) => {
                let yes = lowercase_of(trimmed(input)) == "y"@;
                match pa.entry_at_cursor() {
                    Some(e) => if yes {
                        b == a && cmds == seq![CommandView::Delete { side, path: e.path@ }]
                    } else {
                        closed && cmds.len() == 0
                    },
                    None => closed && cmds == if yes {
                        seq![a.list_of(side)]
                    } else {
                        Seq::empty()
                    },
                }
            },
            DialogKind::MkDir => {
                let name = trimmed(input);
                if name.len() > 0 {
                    b == a && cmds == seq![CommandView::MakeDir { side, path: joined(pa.cwd@, name) }]
                } else {
                    closed && cmds == seq![a.list_of(side)]
                }
            },
            _ => App::dialog_closed(a, b) && App::closing_step(a, b, kind, cmds),
        }
    }

    /// The deletion or new directory a dialog asked for succeeded: the
    /// dialog closes and the active pane is listed again.
    pub open spec fn work_finished(a: App, b: App, cmds: Seq<CommandView>) -> bool {
        &&& App::dialog_closed(a, b)
        &&& b.ssh_target == a.ssh_target
        &&& cmds == seq![a.list_of(a.active)]
    }

    /// What confirming a dialog that closes at once requests.
    pub open spec fn closing_step(a: App, b: App, kind: DialogKind, cmds: Seq<CommandView>) -> bool {
        let side = a.active;
        let pa = a.pane(side);
        let input = a.input_buf@;
        match kind {
            DialogKind::Rename => {
                let name = trimmed(input);
                &&& b.ssh_target == a.ssh_target
                &&& cmds == match pa.entry_at_cursor() {
                    Some(e) => if name.len() > 0 {
                        seq![
                            CommandView::Rename {
                                side,
                                from: e.path@,
                                to: match parent_of(e.path@) {
                                    Some(dir) => joined(dir, name),
                                    None => name,
                                },
                            },
                            a.list_of(side),
                        ]
                    } else {
                        seq![a.list_of(side)]
                    },
                    None => seq![a.list_of(side)],
                }
            },
            DialogKind::KeyPassphrase(_) => match a.ssh_target {
                Some(t) => {
                    let t2 = SshTarget { key_passphrase: Some(a.input_buf), ..t };
                    &&& b.ssh_target == Some(t2)
                    &&& cmds == seq![CommandView::Connect { target: t2, retry: true }]
                },
                None => b.ssh_target is None && cmds.len() == 0,
            },
            DialogKind::Password(_) => match a.ssh_target {
                Some(t) => {
                    let t2 = SshTarget { password: Some(a.input_buf), ..t };
                    &&& b.ssh_target == Some(t2)
                    &&& cmds == seq![CommandView::Connect { target: t2, retry: true }]
                },
                None => b.ssh_target is None && cmds.len() == 0,
            },
            DialogKind::Connect => {
                let raw = trimmed(input);
                &&& b.ssh_target == a.ssh_target
                &&& cmds == if raw.len() > 0 {
                    seq![CommandView::Resolve { raw }]
                } else {
                    Seq::empty()
                }
            },
            _ => false,
        }
    }

    /// A freshly made pane on `cwd` with label `label`.
    pub open spec fn fresh_pane(p: Pane, cwd: Seq<char>, label: Seq<char>) -> bool {
        &&& p.cwd@ == cwd
        &&& p.label@ == label
        &&& p.entries@.len() == 0
        &&& p.cursor == 0
        &&& p.scroll == 0
        &&& p.selected@ == Set::<usize>::empty()
        &&& p.error is None
        &&& !p.show_hidden
    }

    /// A freshly started application: both panes fresh, the left one
    /// active, browsing, nothing typed, not quitting, 20 visible rows.
    pub open spec fn fresh_app(a: App, left_cwd: Seq<char>, left_label: Seq<char>, right_cwd: Seq<char>, right_label: Seq<char>) -> bool {
        &&& App::fresh_pane(a.left, left_cwd, left_label)
        &&& App::fresh_pane(a.right, right_cwd, right_label)
        &&& a.active == 0
        &&& a.input_buf@ == Seq::<char>::empty()
        &&& !a.should_quit
        &&& a.visible_rows == 20
    }

    /// `b` is `a` with the right pane on the remote home directory,
    /// labelled `user@host`, and the target recorded.
    pub open spec fn finished_connect(a: App, b: App, target: SshTarget, home: String) -> bool {
        &&& b == App { right: b.right, ssh_target: Some(target), ..a }
        &&& b.right == Pane { cwd: home, label: b.right.label, ..a.right }
        &&& b.right.label@ == target.user@ + "@"@ + target.host@
    }

    /// `b` is `a` with `msg` shown as the right pane's error.
    pub open spec fn failed_with(a: App, b: App, msg: Seq<char>) -> bool {
        &&& b == App { right: b.right, ..a }
        &&& b.right == Pane { error: b.right.error, ..a.right }
        &&& b.right.error matches Some(e) && e@ == msg
    }

    /// What a connection outcome does. A connection opens the right pane on
    /// the remote home; asked for a passphrase or password, a first attempt
    /// records the target and opens the matching dialog; every other
    /// failure, and any failure of a retry, is shown in the right pane
    /// (`Connect failed: ` or `Auth failed: ` before the message).
    pub open spec fn connect_step(
        a: App,
        b: App,
        target: SshTarget,
        outcome: ConnectOutcome,
        retry: bool,
        cmds: Seq<CommandView>,
    ) -> bool {
        match outcome {
            ConnectOutcome::Connected { home } => App::finished_connect(a, b, target, home) && cmds
                == seq![b.list_of(1)],
            ConnectOutcome::Failed { message } => cmds.len() == 0 && App::failed_with(
                a,
                b,
                if retry {
                    "Auth failed: "@ + message@
                } else {
                    "Connect failed: "@ + message@
                },
            ),
            ConnectOutcome::NeedsKeyPassphrase { key } => cmds.len() == 0 && if retry {
                App::failed_with(a, b, "Auth failed: "@ + failure_message(outcome))
            } else {
                &&& b == App {
                    mode: b.mode,
                    ssh_target: Some(SshTarget { key_passphrase_for: key, ..target }),
                    ..a
                }
                &&& b.mode matches AppMode::Dialog(DialogKind::KeyPassphrase(d)) && d@ == match key {
                    Some(k) => k@,
                    None => Seq::empty(),
                }
            },
            ConnectOutcome::NeedsPassword => cmds.len() == 0 && if retry {
                App::failed_with(a, b, "Auth failed: "@ + failure_message(outcome))
            } else {
                &&& b == App { mode: b.mode, ssh_target: Some(target), ..a }
                &&& b.mode matches AppMode::Dialog(DialogKind::Password(d)) && d@ == target.user@ + "@"@
                    + target.host@
            },
        }
    }

    /// A key press while a transfer runs: only quitting is allowed.
    pub open spec fn transfer_key_step(a: App, b: App, key: KeyInput, cmds: Seq<CommandView>) -> bool {
        &&& cmds.len() == 0
        &&& if action_for(key) is Quit {
            b == App { should_quit: true, ..a }
        } else {
            b == a
        }
    }

    /// The transition of an input event.
    pub open spec fn event_step(a: App, b: App, ev: InputEvent, cmds: Seq<CommandView>) -> bool {
        match ev {
            InputEvent::Key { key, press } => if press {
                match a.mode {
                    AppMode::Dialog(kind) => App::dialog_step(a, b, key, kind, cmds),
                    AppMode::Transfer => App::transfer_key_step(a, b, key, cmds),
                    AppMode::Normal => App::normal_step(a, b, action_for(key), cmds),
                }
            } else {
                b == a && cmds.len() == 0
            },
            _ => b == a && cmds.len() == 0,
        }
    }
}

/// The command that lists `p`'s directory for `side`.
fn list_cmd(side: usize, p: &Pane) -> (c: Command)
    ensures
        c@ == (CommandView::List { side, path: p.cwd@, focus: None }),
{
    Command::List { side, path: p.cwd.clone(), focus: None }
}

/// Copies the referenced entries.
fn clone_rows(refs: &Vec<&Entry>) -> (r: Vec<Entry>)
    ensures
        r@ == refs@.map_values(|e: &Entry| *e),
{
    let mut out: Vec<Entry> = Vec::new();
    let mut k: usize = 0;
    while k < refs.len()
        invariant
            k <= refs.len(),
            out@ == refs@.map_values(|e: &Entry| *e).take(k as int),
        decreases refs.len() - k,
    {
        let e: &Entry = refs[k];
        out.push(e.clone());
        proof {
            assert(refs@.map_values(|e: &Entry| *e).take(k + 1) =~= refs@.map_values(|e: &Entry| *e).take(k as int).push(*refs@[k as int]));
        }
        k = k + 1;
    }
    assert(refs@.map_values(|e: &Entry| *e).take(k as int) =~= refs@.map_values(|e: &Entry| *e));
    out
}

impl App {
    /// Starts with both panes local, on `home` (the user's home directory,
    /// or `/` when it is unknown). Both panes are listed first.
    pub fn new_local(home: String) -> (r: (App, Vec<Command>))
        ensures
            r.0.wf(),
            App::fresh_app(r.0, home@, local_label(), home@, local_label()),
            r.0.mode == AppMode::Normal,
            r.0.ssh_target is None,
            cmd_views(r.1@) == seq![r.0.list_of(0), r.0.list_of(1)],
    {
        let left = Pane::new(home.clone(), "Local".to_string());
        let right = Pane::new(home, "Local".to_string());
        let mut cmds: Vec<Command> = Vec::new();
        cmds.push(list_cmd(0, &left));
        cmds.push(list_cmd(1, &right));
        let app = App {
            left,
            right,
            active: 0,
            mode: AppMode::Normal,
            input_buf: String::new(),
            ssh_target: None,
            should_quit: false,
            visible_rows: 20,
        };
        assert(cmd_views(cmds@) =~= seq![app.list_of(0), app.list_of(1)]);
        (app, cmds)
    }

    /// Starts against a remote host, given how connecting to it ended and
    /// the local home directory. Connected, the right pane shows the remote
    /// home; asked for a key passphrase or a password, both panes are local
    /// and the matching dialog is open; any other failure is returned.
    pub fn new_with_remote(target: SshTarget, outcome: ConnectOutcome, home: String) -> (r: Result<
        (App, Vec<Command>),
        String,
    >)
        ensures
            match outcome {
                ConnectOutcome::Connected { home: remote } => r matches Ok((app, cmds)) && {
                    &&& app.wf()
                    &&& App::fresh_app(app, home@, local_label(), remote@, target.user@ + "@"@ + target.host@)
                    &&& app.mode == AppMode::Normal
                    &&& app.ssh_target == Some(target)
                    &&& cmd_views(cmds@) == seq![app.list_of(0), app.list_of(1)]
                },
                ConnectOutcome::NeedsKeyPassphrase { key } => r matches Ok((app, cmds)) && {
                    &&& app.wf()
                    &&& App::fresh_app(app, home@, local_label(), home@, local_label())
                    &&& app.mode matches AppMode::Dialog(DialogKind::KeyPassphrase(d)) && d@ == match key {
                        Some(k) => k@,
                        None => Seq::empty(),
                    }
                    &&& app.ssh_target == Some(SshTarget { key_passphrase_for: key, ..target })
                    &&& cmd_views(cmds@) == seq![app.list_of(0), app.list_of(1)]
                },
                ConnectOutcome::NeedsPassword => r matches Ok((app, cmds)) && {
                    &&& app.wf()
                    &&& App::fresh_app(app, home@, local_label(), home@, local_label())
                    &&& app.mode matches AppMode::Dialog(DialogKind::Password(d)) && d@ == target.user@
                        + "@"@ + target.host@
                    &&& app.ssh_target == Some(target)
                    &&& cmd_views(cmds@) == seq![app.list_of(0), app.list_of(1)]
                },
                ConnectOutcome::Failed { message } => r == Err::<(App, Vec<Command>), String>(message),
            },
    {
        match outcome {
            ConnectOutcome::Connected { home: remote } => {
                let label = target.user_at_host();
                let left = Pane::new(home, "Local".to_string());
                let right = Pane::new(remote, label);
                let mut cmds: Vec<Command> = Vec::new();
                cmds.push(list_cmd(0, &left));
                cmds.push(list_cmd(1, &right));
                let app = App {
                    left,
                    right,
                    active: 0,
                    mode: AppMode::Normal,
                    input_buf: String::new(),
                    ssh_target: Some(target),
                    should_quit: false,
                    visible_rows: 20,
                };
                assert(cmd_views(cmds@) =~= seq![app.list_of(0), app.list_of(1)]);
                Ok((app, cmds))
            },
            ConnectOutcome::NeedsKeyPassphrase { key } => {
                let display = match &key {
                    Some(k) => k.clone(),
                    None => String::new(),
                };
                let mut target = target;
                target.key_passphrase_for = key;
                let (mut app, cmds) = App::new_local(home);
                app.mode = AppMode::Dialog(DialogKind::KeyPassphrase(display));
                app.ssh_target = Some(target);
                Ok((app, cmds))
            },
            ConnectOutcome::NeedsPassword => {
                let host = target.user_at_host();
                let (mut app, cmds) = App::new_local(home);
                app.mode = AppMode::Dialog(DialogKind::Password(host));
                app.ssh_target = Some(target);
                Ok((app, cmds))
            },
            ConnectOutcome::Failed { message } => Err(message),
        }
    }

    /// Records how many rows the panes show.
    pub fn set_visible_rows(&mut self, rows: usize)
        ensures
            *final(self) == (App { visible_rows: rows, ..*old(self) }),
    {
        self.visible_rows = rows;
    }

    /// The command that lists the active pane's directory again.
    pub fn refresh_active(&self) -> (c: Command)
        ensures
            c@ == self.list_of(self.active),
    {
        if self.active == 0 {
            list_cmd(0, &self.left)
        } else {
            list_cmd(self.active, &self.right)
        }
    }

    /// Acts on an input event.
    pub fn handle_event(&mut self, ev: InputEvent) -> (cmds: Vec<Command>)
        requires
            old(self).wf(),
        ensures
            final(self).wf(),
            App::event_step(*old(self), *final(self), ev, cmd_views(cmds@)),
    {
        match ev {
            InputEvent::Key { key, press } => {
                if press {
                    self.handle_key(key)
                } else {
                    Vec::new()
                }
            },
            _ => Vec::new(),
        }
    }

    fn handle_key(&mut self, key: KeyInput) -> (cmds: Vec<Command>)
        requires
            old(self).wf(),
        ensures
            final(self).wf(),
            match old(self).mode {
                AppMode::Dialog(kind) => App::dialog_step(*old(self), *final(self), key, kind, cmd_views(cmds@)),
                AppMode::Transfer => App::transfer_key_step(*old(self), *final(self), key, cmd_views(cmds@)),
                AppMode::Normal => App::normal_step(*old(self), *final(self), action_for(key), cmd_views(cmds@)),
            },
    {
        let dialog = match &self.mode {
            AppMode::Dialog(kind) => Some(kind.clone()),
            _ => None,
        };
        match dialog {
            Some(kind) => {
                return self.handle_dialog_key(key, kind);
            },
            None => {},
        }
        let transferring = match &self.mode {
            AppMode::Transfer => true,
            _ => false,
        };
        if transferring {
            let action = map_key(key);
            match action {
                Action::Quit => {
                    self.should_quit = true;
                },
                _ => {},
            }
            return Vec::new();
        }
        let action = map_key(key);
        self.handle_action(action)
    }

    fn handle_action(&mut self, action: Action) -> (cmds: Vec<Command>)
        requires
            old(self).wf(),
        ensures
            final(self).wf(),
            App::normal_step(*old(self), *final(self), action, cmd_views(cmds@)),
    {
        let mut cmds: Vec<Command> = Vec::new();
        let side = self.active;
        match action {
            Action::Quit => {
                self.should_quit = true;
            },
            Action::SwitchPane => {
                self.active = 1 - self.active;
            },
            Action::MoveUp => {
                if side == 0 {
                    self.left.move_up();
                } else {
                    self.right.move_up();
                }
            },
            Action::MoveDown => {
                let rows = self.visible_rows;
                if side == 0 {
                    self.left.move_down(rows);
                } else {
                    self.right.move_down(rows);
                }
            },
            Action::Enter => {
                let entered = if side == 0 {
                    self.left.enter_dir()
                } else {
                    self.right.enter_dir()
                };
                if entered {
                    cmds.push(self.refresh_active());
                }
                assert(cmd_views(cmds@) =~= if entered { seq![self.list_of(side)] } else { Seq::empty() });
            },
            Action::GoUp => {
                let prev = if side == 0 {
                    self.left.go_up()
                } else {
                    self.right.go_up()
                };
                match prev {
                    Some(pv) => {
                        let path = if side == 0 {
                            self.left.cwd.clone()
                        } else {
                            self.right.cwd.clone()
                        };
                        cmds.push(Command::List { side, path, focus: Some(pv) });
                    },
                    None => {},
                }
                assert(cmd_views(cmds@) =~= match prev {
                    Some(pv) => seq![CommandView::List { side, path: self.pane(side).cwd@, focus: Some(pv@) }],
                    None => Seq::<CommandView>::empty(),
                });
            },
            Action::GoHome => {
                cmds.push(Command::FetchHome { side });
                assert(cmd_views(cmds@) =~= seq![CommandView::FetchHome { side }]);
            },
            Action::ToggleSelect => {
                if side == 0 {
                    self.left.toggle_select();
                } else {
                    self.right.toggle_select();
                }
            },
            Action::Copy => {
                cmds = self.start_transfer(false);
            },
            Action::Move => {
                cmds = self.start_transfer(true);
            },
            Action::MkDir => {
                self.input_buf = String::new();
                self.mode = AppMode::Dialog(DialogKind::MkDir);
            },
            Action::Delete => {
                let cur = if side == 0 {
                    self.left.current_entry()
                } else {
                    self.right.current_entry()
                };
                let name = match cur {
                    Some(e) => Some(e.name.clone()),
                    None => None,
                };
                match name {
                    Some(n) => {
                        if !n.as_str().is_empty() {
                            self.mode = AppMode::Dialog(DialogKind::ConfirmDelete(n));
                        }
                    },
                    None => {},
                }
            },
            Action::Rename => {
                let cur = if side == 0 {
                    self.left.current_entry()
                } else {
                    self.right.current_entry()
                };
                let name = match cur {
                    Some(e) => Some(e.name.clone()),
                    None => None,
                };
                match name {
                    Some(n) => {
                        self.input_buf = n;
                        self.mode = AppMode::Dialog(DialogKind::Rename);
                    },
                    None => {},
                }
            },
            Action::ToggleHidden => {
                if side == 0 {
                    self.left.toggle_hidden();
                } else {
                    self.right.toggle_hidden();
                }
                cmds.push(self.refresh_active());
                assert(cmd_views(cmds@) =~= seq![self.list_of(side)]);
            },
            _ => {},
        }
        cmds
    }

    fn handle_dialog_key(&mut self, key: KeyInput, kind: DialogKind) -> (cmds: Vec<Command>)
        requires
            old(self).wf(),
        ensures
            final(self).wf(),
            App::dialog_step(*old(self), *final(self), key, kind, cmd_views(cmds@)),
    {
        match key.code {
            KeyCode::Esc => {
                self.mode = AppMode::Normal;
                self.input_buf = String::new();
                Vec::new()
            },
            KeyCode::Enter => self.confirm_dialog(kind),
            KeyCode::Backspace => {
                pop_char(&mut self.input_buf);
                Vec::new()
            },
            KeyCode::Char(c) => {
                push_char(&mut self.input_buf, c);
                Vec::new()
            },
            _ => Vec::new(),
        }
    }

    fn confirm_dialog(&mut self, kind: DialogKind) -> (cmds: Vec<Command>)
        requires
            old(self).wf(),
        ensures
            final(self).wf(),
            App::confirm_step(*old(self), *final(self), kind, cmd_views(cmds@)),
    {
        let side = self.active;
        let mut cmds: Vec<Command> = Vec::new();
        match kind {
            DialogKind::ConfirmDelete(_) => {
                let t = trim_str(self.input_buf.as_str());
                let l = to_lowercase_chars(t.as_str());
                let yes = l.len() == 1 && l[0] == 'y';
                proof {
                    reveal_strlit("y");
                    if yes {
                        assert(l@ =~= "y"@);
                    } else if l@ == "y"@ {
                        assert(l@.len() == 1 && l@[0] == 'y');
                    }
                }
                let path = if side == 0 {
                    match self.left.current_entry() {
                        Some(e) => Some(e.path.clone()),
                        None => None,
                    }
                } else {
                    match self.right.current_entry() {
                        Some(e) => Some(e.path.clone()),
                        None => None,
                    }
                };
                if yes {
                    match path {
                        Some(p) => {
                            let ghost pv = p@;
                            cmds.push(Command::Delete { side, path: p });
                            assert(cmd_views(cmds@) =~= seq![CommandView::Delete { side, path: pv }]);
                            return cmds;
                        },
                        None => {
                            cmds.push(self.refresh_active());
                        },
                    }
                }
                self.close_dialog();
                assert(cmd_views(cmds@) =~= if yes {
                    seq![old(self).list_of(side)]
                } else {
                    Seq::<CommandView>::empty()
                });
                return cmds;
            },
            DialogKind::MkDir => {
                let name = trim_str(self.input_buf.as_str());
                if !name.as_str().is_empty() {
                    let dir = if side == 0 {
                        path_join(self.left.cwd.as_str(), name.as_str())
                    } else {
                        path_join(self.right.cwd.as_str(), name.as_str())
                    };
                    let ghost dv = dir@;
                    cmds.push(Command::MakeDir { side, path: dir });
                    assert(cmd_views(cmds@) =~= seq![CommandView::MakeDir { side, path: dv }]);
                    return cmds;
                }
                cmds.push(self.refresh_active());
                self.close_dialog();
                assert(cmd_views(cmds@) =~= seq![old(self).list_of(side)]);
                return cmds;
            },
            _ => {},
        }
        let mut input = String::new();
        std::mem::swap(&mut input, &mut self.input_buf);
        self.mode = AppMode::Normal;
        match kind {
            DialogKind::ConfirmDelete(_) => {},
            DialogKind::MkDir => {},
            DialogKind::Rename => {
                let name = trim_str(input.as_str());
                if !name.as_str().is_empty() {
                    let old_path = if side == 0 {
                        match self.left.current_entry() {
                            Some(e) => Some(e.path.clone()),
                            None => None,
                        }
                    } else {
                        match self.right.current_entry() {
                            Some(e) => Some(e.path.clone()),
                            None => None,
                        }
                    };
                    match old_path {
                        Some(from) => {
                            let to = match path_parent(from.as_str()) {
                                Some(dir) => path_join(dir.as_str(), name.as_str()),
                                None => name,
                            };
                            cmds.push(Command::Rename { side, from, to });
                        },
                        None => {},
                    }
                }
                cmds.push(self.refresh_active());
                proof {
                    let a = *old(self);
                    let pa = a.pane(side);
                    let nm = trimmed(a.input_buf@);
                    let expected: Seq<CommandView> = match pa.entry_at_cursor() {
                        Some(e) => if nm.len() > 0 {
                            seq![
                                CommandView::Rename {
                                    side,
                                    from: e.path@,
                                    to: match parent_of(e.path@) {
                                        Some(dir) => joined(dir, nm),
                                        None => nm,
                                    },
                                },
                                a.list_of(side),
                            ]
                        } else {
                            seq![a.list_of(side)]
                        },
                        None => seq![a.list_of(side)],
                    };
                    assert(cmd_views(cmds@) =~= expected);
                }
            },
            DialogKind::KeyPassphrase(_) => {
                match self.ssh_target.take() {
                    Some(t) => {
                        let mut t = t;
                        t.key_passphrase = Some(input);
                        let copy = t.clone();
                        self.ssh_target = Some(t);
                        cmds.push(Command::Connect { target: copy, retry: true });
                        assert(cmd_views(cmds@) =~= seq![CommandView::Connect { target: copy, retry: true }]);
                    },
                    None => {},
                }
            },
            DialogKind::Password(_) => {
                match self.ssh_target.take() {
                    Some(t) => {
                        let mut t = t;
                        t.password = Some(input);
                        let copy = t.clone();
                        self.ssh_target = Some(t);
                        cmds.push(Command::Connect { target: copy, retry: true });
                        assert(cmd_views(cmds@) =~= seq![CommandView::Connect { target: copy, retry: true }]);
                    },
                    None => {},
                }
            },
            DialogKind::Connect => {
                let raw = trim_str(input.as_str());
                let ghost rv = raw@;
                if !raw.as_str().is_empty() {
                    cmds.push(Command::Resolve { raw });
                }
                proof {
                    let expected: Seq<CommandView> = if rv.len() > 0 {
                        seq![CommandView::Resolve { raw: rv }]
                    } else {
                        Seq::empty()
                    };
                    assert(cmd_views(cmds@) =~= expected);
                }
            },
        }
        cmds
    }

    /// Closes the open dialog and empties the input.
    fn close_dialog(&mut self)
        ensures
            App::dialog_closed(*old(self), *final(self)),
            final(self).ssh_target == old(self).ssh_target,
    {
        self.mode = AppMode::Normal;
        self.input_buf = String::new();
    }

    /// The deletion or new directory that a dialog asked for has been done:
    /// closes the dialog and asks for the active pane to be listed again.
    pub fn dialog_work_done(&mut self) -> (cmds: Vec<Command>)
        requires
            old(self).wf(),
        ensures
            final(self).wf(),
            App::work_finished(*old(self), *final(self), cmd_views(cmds@)),
    {
        let mut cmds: Vec<Command> = Vec::new();
        cmds.push(self.refresh_active());
        self.close_dialog();
        assert(cmd_views(cmds@) =~= seq![old(self).list_of(old(self).active)]);
        cmds
    }

    /// Shows `prefix` and `message` as the right pane's error.
    fn show_right_error(&mut self, prefix: &str, message: &str)
        ensures
            App::failed_with(*old(self), *final(self), prefix@ + message@),
    {
        self.right.error = Some(concat_str(prefix, message));
    }

    /// Opens the right pane on the remote home directory.
    fn finish_connect(&mut self, target: SshTarget, home: String) -> (cmds: Vec<Command>)
        requires
            old(self).wf(),
        ensures
            final(self).wf(),
            App::finished_connect(*old(self), *final(self), target, home),
            cmd_views(cmds@) == seq![final(self).list_of(1)],
    {
        self.right.cwd = home;
        self.right.label = target.user_at_host();
        self.ssh_target = Some(target);
        let mut cmds: Vec<Command> = Vec::new();
        cmds.push(list_cmd(1, &self.right));
        assert(cmd_views(cmds@) =~= seq![self.list_of(1)]);
        cmds
    }

    /// Takes in how a first connection attempt to `target` ended: connected,
    /// the right pane opens on the remote home; asked for a key passphrase
    /// or a password, the target is kept and the matching dialog opens; any
    /// other failure changes nothing and its message is returned.
    pub fn connect_remote(&mut self, target: SshTarget, outcome: ConnectOutcome) -> (r: Result<Vec<Command>, String>)
        requires
            old(self).wf(),
        ensures
            final(self).wf(),
            match outcome {
                ConnectOutcome::Failed { message } => *final(self) == *old(self) && r == Err::<
                    Vec<Command>,
                    String,
                >(message),
                _ => (r matches Ok(cmds) && App::connect_step(*old(self), *final(self), target, outcome, false, cmd_views(cmds@))),
            },
    {
        match outcome {
            ConnectOutcome::Connected { home } => Ok(self.finish_connect(target, home)),
            ConnectOutcome::NeedsKeyPassphrase { key } => {
                let display = match &key {
                    Some(k) => k.clone(),
                    None => String::new(),
                };
                let mut target = target;
                target.key_passphrase_for = key;
                self.ssh_target = Some(target);
                self.mode = AppMode::Dialog(DialogKind::KeyPassphrase(display));
                Ok(Vec::new())
            },
            ConnectOutcome::NeedsPassword => {
                let host = target.user_at_host();
                self.ssh_target = Some(target);
                self.mode = AppMode::Dialog(DialogKind::Password(host));
                Ok(Vec::new())
            },
            ConnectOutcome::Failed { message } => Err(message),
        }
    }

    /// Takes in how an attempt with the collected secrets ended: connected,
    /// the right pane opens on the remote home; any failure changes nothing
    /// and its message is returned.
    fn connect_remote_with_target(&mut self, target: SshTarget, outcome: ConnectOutcome) -> (r: Result<Vec<Command>, String>)
        requires
            old(self).wf(),
        ensures
            final(self).wf(),
            match outcome {
                ConnectOutcome::Connected { home } => (r matches Ok(cmds) && App::finished_connect(*old(self), *final(self), target, home) && cmd_views(cmds@) == seq![final(self).list_of(1)]),
                _ => *final(self) == *old(self) && (r matches Err(m) && m@ == failure_message(outcome)),
            },
    {
        match outcome {
            ConnectOutcome::Connected { home } => Ok(self.finish_connect(target, home)),
            ConnectOutcome::NeedsKeyPassphrase { key } => {
                let n = NeedsKeyPassphrase(String::new());
                Err(n.message().to_string())
            },
            ConnectOutcome::NeedsPassword => Err(NeedsPassword.message().to_string()),
            ConnectOutcome::Failed { message } => Err(message),
        }
    }

    /// Takes in how connecting to `target` ended; `retry` tells whether the
    /// attempt used secrets collected by a dialog.
    pub fn connect_finished(&mut self, target: SshTarget, outcome: ConnectOutcome, retry: bool) -> (cmds: Vec<Command>)
        requires
            old(self).wf(),
        ensures
            final(self).wf(),
            App::connect_step(*old(self), *final(self), target, outcome, retry, cmd_views(cmds@)),
    {
        if retry {
            match self.connect_remote_with_target(target, outcome) {
                Ok(cmds) => cmds,
                Err(m) => {
                    self.show_right_error("Auth failed: ", m.as_str());
                    Vec::new()
                },
            }
        } else {
            match self.connect_remote(target, outcome) {
                Ok(cmds) => cmds,
                Err(m) => {
                    self.show_right_error("Connect failed: ", m.as_str());
                    Vec::new()
                },
            }
        }
    }

    /// Starts copying (or moving) the rows chosen in the active pane to the
    /// other pane's directory.
    fn start_transfer(&mut self, is_move: bool) -> (cmds: Vec<Command>)
        requires
            old(self).wf(),
        ensures
            final(self).wf(),
            App::transfer_step(*old(self), *final(self), is_move, cmd_views(cmds@)),
    {
        let side = self.active;
        let refs = if side == 0 {
            self.left.selected_entries()
        } else {
            self.right.selected_entries()
        };
        let rows = clone_rows(&refs);
        let ghost rows_seq = rows@;
        assert(App::transfer_rows(self.pane(side), rows_seq));
        let mut cmds: Vec<Command> = Vec::new();
        if rows.len() == 0 {
            assert(cmd_views(cmds@) =~= Seq::<CommandView>::empty());
            return cmds;
        }
        let dst_dir = if side == 0 {
            self.right.cwd.clone()
        } else {
            self.left.cwd.clone()
        };
        self.mode = AppMode::Transfer;
        let ghost dst_view = dst_dir@;
        cmds.push(Command::Transfer { from_side: side, entries: rows, dst_dir, is_move });
        proof {
            assert(cmd_views(cmds@) =~= seq![
                CommandView::Transfer {
                    from_side: side,
                    entries: views(rows_seq),
                    dst_dir: dst_view,
                    is_move,
                },
            ]);
            assert(App::transfer_rows(old(self).pane(side), rows_seq));
        }
        cmds
    }

    /// The transfer went through: back to browsing, and both panes are
    /// listed again, the active one first.
    pub fn transfer_finished(&mut self) -> (cmds: Vec<Command>)
        requires
            old(self).wf(),
        ensures
            final(self).wf(),
            *final(self) == (App { mode: AppMode::Normal, ..*old(self) }),
            cmd_views(cmds@) == seq![
                old(self).list_of(old(self).active),
                old(self).list_of((1 - old(self).active) as usize),
            ],
    {
        self.mode = AppMode::Normal;
        let mut cmds: Vec<Command> = Vec::new();
        if self.active == 0 {
            cmds.push(list_cmd(0, &self.left));
            cmds.push(list_cmd(1, &self.right));
        } else {
            cmds.push(list_cmd(1, &self.right));
            cmds.push(list_cmd(0, &self.left));
        }
        assert(cmd_views(cmds@) =~= seq![
            self.list_of(self.active),
            self.list_of((1 - self.active) as usize),
        ]);
        cmds
    }

    /// The transfer failed part way: as after a transfer that went through,
    /// back to browsing, and both panes are listed again, the active one
    /// first, so that what was copied before the failure shows.
    pub fn transfer_failed(&mut self) -> (cmds: Vec<Command>)
        requires
            old(self).wf(),
        ensures
            final(self).wf(),
            *final(self) == (App { mode: AppMode::Normal, ..*old(self) }),
            cmd_views(cmds@) == seq![
                old(self).list_of(old(self).active),
                old(self).list_of((1 - old(self).active) as usize),
            ],
    {
        self.transfer_finished()
    }

    /// Hands a listing (or the message of the error that listing gave) to
    /// the pane on `side`, then puts its cursor on `focus` if given.
    pub fn listing_arrived(&mut self, side: usize, listing: Result<Vec<Entry>, String>, focus: Option<String>)
        requires
            old(self).wf(),
            side < 2,
        ensures
            final(self).wf(),
            App::same_but_pane(*old(self), *final(self), side),
            match focus {
                Some(f) => exists|mid: Pane|
                    Pane::refreshed(old(self).pane(side), mid, listing) && #[trigger] Pane::focused_path(
                        mid,
                        final(self).pane(side),
                        f@,
                    ),
                None => Pane::refreshed(old(self).pane(side), final(self).pane(side), listing),
            },
    {
        if side == 0 {
            self.left.refresh(listing);
            let ghost mid = self.left;
            match focus {
                Some(f) => {
                    self.left.focus_path(f.as_str());
                    assert(Pane::refreshed(old(self).pane(side), mid, listing));
                    assert(Pane::focused_path(mid, self.pane(side), f@));
                },
                None => {},
            }
        } else {
            self.right.refresh(listing);
            let ghost mid = self.right;
            match focus {
                Some(f) => {
                    self.right.focus_path(f.as_str());
                    assert(Pane::refreshed(old(self).pane(side), mid, listing));
                    assert(Pane::focused_path(mid, self.pane(side), f@));
                },
                None => {},
            }
        }
    }

    /// Moves the pane on `side` to its provider's home directory; the
    /// directory is listed next.
    pub fn home_arrived(&mut self, side: usize, home: String) -> (cmds: Vec<Command>)
        requires
            old(self).wf(),
            side < 2,
        ensures
            final(self).wf(),
            App::same_but_pane(*old(self), *final(self), side),
            Pane::went_home(old(self).pane(side), final(self).pane(side), home),
            cmd_views(cmds@) == seq![final(self).list_of(side)],
    {
        let mut cmds: Vec<Command> = Vec::new();
        if side == 0 {
            self.left.go_home(home);
            cmds.push(list_cmd(0, &self.left));
        } else {
            self.right.go_home(home);
            cmds.push(list_cmd(1, &self.right));
        }
        assert(cmd_views(cmds@) =~= seq![self.list_of(side)]);
        cmds
    }

    /// A rename failed: its message is shown in the pane on `side` (the
    /// directory is listed next regardless).
    pub fn rename_failed(&mut self, side: usize, message: String)
        requires
            old(self).wf(),
            side < 2,
        ensures
            final(self).wf(),
            App::same_but_pane(*old(self), *final(self), side),
            final(self).pane(side) == (Pane { error: Some(message), ..old(self).pane(side) }),
    {
        if side == 0 {
            self.left.error = Some(message);
        } else {
            self.right.error = Some(message);
        }
    }
}

} // verus!
