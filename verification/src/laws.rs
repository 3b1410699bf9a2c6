//! Properties that hold across calls: what one operation undoes of another,
//! and what every state reached keeps.

use vstd::prelude::*;
use crate::app::{App, AppMode, CommandView, ConnectOutcome, DialogKind, InputEvent};
use crate::keybinds::{Action, KeyCode, KeyInput, action_for};
use crate::pane::{Pane, is_hidden_name, shown_entries};
use crate::fs::Entry;
use crate::ssh::{SshTarget, all_digits, explicit_port, digits_value, first_index_of, is_digit, last_index_of, parse_u16_of, split_port, split_user, without_plus};
use crate::text::{decimal, digit_char, trimmed};
use crate::transfer::{TaskView, TransferActionView, TransferJob, plan};
use crate::fs::{EntryView, FileKind, RemoteItem, index_permutation, is_dot_name, is_stable_sort_of, remote_entry_view};
use crate::removal::{DeleteJob, RemovalTaskView, string_views, visits, deleted_with_parent};
use crate::ssh::{AuthAttemptView, auth_plan_of, key_attempts};
use crate::paths::file_name_of;
use crate::paths::{joined, parent_of, same_path};

verus! {

/// Selecting the row under the cursor twice leaves the selection as it
/// was.
pub proof fn law_select_toggle_twice(p: Pane, q: Pane, r: Pane)
    requires
        Pane::select_toggled(p, q),
        Pane::select_toggled(q, r),
    ensures
        r.selected@ == p.selected@,
        r.cursor == p.cursor,
{
    if p.selected@.contains(p.cursor) {
        assert(r.selected@ =~= p.selected@);
    } else {
        assert(r.selected@ =~= p.selected@);
    }
}

/// Flipping the display of hidden entries twice leaves it as it was.
pub proof fn law_hidden_toggle_twice(p: Pane, q: Pane, r: Pane)
    requires
        Pane::hidden_toggled(p, q),
        Pane::hidden_toggled(q, r),
    ensures
        r == p,
{
}

/// With hidden entries not shown, no entry taken in from a listing has a
/// name starting with a dot.
pub proof fn law_listing_hides_dot_names(p: Pane, q: Pane, l: Vec<Entry>)
    requires
        Pane::refreshed(p, q, Ok(l)),
        !p.show_hidden,
    ensures
        forall|i: int| 0 <= i < q.entries@.len() ==> !is_hidden_name(#[trigger] q.entries@[i].name@),
{
    let pred = |e: Entry| !is_hidden_name(e.name@);
    assert forall|i: int| 0 <= i < q.entries@.len() implies !is_hidden_name(#[trigger] q.entries@[i].name@) by {
        l@.lemma_filter_pred(pred, i);
    }
}

/// Moving the cursor down a row and back up returns it to where it was,
/// when there was a row below.
pub proof fn law_down_then_up(p: Pane, q: Pane, r: Pane, visible: usize)
    requires
        Pane::moved_down(p, q, visible),
        Pane::moved_up(q, r),
        p.cursor + 1 < p.entries.len(),
    ensures
        r.cursor == p.cursor,
{
}

/// Moving the cursor up or down keeps it within the visible window of
/// `visible` rows starting at the scroll offset, when it was there before.
pub proof fn law_moves_keep_cursor_visible(p: Pane, up: Pane, down: Pane, visible: usize)
    requires
        Pane::moved_up(p, up),
        Pane::moved_down(p, down, visible),
        p.scroll <= p.cursor < p.scroll + visible,
    ensures
        up.scroll <= up.cursor < up.scroll + visible,
        down.scroll <= down.cursor < down.scroll + visible,
{
}

/// Switching panes twice returns to the same state.
pub proof fn law_switch_twice(a: App, b: App, c: App, s1: Seq<CommandView>, s2: Seq<CommandView>)
    requires
        a.wf(),
        App::normal_step(a, b, Action::SwitchPane, s1),
        App::normal_step(b, c, Action::SwitchPane, s2),
    ensures
        c == a,
{
}

/// In a dialog, typing a character and then Backspace leaves the input as
/// it was.
pub proof fn law_type_then_backspace(
    a: App,
    b: App,
    c: App,
    kind: DialogKind,
    ch: char,
    mods: u8,
    mods2: u8,
    s1: Seq<CommandView>,
    s2: Seq<CommandView>,
)
    requires
        App::dialog_step(a, b, (KeyInput { code: KeyCode::Char(ch), modifiers: mods }), kind, s1),
        App::dialog_step(b, c, (KeyInput { code: KeyCode::Backspace, modifiers: mods2 }), kind, s2),
    ensures
        c.input_buf@ == a.input_buf@,
        c == (App { input_buf: c.input_buf, ..a }),
{
    assert(a.input_buf@.push(ch).drop_last() =~= a.input_buf@);
}

/// Typed through input events: in a dialog, a character key and then
/// Backspace leave the input and everything else as they were.
pub proof fn law_event_type_then_backspace(
    a: App,
    b: App,
    c: App,
    ch: char,
    mods: u8,
    mods2: u8,
    s1: Seq<CommandView>,
    s2: Seq<CommandView>,
)
    requires
        a.mode is Dialog,
        App::event_step(a, b, InputEvent::Key { key: KeyInput { code: KeyCode::Char(ch), modifiers: mods }, press: true }, s1),
        App::event_step(b, c, InputEvent::Key { key: KeyInput { code: KeyCode::Backspace, modifiers: mods2 }, press: true }, s2),
    ensures
        c == (App { input_buf: c.input_buf, ..a }),
        c.input_buf@ == a.input_buf@,
        s1.len() == 0,
        s2.len() == 0,
{
    let kind = a.mode->Dialog_0;
    law_type_then_backspace(a, b, c, kind, ch, mods, mods2, s1, s2);
}

/// The active pane changes only when a key switches panes in normal mode,
/// and then to the other one.
pub proof fn law_active_changes_only_on_switch(a: App, b: App, ev: InputEvent, cmds: Seq<CommandView>)
    requires
        a.wf(),
        App::event_step(a, b, ev, cmds),
    ensures
        b.active == if (ev matches InputEvent::Key { key, press } && press && a.mode is Normal
            && action_for(key) is SwitchPane) {
            (1 - a.active) as usize
        } else {
            a.active
        },
{
}

/// While a transfer runs, a key that quits sets the quit flag and every
/// other key changes nothing; no key asks for any work.
pub proof fn law_transfer_allows_only_quit(a: App, b: App, key: KeyInput, cmds: Seq<CommandView>)
    requires
        a.mode is Transfer,
        App::event_step(a, b, InputEvent::Key { key, press: true }, cmds),
    ensures
        cmds.len() == 0,
        action_for(key) is Quit ==> b == (App { should_quit: true, ..a }),
        !(action_for(key) is Quit) ==> b == a,
{
}

/// Confirming a dialog either closes it (normal mode, empty input) or,
/// for a deletion or a new directory, keeps it open and asks for exactly
/// that work; once the work is reported done, the dialog closes.
pub proof fn law_confirm_closes_or_waits(
    a: App,
    b: App,
    c: App,
    kind: DialogKind,
    s1: Seq<CommandView>,
    s2: Seq<CommandView>,
)
    requires
        App::confirm_step(a, b, kind, s1),
        App::work_finished(b, c, s2),
    ensures
        (b.mode == AppMode::Normal && b.input_buf@.len() == 0) || (b == a && s1.len() == 1 && (
        s1[0] is Delete || s1[0] is MakeDir)),
        c.mode == AppMode::Normal,
        c.input_buf@.len() == 0,
{
}

/// Confirming the connect dialog asks to resolve and connect to what was
/// typed; when that connection asks for a password, the password dialog
/// opens for `user@host` with the target kept.
pub proof fn law_connect_then_password(
    a: App,
    b: App,
    c: App,
    target: SshTarget,
    s1: Seq<CommandView>,
    s2: Seq<CommandView>,
)
    requires
        App::confirm_step(a, b, DialogKind::Connect, s1),
        trimmed(a.input_buf@).len() > 0,
        App::connect_step(b, c, target, ConnectOutcome::NeedsPassword, false, s2),
    ensures
        s1 == seq![CommandView::Resolve { raw: trimmed(a.input_buf@) }],
        (c.mode matches AppMode::Dialog(DialogKind::Password(d)) && d@ == target.user@ + "@"@ + target.host@),
        c.ssh_target == Some(target),
        s2.len() == 0,
{
}

/// Going into a directory and back up puts the cursor back on that
/// directory (or on an earlier entry at the same path), at the top of the
/// scroll, when the parent lists the same entries as before.
pub proof fn law_go_up_restores_cursor(
    p0: Pane,
    p1: Pane,
    p2: Pane,
    p3: Pane,
    p4: Pane,
    p5: Pane,
    inner: Result<Vec<Entry>, String>,
    prev: Option<String>,
    listing: Vec<Entry>,
)
    requires
        p0.wf(),
        Pane::entered_dir(p0, p1, true),
        Pane::refreshed(p1, p2, inner),
        Pane::went_up(p2, p3, prev),
        parent_of(p0.entries@[p0.cursor as int].path@) == Some(p0.cwd@),
        Pane::refreshed(p3, p4, Ok(listing)),
        shown_entries(listing@, p0.show_hidden) == p0.entries@,
        Pane::focused_path(p4, p5, prev->0@),
    ensures
        prev is Some,
        p5.cwd@ == p0.cwd@,
        p5.cursor <= p0.cursor,
        same_path(p5.entries@[p5.cursor as int].path@, p0.entries@[p0.cursor as int].path@),
        p5.scroll == 0,
        p5.show_hidden == p0.show_hidden,
{
    assert(p4.entries@ == p0.entries@);
    assert(p4.entries@[p0.cursor as int].path@ == prev->0@);
}

/// When connecting asks for a password, the password dialog opens, and
/// confirming it retries the same target with what was typed as password.
pub proof fn law_password_retry(
    a: App,
    b: App,
    c: App,
    target: SshTarget,
    s1: Seq<CommandView>,
    s2: Seq<CommandView>,
)
    requires
        App::connect_step(a, b, target, ConnectOutcome::NeedsPassword, false, s1),
        (b.mode matches AppMode::Dialog(k) && App::confirm_step(b, c, k, s2)),
    ensures
        (b.mode matches AppMode::Dialog(DialogKind::Password(_))),
        s2 == seq![
            CommandView::Connect {
                target: (SshTarget { password: Some(b.input_buf), ..target }),
                retry: true,
            },
        ],
        c.ssh_target == Some((SshTarget { password: Some(b.input_buf), ..target })),
        c.mode == AppMode::Normal,
{
}

proof fn lemma_digit_char_value(m: nat)
    requires
        m < 10,
    ensures
        (digit_char(m) as int) - ('0' as int) == m,
        is_digit(digit_char(m)),
{
}

proof fn lemma_decimal_digits(n: nat)
    ensures
        decimal(n).len() > 0,
        all_digits(decimal(n)),
        digits_value(decimal(n)) == n,
        decimal(n)[0] != '+',
    decreases n,
{
    lemma_digit_char_value(n % 10);
    if n < 10 {
        lemma_digit_char_value(n);
        let d = decimal(n);
        assert(d.drop_last() =~= Seq::<char>::empty());
        assert(d.last() == digit_char(n));
        assert(digits_value(d) == digits_value(d.drop_last()) * 10 + ((d.last() as int) - ('0' as int)) as nat);
        assert(digits_value(Seq::<char>::empty()) == 0);
    } else {
        lemma_decimal_digits(n / 10);
        let d = decimal(n);
        assert(d.drop_last() =~= decimal(n / 10));
        assert(n == (n / 10) * 10 + n % 10) by (nonlinear_arith);
        assert(d.last() == digit_char(n % 10));
        assert(digits_value(d) == digits_value(d.drop_last()) * 10 + ((d.last() as int) - ('0' as int)) as nat);
        assert forall|i: int| 0 <= i < d.len() implies is_digit(#[trigger] d[i]) by {
            if i < d.len() - 1 {
                assert(d[i] == decimal(n / 10)[i]);
            }
        }
    }
}

proof fn lemma_last_index_skips(s: Seq<char>, t: Seq<char>, c: char)
    requires
        s.len() > 0,
        s.last() == c,
        !t.contains(c),
    ensures
        last_index_of(s + t, c) == Some(s.len() - 1),
    decreases t.len(),
{
    if t.len() == 0 {
        assert(s + t =~= s);
    } else {
        assert((s + t).last() == t.last());
        assert(t.last() != c) by {
            assert(t[t.len() - 1] == t.last());
        }
        assert((s + t).drop_last() =~= s + t.drop_last());
        assert(!t.drop_last().contains(c)) by {
            if t.drop_last().contains(c) {
                let k = choose|k: int| 0 <= k < t.drop_last().len() && t.drop_last()[k] == c;
                assert(t[k] == c);
            }
        }
        lemma_last_index_skips(s, t.drop_last(), c);
    }
}

proof fn lemma_first_index_after(s: Seq<char>, t: Seq<char>, c: char)
    requires
        !s.contains(c),
        t.len() > 0,
        t[0] == c,
    ensures
        first_index_of(s + t, c) == Some(s.len() as int),
    decreases s.len(),
{
    if s.len() == 0 {
        assert(s + t =~= t);
    } else {
        assert((s + t)[0] == s[0]);
        assert(s[0] != c) by {
            assert(s.contains(s[0]) || true);
            if s[0] == c {
                assert(s.contains(c));
            }
        }
        assert((s + t).drop_first() =~= s.drop_first() + t);
        assert(!s.drop_first().contains(c)) by {
            if s.drop_first().contains(c) {
                let k = choose|k: int| 0 <= k < s.drop_first().len() && s.drop_first()[k] == c;
                assert(s[k + 1] == c);
            }
        }
        lemma_first_index_after(s.drop_first(), t, c);
    }
}

/// A target written `user@host:port` parses back into that user, host and
/// port, whatever the host holds, as long as the user holds no `@`.
pub proof fn law_parse_user_host_port(user: Seq<char>, host: Seq<char>, port: u16)
    requires
        !user.contains('@'),
    ensures
        ({
            let raw = user + "@"@ + host + ":"@ + decimal(port as nat);
            &&& split_user(split_port(raw).0) == (user, host)
            &&& split_port(raw).1 == port
            &&& explicit_port(raw)
        }),
{
    reveal_strlit("@");
    reveal_strlit(":");
    let d = decimal(port as nat);
    lemma_decimal_digits(port as nat);
    let uh = user + "@"@ + host;
    let raw = uh + ":"@ + d;
    assert(!d.contains(':')) by {
        if d.contains(':') {
            let k = choose|k: int| 0 <= k < d.len() && d[k] == ':';
            assert(is_digit(d[k]));
        }
    }
    let s = uh + ":"@;
    assert(raw =~= s + d);
    lemma_last_index_skips(s, d, ':');
    assert(raw.subrange(s.len() as int, raw.len() as int) =~= d);
    assert(without_plus(d) == d);
    assert(parse_u16_of(d) == Some(port));
    assert(raw.subrange(0, s.len() - 1) =~= uh);
    let t = "@"@ + host;
    assert(uh =~= user + t);
    lemma_first_index_after(user, t, '@');
    assert(uh.subrange(0, user.len() as int) =~= user);
    assert(uh.subrange(user.len() as int + 1, uh.len() as int) =~= host);
}

/// A bare host name (no `@`, no `:`) parses into that host, no user, and
/// port 22.
pub proof fn law_parse_bare_host(host: Seq<char>)
    requires
        !host.contains('@'),
        !host.contains(':'),
    ensures
        split_user(split_port(host).0) == (Seq::<char>::empty(), host),
        split_port(host).1 == 22,
        !explicit_port(host),
{
    lemma_no_last_index(host, ':');
    lemma_no_first_index(host, '@');
}

proof fn lemma_no_last_index(s: Seq<char>, c: char)
    requires
        !s.contains(c),
    ensures
        last_index_of(s, c) is None,
    decreases s.len(),
{
    if s.len() > 0 {
        assert(s[s.len() - 1] == s.last());
        assert(!s.drop_last().contains(c)) by {
            if s.drop_last().contains(c) {
                let k = choose|k: int| 0 <= k < s.drop_last().len() && s.drop_last()[k] == c;
                assert(s[k] == c);
            }
        }
        lemma_no_last_index(s.drop_last(), c);
    }
}

proof fn lemma_no_first_index(s: Seq<char>, c: char)
    requires
        !s.contains(c),
    ensures
        first_index_of(s, c) is None,
    decreases s.len(),
{
    if s.len() > 0 {
        assert(s[0] != c) by {
            if s[0] == c {
                assert(s.contains(c));
            }
        }
        assert(!s.drop_first().contains(c)) by {
            if s.drop_first().contains(c) {
                let k = choose|k: int| 0 <= k < s.drop_first().len() && s.drop_first()[k] == c;
                assert(s[k + 1] == c);
            }
        }
        lemma_no_first_index(s.drop_first(), c);
    }
}

/// No task of `st` deletes anything.
pub open spec fn no_removals(st: Seq<TaskView>) -> bool {
    forall|i: int| 0 <= i < st.len() ==> !(#[trigger] st[i] is Remove)
}

/// A copy (not a move) plans no deletion.
pub proof fn law_copy_plan_deletes_nothing(entries: Seq<EntryView>, dst: Seq<char>)
    ensures
        no_removals(plan(entries, dst, false)),
    decreases entries.len(),
{
    if entries.len() > 0 {
        law_copy_plan_deletes_nothing(entries.drop_first(), dst);
        let rest = plan(entries.drop_first(), dst, false);
        let st = plan(entries, dst, false);
        assert forall|i: int| 0 <= i < st.len() implies !(#[trigger] st[i] is Remove) by {
            if i < rest.len() {
                assert(st[i] == rest[i]);
            }
        }
    }
}

/// A copy never asks to delete anything: from a stack free of deletions
/// (as a copy starts, by `law_copy_plan_deletes_nothing`), no step answers
/// `Delete`, and the stack stays free of deletions through every step and
/// every listing handed back.
pub proof fn law_copy_never_deletes(
    dst: Seq<char>,
    a: TransferJob,
    b: TransferJob,
    act: TransferActionView,
    children: Seq<EntryView>,
)
    requires
        no_removals(a.stack()),
        TransferJob::advanced(a, b, act),
    ensures
        !(act is Delete),
        no_removals(b.stack()),
        no_removals(a.stack() + plan(children, dst, false)),
{
    law_copy_plan_deletes_nothing(children, dst);
    let st = a.stack();
    if st.len() > 0 {
        assert(!(st[st.len() - 1] is Remove));
        let bs = b.stack();
        assert forall|i: int| 0 <= i < bs.len() implies !(#[trigger] bs[i] is Remove) by {
            if i < st.len() - 1 {
                assert(bs[i] == st[i]);
            }
        }
    }
    let all = a.stack() + plan(children, dst, false);
    assert forall|i: int| 0 <= i < all.len() implies !(#[trigger] all[i] is Remove) by {
        if i < st.len() {
            assert(all[i] == st[i]);
        } else {
            assert(all[i] == plan(children, dst, false)[i - st.len()]);
        }
    }
}

/// A move copies each file and then deletes it from the source: the first
/// two steps of a move job whose first entry is a file copy that file to
/// the destination directory under its name, then delete it.
pub proof fn law_move_copies_then_deletes(
    entries: Seq<EntryView>,
    dst: Seq<char>,
    a: TransferJob,
    b: TransferJob,
    c: TransferJob,
    act1: TransferActionView,
    act2: TransferActionView,
)
    requires
        entries.len() > 0,
        entries[0].kind != FileKind::Dir,
        a.stack() == plan(entries, dst, true),
        TransferJob::advanced(a, b, act1),
        TransferJob::advanced(b, c, act2),
    ensures
        act1 == (TransferActionView::CopyFile {
            src: entries[0].path,
            dst: joined(dst, entries[0].name),
            name: entries[0].name,
            size: entries[0].size,
        }),
        act2 == (TransferActionView::Delete { path: entries[0].path }),
        c.stack() == plan(entries.drop_first(), dst, true),
{
    let rest = plan(entries.drop_first(), dst, true);
    assert(a.stack().drop_last() =~= rest.push(TaskView::Remove { path: entries[0].path }));
    assert(b.stack().drop_last() =~= rest);
}

/// A copy or move sends the rows to the other pane's directory: started
/// with the left pane active they go to the right pane's directory, with
/// the right pane active to the left pane's, and they come from the active
/// side.
pub proof fn law_transfer_goes_to_other_pane(a: App, b: App, action: Action, cmds: Seq<CommandView>)
    requires
        a.wf(),
        action is Copy || action is Move,
        App::normal_step(a, b, action, cmds),
        cmds.len() > 0,
    ensures
        cmds.len() == 1,
        cmds[0] matches CommandView::Transfer { from_side, dst_dir, is_move, .. } && from_side == a.active
            && dst_dir == (if a.active == 0 {
            a.right.cwd@
        } else {
            a.left.cwd@
        }) && is_move == (action is Move),
        b.mode == AppMode::Transfer,
{
}

/// Confirming the new-directory dialog with a non-empty name asks to make
/// that name inside the active pane's directory, on the active side.
pub proof fn law_mkdir_in_active_pane(a: App, b: App, cmds: Seq<CommandView>)
    requires
        a.wf(),
        App::confirm_step(a, b, DialogKind::MkDir, cmds),
        trimmed(a.input_buf@).len() > 0,
    ensures
        cmds == seq![
            CommandView::MakeDir {
                side: a.active,
                path: joined(
                    if a.active == 0 {
                        a.left.cwd@
                    } else {
                        a.right.cwd@
                    },
                    trimmed(a.input_buf@),
                ),
            },
        ],
{
}

/// A confirmed deletion asks to delete the entry under the active pane's
/// cursor, on the active side.
pub proof fn law_delete_in_active_pane(a: App, b: App, name: String, cmds: Seq<CommandView>)
    requires
        a.wf(),
        App::confirm_step(a, b, DialogKind::ConfirmDelete(name), cmds),
        crate::text::lowercase_of(trimmed(a.input_buf@)) == "y"@,
        (if a.active == 0 { a.left } else { a.right }).cursor < (if a.active == 0 { a.left } else { a.right }).entries.len(),
    ensures
        cmds == seq![
            CommandView::Delete {
                side: a.active,
                path: (if a.active == 0 { a.left } else { a.right }).entries@[(if a.active == 0 { a.left } else { a.right }).cursor as int].path@,
            },
        ],
{
}

/// Every listed path whose final component is neither `.` nor `..` gets a
/// deletion task in `visits`.
proof fn lemma_visits_cover(paths: Seq<Seq<char>>, i: int)
    requires
        0 <= i < paths.len(),
        !(file_name_of(paths[i]) matches Some(n) && (n == "."@ || n == ".."@)),
    ensures
        exists|k: int| 0 <= k < visits(paths).len() && visits(paths)[k] == (RemovalTaskView::Visit { path: paths[i] }),
    decreases paths.len(),
{
    let rest = visits(paths.drop_first());
    if i == 0 {
        assert(deleted_with_parent(paths[0]));
        assert(visits(paths) == rest.push(RemovalTaskView::Visit { path: paths[0] }));
        assert(visits(paths)[rest.len() as int] == RemovalTaskView::Visit { path: paths[0] });
    } else {
        lemma_visits_cover(paths.drop_first(), i - 1);
        let k = choose|k: int| 0 <= k < rest.len() && rest[k] == (RemovalTaskView::Visit { path: paths.drop_first()[i - 1] });
        if deleted_with_parent(paths[0]) {
            assert(visits(paths)[k] == rest[k]);
        }
    }
}

/// Deleting a directory deletes everything listed in it but `.` and `..`
/// (names such as `.env` included) before the directory itself: after the
/// listing is handed over, each such child has a deletion task above the
/// removal of the directory.
pub proof fn law_listed_children_deleted_first(a: DeleteJob, b: DeleteJob, children: Seq<String>)
    requires
        a.awaiting is Listing,
        b.stack() == a.stack().push(RemovalTaskView::RemoveDir { path: a.awaiting->Listing_0@ })
            + visits(string_views(children)),
    ensures
        b.stack()[a.stack().len() as int] == (RemovalTaskView::RemoveDir { path: a.awaiting->Listing_0@ }),
        forall|i: int|
            0 <= i < children.len() && !(file_name_of(#[trigger] children[i]@) matches Some(n) && (n == "."@
                || n == ".."@)) ==> exists|k: int|
                a.stack().len() < k < b.stack().len() && b.stack()[k] == (RemovalTaskView::Visit {
                    path: children[i]@,
                }),
{
    let base = a.stack().push(RemovalTaskView::RemoveDir { path: a.awaiting->Listing_0@ });
    let cs = string_views(children);
    assert forall|i: int|
        0 <= i < children.len() && !(file_name_of(#[trigger] children[i]@) matches Some(n) && (n == "."@
            || n == ".."@)) implies exists|k: int|
            a.stack().len() < k < b.stack().len() && b.stack()[k] == (RemovalTaskView::Visit {
                path: children[i]@,
            }) by {
        assert(cs[i] == children[i]@);
        lemma_visits_cover(cs, i);
        let k = choose|k: int| 0 <= k < visits(cs).len() && visits(cs)[k] == (RemovalTaskView::Visit { path: cs[i] });
        assert(b.stack()[base.len() + k] == visits(cs)[k]);
    }
}

/// The configured identity file is offered first, without a passphrase,
/// whatever secrets were given; the default keys follow.
pub proof fn law_identity_file_offered_first(t: SshTarget, home: Seq<char>)
    requires
        t.identity_file is Some,
    ensures
        auth_plan_of(t, home).len() > 0,
        auth_plan_of(t, home)[0] == (AuthAttemptView::Key { path: t.identity_file->0@, passphrase: None }),
{
}

/// Every plan offers each default key without a passphrase, and ends with
/// the agent, or with the password when one was given.
pub proof fn law_plan_offers_default_keys(t: SshTarget, home: Seq<char>)
    ensures
        auth_plan_of(t, home).contains(AuthAttemptView::Key {
            path: joined(joined(home, ".ssh"@), "id_ed25519"@),
            passphrase: None,
        }),
        auth_plan_of(t, home).contains(AuthAttemptView::Key {
            path: joined(joined(home, ".ssh"@), "id_rsa"@),
            passphrase: None,
        }),
        auth_plan_of(t, home).contains(AuthAttemptView::Key {
            path: joined(joined(home, ".ssh"@), "id_ecdsa"@),
            passphrase: None,
        }),
        auth_plan_of(t, home).last() == match t.password {
            Some(p) => AuthAttemptView::Password { password: p@ },
            None => AuthAttemptView::Agent,
        },
{
    let plan = auth_plan_of(t, home);
    let id = match t.identity_file {
        Some(f) => key_attempts(f@, crate::ssh::key_secret(t)),
        None => Seq::empty(),
    };
    let k1 = key_attempts(joined(joined(home, ".ssh"@), "id_ed25519"@), crate::ssh::key_secret(t));
    let k2 = key_attempts(joined(joined(home, ".ssh"@), "id_rsa"@), crate::ssh::key_secret(t));
    let k3 = key_attempts(joined(joined(home, ".ssh"@), "id_ecdsa"@), crate::ssh::key_secret(t));
    assert(plan[id.len() as int] == k1[0]);
    assert(plan[(id.len() + k1.len()) as int] == k2[0]);
    assert(plan[(id.len() + k1.len() + k2.len()) as int] == k3[0]);
}

/// A remote item whose stat record gives a size keeps it, and one without
/// a size is listed with size 0.
pub proof fn law_remote_entry_keeps_size(it: RemoteItem)
    ensures
        it.size matches Some(n) ==> remote_entry_view(it).size == n,
        it.size is None ==> remote_entry_view(it).size == 0,
        remote_entry_view(it).path == it.path@,
{
}

/// Every entry of a remote listing comes from a listed item at the same
/// path and keeps that item's size.
pub proof fn law_remote_listing_keeps_sizes(items: Seq<RemoteItem>, out: Seq<EntryView>)
    requires
        is_stable_sort_of(
            out,
            items.map_values(|it: RemoteItem| remote_entry_view(it)).filter(
                |e: EntryView| !is_dot_name(e.name),
            ),
        ),
    ensures
        forall|k: int| #![trigger out[k]] 0 <= k < out.len() ==> exists|i: int|
            0 <= i < items.len() && #[trigger] items[i].path@ == out[k].path && (items[i].size matches Some(n)
                ==> out[k].size == n) && (items[i].size is None ==> out[k].size == 0),
{
    let mapped = items.map_values(|it: RemoteItem| remote_entry_view(it));
    let keep = |e: EntryView| !is_dot_name(e.name);
    let src = mapped.filter(keep);
    let p = choose|p: Seq<int>|
        {
            &&& #[trigger] index_permutation(p, src.len() as int)
            &&& forall|k: int| 0 <= k < out.len() ==> out[k] == src[p[k]]
            &&& forall|a: int, b: int|
                0 <= a < b < out.len() && crate::fs::entry_le(out[b], out[a]) ==> p[a] < p[b]
        };
    assert forall|k: int| #![trigger out[k]] 0 <= k < out.len() implies exists|i: int|
        0 <= i < items.len() && #[trigger] items[i].path@ == out[k].path && (items[i].size matches Some(n)
            ==> out[k].size == n) && (items[i].size is None ==> out[k].size == 0) by {
        assert(0 <= p[k] < src.len());
        assert(src.contains(src[p[k]]));
        mapped.lemma_filter_contains_rev(keep, out[k]);
        let j = choose|j: int| 0 <= j < mapped.len() && mapped[j] == out[k];
        assert(mapped[j] == remote_entry_view(items[j]));
    }
}

} // verus!
