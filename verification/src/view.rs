//! The texts the screen shows: dialog titles and prompts, and the status
//! line under the panes.

use vstd::prelude::*;
use vstd::string::StringExecFns;
use crate::app::{App, DialogKind};
use crate::fs::{format_size_binary, human_size, size_text};
use crate::pane::Pane;
use crate::text::{decimal, decimal_string, push_char};
use vstd::string::StringSliceAdditionalSpecFns;
use vstd::utf8::{decode_utf8, encode_utf8_decode_utf8, is_char_boundary};

verus! {

broadcast use vstd::std_specs::hash::group_hash_axioms;

/// The title of a dialog.
pub open spec fn dialog_title(kind: DialogKind) -> Seq<char> {
    match kind {
        DialogKind::ConfirmDelete(_) => " Confirm Delete "@,
        DialogKind::MkDir => " New Directory "@,
        DialogKind::Rename => " Rename "@,
        DialogKind::KeyPassphrase(_) => " Key Passphrase Required "@,
        DialogKind::Connect => " Connect to SSH Host "@,
        DialogKind::Password(_) => " Authentication Required "@,
    }
}

/// The prompt of a dialog.
pub open spec fn dialog_prompt(kind: DialogKind) -> Seq<char> {
    match kind {
        DialogKind::ConfirmDelete(name) => "Delete \""@ + name@ + "\"? (y/n)"@,
        DialogKind::MkDir => "Name: "@,
        DialogKind::Rename => "New name: "@,
        DialogKind::KeyPassphrase(key) => "Passphrase for "@ + key@ + ": "@,
        DialogKind::Connect => "host, user@host, or ssh alias: "@,
        DialogKind::Password(host) => "Password or passphrase for "@ + host@ + ": "@,
    }
}

/// Whether a dialog hides what is typed.
pub open spec fn dialog_masked(kind: DialogKind) -> bool {
    kind is KeyPassphrase || kind is Password
}

/// What a dialog shows of the input: one `*` per byte of its UTF-8 form
/// when masked, else the input itself.
pub open spec fn shown_input(kind: DialogKind, input: &str) -> Seq<char> {
    if dialog_masked(kind) {
        Seq::new(input.len() as nat, |i: int| '*')
    } else {
        input@
    }
}

/// The body of a dialog: the delete confirmation shows only its prompt;
/// the others show the prompt, the input and a `_` cursor.
pub open spec fn dialog_body(kind: DialogKind, input: &str) -> Seq<char> {
    if kind is ConfirmDelete {
        dialog_prompt(kind)
    } else {
        dialog_prompt(kind) + shown_input(kind, input) + "_"@
    }
}

/// The title and body text of a dialog.
pub fn dialog_text(kind: &DialogKind, input: &str) -> (r: (String, String))
    ensures
        r.0@ == dialog_title(*kind),
        r.1@ == dialog_body(*kind, input),
{
    let (title, prompt, masked) = match kind {
        DialogKind::ConfirmDelete(name) => {
            let mut p = "Delete \"".to_string();
            p.append(name.as_str());
            p.append("\"? (y/n)");
            (" Confirm Delete ".to_string(), p, false)
        },
        DialogKind::MkDir => (" New Directory ".to_string(), "Name: ".to_string(), false),
        DialogKind::Rename => (" Rename ".to_string(), "New name: ".to_string(), false),
        DialogKind::KeyPassphrase(key) => {
            let mut p = "Passphrase for ".to_string();
            p.append(key.as_str());
            p.append(": ");
            (" Key Passphrase Required ".to_string(), p, true)
        },
        DialogKind::Connect => (
            " Connect to SSH Host ".to_string(),
            "host, user@host, or ssh alias: ".to_string(),
            false,
        ),
        DialogKind::Password(host) => {
            let mut p = "Password or passphrase for ".to_string();
            p.append(host.as_str());
            p.append(": ");
            (" Authentication Required ".to_string(), p, true)
        },
    };
    let confirm = match kind {
        DialogKind::ConfirmDelete(_) => true,
        _ => false,
    };
    if confirm {
        return (title, prompt);
    }
    let mut text = prompt;
    if masked {
        let n = input.len();
        let mut k: usize = 0;
        let ghost start = text@;
        while k < n
            invariant
                k <= n,
                n == input.len(),
                text@ == start + Seq::new(k as nat, |i: int| '*'),
            decreases n - k,
        {
            text.append("*");
            proof {
                reveal_strlit("*");
                assert(start + Seq::new((k + 1) as nat, |i: int| '*') =~= start + Seq::new(
                    k as nat,
                    |i: int| '*',
                ) + "*"@);
            }
            k = k + 1;
        }
    } else {
        text.append(input);
    }
    text.append("_");
    (title, text)
}

/// The connection part of the status line.
pub open spec fn connection_info(app: App) -> Seq<char> {
    match app.ssh_target {
        Some(t) => "  "@ + t.user@ + "@"@ + t.host@ + ":"@ + decimal(t.port as nat),
        None => "  LOCAL"@,
    }
}

/// The current-entry part of the status line.
pub open spec fn entry_info(p: Pane) -> Seq<char> {
    match p.entry_at_cursor() {
        Some(e) => "  "@ + e.name@ + " ("@ + size_text(e@) + ") "@,
        None => "  No selection "@,
    }
}

/// The selection part of the status line.
pub open spec fn selection_info(p: Pane) -> Seq<char> {
    if p.selected@.len() > 0 {
        "  "@ + decimal(p.selected@.len()) + " selected"@
    } else {
        Seq::empty()
    }
}

/// The three parts of the status line: the connection, the entry under the
/// active pane's cursor, and how many rows of the active pane are selected.
pub fn status_texts(app: &App) -> (r: (String, String, String))
    ensures
        r.0@ == connection_info(*app),
        r.1@ == entry_info(app.pane(app.active)),
        r.2@ == selection_info(app.pane(app.active)),
{
    let conn = match &app.ssh_target {
        Some(t) => {
            let mut s = "  ".to_string();
            s.append(t.user.as_str());
            s.append("@");
            s.append(t.host.as_str());
            s.append(":");
            let port = decimal_string(t.port as u64);
            s.append(port.as_str());
            s
        },
        None => "  LOCAL".to_string(),
    };
    let pane = if app.active == 0 {
        &app.left
    } else {
        &app.right
    };
    let file = match pane.current_entry() {
        Some(e) => {
            let mut s = "  ".to_string();
            s.append(e.name.as_str());
            s.append(" (");
            let size = e.size_human();
            s.append(size.as_str());
            s.append(") ");
            s
        },
        None => "  No selection ".to_string(),
    };
    let count = pane.selected.len();
    let sel = if count > 0 {
        let mut s = "  ".to_string();
        let n = decimal_string(count as u64);
        s.append(n.as_str());
        s.append(" selected");
        s
    } else {
        String::new()
    };
    (conn, file, sel)
}

/// The width left for the name in a row `width` cells wide: the icon, the
/// size, the date and three separating spaces take 25 cells.
pub open spec fn name_width(width: u16) -> nat {
    if width >= 25 {
        (width - 25) as nat
    } else {
        0
    }
}

/// The byte index at which a name too long for `w` cells is cut.
pub open spec fn cut_index(w: nat) -> int {
    if w >= 1 {
        w - 1
    } else {
        0
    }
}

/// The name as a row shows it in `w` cells: a name of more than `w` bytes
/// keeps its first `w - 1` bytes and gets an ellipsis.
pub open spec fn shown_name(name: &str, w: nat) -> Seq<char> {
    if name.len() > w {
        decode_utf8(name.spec_bytes().subrange(0, cut_index(w))).push('\u{2026}')
    } else {
        name@
    }
}

/// `n` spaces.
pub open spec fn spaces(n: nat) -> Seq<char> {
    Seq::new(n, |i: int| ' ')
}

/// `s` padded with spaces on the right to at least `w` characters.
pub open spec fn pad_right(s: Seq<char>, w: nat) -> Seq<char> {
    if s.len() < w {
        s + spaces((w - s.len()) as nat)
    } else {
        s
    }
}

/// `s` padded with spaces on the left to at least `w` characters.
pub open spec fn pad_left(s: Seq<char>, w: nat) -> Seq<char> {
    if s.len() < w {
        spaces((w - s.len()) as nat) + s
    } else {
        s
    }
}

/// The text of one row of a pane `width` cells wide: the icon, the name
/// padded to the name column, the size right-aligned in eight cells, and
/// the date, separated by single spaces.
pub open spec fn row_chars(icon: &str, name: &str, size: &str, date: &str, width: u16) -> Seq<char> {
    icon@ + seq![' '] + pad_right(shown_name(name, name_width(width)), name_width(width))
        + seq![' '] + pad_left(size@, 8) + seq![' '] + date@
}

/// Whether a row `width` cells wide can cut `name`: the cut falls on a
/// character boundary, or the name needs no cut.
pub open spec fn row_can_cut(name: &str, width: u16) -> bool {
    name.len() > name_width(width) ==> is_char_boundary(
        name.spec_bytes(),
        cut_index(name_width(width)),
    )
}

/// Appends spaces to `s` until it holds at least `w` characters.
fn pad_to(s: &mut String, have: usize, w: usize)
    requires
        have == old(s)@.len(),
    ensures
        final(s)@ == old(s)@ + (if have < w {
            spaces((w - have) as nat)
        } else {
            Seq::empty()
        }),
{
    let ghost start = s@;
    let mut k: usize = have;
    while k < w
        invariant
            k >= have,
            have < w ==> k <= w,
            have >= w ==> k == have,
            s@ == start + spaces((k - have) as nat),
        decreases w - k,
    {
        push_char(s, ' ');
        proof {
            assert(spaces((k + 1 - have) as nat) =~= spaces((k - have) as nat).push(' '));
        }
        k = k + 1;
    }
    proof {
        if have >= w {
            assert(s@ =~= start);
        }
    }
}

/// The text of one row of a pane `width` cells wide.
pub fn row_text(icon: &str, name: &str, size: &str, date: &str, width: u16) -> (r: String)
    requires
        row_can_cut(name, width),
    ensures
        r@ == row_chars(icon, name, size, date, width),
{
    let name_w: usize = if width >= 25 {
        (width - 25) as usize
    } else {
        0
    };
    let shown: String = if name.len() > name_w {
        let k: usize = if name_w >= 1 {
            name_w - 1
        } else {
            0
        };
        let (head, _) = name.split_at(k);
        proof {
            encode_utf8_decode_utf8(head@);
            assert(head@ == decode_utf8(name.spec_bytes().subrange(0, k as int)));
        }
        let mut s = head.to_string();
        assert(s@ == head@);
        push_char(&mut s, '\u{2026}');
        assert(s@ == shown_name(name, name_width(width)));
        s
    } else {
        let s = name.to_string();
        assert(s@ == shown_name(name, name_width(width)));
        s
    };
    assert(shown@ == shown_name(name, name_width(width)));
    let shown_len = shown.as_str().unicode_len();
    let mut column = shown;
    pad_to(&mut column, shown_len, name_w);
    let size_len = size.unicode_len();
    let mut size_column = String::new();
    let lead: usize = if size_len < 8 {
        8 - size_len
    } else {
        0
    };
    pad_to(&mut size_column, 0, lead);
    size_column.append(size);
    let mut text = icon.to_string();
    push_char(&mut text, ' ');
    text.append(column.as_str());
    push_char(&mut text, ' ');
    text.append(size_column.as_str());
    push_char(&mut text, ' ');
    text.append(date);
    proof {
        assert(spaces(0) =~= Seq::<char>::empty());
        if size_len >= 8 {
            assert(size_column@ =~= size@);
        }
    }
    assert(text@ =~= row_chars(icon, name, size, date, width));
    text
}

/// A transfer rate of `bps` bytes per second, as the progress display
/// shows it.
pub open spec fn speed_chars(bps: u64) -> Seq<char> {
    human_size(bps) + "/s"@
}

/// The transfer rate text for `bps` bytes per second.
pub fn speed_text(bps: u64) -> (r: String)
    ensures
        r@ == speed_chars(bps),
{
    let mut s = format_size_binary(bps);
    s.append("/s");
    s
}

/// The time-left part of the progress display: empty when unknown.
pub open spec fn eta_chars(eta: Option<u64>) -> Seq<char> {
    match eta {
        Some(secs) => "ETA "@ + decimal(secs as nat) + "s"@,
        None => Seq::empty(),
    }
}

/// The progress line of a transfer: bytes done and in all, the rate, and
/// the time left when known.
pub open spec fn progress_chars(done: u64, total: u64, speed: Seq<char>, eta: Option<u64>) -> Seq<char> {
    " "@ + human_size(done) + " / "@ + human_size(total) + "  "@ + speed + "  "@ + eta_chars(eta)
}

/// The progress line of a transfer.
pub fn progress_text(done: u64, total: u64, speed: &str, eta: Option<u64>) -> (r: String)
    ensures
        r@ == progress_chars(done, total, speed@, eta),
{
    let mut s = " ".to_string();
    let d = format_size_binary(done);
    s.append(d.as_str());
    s.append(" / ");
    let t = format_size_binary(total);
    s.append(t.as_str());
    s.append("  ");
    s.append(speed);
    s.append("  ");
    match eta {
        Some(secs) => {
            s.append("ETA ");
            let n = decimal_string(secs);
            s.append(n.as_str());
            s.append("s");
        },
        None => {},
    }
    s
}

/// One row a pane shows: which entry, and how it is marked.
pub struct PaneRow {
    pub index: usize,
    pub selected: bool,
    pub is_cursor: bool,
}

/// What a pane's body shows: its error, or the rows in its window.
pub enum PaneBody {
    Message(String),
    Rows(Vec<PaneRow>),
}

/// The number of rows a pane shows in `height` lines: the entries from the
/// scroll offset on, at most `height` of them.
pub open spec fn window_len(p: Pane, height: usize) -> int {
    let left = p.entries.len() - p.scroll;
    if left <= 0 {
        0
    } else if left < height {
        left
    } else {
        height as int
    }
}

/// Whether `rows` are the rows pane `p` shows in `height` lines: entry
/// `scroll + k` on row `k`, marked when selected and when under the cursor.
pub open spec fn rows_shown(p: Pane, height: usize, rows: Seq<PaneRow>) -> bool {
    &&& rows.len() == window_len(p, height)
    &&& forall|k: int| 0 <= k < rows.len() ==> {
        &&& #[trigger] rows[k].index == p.scroll + k
        &&& rows[k].selected == p.selected@.contains((p.scroll + k) as usize)
        &&& rows[k].is_cursor == (p.scroll + k == p.cursor)
    }
}

/// What pane `p` shows in `height` lines: its error when it has one, else
/// the rows of its window.
pub fn pane_body(p: &Pane, height: usize) -> (r: PaneBody)
    ensures
        match p.error {
            Some(e) => r matches PaneBody::Message(m) && m == e,
            None => r matches PaneBody::Rows(rows) && rows_shown(*p, height, rows@),
        },
{
    match &p.error {
        Some(e) => PaneBody::Message(e.clone()),
        None => PaneBody::Rows(window_rows(p, height)),
    }
}

/// The rows of pane `p`'s window of `height` lines.
pub fn window_rows(p: &Pane, height: usize) -> (rows: Vec<PaneRow>)
    ensures
        rows_shown(*p, height, rows@),
{
    let len = p.entries.len();
    let count: usize = if p.scroll >= len {
        0
    } else if len - p.scroll < height {
        len - p.scroll
    } else {
        height
    };
    let mut rows: Vec<PaneRow> = Vec::new();
    let mut k: usize = 0;
    while k < count
        invariant
            k <= count,
            count == window_len(*p, height),
            count > 0 ==> p.scroll + count <= p.entries.len(),
            rows.len() == k,
            forall|j: int| 0 <= j < k ==> {
                &&& #[trigger] rows@[j].index == p.scroll + j
                &&& rows@[j].selected == p.selected@.contains((p.scroll + j) as usize)
                &&& rows@[j].is_cursor == (p.scroll + j == p.cursor)
            },
        decreases count - k,
    {
        let i = p.scroll + k;
        let selected = p.selected.contains(&i);
        assert(selected == p.selected@.contains(i));
        let ghost before = rows@;
        rows.push(PaneRow { index: i, selected, is_cursor: i == p.cursor });
        assert(forall|j: int| 0 <= j < k ==> rows@[j] == before[j]);
        k = k + 1;
    }
    rows
}

} // verus!
