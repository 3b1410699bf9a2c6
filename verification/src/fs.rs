//! Directory entries: their kinds, icons and sizes, how a raw listing from
//! the local disk or from an SFTP server becomes a list of entries, and the
//! order in which a listing is shown (directories first, then by
//! case-folded name, ties kept in listing order).

use vstd::prelude::*;
use crate::paths::{file_name_of, path_file_name};
use crate::text::{chars_le, chars_le_exec, lemma_chars_le_total, lemma_chars_le_trans, lowercase_of, to_lowercase_chars};


verus! {

/// What a directory entry is.
#[derive(Debug, Clone, Copy, PartialEq, Eq, Structural)]
pub enum FileKind {
    Dir,
    File,
    Symlink,
    Executable,
    Unknown,
}

/// One entry of a directory listing. `modified` is the modification time in
/// seconds since the Unix epoch, where it is known.
#[derive(Debug)]
pub struct Entry {
    pub name: String,
    pub path: String,
    pub kind: FileKind,
    pub size: u64,
    pub modified: Option<i64>,
}

/// The abstract value of an entry: its strings as character sequences.
pub struct EntryView {
    pub name: Seq<char>,
    pub path: Seq<char>,
    pub kind: FileKind,
    pub size: u64,
    pub modified: Option<i64>,
}

impl View for Entry {
    type V = EntryView;

    open spec fn view(&self) -> EntryView {
        EntryView {
            name: self.name@,
            path: self.path@,
            kind: self.kind,
            size: self.size,
            modified: self.modified,
        }
    }
}

impl Clone for Entry {
    fn clone(&self) -> (r: Self)
        ensures
            r == *self,
    {
        Entry {
            name: self.name.clone(),
            path: self.path.clone(),
            kind: self.kind,
            size: self.size,
            modified: self.modified,
        }
    }
}

/// The views of a sequence of entries.
pub open spec fn views(s: Seq<Entry>) -> Seq<EntryView> {
    s.map_values(|e: Entry| e@)
}

/// The icon shown in front of an entry of the given kind (Nerd Font glyphs).
pub open spec fn icon_of(kind: FileKind) -> Seq<char> {
    match kind {
        FileKind::Dir => "\u{f07b}"@,
        FileKind::Symlink => "\u{f0c1}"@,
        FileKind::Executable => "\u{f489}"@,
        FileKind::File => "\u{f15b}"@,
        FileKind::Unknown => "\u{f128}"@,
    }
}

/// Human-readable rendering of a byte count with binary (IEC) units, as
/// `humansize::format_size(n, BINARY)` gives it.
pub uninterp spec fn human_size(n: u64) -> Seq<char>;

/// Calls `humansize::format_size` with the `BINARY` options. Claimed: the
/// result is `human_size(n)`, a function of `n` alone.
#[verifier::external_body]
pub(crate) fn format_size_binary(n: u64) -> (r: String)
    ensures
        r@ == human_size(n),
{
    humansize::format_size(n, humansize::BINARY)
}

/// The size column of an entry: `-` for a directory, else its human size.
pub open spec fn size_text(e: EntryView) -> Seq<char> {
    if e.kind == FileKind::Dir {
        "-"@
    } else {
        human_size(e.size)
    }
}

impl Entry {
    /// The icon for this entry's kind.
    pub fn icon(&self) -> (r: &'static str)
        ensures
            r@ == icon_of(self.kind),
    {
        match self.kind {
            FileKind::Dir => "\u{f07b}",
            FileKind::Symlink => "\u{f0c1}",
            FileKind::Executable => "\u{f489}",
            FileKind::File => "\u{f15b}",
            FileKind::Unknown => "\u{f128}",
        }
    }

    /// The size column: `-` for directories, else the size in binary units.
    pub fn size_human(&self) -> (r: String)
        ensures
            r@ == size_text(self@),
    {
        if self.kind == FileKind::Dir {
            return "-".to_string();
        }
        format_size_binary(self.size)
    }
}

/// The local filesystem as a source of listings. Reading the disk is done
/// by the caller; this type carries what the library decides about it (see
/// `local_listing`).
pub struct LocalProvider;

impl LocalProvider {
    /// The local provider.
    pub fn new() -> (r: LocalProvider)
        ensures
            r == LocalProvider,
    {
        LocalProvider
    }
}

/// The display order of entries: directories before everything else, then
/// by the lower-cased name in code-point order.
pub open spec fn entry_le(a: EntryView, b: EntryView) -> bool {
    let da = a.kind == FileKind::Dir;
    let db = b.kind == FileKind::Dir;
    (da && !db) || (da == db && chars_le(lowercase_of(a.name), lowercase_of(b.name)))
}

/// `entry_le` is total.
pub proof fn lemma_entry_le_total(a: EntryView, b: EntryView)
    ensures
        entry_le(a, b) || entry_le(b, a),
{
    lemma_chars_le_total(lowercase_of(a.name), lowercase_of(b.name));
}

/// `entry_le` is transitive.
pub proof fn lemma_entry_le_trans(a: EntryView, b: EntryView, c: EntryView)
    requires
        entry_le(a, b),
        entry_le(b, c),
    ensures
        entry_le(a, c),
{
    if (a.kind == FileKind::Dir) == (b.kind == FileKind::Dir) && (b.kind == FileKind::Dir) == (
    c.kind == FileKind::Dir) {
        lemma_chars_le_trans(lowercase_of(a.name), lowercase_of(b.name), lowercase_of(c.name));
    }
}

/// `p` lists each index below `n` exactly once.
pub open spec fn index_permutation(p: Seq<int>, n: int) -> bool {
    &&& p.len() == n
    &&& forall|k: int| 0 <= k < n ==> 0 <= #[trigger] p[k] < n
    &&& forall|a: int, b: int| 0 <= a < b < n ==> p[a] != p[b]
}

/// `out` is `inp` sorted by `entry_le`, entries that compare equal keeping
/// their relative order (what a stable sort gives).
pub open spec fn is_stable_sort_of(out: Seq<EntryView>, inp: Seq<EntryView>) -> bool {
    &&& out.len() == inp.len()
    &&& forall|a: int, b: int| 0 <= a < b < out.len() ==> entry_le(out[a], out[b])
    &&& exists|p: Seq<int>|
        {
            &&& #[trigger] index_permutation(p, inp.len() as int)
            &&& forall|k: int| 0 <= k < out.len() ==> out[k] == inp[p[k]]
            &&& forall|a: int, b: int|
                0 <= a < b < out.len() && entry_le(out[b], out[a]) ==> p[a] < p[b]
        }
}

fn entry_le_exec(a: &Entry, la: &Vec<char>, b: &Entry, lb: &Vec<char>) -> (r: bool)
    requires
        la@ == lowercase_of(a.name@),
        lb@ == lowercase_of(b.name@),
    ensures
        r == entry_le(a@, b@),
{
    let da = a.kind == FileKind::Dir;
    let db = b.kind == FileKind::Dir;
    if da && !db {
        true
    } else if da == db {
        chars_le_exec(la, lb)
    } else {
        false
    }
}

/// Stable insertion sort of `entries` by `entry_le`, given the lower-cased
/// names.
pub fn sort_by_lowered(entries: &Vec<Entry>, lowered: &Vec<Vec<char>>) -> (r: Vec<Entry>)
    requires
        lowered.len() == entries.len(),
        forall|k: int| 0 <= k < entries.len() ==> #[trigger] lowered[k]@ == lowercase_of(entries[k].name@),
    ensures
        is_stable_sort_of(views(r@), views(entries@)),
{
    let n = entries.len();
    let mut out: Vec<Entry> = Vec::new();
    let mut keys: Vec<Vec<char>> = Vec::new();
    let ghost mut p: Seq<int> = Seq::empty();
    let mut i: usize = 0;
    while i < n
        invariant
            n == entries.len(),
            lowered.len() == n,
            forall|k: int| 0 <= k < n ==> #[trigger] lowered[k]@ == lowercase_of(entries[k].name@),
            i <= n,
            out.len() == i,
            keys.len() == i,
            p.len() == i,
            forall|k: int| 0 <= k < i ==> #[trigger] keys[k]@ == lowercase_of(out[k].name@),
            forall|k: int| 0 <= k < i ==> 0 <= #[trigger] p[k] < i,
            forall|a: int, b: int| 0 <= a < b < i ==> p[a] != p[b],
            forall|k: int| 0 <= k < i ==> #[trigger] out[k] == entries[p[k]],
            forall|a: int, b: int| 0 <= a < b < i ==> entry_le(out[a]@, out[b]@),
            forall|a: int, b: int| 0 <= a < b < i && entry_le(out[b]@, out[a]@) ==> p[a] < p[b],
        decreases n - i,
    {
        let e = entries[i].clone();
        let le = lowered[i].clone();
        assert(le@ == lowercase_of(e.name@)) by {
            assert(le@ == lowered[i as int]@);
        }
        let mut j: usize = i;
        while j > 0 && !entry_le_exec(&out[j - 1], &keys[j - 1], &e, &le)
            invariant
                j <= i,
                out.len() == i,
                keys.len() == i,
                le@ == lowercase_of(e.name@),
                forall|k: int| 0 <= k < i ==> #[trigger] keys[k]@ == lowercase_of(out[k].name@),
                forall|m: int| j <= m < i ==> !entry_le(#[trigger] out[m]@, e@),
            decreases j,
        {
            j = j - 1;
        }
        let ghost old_out = out@;
        let ghost old_p = p;
        out.insert(j, e);
        keys.insert(j, le);
        proof {
            p = p.insert(j as int, i as int);
            old_out.insert_ensures(j as int, e);
            old_p.insert_ensures(j as int, i as int);
            assert(j == 0 || entry_le(old_out[j - 1]@, e@));
            assert forall|k: int| 0 <= k < i + 1 implies #[trigger] keys[k]@ == lowercase_of(out[k].name@) by {
                if k < j {
                } else if k == j {
                } else {
                    assert(out[k] == old_out[k - 1]);
                }
            }
            assert forall|k: int| 0 <= k < i + 1 implies #[trigger] out[k] == entries[p[k]] by {
                if k < j {
                    assert(out[k] == old_out[k]);
                    assert(p[k] == old_p[k]);
                } else if k == j {
                } else {
                    assert(out[k] == old_out[k - 1]);
                    assert(p[k] == old_p[k - 1]);
                }
            }
            assert forall|a: int, b: int| 0 <= a < b < i + 1 implies entry_le(out[a]@, out[b]@) by {
                if b < j {
                    assert(out[a] == old_out[a] && out[b] == old_out[b]);
                } else if b == j {
                    assert(out[a] == old_out[a]);
                    if a < j - 1 {
                        lemma_entry_le_trans(old_out[a]@, old_out[j - 1]@, e@);
                    }
                } else if a == j {
                    assert(out[b] == old_out[b - 1]);
                    lemma_entry_le_total(old_out[b - 1]@, e@);
                } else if a < j {
                    assert(out[a] == old_out[a] && out[b] == old_out[b - 1]);
                } else {
                    assert(out[a] == old_out[a - 1] && out[b] == old_out[b - 1]);
                }
            }
            assert forall|a: int, b: int| 0 <= a < b < i + 1 && entry_le(out[b]@, out[a]@) implies p[a] < p[b] by {
                if b < j {
                    assert(out[a] == old_out[a] && out[b] == old_out[b]);
                    assert(p[a] == old_p[a] && p[b] == old_p[b]);
                } else if b == j {
                    assert(p[a] == old_p[a]);
                } else if a == j {
                    assert(out[b] == old_out[b - 1]);
                } else if a < j {
                    assert(out[a] == old_out[a] && out[b] == old_out[b - 1]);
                    assert(p[a] == old_p[a] && p[b] == old_p[b - 1]);
                } else {
                    assert(out[a] == old_out[a - 1] && out[b] == old_out[b - 1]);
                    assert(p[a] == old_p[a - 1] && p[b] == old_p[b - 1]);
                }
            }
            assert forall|a: int, b: int| 0 <= a < b < i + 1 implies p[a] != p[b] by {
                if b < j {
                    assert(p[a] == old_p[a] && p[b] == old_p[b]);
                } else if b == j {
                    assert(p[a] == old_p[a]);
                } else if a == j {
                    assert(p[b] == old_p[b - 1]);
                } else if a < j {
                    assert(p[a] == old_p[a] && p[b] == old_p[b - 1]);
                } else {
                    assert(p[a] == old_p[a - 1] && p[b] == old_p[b - 1]);
                }
            }
            assert forall|k: int| 0 <= k < i + 1 implies 0 <= #[trigger] p[k] < i + 1 by {
                if k < j {
                    assert(p[k] == old_p[k]);
                } else if k > j {
                    assert(p[k] == old_p[k - 1]);
                }
            }
        }
        i = i + 1;
    }
    proof {
        let vo = views(out@);
        let vi = views(entries@);
        assert(index_permutation(p, vi.len() as int));
        assert forall|k: int| 0 <= k < vo.len() implies vo[k] == vi[p[k]] by {
            assert(out[k] == entries[p[k]]);
        }
        assert forall|a: int, b: int| 0 <= a < b < vo.len() && entry_le(vo[b], vo[a]) implies p[a] < p[b] by {
            assert(vo[a] == out[a]@ && vo[b] == out[b]@);
        }
        assert forall|a: int, b: int| 0 <= a < b < vo.len() implies entry_le(vo[a], vo[b]) by {
            assert(vo[a] == out[a]@ && vo[b] == out[b]@);
        }
    }
    out
}

/// Sorts a listing for display: directories first, then by lower-cased name
/// (`str::to_lowercase`), entries that compare equal keeping their order.
pub fn sort_entries(entries: &Vec<Entry>) -> (r: Vec<Entry>)
    ensures
        is_stable_sort_of(views(r@), views(entries@)),
{
    let mut lowered: Vec<Vec<char>> = Vec::new();
    let mut k: usize = 0;
    while k < entries.len()
        invariant
            k <= entries.len(),
            lowered.len() == k,
            forall|m: int| 0 <= m < k ==> #[trigger] lowered[m]@ == lowercase_of(entries[m].name@),
        decreases entries.len() - k,
    {
        let l = to_lowercase_chars(entries[k].name.as_str());
        lowered.push(l);
        k = k + 1;
    }
    sort_by_lowered(entries, &lowered)
}

/// The owner, group and other execute bits of a Unix mode.
pub open spec fn any_execute_bit(mode: u32) -> bool {
    mode & 0o111u32 != 0
}

/// What the local disk reports of one directory item. `mode` holds the Unix
/// permission bits.
pub struct LocalItem {
    pub name: String,
    pub path: String,
    pub is_symlink: bool,
    pub is_dir: bool,
    pub mode: u32,
    pub size: u64,
    pub modified: Option<i64>,
}

/// The kind of a local item: a symbolic link, a directory, an executable
/// file (any execute bit set) or a plain file, tested in that order.
pub open spec fn local_kind_of(is_symlink: bool, is_dir: bool, mode: u32) -> FileKind {
    if is_symlink {
        FileKind::Symlink
    } else if is_dir {
        FileKind::Dir
    } else if any_execute_bit(mode) {
        FileKind::Executable
    } else {
        FileKind::File
    }
}

/// The entry a local item becomes.
pub open spec fn local_entry_view(it: LocalItem) -> EntryView {
    EntryView {
        name: it.name@,
        path: it.path@,
        kind: local_kind_of(it.is_symlink, it.is_dir, it.mode),
        size: it.size,
        modified: it.modified,
    }
}

/// Classifies a local item.
pub fn local_kind(is_symlink: bool, is_dir: bool, mode: u32) -> (k: FileKind)
    ensures
        k == local_kind_of(is_symlink, is_dir, mode),
{
    if is_symlink {
        FileKind::Symlink
    } else if is_dir {
        FileKind::Dir
    } else if mode & 0o111u32 != 0 {
        FileKind::Executable
    } else {
        FileKind::File
    }
}

/// Turns a local item into an entry.
pub fn local_entry(it: LocalItem) -> (e: Entry)
    ensures
        e@ == local_entry_view(it),
{
    let kind = local_kind(it.is_symlink, it.is_dir, it.mode);
    Entry { name: it.name, path: it.path, kind, size: it.size, modified: it.modified }
}

/// The listing of a local directory: every item as an entry, in display
/// order.
pub fn local_listing(items: Vec<LocalItem>) -> (r: Vec<Entry>)
    ensures
        is_stable_sort_of(views(r@), items@.map_values(|it: LocalItem| local_entry_view(it))),
{
    let ghost src = items@;
    let ghost target = src.map_values(|it: LocalItem| local_entry_view(it));
    let mut mapped: Vec<Entry> = Vec::new();
    let mut items = items;
    let ghost mut k: int = 0;
    while items.len() > 0
        invariant
            0 <= k <= src.len(),
            target.len() == src.len(),
            target == src.map_values(|it: LocalItem| local_entry_view(it)),
            items@ == src.subrange(k, src.len() as int),
            views(mapped@) == target.subrange(0, k),
        decreases items.len(),
    {
        let it = items.remove(0);
        proof {
            assert(it == src[k]);
        }
        let e = local_entry(it);
        let ghost before = mapped@;
        mapped.push(e);
        proof {
            assert(views(mapped@) =~= views(before).push(e@));
            assert(target.subrange(0, k + 1) =~= target.subrange(0, k).push(target[k]));
            k = k + 1;
            assert(items@ == src.subrange(k, src.len() as int));
        }
    }
    assert(target.subrange(0, k) == target);
    sort_entries(&mapped)
}

/// What an SFTP server reports of one directory item: its path and the
/// optional attributes of its stat record.
pub struct RemoteItem {
    pub path: String,
    pub perm: Option<u32>,
    pub size: Option<u64>,
    pub mtime: Option<u64>,
}

/// Whether the file-type bits of an SFTP permission word (absent counts as
/// 0) say "directory".
pub open spec fn perm_is_dir(perm: Option<u32>) -> bool {
    let p: u32 = match perm {
        Some(p) => p,
        None => 0u32,
    };
    p & 0o170000u32 == 0o040000u32
}

/// Calls `ssh2::FileStat::is_dir` on a stat record with the given
/// permissions. Claimed, from the crate's source: `is_dir` masks the
/// permissions (0 when absent) with `S_IFMT` (0o170000) and compares with
/// `S_IFDIR` (0o040000); no other field is read.
#[verifier::external_body]
pub(crate) fn stat_is_dir(perm: Option<u32>) -> (r: bool)
    ensures
        r == perm_is_dir(perm),
{
    ssh2::FileStat { size: None, uid: None, gid: None, perm, atime: None, mtime: None }.is_dir()
}

/// Whether `chrono::DateTime::from_timestamp(secs, 0)` gives a time: the
/// instant falls between 1 January of year -262143 and 31 December of year
/// 262142, chrono's `NaiveDate::MIN` and `NaiveDate::MAX`, both days whole.
pub open spec fn timestamp_in_range(secs: i64) -> bool {
    -8_334_601_228_800 <= secs <= 8_210_266_876_799
}

/// Calls `chrono::DateTime::from_timestamp(secs, 0)` and reports whether it
/// gave a time. Claimed: the answer is `timestamp_in_range(secs)`, the
/// range of dates that chrono's `NaiveDate` holds.
#[verifier::external_body]
pub(crate) fn timestamp_representable(secs: i64) -> (r: bool)
    ensures
        r == timestamp_in_range(secs),
{
    chrono::DateTime::from_timestamp(secs, 0).is_some()
}

/// The kind of a remote item: a directory by its file-type bits, else
/// executable when any execute bit is set, else a plain file.
pub open spec fn remote_kind_of(perm: Option<u32>) -> FileKind {
    if perm_is_dir(perm) {
        FileKind::Dir
    } else {
        match perm {
            Some(p) => if any_execute_bit(p) {
                FileKind::Executable
            } else {
                FileKind::File
            },
            None => FileKind::File,
        }
    }
}

/// The modification time kept for a remote item: the server's time when
/// chrono can represent it as seconds (read as `i64`), else none.
pub open spec fn remote_modified_of(mtime: Option<u64>) -> Option<i64> {
    match mtime {
        Some(t) => if timestamp_in_range(t as i64) {
            Some(t as i64)
        } else {
            None
        },
        None => None,
    }
}

/// The entry a remote item becomes: named by the final component of its
/// path (empty when it has none), size 0 when unknown.
pub open spec fn remote_entry_view(it: RemoteItem) -> EntryView {
    EntryView {
        name: match file_name_of(it.path@) {
            Some(n) => n,
            None => Seq::empty(),
        },
        path: it.path@,
        kind: remote_kind_of(it.perm),
        size: match it.size {
            Some(n) => n,
            None => 0,
        },
        modified: remote_modified_of(it.mtime),
    }
}

/// Classifies a remote item, given whether its stat record says
/// "directory".
pub fn remote_kind(is_dir: bool, perm: Option<u32>) -> (k: FileKind)
    requires
        is_dir == perm_is_dir(perm),
    ensures
        k == remote_kind_of(perm),
{
    if is_dir {
        FileKind::Dir
    } else {
        match perm {
            Some(p) => if p & 0o111u32 != 0 {
                FileKind::Executable
            } else {
                FileKind::File
            },
            None => FileKind::File,
        }
    }
}

/// Builds the entry of a remote item from the final component of its path
/// and from whether its modification time is representable.
pub fn remote_entry_with(it: RemoteItem, name: Option<String>, stamp_ok: bool) -> (e: Entry)
    ensures
        e.path@ == it.path@,
        e.name@ == match name {
            Some(n) => n@,
            None => Seq::empty(),
        },
        e.kind == remote_kind_of(it.perm),
        e.size == match it.size {
            Some(n) => n,
            None => 0,
        },
        e.modified == match it.mtime {
            Some(t) => if stamp_ok {
                Some(t as i64)
            } else {
                None
            },
            None => None,
        },
{
    let is_dir = stat_is_dir(it.perm);
    let kind = remote_kind(is_dir, it.perm);
    let size = match it.size {
        Some(n) => n,
        None => 0,
    };
    let modified = match it.mtime {
        Some(t) => if stamp_ok {
            Some(t as i64)
        } else {
            None
        },
        None => None,
    };
    let name = match name {
        Some(n) => n,
        None => String::new(),
    };
    Entry { name, path: it.path, kind, size, modified }
}

/// Turns a remote item into an entry.
pub fn remote_entry(it: RemoteItem) -> (e: Entry)
    ensures
        e@ == remote_entry_view(it),
{
    let name = path_file_name(it.path.as_str());
    let stamp_ok = match it.mtime {
        Some(t) => timestamp_representable(t as i64),
        None => false,
    };
    remote_entry_with(it, name, stamp_ok)
}

/// Whether a name is `.` or `..`.
pub open spec fn is_dot_name(n: Seq<char>) -> bool {
    n == "."@ || n == ".."@
}

/// Tests `is_dot_name`.
pub fn dot_name(n: &String) -> (r: bool)
    ensures
        r == is_dot_name(n@),
{
    let one = ".".to_string();
    let two = "..".to_string();
    *n == one || *n == two
}

/// The listing of a remote directory: every item as an entry, without the
/// `.` and `..` names, in display order.
pub fn remote_listing(items: Vec<RemoteItem>) -> (r: Vec<Entry>)
    ensures
        is_stable_sort_of(
            views(r@),
            items@.map_values(|it: RemoteItem| remote_entry_view(it)).filter(
                |e: EntryView| !is_dot_name(e.name),
            ),
        ),
{
    let ghost src = items@;
    let ghost target = src.map_values(|it: RemoteItem| remote_entry_view(it));
    let ghost keep = |e: EntryView| !is_dot_name(e.name);
    let mut kept: Vec<Entry> = Vec::new();
    let mut items = items;
    let ghost mut k: int = 0;
    while items.len() > 0
        invariant
            0 <= k <= src.len(),
            target.len() == src.len(),
            target == src.map_values(|it: RemoteItem| remote_entry_view(it)),
            keep == (|e: EntryView| !is_dot_name(e.name)),
            items@ == src.subrange(k, src.len() as int),
            views(kept@) == target.subrange(0, k).filter(keep),
        decreases items.len(),
    {
        let it = items.remove(0);
        proof {
            assert(it == src[k]);
        }
        let e = remote_entry(it);
        let ghost before = kept@;
        proof {
            assert(target.subrange(0, k + 1) =~= target.subrange(0, k).push(target[k]));
            target.subrange(0, k).lemma_filter_push(target[k], keep);
        }
        if !dot_name(&e.name) {
            kept.push(e);
            proof {
                assert(views(kept@) =~= views(before).push(e@));
            }
        }
        proof {
            k = k + 1;
            assert(items@ == src.subrange(k, src.len() as int));
        }
    }
    assert(target.subrange(0, k) == target);
    sort_entries(&kept)
}

} // verus!
