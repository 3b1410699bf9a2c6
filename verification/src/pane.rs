//! One pane of the browser: the directory it shows, its entries, the cursor
//! and scroll position, and the set of selected rows.

use vstd::prelude::*;
use std::collections::HashSet;
use vstd::std_specs::iter::IteratorSpec;
use crate::fs::{Entry, EntryView, FileKind, views};
use crate::paths::{parent_of, path_parent, paths_equal, same_path};

verus! {

broadcast use vstd::std_specs::hash::group_hash_axioms;

/// A pane. `selected` holds row indices into `entries`.
pub struct Pane {
    pub cwd: String,
    pub entries: Vec<Entry>,
    pub cursor: usize,
    pub scroll: usize,
    pub selected: HashSet<usize>,
    pub label: String,
    pub error: Option<String>,
    pub show_hidden: bool,
}

/// Whether a name is hidden by default: it starts with a dot.
pub open spec fn is_hidden_name(n: Seq<char>) -> bool {
    n.len() > 0 && n[0] == '.'
}

/// The entries a pane shows of a listing: all of them when hidden entries
/// are shown, else those whose name does not start with a dot.
pub open spec fn shown_entries(listing: Seq<Entry>, show_hidden: bool) -> Seq<Entry> {
    if show_hidden {
        listing
    } else {
        listing.filter(|e: Entry| !is_hidden_name(e.name@))
    }
}

/// Index of the first entry whose path is the same path as `p`, if any.
pub open spec fn first_with_path(entries: Seq<Entry>, p: Seq<char>) -> Option<int> {
    if exists|i: int| 0 <= i < entries.len() && same_path(#[trigger] entries[i].path@, p) {
        Some(
            choose|i: int|
                0 <= i < entries.len() && same_path(#[trigger] entries[i].path@, p) && forall|j: int|
                    0 <= j < i ==> !same_path(#[trigger] entries[j].path@, p),
        )
    } else {
        None
    }
}

impl Pane {
    /// Takes in a listing (or the error listing gave).
    pub open spec fn refreshed(p: Pane, q: Pane, listing: Result<Vec<Entry>, String>) -> bool {
        &&& q.cwd == p.cwd
        &&& q.label == p.label
        &&& q.show_hidden == p.show_hidden
        &&& q.scroll == p.scroll
        &&& q.selected@ == Set::<usize>::empty()
        &&& match listing {
            Ok(l) => {
                &&& q.entries@ == shown_entries(l@, p.show_hidden)
                &&& q.error is None
                &&& q.cursor == if q.entries.len() == 0 {
                    0
                } else if p.cursor < q.entries.len() {
                    p.cursor as int
                } else {
                    q.entries.len() - 1
                }
            },
            Err(msg) => {
                &&& q.entries@.len() == 0
                &&& q.error == Some(msg)
                &&& q.cursor == p.cursor
            }
        }
        &&& q.wf()
    }

    /// Flips whether hidden entries are shown.
    pub open spec fn hidden_toggled(p: Pane, q: Pane) -> bool {
        &&& q.show_hidden == !p.show_hidden
        &&& q.cwd == p.cwd
        &&& q.entries == p.entries
        &&& q.cursor == p.cursor
        &&& q.scroll == p.scroll
        &&& q.selected == p.selected
        &&& q.label == p.label
        &&& q.error == p.error
    }

    /// Moves the cursor one row up.
    pub open spec fn moved_up(p: Pane, q: Pane) -> bool {
        &&& q.cursor == if p.cursor > 0 {
            p.cursor - 1
        } else {
            p.cursor as int
        }
        &&& q.scroll == if p.cursor > 0 && p.cursor - 1 < p.scroll {
            p.cursor - 1
        } else {
            p.scroll as int
        }
        &&& q.cwd == p.cwd
        &&& q.entries == p.entries
        &&& q.selected == p.selected
        &&& q.label == p.label
        &&& q.error == p.error
        &&& q.show_hidden == p.show_hidden
        &&& p.wf() ==> q.wf()
    }

    /// Moves the cursor one row down within `visible` rows.
    pub open spec fn moved_down(p: Pane, q: Pane, visible: usize) -> bool {
        &&& q.cursor == if p.cursor + 1 < p.entries.len() {
            p.cursor + 1
        } else {
            p.cursor as int
        }
        &&& q.scroll == if p.cursor + 1 < p.entries.len() && p.cursor
            + 1 >= p.scroll + visible {
            p.cursor + 1 - visible + 1
        } else {
            p.scroll as int
        }
        &&& q.cwd == p.cwd
        &&& q.entries == p.entries
        &&& q.selected == p.selected
        &&& q.label == p.label
        &&& q.error == p.error
        &&& q.show_hidden == p.show_hidden
        &&& p.wf() ==> q.wf()
    }

    /// Enters the directory under the cursor.
    pub open spec fn entered_dir(p: Pane, q: Pane, entered: bool) -> bool {
        &&& entered == (p.entry_at_cursor() matches Some(e) && e.kind == FileKind::Dir)
        &&& entered ==> {
            &&& q.cwd@ == p.entries[p.cursor as int].path@
            &&& q.cursor == 0
            &&& q.scroll == 0
        }
        &&& !entered ==> q.cwd == p.cwd && q.cursor == p.cursor
            && q.scroll == p.scroll
        &&& q.entries == p.entries
        &&& q.selected == p.selected
        &&& q.label == p.label
        &&& q.error == p.error
        &&& q.show_hidden == p.show_hidden
        &&& p.wf() ==> q.wf()
    }

    /// Goes to the parent directory.
    pub open spec fn went_up(p: Pane, q: Pane, prev: Option<String>) -> bool {
        &&& match parent_of(p.cwd@) {
            Some(parent) => {
                &&& prev == Some(p.cwd)
                &&& q.cwd@ == parent
                &&& q.cursor == 0
                &&& q.scroll == 0
            },
            None => {
                &&& prev is None
                &&& q.cwd == p.cwd
                &&& q.cursor == p.cursor
                &&& q.scroll == p.scroll
            }
        }
        &&& q.entries == p.entries
        &&& q.selected == p.selected
        &&& q.label == p.label
        &&& q.error == p.error
        &&& q.show_hidden == p.show_hidden
        &&& p.wf() ==> q.wf()
    }

    /// Puts the cursor on the entry at a path. An entry whose path is
    /// written exactly as `target` is found: the cursor lands on it or on an
    /// earlier entry at the same path.
    pub open spec fn focused_path(p: Pane, q: Pane, target: Seq<char>) -> bool {
        &&& q.cursor == match first_with_path(p.entries@, target) {
            Some(i) => i,
            None => p.cursor as int
        }
        &&& forall|i: int| 0 <= i < p.entries.len() && #[trigger] p.entries@[i].path@ == target ==> {
            &&& q.cursor <= i
            &&& same_path(p.entries@[q.cursor as int].path@, target)
        }
        &&& q.cwd == p.cwd
        &&& q.entries == p.entries
        &&& q.scroll == p.scroll
        &&& q.selected == p.selected
        &&& q.label == p.label
        &&& q.error == p.error
        &&& q.show_hidden == p.show_hidden
        &&& p.wf() ==> q.wf()
    }

    /// Goes home.
    pub open spec fn went_home(p: Pane, q: Pane, home: String) -> bool {
        &&& q.cwd == home
        &&& q.cursor == 0
        &&& q.scroll == 0
        &&& q.entries == p.entries
        &&& q.selected == p.selected
        &&& q.label == p.label
        &&& q.error == p.error
        &&& q.show_hidden == p.show_hidden
        &&& p.wf() ==> q.wf()
    }

    /// Toggles the selection of the row under the cursor.
    pub open spec fn select_toggled(p: Pane, q: Pane) -> bool {
        &&& q.selected@ == if p.selected@.contains(p.cursor) {
            p.selected@.remove(p.cursor)
        } else {
            p.selected@.insert(p.cursor)
        }
        &&& q.cwd == p.cwd
        &&& q.entries == p.entries
        &&& q.cursor == p.cursor
        &&& q.scroll == p.scroll
        &&& q.label == p.label
        &&& q.error == p.error
        &&& q.show_hidden == p.show_hidden
    }

    /// The cursor designates an entry whenever there is one.
    pub open spec fn wf(&self) -> bool {
        self.entries.len() == 0 || self.cursor < self.entries.len()
    }

    /// The entry under the cursor, if any.
    pub open spec fn entry_at_cursor(&self) -> Option<Entry> {
        if self.cursor < self.entries.len() {
            Some(self.entries[self.cursor as int])
        } else {
            None
        }
    }

    /// A new pane on `cwd`, with no entries yet.
    pub fn new(cwd: String, label: String) -> (p: Pane)
        ensures
            p.cwd == cwd,
            p.label == label,
            p.entries@.len() == 0,
            p.cursor == 0,
            p.scroll == 0,
            p.selected@ == Set::<usize>::empty(),
            p.error is None,
            !p.show_hidden,
            p.wf(),
    {
        Pane {
            cwd,
            entries: Vec::new(),
            cursor: 0,
            scroll: 0,
            selected: HashSet::new(),
            label,
            error: None,
            show_hidden: false,
        }
    }

    /// Takes in a fresh listing of the current directory, or the message of
    /// the error that listing it gave. A listing replaces the entries (the
    /// hidden ones left out unless shown), clears the error and pulls the
    /// cursor back onto the last entry if it fell off the end; an error is
    /// kept for display and empties the pane. Either way the selection is
    /// cleared.
    pub fn refresh(&mut self, listing: Result<Vec<Entry>, String>)
        ensures
            Pane::refreshed(*old(self), *final(self), listing),
    {
        match listing {
            Ok(l) => {
                let shown = if self.show_hidden {
                    l
                } else {
                    keep_unhidden(l)
                };
                self.entries = shown;
                self.error = None;
                let last = if self.entries.len() == 0 {
                    0
                } else {
                    self.entries.len() - 1
                };
                if self.cursor > last {
                    self.cursor = last;
                }
            },
            Err(msg) => {
                self.error = Some(msg);
                self.entries.clear();
            },
        }
        self.selected.clear();
    }

    /// Flips whether entries whose name starts with a dot are shown. The
    /// directory is listed again afterwards.
    pub fn toggle_hidden(&mut self)
        ensures
            Pane::hidden_toggled(*old(self), *final(self)),
    {
        self.show_hidden = !self.show_hidden;
    }

    /// Moves the cursor one row up, scrolling so that it stays in view.
    pub fn move_up(&mut self)
        ensures
            Pane::moved_up(*old(self), *final(self)),
    {
        if self.cursor > 0 {
            self.cursor = self.cursor - 1;
            if self.cursor < self.scroll {
                self.scroll = self.cursor;
            }
        }
    }

    /// Moves the cursor one row down if there is a row below, scrolling so
    /// that it stays within the `visible` rows shown.
    pub fn move_down(&mut self, visible: usize)
        ensures
            Pane::moved_down(*old(self), *final(self), visible),
    {
        if self.entries.len() > 0 && self.cursor < self.entries.len() - 1 {
            self.cursor = self.cursor + 1;
            if self.cursor >= self.scroll && self.cursor - self.scroll >= visible {
                self.scroll = self.cursor - visible + 1;
            }
        }
    }

    /// Enters the directory under the cursor: when the cursor is on a
    /// directory entry, makes its path the current directory and puts the
    /// cursor and scroll back at the top, and answers `true` (the directory
    /// is listed afterwards); otherwise changes nothing and answers `false`.
    pub fn enter_dir(&mut self) -> (entered: bool)
        ensures
            Pane::entered_dir(*old(self), *final(self), entered),
    {
        if self.cursor < self.entries.len() {
            if self.entries[self.cursor].kind == FileKind::Dir {
                self.cwd = self.entries[self.cursor].path.clone();
                self.cursor = 0;
                self.scroll = 0;
                return true;
            }
        }
        false
    }

    /// Goes to the parent directory, if the current one has a parent: the
    /// parent becomes the current directory, the cursor and scroll go back
    /// to the top, and the directory left is handed back (the parent is
    /// listed afterwards and the cursor put on that directory). Without a
    /// parent nothing changes.
    pub fn go_up(&mut self) -> (prev: Option<String>)
        ensures
            Pane::went_up(*old(self), *final(self), prev),
    {
        match path_parent(self.cwd.as_str()) {
            Some(parent) => {
                let mut prev = parent;
                std::mem::swap(&mut self.cwd, &mut prev);
                self.cursor = 0;
                self.scroll = 0;
                Some(prev)
            },
            None => None,
        }
    }

    /// Puts the cursor on the first entry whose path is the same path as
    /// `p`; without one the cursor stays.
    pub fn focus_path(&mut self, target: &str)
        ensures
            Pane::focused_path(*old(self), *final(self), target@),
    {
        let mut i: usize = 0;
        while i < self.entries.len()
            invariant
                *self == *old(self),
                i <= self.entries.len(),
                forall|j: int| 0 <= j < i ==> !same_path(#[trigger] self.entries@[j].path@, target@),
                forall|j: int| 0 <= j < i ==> #[trigger] self.entries@[j].path@ != target@,
            decreases self.entries.len() - i,
        {
            if paths_equal(self.entries[i].path.as_str(), target) {
                proof {
                    let es = self.entries@;
                    assert(0 <= i < es.len() && same_path(es[i as int].path@, target@) && forall|j: int|
                        0 <= j < i ==> !same_path(#[trigger] es[j].path@, target@));
                    let c = choose|k: int|
                        0 <= k < es.len() && same_path(#[trigger] es[k].path@, target@) && forall|j: int|
                            0 <= j < k ==> !same_path(#[trigger] es[j].path@, target@);
                    assert(c == i) by {
                        if c < i {
                            assert(!same_path(es[c].path@, target@));
                        } else if c > i {
                            assert(!same_path(es[i as int].path@, target@));
                        }
                    }
                    assert(first_with_path(es, target@) == Some(i as int));
                }
                self.cursor = i;
                return;
            }
            i = i + 1;
        }
        proof {
            let es = self.entries@;
            assert(!(exists|k: int| 0 <= k < es.len() && same_path(#[trigger] es[k].path@, target@)));
        }
    }

    /// Goes to `home`, with the cursor and scroll back at the top (the
    /// directory is listed afterwards).
    pub fn go_home(&mut self, home: String)
        ensures
            Pane::went_home(*old(self), *final(self), home),
    {
        self.cwd = home;
        self.cursor = 0;
        self.scroll = 0;
    }

    /// Selects the row under the cursor, or deselects it if it was selected.
    pub fn toggle_select(&mut self)
        ensures
            Pane::select_toggled(*old(self), *final(self)),
    {
        if self.selected.contains(&self.cursor) {
            let c = self.cursor;
            self.selected.remove(&c);
        } else {
            self.selected.insert(self.cursor);
        }
    }

    /// The rows chosen for a transfer: the selected rows that hold an
    /// entry, in the order the selection set hands them out (no order is
    /// promised), or, with nothing selected, the entry under the cursor if
    /// there is one.
    pub fn selected_entries(&self) -> (r: Vec<&Entry>)
        ensures
            self.selected@.len() == 0 ==> r@.map_values(|e: &Entry| *e) == match self.entry_at_cursor() {
                Some(e) => seq![e],
                None => Seq::<Entry>::empty(),
            },
            self.selected@.len() != 0 ==> exists|q: Seq<usize>|
                {
                    &&& #[trigger] q.no_duplicates()
                    &&& q.to_set() == self.selected@
                    &&& r@.map_values(|e: &Entry| *e) == rows_of(self.entries@, q)
                },
    {
        if self.selected.is_empty() {
            let mut v: Vec<&Entry> = Vec::new();
            match self.current_entry() {
                Some(e) => {
                    v.push(e);
                    assert(v@.map_values(|e: &Entry| *e) =~= seq![*e]);
                },
                None => {
                    assert(v@.map_values(|e: &Entry| *e) =~= Seq::<Entry>::empty());
                },
            }
            return v;
        }
        let mut v: Vec<&Entry> = Vec::new();
        let ghost order = vstd::std_specs::hash::spec_hash_keys_iter(&self.selected).remaining().map_values(|x: &usize| *x);
        let ghost mut count: int = 0;
        for i in it: self.selected.iter()
            invariant
                it.seq().map_values(|x: &usize| *x) == order,
                count == it.index(),
                v@.map_values(|e: &Entry| *e) == rows_of(self.entries@, order.take(count)),
        {
            let ghost before = v@;
            proof {
                assert(order.take(count + 1).drop_last() =~= order.take(count));
                assert(order.take(count + 1).last() == *i);
            }
            if *i < self.entries.len() {
                v.push(&self.entries[*i]);
                assert(v@.map_values(|e: &Entry| *e) =~= before.map_values(|e: &Entry| *e).push(self.entries@[*i as int]));
            }
            proof {
                count = count + 1;
            }
        }
        proof {
            assert(count == order.len());
            assert(order.take(count) == order);
            let rem = vstd::std_specs::hash::spec_hash_keys_iter(&self.selected).remaining();
            assert(order =~= rem.unref());
            assert(rem.unref().to_set() == self.selected@);
            assert(rem.no_duplicates());
            assert(order.no_duplicates()) by {
                assert forall|a: int, b: int| 0 <= a < order.len() && 0 <= b < order.len() && a != b implies order[a] != order[b] by {
                    assert(rem[a] != rem[b]);
                }
            }
        }
        v
    }

    /// The entry under the cursor, if any.
    pub fn current_entry(&self) -> (r: Option<&Entry>)
        ensures
            match r {
                Some(e) => self.entry_at_cursor() == Some(*e),
                None => self.entry_at_cursor() is None,
            },
    {
        if self.cursor < self.entries.len() {
            Some(&self.entries[self.cursor])
        } else {
            None
        }
    }
}

/// The entries at the rows listed in `q` that hold an entry, in the order
/// of `q`.
pub open spec fn rows_of(entries: Seq<Entry>, q: Seq<usize>) -> Seq<Entry>
    decreases q.len(),
{
    if q.len() == 0 {
        Seq::empty()
    } else {
        let rest = rows_of(entries, q.drop_last());
        if q.last() < entries.len() {
            rest.push(entries[q.last() as int])
        } else {
            rest
        }
    }
}

/// Keeps the entries whose name does not start with a dot.
pub fn keep_unhidden(l: Vec<Entry>) -> (r: Vec<Entry>)
    ensures
        r@ == l@.filter(|e: Entry| !is_hidden_name(e.name@)),
{
    let ghost src = l@;
    let ghost keep = |e: Entry| !is_hidden_name(e.name@);
    let mut kept: Vec<Entry> = Vec::new();
    let mut l = l;
    let ghost mut k: int = 0;
    while l.len() > 0
        invariant
            0 <= k <= src.len(),
            keep == (|e: Entry| !is_hidden_name(e.name@)),
            l@ == src.subrange(k, src.len() as int),
            kept@ == src.subrange(0, k).filter(keep),
        decreases l.len(),
    {
        let e = l.remove(0);
        proof {
            assert(e == src[k]);
            assert(src.subrange(0, k + 1) =~= src.subrange(0, k).push(src[k]));
            src.subrange(0, k).lemma_filter_push(src[k], keep);
        }
        if !starts_with_dot(&e.name) {
            kept.push(e);
        }
        proof {
            k = k + 1;
            assert(l@ == src.subrange(k, src.len() as int));
        }
    }
    assert(src.subrange(0, k) == src);
    kept
}

/// Whether a name starts with a dot.
pub fn starts_with_dot(n: &String) -> (r: bool)
    ensures
        r == is_hidden_name(n@),
{
    let s = n.as_str();
    let mut it = s.chars();
    match it.next() {
        Some(c) => c == '.',
        None => false,
    }
}

} // verus!
