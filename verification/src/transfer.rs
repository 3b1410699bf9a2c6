//! What copying entries from one side to the other consists of: a
//! directory is recreated under the destination and its children copied
//! into it one by one; a file is read whole and written under the same
//! name; a move deletes each entry once it has been copied. A
//! `TransferJob` decides the next step; the caller performs the reads,
//! writes, listings and deletions and hands listings back.

use vstd::prelude::*;
use crate::fs::{Entry, EntryView, FileKind};
use crate::paths::{joined, path_join};

verus! {

/// The next step of copying one entry.
pub enum CopyStep {
    /// Create `dst` (a directory), then copy each child listed in `src`
    /// into it.
    Dir { src: String, dst: String },
    /// Read the file at `src` (`size` bytes were listed) and write its bytes
    /// to `dst`; `name` is shown while it runs.
    File { src: String, dst: String, name: String, size: u64 },
}

/// Plans the copy of `entry` into the directory `dst_dir`: its destination
/// is `dst_dir` joined with its name.
pub fn copy_step(entry: &Entry, dst_dir: &str) -> (s: CopyStep)
    ensures
        entry.kind == FileKind::Dir ==> (s matches CopyStep::Dir { src, dst } && src@ == entry.path@
            && dst@ == joined(dst_dir@, entry.name@)),
        entry.kind != FileKind::Dir ==> (s matches CopyStep::File { src, dst, name, size } && src@
            == entry.path@ && dst@ == joined(dst_dir@, entry.name@) && name@ == entry.name@ && size
            == entry.size),
{
    let dst = path_join(dst_dir, entry.name.as_str());
    if entry.kind == FileKind::Dir {
        CopyStep::Dir { src: entry.path.clone(), dst }
    } else {
        CopyStep::File { src: entry.path.clone(), dst, name: entry.name.clone(), size: entry.size }
    }
}

/// One piece of work still to do in a transfer.
pub enum Task {
    /// Copy `entry` into the directory `dst_dir`.
    Copy { entry: Entry, dst_dir: String },
    /// List the directory `src` and copy each child into `dst`.
    Fill { src: String, dst: String },
    /// Delete `path` on the source side.
    Remove { path: String },
}

/// The abstract value of a task.
pub enum TaskView {
    Copy { entry: EntryView, dst_dir: Seq<char> },
    Fill { src: Seq<char>, dst: Seq<char> },
    Remove { path: Seq<char> },
}

impl View for Task {
    type V = TaskView;

    open spec fn view(&self) -> TaskView {
        match self {
            Task::Copy { entry, dst_dir } => TaskView::Copy { entry: entry@, dst_dir: dst_dir@ },
            Task::Fill { src, dst } => TaskView::Fill { src: src@, dst: dst@ },
            Task::Remove { path } => TaskView::Remove { path: path@ },
        }
    }
}

/// What the caller is asked to do next.
#[derive(Debug)]
pub enum TransferAction {
    /// Create the directory `path` on the destination side.
    MakeDir { path: String },
    /// List the directory `path` on the source side and hand the entries to
    /// `TransferJob::listed`.
    List { path: String },
    /// Read the file `src` on the source side and write its bytes to `dst`
    /// on the destination side; `name` and `size` are for the progress
    /// display.
    CopyFile { src: String, dst: String, name: String, size: u64 },
    /// Delete `path` on the source side.
    Delete { path: String },
    /// Nothing is left to do.
    Finished,
}

/// The abstract value of an action.
pub enum TransferActionView {
    MakeDir { path: Seq<char> },
    List { path: Seq<char> },
    CopyFile { src: Seq<char>, dst: Seq<char>, name: Seq<char>, size: u64 },
    Delete { path: Seq<char> },
    Finished,
}

impl View for TransferAction {
    type V = TransferActionView;

    open spec fn view(&self) -> TransferActionView {
        match self {
            TransferAction::MakeDir { path } => TransferActionView::MakeDir { path: path@ },
            TransferAction::List { path } => TransferActionView::List { path: path@ },
            TransferAction::CopyFile { src, dst, name, size } => TransferActionView::CopyFile {
                src: src@,
                dst: dst@,
                name: name@,
                size: *size,
            },
            TransferAction::Delete { path } => TransferActionView::Delete { path: path@ },
            TransferAction::Finished => TransferActionView::Finished,
        }
    }
}

/// The views of a sequence of tasks.
pub open spec fn task_views(ts: Seq<Task>) -> Seq<TaskView> {
    ts.map_values(|t: Task| t@)
}

/// The tasks, as a stack whose last element is done first, that copy
/// `entries` in order into `dst`, deleting each one after its copy when
/// `is_move`.
pub open spec fn plan(entries: Seq<EntryView>, dst: Seq<char>, is_move: bool) -> Seq<TaskView>
    decreases entries.len(),
{
    if entries.len() == 0 {
        Seq::empty()
    } else {
        let e = entries[0];
        let rest = plan(entries.drop_first(), dst, is_move);
        let after = if is_move {
            rest.push(TaskView::Remove { path: e.path })
        } else {
            rest
        };
        after.push(TaskView::Copy { entry: e, dst_dir: dst })
    }
}

/// A transfer in progress: the tasks left, as a stack whose last element
/// is done next, and, while a listing is awaited, the directory its
/// entries are to be copied into.
pub struct TransferJob {
    pub tasks: Vec<Task>,
    pub awaiting: Option<String>,
}

impl TransferJob {
    /// The tasks left; the last is done next.
    pub open spec fn stack(&self) -> Seq<TaskView> {
        task_views(self.tasks@)
    }

    /// What one call of `next_action` does: it takes the task on top of the
    /// stack and answers with the action it needs.
    pub open spec fn advanced(a: TransferJob, b: TransferJob, act: TransferActionView) -> bool {
        let st = a.stack();
        if st.len() == 0 {
            &&& act == TransferActionView::Finished
            &&& b.stack() == st
            &&& b.awaiting is None
        } else {
            let rest = st.drop_last();
            match st.last() {
                TaskView::Copy { entry, dst_dir } => {
                    let dst = joined(dst_dir, entry.name);
                    &&& b.awaiting is None
                    &&& if entry.kind == FileKind::Dir {
                        &&& act == TransferActionView::MakeDir { path: dst }
                        &&& b.stack() == rest.push(TaskView::Fill { src: entry.path, dst })
                    } else {
                        &&& act == TransferActionView::CopyFile {
                            src: entry.path,
                            dst,
                            name: entry.name,
                            size: entry.size,
                        }
                        &&& b.stack() == rest
                    }
                },
                TaskView::Fill { src, dst } => {
                    &&& act == TransferActionView::List { path: src }
                    &&& b.stack() == rest
                    &&& b.awaiting matches Some(d) && d@ == dst
                },
                TaskView::Remove { path } => {
                    &&& act == TransferActionView::Delete { path }
                    &&& b.stack() == rest
                    &&& b.awaiting is None
                },
            }
        }
    }

    /// A job that copies `entries` in order into `dst_dir`, and with
    /// `is_move` deletes each entry from the source once it is copied.
    pub fn new(entries: &Vec<Entry>, dst_dir: &str, is_move: bool) -> (j: TransferJob)
        ensures
            j.stack() == plan(entries@.map_values(|e: Entry| e@), dst_dir@, is_move),
            j.awaiting is None,
    {
        let ghost es = entries@.map_values(|e: Entry| e@);
        let mut tasks: Vec<Task> = Vec::new();
        let mut i: usize = entries.len();
        assert(es.subrange(i as int, es.len() as int) =~= Seq::<EntryView>::empty());
        while i > 0
            invariant
                i <= entries.len(),
                es == entries@.map_values(|e: Entry| e@),
                task_views(tasks@) == plan(es.subrange(i as int, es.len() as int), dst_dir@, is_move),
            decreases i,
        {
            let e = &entries[i - 1];
            if is_move {
                tasks.push(Task::Remove { path: e.path.clone() });
            }
            tasks.push(Task::Copy { entry: e.clone(), dst_dir: dst_dir.to_string() });
            proof {
                let sub = es.subrange(i - 1, es.len() as int);
                assert(sub.drop_first() =~= es.subrange(i as int, es.len() as int));
                assert(sub[0] == e@);
                assert(task_views(tasks@) =~= plan(sub, dst_dir@, is_move));
            }
            i = i - 1;
        }
        assert(es.subrange(0, es.len() as int) =~= es);
        TransferJob { tasks, awaiting: None }
    }

    /// Takes the next task and says what to do for it.
    pub fn next_action(&mut self) -> (act: TransferAction)
        requires
            old(self).awaiting is None,
        ensures
            TransferJob::advanced(*old(self), *final(self), act@),
    {
        match self.tasks.pop() {
            None => TransferAction::Finished,
            Some(task) => {
                proof {
                    assert(task_views(self.tasks@) =~= task_views(old(self).tasks@).drop_last());
                }
                match task {
                    Task::Copy { entry, dst_dir } => {
                        match copy_step(&entry, dst_dir.as_str()) {
                            CopyStep::Dir { src, dst } => {
                                let path = dst.clone();
                                let ghost before = task_views(self.tasks@);
                                self.tasks.push(Task::Fill { src, dst });
                                assert(task_views(self.tasks@) =~= before.push(task_views(self.tasks@).last()));
                                TransferAction::MakeDir { path }
                            },
                            CopyStep::File { src, dst, name, size } => TransferAction::CopyFile {
                                src,
                                dst,
                                name,
                                size,
                            },
                        }
                    },
                    Task::Fill { src, dst } => {
                        self.awaiting = Some(dst);
                        TransferAction::List { path: src }
                    },
                    Task::Remove { path } => TransferAction::Delete { path },
                }
            },
        }
    }

    /// Takes the entries of the directory whose listing was awaited: each
    /// is to be copied, in order, into that directory's copy, before
    /// anything that was pending.
    pub fn listed(&mut self, children: Vec<Entry>)
        requires
            old(self).awaiting is Some,
        ensures
            final(self).stack() == old(self).stack() + plan(
                children@.map_values(|e: Entry| e@),
                old(self).awaiting->0@,
                false,
            ),
            final(self).awaiting is None,
    {
        let dst = match self.awaiting.take() {
            Some(d) => d,
            None => String::new(),
        };
        let fresh = TransferJob::new(&children, dst.as_str(), false);
        let ghost before = task_views(self.tasks@);
        let mut more = fresh.tasks;
        self.tasks.append(&mut more);
        assert(task_views(self.tasks@) =~= before + task_views(fresh.tasks@));
    }
}

} // verus!
