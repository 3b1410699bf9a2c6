//! Deleting a path on the remote side, directories with everything in
//! them: a path is looked at first; a file is unlinked; a directory is
//! listed, each entry in it (but `.` and `..`) is deleted in listing order,
//! and then the directory itself is removed. A `DeleteJob` decides the next
//! step; the caller performs the SFTP calls and hands their results back.

use vstd::prelude::*;
use crate::fs::{dot_name, is_dot_name, perm_is_dir, stat_is_dir};
use crate::paths::{file_name_of, path_file_name};

verus! {

/// A piece of a deletion still to do.
pub enum RemovalTask {
    /// Look at `path` and delete it, whatever it is.
    Visit { path: String },
    /// Remove the directory `path`, emptied by then.
    RemoveDir { path: String },
}

/// The abstract value of a task.
pub enum RemovalTaskView {
    Visit { path: Seq<char> },
    RemoveDir { path: Seq<char> },
}

impl View for RemovalTask {
    type V = RemovalTaskView;

    open spec fn view(&self) -> RemovalTaskView {
        match self {
            RemovalTask::Visit { path } => RemovalTaskView::Visit { path: path@ },
            RemovalTask::RemoveDir { path } => RemovalTaskView::RemoveDir { path: path@ },
        }
    }
}

/// What the caller is asked to do next.
#[derive(Debug)]
pub enum RemovalAction {
    /// Stat `path` and hand its permissions to `DeleteJob::stat_arrived`.
    Stat { path: String },
    /// List the directory `path` and hand the paths in it to
    /// `DeleteJob::listed`.
    List { path: String },
    /// Unlink the file `path`.
    Unlink { path: String },
    /// Remove the empty directory `path`.
    RemoveDir { path: String },
    /// Nothing is left to do.
    Finished,
}

/// The abstract value of an action.
pub enum RemovalActionView {
    Stat { path: Seq<char> },
    List { path: Seq<char> },
    Unlink { path: Seq<char> },
    RemoveDir { path: Seq<char> },
    Finished,
}

impl View for RemovalAction {
    type V = RemovalActionView;

    open spec fn view(&self) -> RemovalActionView {
        match self {
            RemovalAction::Stat { path } => RemovalActionView::Stat { path: path@ },
            RemovalAction::List { path } => RemovalActionView::List { path: path@ },
            RemovalAction::Unlink { path } => RemovalActionView::Unlink { path: path@ },
            RemovalAction::RemoveDir { path } => RemovalActionView::RemoveDir { path: path@ },
            RemovalAction::Finished => RemovalActionView::Finished,
        }
    }
}

/// What a deletion is waiting for.
pub enum RemovalWait {
    Nothing,
    /// The stat of this path.
    Stat(String),
    /// The listing of this directory.
    Listing(String),
}

/// Whether an entry listed in a directory is deleted with it: all but the
/// ones whose final component is `.` or `..`.
pub open spec fn deleted_with_parent(path: Seq<char>) -> bool {
    !(file_name_of(path) matches Some(n) && is_dot_name(n))
}

/// The tasks, as a stack whose last element is done first, that delete the
/// listed `paths` in order.
pub open spec fn visits(paths: Seq<Seq<char>>) -> Seq<RemovalTaskView>
    decreases paths.len(),
{
    if paths.len() == 0 {
        Seq::empty()
    } else {
        let rest = visits(paths.drop_first());
        if deleted_with_parent(paths[0]) {
            rest.push(RemovalTaskView::Visit { path: paths[0] })
        } else {
            rest
        }
    }
}

/// The views of a sequence of tasks.
pub open spec fn removal_views(ts: Seq<RemovalTask>) -> Seq<RemovalTaskView> {
    ts.map_values(|t: RemovalTask| t@)
}

/// The views of a sequence of strings.
pub open spec fn string_views(ss: Seq<String>) -> Seq<Seq<char>> {
    ss.map_values(|s: String| s@)
}

/// A deletion in progress: the tasks left, as a stack whose last element is
/// done next, and what it waits for.
pub struct DeleteJob {
    pub tasks: Vec<RemovalTask>,
    pub awaiting: RemovalWait,
}

impl DeleteJob {
    /// The tasks left; the last is done next.
    pub open spec fn stack(&self) -> Seq<RemovalTaskView> {
        removal_views(self.tasks@)
    }

    /// What one call of `next_action` does: it takes the task on top of the
    /// stack and asks for what it needs.
    pub open spec fn advanced(a: DeleteJob, b: DeleteJob, act: RemovalActionView) -> bool {
        let st = a.stack();
        if st.len() == 0 {
            &&& act == RemovalActionView::Finished
            &&& b.stack() == st
            &&& b.awaiting is Nothing
        } else {
            &&& b.stack() == st.drop_last()
            &&& match st.last() {
                RemovalTaskView::Visit { path } => {
                    &&& act == RemovalActionView::Stat { path }
                    &&& b.awaiting matches RemovalWait::Stat(p) && p@ == path
                },
                RemovalTaskView::RemoveDir { path } => {
                    &&& act == RemovalActionView::RemoveDir { path }
                    &&& b.awaiting is Nothing
                },
            }
        }
    }

    /// A job that deletes `path`.
    pub fn new(path: String) -> (j: DeleteJob)
        ensures
            j.stack() == seq![RemovalTaskView::Visit { path: path@ }],
            j.awaiting is Nothing,
    {
        let mut tasks: Vec<RemovalTask> = Vec::new();
        tasks.push(RemovalTask::Visit { path });
        let j = DeleteJob { tasks, awaiting: RemovalWait::Nothing };
        assert(j.stack() =~= seq![RemovalTaskView::Visit { path: path@ }]);
        j
    }

    /// Takes the next task and says what to do for it.
    pub fn next_action(&mut self) -> (act: RemovalAction)
        requires
            old(self).awaiting is Nothing,
        ensures
            DeleteJob::advanced(*old(self), *final(self), act@),
    {
        match self.tasks.pop() {
            None => RemovalAction::Finished,
            Some(task) => {
                proof {
                    assert(removal_views(self.tasks@) =~= removal_views(old(self).tasks@).drop_last());
                }
                match task {
                    RemovalTask::Visit { path } => {
                        let p = path.clone();
                        self.awaiting = RemovalWait::Stat(path);
                        RemovalAction::Stat { path: p }
                    },
                    RemovalTask::RemoveDir { path } => RemovalAction::RemoveDir { path },
                }
            },
        }
    }

    /// Takes the permissions the stat of the awaited path gave: a
    /// directory is listed next, anything else is unlinked.
    pub fn stat_arrived(&mut self, perm: Option<u32>) -> (act: RemovalAction)
        requires
            old(self).awaiting is Stat,
        ensures
            final(self).stack() == old(self).stack(),
            ({
                let p = old(self).awaiting->Stat_0;
                if perm_is_dir(perm) {
                    &&& act@ == RemovalActionView::List { path: p@ }
                    &&& final(self).awaiting matches RemovalWait::Listing(q) && q == p
                } else {
                    &&& act@ == RemovalActionView::Unlink { path: p@ }
                    &&& final(self).awaiting is Nothing
                }
            }),
    {
        let mut wait = RemovalWait::Nothing;
        std::mem::swap(&mut wait, &mut self.awaiting);
        let path = match wait {
            RemovalWait::Stat(p) => p,
            _ => String::new(),
        };
        if stat_is_dir(perm) {
            let p = path.clone();
            self.awaiting = RemovalWait::Listing(path);
            RemovalAction::List { path: p }
        } else {
            RemovalAction::Unlink { path }
        }
    }

    /// Takes the paths listed in the awaited directory: each, but `.` and
    /// `..`, is deleted in order, then the directory itself is removed,
    /// before anything that was pending.
    pub fn listed(&mut self, children: Vec<String>)
        requires
            old(self).awaiting is Listing,
        ensures
            final(self).stack() == old(self).stack().push(
                RemovalTaskView::RemoveDir { path: old(self).awaiting->Listing_0@ },
            ) + visits(string_views(children@)),
            final(self).awaiting is Nothing,
    {
        let mut wait = RemovalWait::Nothing;
        std::mem::swap(&mut wait, &mut self.awaiting);
        let dir = match wait {
            RemovalWait::Listing(p) => p,
            _ => String::new(),
        };
        let ghost base = removal_views(self.tasks@).push(RemovalTaskView::RemoveDir { path: dir@ });
        self.tasks.push(RemovalTask::RemoveDir { path: dir });
        assert(removal_views(self.tasks@) =~= base);
        let ghost cs = string_views(children@);
        let mut i: usize = children.len();
        assert(cs.subrange(i as int, cs.len() as int) =~= Seq::<Seq<char>>::empty());
        while i > 0
            invariant
                i <= children.len(),
                cs == string_views(children@),
                self.awaiting is Nothing,
                removal_views(self.tasks@) == base + visits(cs.subrange(i as int, cs.len() as int)),
            decreases i,
        {
            let c = &children[i - 1];
            let keep = match path_file_name(c.as_str()) {
                Some(n) => !dot_name(&n),
                None => true,
            };
            let ghost before = removal_views(self.tasks@);
            if keep {
                self.tasks.push(RemovalTask::Visit { path: c.clone() });
            }
            proof {
                let sub = cs.subrange(i - 1, cs.len() as int);
                assert(sub.drop_first() =~= cs.subrange(i as int, cs.len() as int));
                assert(sub[0] == c@);
                assert(keep == deleted_with_parent(c@));
                let rest = visits(cs.subrange(i as int, cs.len() as int));
                let v = RemovalTaskView::Visit { path: c@ };
                assert(visits(sub) == if keep { rest.push(v) } else { rest });
                if keep {
                    assert(removal_views(self.tasks@) =~= before.push(v));
                    assert((base + rest).push(v) =~= base + rest.push(v));
                }
                assert(removal_views(self.tasks@) =~= base + visits(sub));
            }
            i = i - 1;
        }
        assert(cs.subrange(0, cs.len() as int) =~= cs);
    }
}

} // verus!
