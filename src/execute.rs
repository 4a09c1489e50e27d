//! Decisions of the download and install stage.
//!
//! Downloads run as independent tasks, at most a fixed number at once; a
//! failed task does not stop the others, and the batch fails only once all
//! have run. A rate limit stops new tasks from starting.

use vstd::prelude::*;
use crate::resolve::{pending_count, lemma_pending_push_none, lemma_pending_some, lemma_pending_update, lemma_pending_zero};
use crate::source::folded;

verus! {

/// How one download task ended.
pub enum TaskOutcome {
    Done,
    Failed(String),
    /// The platform refused for too many requests: start no more tasks.
    RateLimited,
}

/// Why a batch failed: the tasks that failed, by index, and how many never ran.
pub struct BatchFailed {
    pub failed: Vec<usize>,
    pub not_run: usize,
}

/// The state of a batch of download tasks, numbered from 0.
pub struct Batch {
    total: usize,
    limit: usize,
    outcomes: Vec<Option<TaskOutcome>>,
    running: usize,
    stopped: bool,
}

pub open spec fn task_ok(o: Option<TaskOutcome>) -> bool {
    o matches Some(TaskOutcome::Done)
}

pub open spec fn task_failed(o: Option<TaskOutcome>) -> bool {
    o is Some && !task_ok(o)
}

/// The indices of the failed tasks, in order.
pub open spec fn failed_indices(s: Seq<Option<TaskOutcome>>) -> Seq<usize>
    decreases s.len(),
{
    if s.len() == 0 {
        Seq::empty()
    } else {
        let p = failed_indices(s.drop_last());
        if task_failed(s.last()) {
            p.push((s.len() - 1) as usize)
        } else {
            p
        }
    }
}

impl Batch {
    pub closed spec fn total(&self) -> nat {
        self.total as nat
    }

    pub closed spec fn limit(&self) -> nat {
        self.limit as nat
    }

    /// The outcome of each task started so far; a task's index is its position.
    pub closed spec fn outcomes(&self) -> Seq<Option<TaskOutcome>> {
        self.outcomes@
    }

    pub closed spec fn running(&self) -> nat {
        self.running as nat
    }

    pub closed spec fn stopped(&self) -> bool {
        self.stopped
    }

    pub closed spec fn wf(&self) -> bool {
        &&& self.limit > 0
        &&& self.outcomes@.len() <= self.total
        &&& self.running as nat == pending_count(self.outcomes@)
        &&& (self.stopped <==> exists|i: int| 0 <= i < self.outcomes@.len() && #[trigger] self.outcomes@[i] matches Some(TaskOutcome::RateLimited))
    }

    pub open spec fn finished(&self) -> bool {
        self.running() == 0 && (self.stopped() || self.outcomes().len() == self.total())
    }

    /// A batch of `total` tasks, at most `limit` of them running at once.
    pub fn new(total: usize, limit: usize) -> (r: Batch)
        requires
            limit > 0,
        ensures
            r.wf(),
            r.total() == total,
            r.limit() == limit,
            r.outcomes().len() == 0,
            r.running() == 0,
            !r.stopped(),
    {
        Batch { total, limit, outcomes: Vec::new(), running: 0, stopped: false }
    }

    pub fn is_finished(&self) -> (r: bool)
        ensures
            r == self.finished(),
    {
        self.running == 0 && (self.stopped || self.outcomes.len() == self.total)
    }

    /// Returns whether task `index` is running.
    pub fn is_running(&self, index: usize) -> (r: bool)
        ensures
            r == (index < self.outcomes().len() && self.outcomes()[index as int] is None),
    {
        index < self.outcomes.len() && self.outcomes[index].is_none()
    }

    /// The next task to start, if the batch is not stopped, a slot is free
    /// and a task is left.
    pub fn next_task(&mut self) -> (r: Option<usize>)
        requires
            old(self).wf(),
        ensures
            final(self).wf(),
            final(self).total() == old(self).total(),
            final(self).limit() == old(self).limit(),
            final(self).stopped() == old(self).stopped(),
            (!old(self).stopped() && old(self).running() < old(self).limit() && old(self).outcomes().len()
                < old(self).total()) ==> {
                &&& r == Some(old(self).outcomes().len() as usize)
                &&& final(self).outcomes() == old(self).outcomes().push(None)
                &&& final(self).running() == old(self).running() + 1
            },
            !(!old(self).stopped() && old(self).running() < old(self).limit() && old(self).outcomes().len()
                < old(self).total()) ==> r is None && final(self).outcomes() == old(self).outcomes()
                && final(self).running() == old(self).running(),
    {
        if self.stopped || self.running >= self.limit || self.outcomes.len() >= self.total {
            return None;
        }
        let index = self.outcomes.len();
        proof { lemma_pending_push_none(self.outcomes@); }
        let ghost before = self.outcomes@;
        self.outcomes.push(None);
        self.running = self.running + 1;
        proof {
            assert(self.outcomes@.drop_last() =~= before);
            if exists|i: int| 0 <= i < self.outcomes@.len() && #[trigger] self.outcomes@[i] matches Some(TaskOutcome::RateLimited) {
                let i = choose|i: int| 0 <= i < self.outcomes@.len() && #[trigger] self.outcomes@[i] matches Some(TaskOutcome::RateLimited);
                assert(before[i] == self.outcomes@[i]);
            }
            if self.stopped {
                let i = choose|i: int| 0 <= i < before.len() && #[trigger] before[i] matches Some(TaskOutcome::RateLimited);
                assert(before[i] == self.outcomes@[i]);
            }
        }
        Some(index)
    }

    /// Records how running task `index` ended. A failure is kept and the
    /// batch goes on; a rate limit also stops new tasks from starting.
    pub fn record(&mut self, index: usize, outcome: TaskOutcome)
        requires
            old(self).wf(),
            index < old(self).outcomes().len(),
            old(self).outcomes()[index as int] is None,
        ensures
            final(self).wf(),
            final(self).total() == old(self).total(),
            final(self).limit() == old(self).limit(),
            final(self).outcomes() == old(self).outcomes().update(index as int, Some(outcome)),
            final(self).running() + 1 == old(self).running(),
            final(self).stopped() == (old(self).stopped() || outcome is RateLimited),
    {
        proof {
            lemma_pending_some(self.outcomes@, index as int);
            lemma_pending_update(self.outcomes@, index as int, Some(outcome));
        }
        let limited = match &outcome {
            TaskOutcome::RateLimited => true,
            _ => false,
        };
        let ghost before = self.outcomes@;
        self.outcomes.set(index, Some(outcome));
        self.running = self.running - 1;
        if limited {
            self.stopped = true;
        }
        proof {
            if limited {
                assert(self.outcomes@[index as int] matches Some(TaskOutcome::RateLimited));
            } else if exists|i: int| 0 <= i < self.outcomes@.len() && #[trigger] self.outcomes@[i] matches Some(TaskOutcome::RateLimited) {
                let i = choose|i: int| 0 <= i < self.outcomes@.len() && #[trigger] self.outcomes@[i] matches Some(TaskOutcome::RateLimited);
                assert(i != index);
                assert(before[i] == self.outcomes@[i]);
            } else if old(self).stopped {
                let i = choose|i: int| 0 <= i < before.len() && #[trigger] before[i] matches Some(TaskOutcome::RateLimited);
                assert(i != index);
                assert(before[i] == self.outcomes@[i]);
            }
        }
    }

    /// Ends a finished batch: `Ok` exactly when every task ran and succeeded.
    pub fn finish(self) -> (r: Result<(), BatchFailed>)
        requires
            self.wf(),
            self.finished(),
        ensures
            r is Ok <==> (self.outcomes().len() == self.total() && forall|i: int|
                0 <= i < self.outcomes().len() ==> #[trigger] task_ok(self.outcomes()[i])),
            r matches Err(e) ==> e.failed@ == failed_indices(self.outcomes()) && e.not_run == self.total()
                - self.outcomes().len(),
    {
        proof { lemma_pending_zero(self.outcomes@); }
        let mut failed: Vec<usize> = Vec::new();
        let mut i: usize = 0;
        while i < self.outcomes.len()
            invariant
                i <= self.outcomes@.len(),
                self.outcomes@.len() <= self.total,
                forall|k: int| 0 <= k < self.outcomes@.len() ==> #[trigger] self.outcomes@[k] is Some,
                failed@ == failed_indices(self.outcomes@.subrange(0, i as int)),
                (failed@.len() == 0) <==> forall|k: int| 0 <= k < i ==> #[trigger] task_ok(self.outcomes@[k]),
            decreases self.outcomes@.len() - i,
        {
            let ghost prefix = self.outcomes@.subrange(0, i + 1);
            assert(prefix.drop_last() =~= self.outcomes@.subrange(0, i as int));
            let ok = match &self.outcomes[i] {
                Some(TaskOutcome::Done) => true,
                _ => false,
            };
            let ghost before = failed@;
            if !ok {
                failed.push(i);
            }
            proof {
                assert(ok == task_ok(self.outcomes@[i as int]));
                assert((failed@.len() == 0) <==> forall|k: int| 0 <= k < i + 1 ==> #[trigger] task_ok(self.outcomes@[k])) by {
                    if ok {
                        assert(failed@ == before);
                        assert forall|k: int| 0 <= k < i + 1 && (forall|m: int| 0 <= m < i ==> #[trigger] task_ok(self.outcomes@[m])) implies #[trigger] task_ok(self.outcomes@[k]) by {
                            if k < i {
                                assert(task_ok(self.outcomes@[k]));
                            }
                        }
                    } else {
                        assert(failed@.len() > 0);
                    }
                }
            }
            i = i + 1;
        }
        assert(self.outcomes@.subrange(0, i as int) =~= self.outcomes@);
        if failed.len() == 0 && self.outcomes.len() == self.total {
            Ok(())
        } else {
            Err(BatchFailed { failed, not_run: self.total - self.outcomes.len() })
        }
    }
}

/// What an install source on disk turned out to be.
#[derive(Clone, Copy, Debug, PartialEq, Eq, Structural)]
pub enum PathKind {
    File,
    Directory,
    Neither,
}

/// How a placement is carried out.
#[derive(Clone, Copy, Debug, PartialEq, Eq, Structural)]
pub enum InstallMethod {
    CopyFile,
    /// Copy the directory recursively, overwriting what is there.
    CopyDirectory,
}

/// An install source that is neither a file nor a directory.
#[derive(Debug, PartialEq, Eq)]
pub struct UnknownInstallSource;

/// A file is copied, a directory copied recursively; anything else is an error.
pub fn install_method(kind: PathKind) -> (r: Result<InstallMethod, UnknownInstallSource>)
    ensures
        kind == PathKind::File ==> r == Ok::<InstallMethod, UnknownInstallSource>(InstallMethod::CopyFile),
        kind == PathKind::Directory ==> r == Ok::<InstallMethod, UnknownInstallSource>(InstallMethod::CopyDirectory),
        kind == PathKind::Neither ==> r is Err,
{
    match kind {
        PathKind::File => Ok(InstallMethod::CopyFile),
        PathKind::Directory => Ok(InstallMethod::CopyDirectory),
        PathKind::Neither => Err(UnknownInstallSource),
    }
}

/// The name has a `zip` extension, in any case, after a non-empty stem.
pub open spec fn has_zip_extension(n: Seq<char>) -> bool {
    &&& n.len() >= 5
    &&& n[n.len() - 4] == '.'
    &&& folded(n[n.len() - 3]) == 'z' as u32
    &&& folded(n[n.len() - 2]) == 'i' as u32
    &&& folded(n[n.len() - 1]) == 'p' as u32
}

fn fold_char(c: char) -> (r: u32)
    ensures
        r == folded(c),
{
    if 'A' <= c && c <= 'Z' {
        c as u32 + 32
    } else {
        c as u32
    }
}

/// Where a file listed by a modpack goes, relative to the game directory:
/// archives are resource packs, everything else a mod.
pub fn modpack_file_output(filename: &String) -> (r: String)
    ensures
        r@ == (if has_zip_extension(filename@) { "resourcepacks/"@ } else { "mods/"@ }) + filename@,
{
    let s = filename.as_str();
    let n = s.unicode_len();
    let zip = n >= 5 && s.get_char(n - 4) == '.' && fold_char(s.get_char(n - 3)) == 'z' as u32
        && fold_char(s.get_char(n - 2)) == 'i' as u32 && fold_char(s.get_char(n - 1)) == 'p' as u32;
    let mut out = if zip {
        String::from_str("resourcepacks/")
    } else {
        String::from_str("mods/")
    };
    out.append(s);
    out
}

} // verus!
