//! Decisions of the scan scheduler: a FIFO queue of targets drained into a
//! pool of at most `limit` concurrently running scans.

use vstd::prelude::*;
use crate::fsck::Target;
use crate::text::str_eq;

verus! {

impl Clone for Target {
    fn clone(&self) -> (r: Self)
        ensures
            r == *self,
    {
        match self {
            Target::ArchBuildSystem(pkg) => Target::ArchBuildSystem(pkg.clone()),
            Target::BuildPath(path) => Target::BuildPath(path.clone()),
        }
    }
}

/// What the driver does next.
#[derive(Debug)]
pub enum Action {
    /// Start a scan of this target.
    Spawn(Target),
    /// Wait for one running scan to finish, then report it.
    Wait,
    /// Nothing is running and nothing more will be started.
    Done,
}

pub struct Scheduler {
    queue: Vec<Target>,
    next: usize,
    running: usize,
    limit: usize,
    finished: usize,
}

pub struct SchedulerView {
    /// Targets not started yet, in the order they will start.
    pub pending: Seq<Target>,
    /// Scans started and not yet finished.
    pub running: nat,
    /// The most scans that may run at once.
    pub limit: nat,
    /// Scans that finished and were reported.
    pub finished: nat,
    /// Targets queued in all.
    pub total: nat,
}

impl View for Scheduler {
    type V = SchedulerView;

    closed spec fn view(&self) -> SchedulerView {
        SchedulerView {
            pending: self.queue@.subrange(self.next as int, self.queue@.len() as int),
            running: self.running as nat,
            limit: self.limit as nat,
            finished: self.finished as nat,
            total: self.queue@.len(),
        }
    }
}

/// The scheduler's invariant, as its view shows it: room for at least one
/// scan, never more scans running than the limit allows, and every target
/// pending, running or finished.
pub open spec fn sched_inv(v: SchedulerView) -> bool {
    &&& 1 <= v.limit
    &&& v.running <= v.limit
    &&& v.pending.len() + v.running + v.finished == v.total
}

/// Decreases with every step of the driver.
pub open spec fn remaining_work(v: SchedulerView) -> nat {
    2 * v.pending.len() + v.running
}

impl Scheduler {
    pub closed spec fn wf(&self) -> bool {
        &&& self.next <= self.queue@.len()
        &&& 1 <= self.limit
        &&& self.running <= self.limit
        &&& self.next == self.running + self.finished
    }

    /// A scheduler for `queue` that runs at most `limit` scans at once; at
    /// least one must be allowed, or no target would ever be scanned.
    pub fn new(queue: Vec<Target>, limit: usize) -> (r: Scheduler)
        requires
            limit >= 1,
        ensures
            r.wf(),
            r@.pending == queue@,
            r@.running == 0,
            r@.finished == 0,
            r@.limit == limit,
            r@.total == queue@.len(),
    {
        let r = Scheduler { queue, next: 0, running: 0, limit, finished: 0 };
        assert(r.queue@.subrange(0, r.queue@.len() as int) =~= r.queue@);
        r
    }

    /// Starts the next target while the pool has room; otherwise waits for a
    /// running scan; otherwise is done.
    pub fn next_action(&mut self) -> (r: Action)
        requires
            old(self).wf(),
        ensures
            final(self).wf(),
            final(self)@.limit == old(self)@.limit,
            final(self)@.total == old(self)@.total,
            final(self)@.finished == old(self)@.finished,
            match r {
                Action::Spawn(t) => {
                    &&& old(self)@.running < old(self)@.limit
                    &&& old(self)@.pending.len() > 0
                    &&& t == old(self)@.pending[0]
                    &&& final(self)@.pending == old(self)@.pending.drop_first()
                    &&& final(self)@.running == old(self)@.running + 1
                    &&& remaining_work(final(self)@) < remaining_work(old(self)@)
                },
                Action::Wait => {
                    &&& old(self)@.running > 0
                    &&& (old(self)@.running == old(self)@.limit || old(self)@.pending.len() == 0)
                    &&& final(self)@ == old(self)@
                },
                Action::Done => {
                    &&& old(self)@.running == 0
                    &&& old(self)@.pending.len() == 0
                    &&& final(self)@ == old(self)@
                },
            },
    {
        if self.running < self.limit && self.next < self.queue.len() {
            let t = self.queue[self.next].clone();
            let ghost before = self@;
            self.next = self.next + 1;
            self.running = self.running + 1;
            assert(self@.pending =~= before.pending.drop_first());
            Action::Spawn(t)
        } else if self.running > 0 {
            Action::Wait
        } else {
            Action::Done
        }
    }

    /// Records that one running scan finished and was reported.
    pub fn task_finished(&mut self)
        requires
            old(self).wf(),
            old(self)@.running > 0,
        ensures
            final(self).wf(),
            final(self)@.pending == old(self)@.pending,
            final(self)@.running == old(self)@.running - 1,
            final(self)@.finished == old(self)@.finished + 1,
            final(self)@.limit == old(self)@.limit,
            final(self)@.total == old(self)@.total,
            remaining_work(final(self)@) < remaining_work(old(self)@),
    {
        self.running = self.running - 1;
        self.finished = self.finished + 1;
    }

    pub fn running(&self) -> (r: usize)
        ensures
            r == self@.running,
    {
        self.running
    }

    pub fn finished(&self) -> (r: usize)
        ensures
            r == self@.finished,
    {
        self.finished
    }
}

/// In every state a scheduler reaches, no more scans run at once than its
/// limit allows, and each queued target is pending, running or finished.
pub proof fn lemma_never_over_limit(s: &Scheduler)
    requires
        s.wf(),
    ensures
        sched_inv(s@),
{
}

/// When nothing is pending or running, every queued target has finished and
/// been reported; this is the state in which `next_action` answers `Done`.
pub proof fn lemma_all_reported(s: &Scheduler)
    requires
        s.wf(),
        s@.running == 0,
        s@.pending.len() == 0,
    ensures
        s@.finished == s@.total,
{
}

/// The concurrency limit: the one requested, else twice the available
/// parallelism; `None` where that would allow no scan at all.
pub fn concurrency_limit(requested: Option<usize>, parallelism: usize) -> (r: Option<usize>)
    requires
        requested is None ==> parallelism <= usize::MAX / 2,
    ensures
        ({
            let limit = match requested {
                Some(n) => n as int,
                None => 2 * parallelism,
            };
            if limit >= 1 {
                r == Some(limit as usize)
            } else {
                r is None
            }
        }),
{
    let limit = match requested {
        Some(n) => n,
        None => parallelism * 2,
    };
    if limit >= 1 {
        Some(limit)
    } else {
        None
    }
}

/// Whether a directory entry of a scan directory holds a package: all but
/// the `.git` directory do.
pub fn is_package_dir(name: &str) -> (r: bool)
    ensures
        r == (name@ != ".git"@),
{
    !str_eq(name, ".git")
}

pub open spec fn targets_of(names: Seq<String>, build_path: bool) -> Seq<Target> {
    names.map_values(
        |n: String|
            if build_path {
                Target::BuildPath(n)
            } else {
                Target::ArchBuildSystem(n)
            },
    )
}

/// The queue in scan order: the packages found in scan directories, then
/// the packages to check out, then the explicit paths.
pub fn build_queue(scanned: Vec<Target>, packages: &Vec<String>, paths: &Vec<String>) -> (r: Vec<
    Target,
>)
    ensures
        r@ == scanned@ + targets_of(packages@, false) + targets_of(paths@, true),
{
    let mut r = scanned;
    let ghost start = r@;
    let mut i: usize = 0;
    while i < packages.len()
        invariant
            i <= packages@.len(),
            r@ == start + targets_of(packages@.subrange(0, i as int), false),
        decreases packages@.len() - i,
    {
        r.push(Target::ArchBuildSystem(packages[i].clone()));
        assert(targets_of(packages@.subrange(0, i + 1), false) =~= targets_of(
            packages@.subrange(0, i as int),
            false,
        ).push(Target::ArchBuildSystem(packages@[i as int])));
        i = i + 1;
    }
    assert(packages@.subrange(0, packages@.len() as int) =~= packages@);
    let ghost mid = r@;
    let mut j: usize = 0;
    while j < paths.len()
        invariant
            j <= paths@.len(),
            r@ == mid + targets_of(paths@.subrange(0, j as int), true),
        decreases paths@.len() - j,
    {
        r.push(Target::BuildPath(paths[j].clone()));
        assert(targets_of(paths@.subrange(0, j + 1), true) =~= targets_of(
            paths@.subrange(0, j as int),
            true,
        ).push(Target::BuildPath(paths@[j as int])));
        j = j + 1;
    }
    assert(paths@.subrange(0, paths@.len() as int) =~= paths@);
    r
}

} // verus!
