//! The background tasks and their schedule.
use vstd::prelude::*;

verus! {

/// The time span of a number of seconds.
pub uninterp spec fn duration_of_secs(secs: u64) -> core::time::Duration;

/// Relies on `Duration::from_secs`: the span of `secs` whole seconds.
#[verifier::external_body]
fn duration_from_secs(secs: u64) -> (r: core::time::Duration)
    ensures
        r == duration_of_secs(secs),
{
    core::time::Duration::from_secs(secs)
}

pub open spec fn task_enabled(t: Task) -> bool {
    match t {
        Task::ServerSync => true,
    }
}

pub open spec fn task_interval(t: Task) -> u64 {
    match t {
        Task::ServerSync => 300,
    }
}

/// A background task.
#[derive(Clone, Copy, Debug, PartialEq, Eq, Structural)]
pub enum Task {
    ServerSync,
}

impl Task {
    /// Every task.
    pub fn all() -> (r: Vec<Task>)
        ensures
            r@ == seq![Task::ServerSync],
    {
        let mut v: Vec<Task> = Vec::new();
        v.push(Task::ServerSync);
        assert(v@ =~= seq![Task::ServerSync]);
        v
    }

    /// Whether or not the task is enabled.
    pub fn enabled(&self) -> (r: bool)
        ensures
            r == task_enabled(*self),
    {
        match self {
            Task::ServerSync => true,
        }
    }

    /// How often the task runs, in seconds.
    pub fn interval_secs(&self) -> (r: u64)
        ensures
            r == task_interval(*self),
    {
        match self {
            Task::ServerSync => 300,
        }
    }

    /// How often the task runs.
    pub fn duration(&self) -> (r: core::time::Duration)
        ensures
            r == duration_of_secs(task_interval(*self)),
    {
        duration_from_secs(self.interval_secs())
    }

    /// Description of the task.
    pub fn description(&self) -> (r: &'static str)
        ensures
            r@ == match self {
                Task::ServerSync => "Syncing servers"@,
            },
    {
        match self {
            Task::ServerSync => "Syncing servers",
        }
    }

    /// The task's name, in snake case.
    pub fn name(&self) -> (r: &'static str)
        ensures
            r@ == match self {
                Task::ServerSync => "server_sync"@,
            },
    {
        match self {
            Task::ServerSync => "server_sync",
        }
    }
}

/// The tasks to start: the enabled ones, in order.
pub fn enabled_tasks() -> (r: Vec<Task>)
    ensures
        r@ == seq![Task::ServerSync].filter(|t: Task| task_enabled(t)),
{
    let all = Task::all();
    let mut out: Vec<Task> = Vec::new();
    let mut i: usize = 0;
    while i < all.len()
        invariant
            all@ == seq![Task::ServerSync],
            i <= all@.len(),
            out@ == all@.subrange(0, i as int).filter(|t: Task| task_enabled(t)),
        decreases all@.len() - i,
    {
        let t = all[i];
        proof {
            assert(all@.subrange(0, i + 1).drop_last() =~= all@.subrange(0, i as int));
            reveal(Seq::filter);
        }
        if t.enabled() {
            out.push(t);
        }
        i = i + 1;
    }
    assert(all@.subrange(0, all@.len() as int) =~= all@);
    out
}

} // verus!
