//! The scheduler: admits queued tasks in order up to a concurrency cap,
//! counts running and completed tasks, and announces natural completion
//! once, unless it was aborted first.

use crate::message::{build_message_sender, Message, MessageType, SenderType};
use crate::task::Task;
use crate::text::{contains, i32_text, occurs_in, parse_i32, replace, replace_all};
use std::collections::VecDeque;
use vstd::prelude::*;

verus! {

/// The cap that lets every task run at once.
pub const UNBOUNDED: usize = usize::MAX;

/// Why a concurrency cap cannot be used.
#[derive(Debug, Clone, Copy, PartialEq, Eq, Structural)]
pub enum CapError {
    /// A percentage whose number is no `i32`.
    InvalidPercentage,
    /// A number that is no `i32`.
    InvalidNumber,
    /// The cap comes out negative.
    Negative,
}

/// `pct` percent of `cpus` processing units, rounded toward zero, and no
/// more than `i32::MAX`.
pub open spec fn percent_of(cpus: nat, pct: int) -> int {
    if pct >= 0 {
        vstd::math::min((cpus * pct) / 100, i32::MAX as int)
    } else {
        -((cpus * (-pct)) / 100)
    }
}

/// The cap that `text` asks for on a machine with `cpus` processing units:
/// with a `%` anywhere, the number left once every `%` is removed is a
/// percentage of the units; otherwise the number itself.
pub open spec fn cap_value(text: Seq<char>, cpus: nat) -> Result<int, CapError> {
    if occurs_in(text, "%"@) {
        match i32_text(replace_all(text, "%"@, Seq::empty())) {
            None => Err(CapError::InvalidPercentage),
            Some(p) => if percent_of(cpus, p as int) < 0 {
                Err(CapError::Negative)
            } else {
                Ok(percent_of(cpus, p as int))
            },
        }
    } else {
        match i32_text(text) {
            None => Err(CapError::InvalidNumber),
            Some(v) => if v < 0 {
                Err(CapError::Negative)
            } else {
                Ok(v as int)
            },
        }
    }
}

/// `r` is the result `cap_value` gives.
pub open spec fn is_cap(r: Result<usize, CapError>, v: Result<int, CapError>) -> bool {
    match v {
        Ok(c) => r == Ok::<usize, CapError>(c as usize) && 0 <= c <= i32::MAX,
        Err(e) => r == Err::<usize, CapError>(e),
    }
}

/// The cap that `max` asks for on a machine with `cpus` processing units
/// (see `cap_value`).
pub fn resolve_max_processes(max: &str, cpus: usize) -> (r: Result<usize, CapError>)
    ensures
        is_cap(r, cap_value(max@, cpus as nat)),
{
    proof {
        reveal_strlit("%");
        reveal_strlit("");
    }
    if contains(max, "%") {
        let digits = replace(max, "%", "");
        assert(""@ =~= Seq::<char>::empty());
        assert(digits@ == replace_all(max@, "%"@, Seq::empty()));
        match parse_i32(digits.as_str()) {
            None => Err(CapError::InvalidPercentage),
            Some(p) => {
                if p >= 0 {
                    let a = cpus as u128;
                    let b = p as u128;
                    assert(a * b <= 0xFFFF_FFFF_FFFF_FFFFu128 * 0xFFFF_FFFFu128) by (nonlinear_arith)
                        requires
                            a <= 0xFFFF_FFFF_FFFF_FFFFu128,
                            b <= 0xFFFF_FFFFu128,
                    ;
                    let whole: u128 = a * b / 100;
                    assert(whole == (cpus as nat * p as int) / 100);
                    if whole > 2147483647 {
                        Ok(2147483647)
                    } else {
                        Ok(whole as usize)
                    }
                } else {
                    let a = cpus as u128;
                    let b = (0 - p as i64) as u128;
                    assert(a * b <= 0xFFFF_FFFF_FFFF_FFFFu128 * 0xFFFF_FFFFu128) by (nonlinear_arith)
                        requires
                            a <= 0xFFFF_FFFF_FFFF_FFFFu128,
                            b <= 0xFFFF_FFFFu128,
                    ;
                    let whole: u128 = a * b / 100;
                    assert(whole == (cpus as nat * (-p) as int) / 100);
                    if whole > 0 {
                        Err(CapError::Negative)
                    } else {
                        Ok(0)
                    }
                }
            },
        }
    } else {
        match parse_i32(max) {
            None => Err(CapError::InvalidNumber),
            Some(v) => if v < 0 {
                Err(CapError::Negative)
            } else {
                Ok(v as usize)
            },
        }
    }
}

/// Relies on num_cpus::get, the number of processing units available, which
/// its documentation promises to be at least 1.
#[verifier::external_body]
fn available_cpus() -> (r: usize)
    ensures
        r >= 1,
{
    num_cpus::get()
}

/// The concurrency cap: unbounded when none is given, else what the text
/// asks for (see `cap_value`) on this machine.
pub fn parse_max_processes(max_processes: &Option<String>) -> (r: Result<usize, CapError>)
    ensures
        max_processes is None ==> r == Ok::<usize, CapError>(UNBOUNDED),
        max_processes matches Some(t) ==> exists|cpus: nat|
            cpus >= 1 && is_cap(r, #[trigger] cap_value(t@, cpus)),
{
    match max_processes {
        Some(max) => {
            let cpus = available_cpus();
            let r = resolve_max_processes(max.as_str(), cpus);
            assert(is_cap(r, cap_value(max@, cpus as nat)));
            r
        },
        None => Ok(UNBOUNDED),
    }
}

/// The admission and completion bookkeeping of one run.
pub struct Scheduler {
    tasks: VecDeque<Task>,
    total: usize,
    max_processes: usize,
    running_processes: usize,
    completed_tasks: usize,
    aborted: bool,
    completions_announced: Ghost<nat>,
}

impl Scheduler {
    /// The tasks not yet admitted, in admission order.
    pub closed spec fn pending(&self) -> Seq<Task> {
        self.tasks@
    }

    /// The number of tasks of the run.
    pub closed spec fn total(&self) -> nat {
        self.total as nat
    }

    /// The concurrency cap.
    pub closed spec fn cap(&self) -> nat {
        self.max_processes as nat
    }

    /// The number of tasks running now.
    pub closed spec fn running(&self) -> nat {
        self.running_processes as nat
    }

    /// The number of tasks that have completed.
    pub closed spec fn completed(&self) -> nat {
        self.completed_tasks as nat
    }

    /// Whether the run was aborted.
    pub closed spec fn is_aborted(&self) -> bool {
        self.aborted
    }

    /// How many times natural completion has been announced.
    pub closed spec fn announced(&self) -> nat {
        self.completions_announced@
    }

    /// The bookkeeping is consistent: no more tasks run than the cap
    /// allows, every task is pending, running or completed, and completion
    /// has been announced once exactly when every task of a non-empty run
    /// has completed.
    pub closed spec fn wf(&self) -> bool {
        &&& self.running_processes <= self.max_processes
        &&& self.completed_tasks + self.running_processes + self.tasks@.len() == self.total
        &&& self.completions_announced@ == (if self.total > 0 && self.completed_tasks == self.total {
            1nat
        } else {
            0nat
        })
    }

    /// A scheduler with no tasks yet, which runs at most `max_processes` of
    /// them at once.
    pub fn new(max_processes: usize) -> (r: Scheduler)
        ensures
            r.wf(),
            r.pending() == Seq::<Task>::empty(),
            r.total() == 0,
            r.cap() == max_processes,
            r.running() == 0,
            r.completed() == 0,
            !r.is_aborted(),
    {
        Scheduler {
            tasks: VecDeque::new(),
            total: 0,
            max_processes,
            running_processes: 0,
            completed_tasks: 0,
            aborted: false,
            completions_announced: Ghost(0),
        }
    }

    /// Queues a task behind those already queued, before the run starts.
    pub fn add_task(&mut self, task: Task)
        requires
            old(self).wf(),
            old(self).running() == 0,
            old(self).completed() == 0,
            old(self).total() < UNBOUNDED,
        ensures
            final(self).wf(),
            final(self).pending() == old(self).pending().push(task),
            final(self).total() == old(self).total() + 1,
            final(self).cap() == old(self).cap(),
            final(self).running() == 0,
            final(self).completed() == 0,
            final(self).is_aborted() == old(self).is_aborted(),
    {
        self.tasks.push_back(task);
        self.total = self.total + 1;
    }

    /// The number of tasks of the run.
    pub fn len(&self) -> (r: usize)
        ensures
            r == self.total(),
    {
        self.total
    }

    /// The number of tasks running now.
    pub fn running_count(&self) -> (r: usize)
        ensures
            r == self.running(),
    {
        self.running_processes
    }

    /// The number of tasks that have completed.
    pub fn completed_count(&self) -> (r: usize)
        ensures
            r == self.completed(),
    {
        self.completed_tasks
    }

    /// Whether the run is over: aborted, or every task completed.
    pub fn is_finished(&self) -> (r: bool)
        ensures
            r == (self.is_aborted() || self.completed() == self.total()),
    {
        self.aborted || self.completed_tasks == self.total
    }

    /// One admission pass: takes pending tasks in queue order while fewer
    /// than the cap run, and hands them out to be started. An aborted run
    /// admits nothing.
    pub fn take_ready(&mut self) -> (r: Vec<Task>)
        requires
            old(self).wf(),
        ensures
            final(self).wf(),
            ({
                let k = if old(self).is_aborted() {
                    0
                } else {
                    vstd::math::min(
                        old(self).cap() - old(self).running(),
                        old(self).pending().len() as int,
                    )
                };
                &&& r@ == old(self).pending().take(k)
                &&& final(self).pending() == old(self).pending().skip(k)
                &&& final(self).running() == old(self).running() + k
            }),
            final(self).total() == old(self).total(),
            final(self).cap() == old(self).cap(),
            final(self).completed() == old(self).completed(),
            final(self).is_aborted() == old(self).is_aborted(),
            final(self).announced() == old(self).announced(),
    {
        let mut started: Vec<Task> = Vec::new();
        if self.aborted {
            assert(self.tasks@.take(0) =~= Seq::<Task>::empty());
            assert(self.tasks@.skip(0) =~= self.tasks@);
            return started;
        }
        let ghost pending0 = self.tasks@;
        let ghost running0 = self.running_processes;
        assert(pending0.skip(0) =~= pending0);
        while self.completed_tasks < self.total && self.running_processes < self.max_processes
            && self.running_processes + self.completed_tasks < self.total
            invariant
                self.wf(),
                !self.aborted,
                running0 <= self.running_processes,
                ({
                    let j = self.running_processes - running0;
                    &&& j <= pending0.len()
                    &&& started@ == pending0.take(j)
                    &&& self.tasks@ == pending0.skip(j)
                }),
                self.total == old(self).total(),
                self.max_processes == old(self).cap(),
                self.completed_tasks == old(self).completed(),
                self.completions_announced@ == old(self).announced(),
            decreases self.tasks@.len(),
        {
            let ghost j = self.running_processes - running0;
            match self.tasks.pop_front() {
                Some(task) => {
                    assert(pending0.take(j + 1) =~= pending0.take(j).push(task));
                    assert(pending0.skip(j + 1) =~= pending0.skip(j).subrange(1, pending0.skip(j).len() as int));
                    started.push(task);
                    self.running_processes = self.running_processes + 1;
                },
                None => {
                    assert(false);
                },
            }
        }
        proof {
            let j = self.running_processes - running0;
            assert(self.tasks@.len() == pending0.len() - j);
            let k = vstd::math::min(self.max_processes - running0, pending0.len() as int);
            assert(j == k);
        }
        started
    }

    /// Records that a running task has completed. Returns the `Complete`
    /// message when that was the last task of the run. Once the run is
    /// aborted, nothing is recorded.
    pub fn task_finished(&mut self) -> (r: Option<Message>)
        requires
            old(self).wf(),
            old(self).running() > 0 || old(self).is_aborted(),
        ensures
            final(self).wf(),
            final(self).pending() == old(self).pending(),
            final(self).total() == old(self).total(),
            final(self).cap() == old(self).cap(),
            final(self).is_aborted() == old(self).is_aborted(),
            old(self).is_aborted() ==> {
                &&& final(self).running() == old(self).running()
                &&& final(self).completed() == old(self).completed()
                &&& final(self).announced() == old(self).announced()
                &&& r is None
            },
            !old(self).is_aborted() ==> {
                &&& final(self).running() == old(self).running() - 1
                &&& final(self).completed() == old(self).completed() + 1
                &&& (r is Some <==> final(self).completed() == final(self).total())
                &&& final(self).announced() == old(self).announced() + (if r is Some {
                    1nat
                } else {
                    0nat
                })
            },
            r matches Some(m) ==> m.type_ == MessageType::Complete && m.sender.type_
                == SenderType::Scheduler && m.sender.index is None,
    {
        if self.aborted {
            return None;
        }
        self.running_processes = self.running_processes - 1;
        self.completed_tasks = self.completed_tasks + 1;
        if self.completed_tasks == self.total {
            self.completions_announced = Ghost(1);
            Some(
                Message::new(
                    MessageType::Complete,
                    None,
                    None,
                    None,
                    build_message_sender(SenderType::Scheduler, None, None),
                ),
            )
        } else {
            None
        }
    }

    /// Aborts the run: nothing more is admitted or announced. Returns how
    /// many running tasks are to be cancelled.
    pub fn abort(&mut self) -> (r: usize)
        requires
            old(self).wf(),
        ensures
            final(self).wf(),
            final(self).is_aborted(),
            r == old(self).running(),
            final(self).pending() == old(self).pending(),
            final(self).total() == old(self).total(),
            final(self).cap() == old(self).cap(),
            final(self).running() == old(self).running(),
            final(self).completed() == old(self).completed(),
            final(self).announced() == old(self).announced(),
    {
        self.aborted = true;
        self.running_processes
    }
}

/// In every state that the scheduler's operations reach, no more tasks run
/// than the cap allows, and running and completed tasks never outnumber
/// the run.
pub proof fn lemma_running_within_cap(s: &Scheduler)
    requires
        s.wf(),
    ensures
        s.running() <= s.cap(),
        s.completed() + s.running() <= s.total(),
{
}

/// Natural completion is announced at most once, and exactly once when
/// every task of a non-empty run has completed.
pub proof fn lemma_completion_announced_once(s: &Scheduler)
    requires
        s.wf(),
    ensures
        s.announced() <= 1,
        s.total() > 0 && s.completed() == s.total() ==> s.announced() == 1,
        s.completed() < s.total() ==> s.announced() == 0,
{
}

/// With an unbounded cap, one pass takes every pending task.
pub proof fn lemma_unbounded_takes_all(s: &Scheduler)
    requires
        s.wf(),
        s.cap() == UNBOUNDED,
    ensures
        vstd::math::min(s.cap() - s.running(), s.pending().len() as int) == s.pending().len(),
{
}

} // verus!
