//! The scheduling decisions behind the background flush cadence: which
//! registered task fires next, and when a finished task fires again.
use vstd::prelude::*;

verus! {

/// One registered periodic task: when it next fires, how often it
/// repeats, and which callback it stands for.
#[derive(Debug, Clone, Copy, PartialEq, Eq, Structural)]
pub struct ScheduledTask {
    /// When the task fires next, in microseconds.
    pub next_fire_us: u64,
    /// The task's period, in microseconds.
    pub period_us: u64,
    /// An opaque identifier for the callback to run.
    pub task_id: u64,
}

/// When a task that just ran at `now_us` fires again: one period from
/// now, not one period from its intended time — an overrunning task never
/// builds up a catch-up burst.
pub fn next_fire_after(now_us: u64, period_us: u64) -> (r: u64)
    ensures
        now_us + period_us <= u64::MAX ==> r == now_us + period_us,
        now_us + period_us > u64::MAX ==> r == u64::MAX,
{
    if period_us <= u64::MAX - now_us {
        now_us + period_us
    } else {
        u64::MAX
    }
}

/// The queue of registered periodic tasks the timer thread serves.
pub struct Scheduler {
    tasks: Vec<ScheduledTask>,
}

impl Scheduler {
    /// The registered tasks, in registration order.
    pub closed spec fn spec_tasks(&self) -> Seq<ScheduledTask> {
        self.tasks@
    }

    /// An empty schedule.
    pub fn new() -> (r: Scheduler)
        ensures
            r.spec_tasks() =~= Seq::<ScheduledTask>::empty(),
    {
        Scheduler { tasks: Vec::new() }
    }

    /// Register a task to first fire one period from `now_us`.
    pub fn schedule(&mut self, period_us: u64, task_id: u64, now_us: u64)
        ensures
            final(self).spec_tasks().len() == old(self).spec_tasks().len() + 1,
            final(self).spec_tasks().drop_last() =~= old(self).spec_tasks(),
            ({
                let t = final(self).spec_tasks().last();
                &&& t.period_us == period_us
                &&& t.task_id == task_id
                &&& (now_us + period_us <= u64::MAX ==> t.next_fire_us == now_us + period_us)
                &&& (now_us + period_us > u64::MAX ==> t.next_fire_us == u64::MAX)
            }),
    {
        let next = next_fire_after(now_us, period_us);
        self.tasks.push(ScheduledTask { next_fire_us: next, period_us, task_id });
        proof {
            assert(self.tasks@.drop_last() =~= old(self).tasks@);
        }
    }

    /// Put a task that just ran back on the schedule, firing one period
    /// after `now_us`.
    pub fn reschedule(&mut self, task: &ScheduledTask, now_us: u64)
        ensures
            final(self).spec_tasks().len() == old(self).spec_tasks().len() + 1,
            final(self).spec_tasks().drop_last() =~= old(self).spec_tasks(),
            ({
                let t = final(self).spec_tasks().last();
                &&& t.period_us == task.period_us
                &&& t.task_id == task.task_id
                &&& (now_us + task.period_us <= u64::MAX ==> t.next_fire_us == now_us
                    + task.period_us)
                &&& (now_us + task.period_us > u64::MAX ==> t.next_fire_us == u64::MAX)
            }),
    {
        self.schedule(task.period_us, task.task_id, now_us);
    }

    /// Take the earliest task that is due at `now_us`, if any. `None`
    /// means every task still waits, and the schedule is unchanged.
    pub fn pop_due(&mut self, now_us: u64) -> (r: Option<ScheduledTask>)
        ensures
            r is None ==> final(self).spec_tasks() == old(self).spec_tasks() && forall|j: int|
                0 <= j < old(self).spec_tasks().len() ==> (#[trigger] old(
                    self,
                ).spec_tasks()[j]).next_fire_us > now_us,
            r matches Some(t) ==> t.next_fire_us <= now_us,
            r matches Some(t) ==> forall|j: int|
                0 <= j < old(self).spec_tasks().len() ==> t.next_fire_us <= (#[trigger] old(
                    self,
                ).spec_tasks()[j]).next_fire_us,
            r matches Some(t) ==> exists|i: int|
                0 <= i < old(self).spec_tasks().len() && old(self).spec_tasks()[i] == t
                    && final(self).spec_tasks() =~= old(self).spec_tasks().remove(i),
    {
        if self.tasks.len() == 0 {
            return None;
        }
        let mut best: usize = 0;
        let mut i: usize = 1;
        while i < self.tasks.len()
            invariant
                best < i <= self.tasks@.len(),
                forall|j: int|
                    0 <= j < i ==> self.tasks@[best as int].next_fire_us <= (
                    #[trigger] self.tasks@[j]).next_fire_us,
            decreases self.tasks@.len() - i,
        {
            if self.tasks[i].next_fire_us < self.tasks[best].next_fire_us {
                best = i;
            }
            i = i + 1;
        }
        if self.tasks[best].next_fire_us <= now_us {
            let ghost before = self.tasks@;
            let t = self.tasks.remove(best);
            proof {
                assert(before == old(self).spec_tasks());
                assert(0 <= best < old(self).spec_tasks().len() && old(self).spec_tasks()[best as int]
                    == t && self.spec_tasks() =~= old(self).spec_tasks().remove(best as int));
            }
            Some(t)
        } else {
            None
        }
    }
}

} // verus!
