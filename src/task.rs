//! Per-CPU task queues and the choice of address space they imply.
use vstd::prelude::*;
use std::collections::VecDeque;
use crate::frame::Errno;

verus! {

broadcast use vstd::std_specs::vecdeque::group_vec_dequeue_axioms;

/// A fully qualified thread id: the process and the thread within it.
#[derive(PartialEq, Eq, Structural, Clone, Copy, Debug)]
pub struct ProcessID {
    pub process: u32,
    pub thread: u32,
}

/// The id of a hardware thread: its core and its thread within the core.
#[derive(PartialEq, Eq, Structural, Clone, Copy, Debug)]
pub struct ThreadID {
    pub core: usize,
    pub thread: usize,
}

/// An entry of a task queue: a thread and its priority byte, whose high
/// nibble holds the priority plus 7 and whose low nibble holds the
/// sub-priority plus 7.
#[derive(PartialEq, Eq, Structural, Clone, Copy, Debug)]
pub struct TaskQueueEntry {
    id: ProcessID,
    priority: u8,
}

/// Whether `p` is a priority that a nibble holds.
pub open spec fn priority_ok(p: i8) -> bool {
    -7 <= p <= 8
}

impl TaskQueueEntry {
    pub closed spec fn spec_id(&self) -> ProcessID {
        self.id
    }

    pub closed spec fn spec_full_priority(&self) -> u8 {
        self.priority
    }

    /// An entry for thread `id` with `priority` and a neutral sub-priority.
    pub fn new(id: ProcessID, priority: i8) -> (r: TaskQueueEntry)
        requires
            priority_ok(priority),
        ensures
            r.spec_id() == id,
            r.spec_full_priority() == (priority + 7) * 16 + 7,
    {
        let hi: u8 = (priority + 7) as u8;
        assert(hi < 16 ==> (hi << 4u8) | 7u8 == hi * 16 + 7) by (bit_vector);
        TaskQueueEntry { priority: (hi << 4u8) | 7u8, id }
    }

    /// The priority.
    pub fn priority(&self) -> (r: i8)
        ensures
            r == self.spec_full_priority() / 16 - 7,
    {
        let p = self.priority;
        assert(p >> 4u8 == p / 16) by (bit_vector);
        (self.priority >> 4u8) as i8 - 7
    }

    /// Replaces the priority and keeps the sub-priority.
    pub fn set_priority(&mut self, priority: i8)
        requires
            priority_ok(priority),
        ensures
            final(self).spec_id() == old(self).spec_id(),
            final(self).spec_full_priority() == (priority + 7) * 16 + old(self).spec_full_priority() % 16,
    {
        let hi: u8 = (priority + 7) as u8;
        let p = self.priority;
        assert(hi < 16 ==> (p & 0x0fu8) | (hi << 4u8) == hi * 16 + p % 16) by (bit_vector);
        self.priority = (self.priority & 0x0fu8) | (hi << 4u8);
    }

    /// The sub-priority.
    pub fn sub_priority(&self) -> (r: i8)
        ensures
            r == self.spec_full_priority() % 16 - 7,
    {
        let p = self.priority;
        assert(p & 0xfu8 == p % 16) by (bit_vector);
        (self.priority & 0xfu8) as i8 - 7
    }

    /// Replaces the sub-priority and keeps the priority.
    pub fn set_sub_priority(&mut self, sub_priority: i8)
        requires
            priority_ok(sub_priority),
        ensures
            final(self).spec_id() == old(self).spec_id(),
            final(self).spec_full_priority() == old(self).spec_full_priority() / 16 * 16 + sub_priority + 7,
    {
        let lo: u8 = (sub_priority + 7) as u8;
        let p = self.priority;
        assert(lo < 16 ==> (p & 0xf0u8) | lo == p / 16 * 16 + lo) by (bit_vector);
        self.priority = (self.priority & 0xf0u8) | lo;
    }

    /// The priority byte; a greater byte runs first.
    pub fn full_priority(&self) -> (r: u8)
        ensures
            r == self.spec_full_priority(),
    {
        self.priority
    }

    /// The thread this entry stands for.
    pub fn id(&self) -> (r: ProcessID)
        ensures
            r == self.spec_id(),
    {
        self.id
    }
}

/// The tasks of one CPU thread: the one running and those waiting, highest
/// priority first.
pub struct TaskQueue {
    current: Option<TaskQueueEntry>,
    queue: VecDeque<TaskQueueEntry>,
    /// The time slice of the running task.
    pub timer: Option<u64>,
}

/// Where `entry` goes in `q`: before the first entry of lower priority.
pub open spec fn insert_position(q: Seq<TaskQueueEntry>, entry: TaskQueueEntry) -> int {
    if exists|i: int| 0 <= i < q.len() && entry.spec_full_priority() > #[trigger] q[i].spec_full_priority() {
        choose|i: int| 0 <= i < q.len() && entry.spec_full_priority() > #[trigger] q[i].spec_full_priority()
            && forall|j: int| 0 <= j < i ==> entry.spec_full_priority() <= #[trigger] q[j].spec_full_priority()
    } else {
        q.len() as int
    }
}

/// Whether an entry belongs to a process other than `id`.
pub open spec fn not_of_process(id: u32) -> spec_fn(TaskQueueEntry) -> bool {
    |e: TaskQueueEntry| e.spec_id().process != id
}

impl TaskQueue {
    /// The waiting tasks, in order.
    pub closed spec fn view(&self) -> Seq<TaskQueueEntry> {
        self.queue@
    }

    pub closed spec fn spec_current(&self) -> Option<TaskQueueEntry> {
        self.current
    }

    pub closed spec fn spec_timer(&self) -> Option<u64> {
        self.timer
    }

    /// An empty queue with nothing running.
    pub fn new() -> (r: TaskQueue)
        ensures
            r@ == Seq::<TaskQueueEntry>::empty(),
            r.spec_current() is None,
            r.spec_timer() is None,
    {
        TaskQueue { current: None, queue: VecDeque::new(), timer: None }
    }

    /// Makes the first waiting task the running one, and returns it.
    pub fn consume(&mut self) -> (r: Option<&TaskQueueEntry>)
        ensures
            old(self)@.len() == 0 ==> r is None && final(self)@ == old(self)@ && final(self).spec_current() is None,
            old(self)@.len() > 0 ==> r == Some(&old(self)@[0]) && final(self)@ == old(self)@.drop_first()
                && final(self).spec_current() == Some(old(self)@[0]),
            final(self).spec_timer() == old(self).spec_timer(),
    {
        self.current = self.queue.pop_front();
        self.current.as_ref()
    }

    /// Adds `entry` before the first waiting task of lower priority;
    /// `Exists` when its thread is already waiting.
    pub fn insert(&mut self, entry: TaskQueueEntry) -> (r: Result<(), Errno>)
        ensures
            (exists|i: int| 0 <= i < old(self)@.len() && (#[trigger] old(self)@[i]).spec_id() == entry.spec_id()) ==> {
                &&& r == Err::<(), Errno>(Errno::Exists)
                &&& final(self)@ == old(self)@
            },
            !(exists|i: int| 0 <= i < old(self)@.len() && (#[trigger] old(self)@[i]).spec_id() == entry.spec_id()) ==> {
                &&& r is Ok
                &&& final(self)@ == old(self)@.insert(insert_position(old(self)@, entry), entry)
            },
            final(self).spec_current() == old(self).spec_current(),
            final(self).spec_timer() == old(self).spec_timer(),
    {
        let mut position: Option<usize> = None;
        let mut idx: usize = 0;
        while idx < self.queue.len()
            invariant
                *self == *old(self),
                idx <= self@.len(),
                forall|j: int| 0 <= j < idx ==> (#[trigger] self@[j]).spec_id() != entry.spec_id(),
                match position {
                    Some(p) => p < idx && entry.spec_full_priority() > self@[p as int].spec_full_priority()
                        && forall|j: int| 0 <= j < p ==> entry.spec_full_priority() <= #[trigger] self@[j].spec_full_priority(),
                    None => forall|j: int| 0 <= j < idx ==> entry.spec_full_priority() <= #[trigger] self@[j].spec_full_priority(),
                },
            decreases self@.len() - idx,
        {
            let item = self.queue[idx];
            if item.id() == entry.id() {
                return Err(Errno::Exists);
            } else if position.is_none() && entry.full_priority() > item.full_priority() {
                position = Some(idx);
            }
            idx = idx + 1;
        }
        match position {
            Some(p) => {
                proof {
                    let q = old(self)@;
                    let c = choose|i: int| 0 <= i < q.len() && entry.spec_full_priority() > #[trigger] q[i].spec_full_priority()
                        && forall|j: int| 0 <= j < i ==> entry.spec_full_priority() <= #[trigger] q[j].spec_full_priority();
                    assert(0 <= p < q.len() && entry.spec_full_priority() > q[p as int].spec_full_priority());
                    if c < p {
                        assert(entry.spec_full_priority() <= q[c].spec_full_priority());
                    } else if c > p {
                        assert(entry.spec_full_priority() <= q[p as int].spec_full_priority());
                    }
                }
                self.queue.insert(p, entry);
            },
            None => {
                self.queue.push_back(entry);
                assert(old(self)@.insert(old(self)@.len() as int, entry) =~= old(self)@.push(entry));
            },
        }
        Ok(())
    }

    /// Whether no task is waiting.
    pub fn is_empty(&self) -> (r: bool)
        ensures
            r == (self@.len() == 0),
    {
        self.queue.len() == 0
    }

    /// How many tasks are waiting.
    pub fn len(&self) -> (r: usize)
        ensures
            r == self@.len(),
    {
        self.queue.len()
    }

    /// The running task.
    pub fn current(&self) -> (r: Option<TaskQueueEntry>)
        ensures
            r == self.spec_current(),
    {
        self.current
    }

    /// Removes the first waiting entry of thread `id`.
    pub fn remove_thread(&mut self, id: ProcessID)
        ensures
            (forall|i: int| 0 <= i < old(self)@.len() ==> (#[trigger] old(self)@[i]).spec_id() != id) ==> final(self)@ == old(self)@,
            forall|i: int| 0 <= i < old(self)@.len() && (#[trigger] old(self)@[i]).spec_id() == id
                && (forall|j: int| 0 <= j < i ==> (#[trigger] old(self)@[j]).spec_id() != id)
                ==> final(self)@ == old(self)@.remove(i),
            final(self).spec_current() == old(self).spec_current(),
            final(self).spec_timer() == old(self).spec_timer(),
    {
        let mut idx: usize = 0;
        while idx < self.queue.len()
            invariant
                *self == *old(self),
                idx <= self@.len(),
                forall|j: int| 0 <= j < idx ==> (#[trigger] self@[j]).spec_id() != id,
            decreases self@.len() - idx,
        {
            if self.queue[idx].id() == id {
                self.queue.remove(idx);
                return;
            }
            idx = idx + 1;
        }
    }

    /// Removes every waiting entry of process `id`.
    pub fn remove_process(&mut self, id: u32)
        ensures
            final(self)@ == old(self)@.filter(not_of_process(id)),
            final(self).spec_current() == old(self).spec_current(),
            final(self).spec_timer() == old(self).spec_timer(),
    {
        let mut kept: VecDeque<TaskQueueEntry> = VecDeque::new();
        let mut idx: usize = 0;
        while idx < self.queue.len()
            invariant
                self@ == old(self)@,
                self.spec_current() == old(self).spec_current(),
                self.timer == old(self).timer,
                idx <= self@.len(),
                kept@ == self@.subrange(0, idx as int).filter(not_of_process(id)),
            decreases self@.len() - idx,
        {
            let e = self.queue[idx];
            proof {
                let s = self@.subrange(0, idx as int + 1);
                assert(s.drop_last() =~= self@.subrange(0, idx as int));
                assert(s.last() == e);
                reveal(Seq::filter);
                assert(self@.subrange(0, idx as int).push(e) =~= s);
            }
            if e.id().process != id {
                kept.push_back(e);
            }
            idx = idx + 1;
        }
        assert(self@.subrange(0, self@.len() as int) =~= self@);
        self.queue = kept;
    }
}

/// Which address space a call acts on: that of a process, or the kernel's.
#[derive(PartialEq, Eq, Structural, Clone, Copy, Debug)]
pub enum ProcessOrKernelPageDir {
    Process(u32),
    Kernel,
}

/// The address space of the task running on a CPU thread, `current`, or
/// the kernel's when none runs.
pub fn get_page_dir(current: Option<TaskQueueEntry>) -> (r: ProcessOrKernelPageDir)
    ensures
        r == match current {
            Some(e) => ProcessOrKernelPageDir::Process(e.spec_id().process),
            None => ProcessOrKernelPageDir::Kernel,
        },
{
    match current {
        Some(e) => ProcessOrKernelPageDir::Process(e.id().process),
        None => ProcessOrKernelPageDir::Kernel,
    }
}

} // verus!
