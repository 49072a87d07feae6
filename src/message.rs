//! Messages between CPU threads, and the urgent queue that carries TLB
//! invalidations.
use vstd::prelude::*;
use std::collections::VecDeque;
use crate::task::{ProcessID, TaskQueue};

verus! {

broadcast use vstd::std_specs::vecdeque::group_vec_dequeue_axioms;

/// A request that a CPU thread handles at its next scheduling point, or
/// while it waits for the page manager.
#[derive(PartialEq, Eq, Structural, Clone, Copy, Debug)]
pub enum UrgentMessage {
    /// Drop the TLB entry of `addr` if the thread runs a task of `process_id`.
    TaskPageUpdate { process_id: u32, addr: usize },
    /// Drop the TLB entry of `addr`.
    KernelPageUpdate { addr: usize },
}

/// A request that a CPU thread handles when it next schedules.
#[derive(Clone, Copy, Debug)]
pub enum Message {
    /// Kill the given thread.
    KillThread(ProcessID),
    /// Kill every thread of the given process.
    KillProcess(u32),
    /// Deliver a message to a process.
    SendMessage { process: u32, message: u32, data: Option<(u64, usize)> },
}

/// The address whose TLB entry a thread running `current` must drop for
/// `msg`, if any.
pub open spec fn spec_flush_target(msg: UrgentMessage, current: Option<ProcessID>) -> Option<usize> {
    match msg {
        UrgentMessage::TaskPageUpdate { process_id, addr } => match current {
            Some(c) => if c.process == process_id { Some(addr) } else { None },
            None => None,
        },
        UrgentMessage::KernelPageUpdate { addr } => Some(addr),
    }
}

/// The addresses to flush for `msgs`, in order.
pub open spec fn flushes(msgs: Seq<UrgentMessage>, current: Option<ProcessID>) -> Seq<usize>
    decreases msgs.len(),
{
    if msgs.len() == 0 {
        Seq::empty()
    } else {
        let rest = flushes(msgs.drop_last(), current);
        match spec_flush_target(msgs.last(), current) {
            Some(a) => rest.push(a),
            None => rest,
        }
    }
}

/// The address whose TLB entry a thread running `current` must drop for
/// `msg`, if any.
pub fn flush_target(msg: UrgentMessage, current: Option<ProcessID>) -> (r: Option<usize>)
    ensures
        r == spec_flush_target(msg, current),
{
    match msg {
        UrgentMessage::TaskPageUpdate { process_id, addr } => match current {
            Some(c) => if c.process == process_id { Some(addr) } else { None },
            None => None,
        },
        UrgentMessage::KernelPageUpdate { addr } => Some(addr),
    }
}

/// The message announcing a change at `addr` in the address space of
/// `process`, or of the kernel for `None`.
pub fn shootdown_message(process: Option<u32>, addr: usize) -> (r: UrgentMessage)
    ensures
        r == match process {
            Some(p) => UrgentMessage::TaskPageUpdate { process_id: p, addr },
            None => UrgentMessage::KernelPageUpdate { addr },
        },
{
    match process {
        Some(p) => UrgentMessage::TaskPageUpdate { process_id: p, addr },
        None => UrgentMessage::KernelPageUpdate { addr },
    }
}

/// The urgent messages waiting for one CPU thread, oldest first.
pub struct UrgentQueue {
    messages: VecDeque<UrgentMessage>,
}

impl UrgentQueue {
    pub closed spec fn view(&self) -> Seq<UrgentMessage> {
        self.messages@
    }

    /// An empty queue.
    pub fn new() -> (r: UrgentQueue)
        ensures
            r@ == Seq::<UrgentMessage>::empty(),
    {
        UrgentQueue { messages: VecDeque::new() }
    }

    /// Appends `message`.
    pub fn send_urgent_message(&mut self, message: UrgentMessage)
        ensures
            final(self)@ == old(self)@.push(message),
    {
        self.messages.push_back(message);
    }

    /// How many messages wait.
    pub fn len(&self) -> (r: usize)
        ensures
            r == self@.len(),
    {
        self.messages.len()
    }

    /// Takes every waiting message, oldest first, and returns the addresses
    /// whose TLB entries a thread running `current` must drop, in order.
    pub fn process_urgent_messages(&mut self, current: Option<ProcessID>) -> (r: Vec<usize>)
        ensures
            final(self)@ == Seq::<UrgentMessage>::empty(),
            r@ == flushes(old(self)@, current),
    {
        let mut out: Vec<usize> = Vec::new();
        let ghost all = self@;
        let ghost mut k: int = 0;
        while self.messages.len() > 0
            invariant
                0 <= k <= all.len(),
                self@ == all.skip(k),
                out@ == flushes(all.take(k), current),
            decreases self@.len(),
        {
            let msg = self.messages.pop_front().unwrap();
            proof {
                assert(msg == all[k]);
                assert(all.take(k + 1).drop_last() =~= all.take(k));
                assert(all.skip(k + 1) =~= all.skip(k).drop_first());
                k = k + 1;
            }
            if let Some(a) = flush_target(msg, current) {
                out.push(a);
            }
        }
        assert(all.take(k) =~= all);
        out
    }
}

/// Queues `message` for every CPU thread but `sender`.
pub fn broadcast(queues: &mut Vec<UrgentQueue>, sender: usize, message: UrgentMessage)
    ensures
        final(queues)@.len() == old(queues)@.len(),
        forall|i: int| 0 <= i < old(queues)@.len() ==> (#[trigger] final(queues)@[i])@ == (if i == sender {
            old(queues)@[i]@
        } else {
            old(queues)@[i]@.push(message)
        }),
{
    let mut i: usize = 0;
    while i < queues.len()
        invariant
            queues@.len() == old(queues)@.len(),
            i <= queues@.len(),
            forall|j: int| 0 <= j < i ==> (#[trigger] queues@[j])@ == (if j == sender {
                old(queues)@[j]@
            } else {
                old(queues)@[j]@.push(message)
            }),
            forall|j: int| i <= j < queues@.len() ==> (#[trigger] queues@[j])@ == old(queues)@[j]@,
        decreases queues@.len() - i,
    {
        if i != sender {
            queues[i].send_urgent_message(message);
        }
        i = i + 1;
    }
}

/// What a CPU thread must do after handling a message.
#[derive(Clone, Copy, Debug)]
pub enum MessageAction {
    /// Nothing more.
    Continue,
    /// The running task was killed: switch to another one.
    SwitchAway,
    /// Deliver a message to a process.
    Deliver { process: u32, message: u32, data: Option<(u64, usize)> },
}

/// Applies `message` to the task queue of a CPU thread and says what the
/// thread must do next: a killed thread or process leaves the queue, and
/// when it is the running one the thread switches away.
pub fn handle_message(queue: &mut TaskQueue, message: Message) -> (r: MessageAction)
    ensures
        final(queue).spec_current() == old(queue).spec_current(),
        match message {
            Message::KillThread(id) => {
                &&& (forall|i: int| 0 <= i < old(queue)@.len() ==> (#[trigger] old(queue)@[i]).spec_id() != id)
                    ==> final(queue)@ == old(queue)@
                &&& forall|i: int| 0 <= i < old(queue)@.len() && (#[trigger] old(queue)@[i]).spec_id() == id
                    && (forall|j: int| 0 <= j < i ==> (#[trigger] old(queue)@[j]).spec_id() != id)
                    ==> final(queue)@ == old(queue)@.remove(i)
                &&& (match old(queue).spec_current() {
                    Some(c) => c.spec_id() == id,
                    None => false,
                }) == (r is SwitchAway)
                &&& r is SwitchAway || r is Continue
            },
            Message::KillProcess(id) => {
                &&& final(queue)@ == old(queue)@.filter(crate::task::not_of_process(id))
                &&& (match old(queue).spec_current() {
                    Some(c) => c.spec_id().process == id,
                    None => false,
                }) == (r is SwitchAway)
                &&& r is SwitchAway || r is Continue
            },
            Message::SendMessage { process, message, data } => {
                &&& final(queue)@ == old(queue)@
                &&& r matches MessageAction::Deliver { process: p, message: m, data: d } && p == process && m == message
                    && d == data
            },
        },
{
    match message {
        Message::KillThread(id) => {
            queue.remove_thread(id);
            match queue.current() {
                Some(c) => if c.id() == id { MessageAction::SwitchAway } else { MessageAction::Continue },
                None => MessageAction::Continue,
            }
        },
        Message::KillProcess(id) => {
            queue.remove_process(id);
            match queue.current() {
                Some(c) => if c.id().process == id { MessageAction::SwitchAway } else { MessageAction::Continue },
                None => MessageAction::Continue,
            }
        },
        Message::SendMessage { process, message, data } => MessageAction::Deliver { process, message, data },
    }
}

} // verus!
