use kernel_mm::cpu::{find_busiest_thread, find_emptiest_thread, find_thread_to_add_to, find_thread_to_steal_from};
use kernel_mm::directory::PageDirectory;
use kernel_mm::frame::PageFrame;
use kernel_mm::message::{
    broadcast, flush_target, handle_message, shootdown_message, Message, MessageAction, UrgentMessage, UrgentQueue,
};
use kernel_mm::pagedir::PageDir;
use kernel_mm::task::{get_page_dir, ProcessID, ProcessOrKernelPageDir, TaskQueue, TaskQueueEntry, ThreadID};

fn pid(process: u32, thread: u32) -> ProcessID {
    ProcessID { process, thread }
}

#[test]
fn entry_priorities() {
    let mut e = TaskQueueEntry::new(pid(1, 0), 0);
    assert_eq!(e.full_priority(), 0x77);
    assert_eq!(e.priority(), 0);
    assert_eq!(e.sub_priority(), 0);
    e.set_sub_priority(3);
    assert_eq!(e.full_priority(), 0x7a);
    e.set_priority(-7);
    assert_eq!(e.full_priority(), 0x0a);
    assert_eq!(e.priority(), -7);
    assert_eq!(e.sub_priority(), 3);
    assert_eq!(TaskQueueEntry::new(pid(1, 0), 8).full_priority(), 0xf7);
    assert_eq!(e.id(), pid(1, 0));
}

#[test]
fn queue_orders_by_priority() {
    let mut q = TaskQueue::new();
    assert!(q.is_empty());
    q.insert(TaskQueueEntry::new(pid(1, 0), 0)).unwrap();
    q.insert(TaskQueueEntry::new(pid(2, 0), 2)).unwrap();
    q.insert(TaskQueueEntry::new(pid(3, 0), 0)).unwrap();
    q.insert(TaskQueueEntry::new(pid(4, 0), -1)).unwrap();
    assert_eq!(q.len(), 4);
    assert!(q.insert(TaskQueueEntry::new(pid(3, 0), 5)).is_err());
    let order: Vec<u32> = (0..4).map(|_| q.consume().unwrap().id().process).collect();
    assert_eq!(order, vec![2, 1, 3, 4]);
    assert!(q.consume().is_none());
    assert!(q.current().is_none());
}

#[test]
fn queue_removals() {
    let mut q = TaskQueue::new();
    for (p, t) in [(1, 0), (2, 0), (1, 1), (1, 2), (3, 0)] {
        q.insert(TaskQueueEntry::new(pid(p, t), 0)).unwrap();
    }
    q.remove_thread(pid(2, 0));
    assert_eq!(q.len(), 4);
    q.remove_process(1);
    assert_eq!(q.len(), 1);
    assert_eq!(q.consume().unwrap().id(), pid(3, 0));
    assert_eq!(q.current().unwrap().id(), pid(3, 0));
}

#[test]
fn page_dir_follows_running_task() {
    let mut q = TaskQueue::new();
    assert_eq!(get_page_dir(q.current()), ProcessOrKernelPageDir::Kernel);
    q.insert(TaskQueueEntry::new(pid(9, 1), 0)).unwrap();
    q.consume();
    assert_eq!(get_page_dir(q.current()), ProcessOrKernelPageDir::Process(9));
}

#[test]
fn shootdown_reaches_other_cpu() {
    let mut queues = vec![UrgentQueue::new(), UrgentQueue::new()];
    let mut dir = PageDir::new(0x1000, vec![0x0010_0000]);
    let addr = 0x0804_8000;
    let running_on_cpu1 = Some(pid(7, 0));
    let before = dir.get_page(addr);
    assert!(before.is_none());
    // cpu 0 maps a new page into the directory that cpu 1 has loaded
    dir.set_page(addr, Some(PageFrame {
        addr: 0x3000,
        present: true,
        user_mode: true,
        writable: true,
        copy_on_write: false,
        executable: true,
        referenced: false,
        shared: false,
    }))
    .unwrap();
    broadcast(&mut queues, 0, shootdown_message(Some(7), addr));
    assert_eq!(queues[0].len(), 0);
    assert_eq!(queues[1].len(), 1);
    // cpu 1 reaches a drain point and drops its stale entry
    let flushed = queues[1].process_urgent_messages(running_on_cpu1);
    assert_eq!(flushed, vec![addr]);
    assert_eq!(queues[1].len(), 0);
    assert_eq!(dir.virt_to_phys(addr), Some(0x3000));
}

#[test]
fn urgent_messages_filter_by_process() {
    let mut q = UrgentQueue::new();
    q.send_urgent_message(UrgentMessage::TaskPageUpdate { process_id: 1, addr: 0x1000 });
    q.send_urgent_message(UrgentMessage::KernelPageUpdate { addr: 0xe000_0000 });
    q.send_urgent_message(UrgentMessage::TaskPageUpdate { process_id: 2, addr: 0x2000 });
    assert_eq!(q.process_urgent_messages(Some(pid(2, 5))), vec![0xe000_0000, 0x2000]);
    q.send_urgent_message(UrgentMessage::TaskPageUpdate { process_id: 2, addr: 0x2000 });
    assert_eq!(q.process_urgent_messages(None), Vec::<usize>::new());
    assert_eq!(flush_target(shootdown_message(None, 0x5000), None), Some(0x5000));
}

#[test]
fn busiest_and_emptiest_threads() {
    assert_eq!(find_busiest_thread(&vec![0, 3, 1, 3]), Some(1));
    assert_eq!(find_busiest_thread(&vec![0, 0]), None);
    assert_eq!(find_busiest_thread(&vec![]), None);
    assert_eq!(find_emptiest_thread(&vec![4, 2, 5, 2]), Some((1, 2)));
    assert_eq!(find_emptiest_thread(&vec![]), None);
}

#[test]
fn steal_and_add_choices() {
    let cores = vec![vec![0, 0], vec![1, 4], vec![2, 0]];
    let me = ThreadID { core: 0, thread: 1 };
    assert_eq!(find_thread_to_steal_from(&cores, me), Some(ThreadID { core: 1, thread: 1 }));
    let own = vec![vec![0, 2], vec![5, 5]];
    assert_eq!(find_thread_to_steal_from(&own, me), Some(ThreadID { core: 0, thread: 1 }));
    assert_eq!(find_thread_to_steal_from(&vec![vec![0], vec![0]], me), None);
    assert_eq!(find_thread_to_steal_from(&cores, ThreadID { core: 7, thread: 0 }), None);
    assert_eq!(find_thread_to_add_to(&vec![vec![3, 2], vec![1, 4], vec![2, 1]]), Some(ThreadID { core: 1, thread: 0 }));
    assert_eq!(find_thread_to_add_to(&vec![vec![3], vec![0, 1], vec![0]]), Some(ThreadID { core: 1, thread: 0 }));
    assert_eq!(find_thread_to_add_to(&vec![vec![], vec![]]), None);
}

#[test]
fn messages_update_queue_and_say_what_next() {
    let mut q = TaskQueue::new();
    for (p, t) in [(1, 0), (1, 1), (2, 0)] {
        q.insert(TaskQueueEntry::new(pid(p, t), 0)).unwrap();
    }
    q.consume();
    assert_eq!(q.current().unwrap().id(), pid(1, 0));
    assert!(matches!(handle_message(&mut q, Message::KillThread(pid(2, 0))), MessageAction::Continue));
    assert_eq!(q.len(), 1);
    assert!(matches!(handle_message(&mut q, Message::KillThread(pid(5, 0))), MessageAction::Continue));
    assert_eq!(q.len(), 1);
    assert!(matches!(handle_message(&mut q, Message::KillProcess(1)), MessageAction::SwitchAway));
    assert_eq!(q.len(), 0);
    assert!(matches!(handle_message(&mut q, Message::KillThread(pid(1, 0))), MessageAction::SwitchAway));
    match handle_message(&mut q, Message::SendMessage { process: 4, message: 9, data: Some((0x1000, 8)) }) {
        MessageAction::Deliver { process, message, data } => assert_eq!((process, message, data), (4, 9, Some((0x1000, 8)))),
        _ => panic!("message not delivered"),
    }
}
