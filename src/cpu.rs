//! Load-balancing decisions over the CPU topology: cores, each with
//! hardware threads, each with a number of tasks.
use vstd::prelude::*;
use crate::task::ThreadID;

verus! {

/// The index of the first thread with the most tasks, among those with at
/// least one.
pub open spec fn is_busiest(counts: Seq<usize>, i: int) -> bool {
    &&& 0 <= i < counts.len()
    &&& counts[i] > 0
    &&& forall|j: int| 0 <= j < counts.len() ==> #[trigger] counts[j] <= counts[i]
    &&& forall|j: int| 0 <= j < i ==> #[trigger] counts[j] < counts[i]
}

/// The index of the first thread with the fewest tasks.
pub open spec fn is_emptiest(counts: Seq<usize>, i: int) -> bool {
    &&& 0 <= i < counts.len()
    &&& forall|j: int| 0 <= j < counts.len() ==> counts[i] <= #[trigger] counts[j]
    &&& forall|j: int| 0 <= j < i ==> counts[i] < #[trigger] counts[j]
}

/// The thread of a core, given the number of tasks waiting on each of its
/// threads, with the most waiting tasks; `None` when none waits.
pub fn find_busiest_thread(counts: &Vec<usize>) -> (r: Option<usize>)
    ensures
        match r {
            Some(i) => is_busiest(counts@, i as int),
            None => forall|j: int| 0 <= j < counts@.len() ==> #[trigger] counts@[j] == 0,
        },
{
    let mut best: Option<usize> = None;
    let mut most: usize = 0;
    let mut id: usize = 0;
    while id < counts.len()
        invariant
            id <= counts@.len(),
            forall|j: int| 0 <= j < id ==> #[trigger] counts@[j] <= most,
            match best {
                Some(b) => b < id && counts@[b as int] == most && most > 0
                    && forall|j: int| 0 <= j < b ==> #[trigger] counts@[j] < most,
                None => most == 0,
            },
        decreases counts@.len() - id,
    {
        if counts[id] > most {
            best = Some(id);
            most = counts[id];
        }
        id = id + 1;
    }
    best
}

/// The thread of a core, given the number of tasks on each of its threads
/// (waiting or running), with the fewest, and that number; `None` for a
/// core without threads.
pub fn find_emptiest_thread(counts: &Vec<usize>) -> (r: Option<(usize, usize)>)
    ensures
        match r {
            Some((i, n)) => is_emptiest(counts@, i as int) && n == counts@[i as int] && n < usize::MAX,
            None => forall|j: int| 0 <= j < counts@.len() ==> #[trigger] counts@[j] == usize::MAX,
        },
{
    let mut best: Option<usize> = None;
    let mut fewest: usize = usize::MAX;
    let mut id: usize = 0;
    while id < counts.len()
        invariant
            id <= counts@.len(),
            forall|j: int| 0 <= j < id ==> fewest <= #[trigger] counts@[j],
            match best {
                Some(b) => b < id && counts@[b as int] == fewest && fewest < usize::MAX
                    && forall|j: int| 0 <= j < b ==> fewest < #[trigger] counts@[j],
                None => fewest == usize::MAX && forall|j: int| 0 <= j < id ==> #[trigger] counts@[j] == usize::MAX,
            },
        decreases counts@.len() - id,
    {
        if counts[id] < fewest {
            best = Some(id);
            fewest = counts[id];
        }
        id = id + 1;
    }
    match best {
        Some(b) => Some((b, fewest)),
        None => None,
    }
}

/// A thread to take a task from for thread `id`: the busiest thread of
/// its own core if any thread there has waiting tasks, else the busiest
/// thread of the first other core that has one. `cores[c][t]` is the number
/// of tasks waiting on thread `t` of core `c`.
pub fn find_thread_to_steal_from(cores: &Vec<Vec<usize>>, id: ThreadID) -> (r: Option<ThreadID>)
    ensures
        id.core >= cores@.len() ==> r is None,
        id.core < cores@.len() ==> match r {
            Some(t) => {
                &&& t.core < cores@.len()
                &&& is_busiest(cores@[t.core as int]@, t.thread as int)
                &&& t.core != id.core ==> (forall|j: int| 0 <= j < cores@[id.core as int]@.len()
                    ==> #[trigger] cores@[id.core as int]@[j] == 0)
                &&& t.core != id.core ==> (forall|c: int, j: int| 0 <= c < t.core && c != id.core
                    && 0 <= j < cores@[c]@.len() ==> #[trigger] cores@[c]@[j] == 0)
            },
            None => forall|c: int, j: int| 0 <= c < cores@.len() && 0 <= j < cores@[c]@.len()
                ==> #[trigger] cores@[c]@[j] == 0,
        },
{
    if id.core >= cores.len() {
        return None;
    }
    if let Some(thread) = find_busiest_thread(&cores[id.core]) {
        return Some(ThreadID { core: id.core, thread });
    }
    let mut core: usize = 0;
    while core < cores.len()
        invariant
            id.core < cores@.len(),
            core <= cores@.len(),
            forall|j: int| 0 <= j < cores@[id.core as int]@.len() ==> #[trigger] cores@[id.core as int]@[j] == 0,
            forall|c: int, j: int| 0 <= c < core && c != id.core && 0 <= j < cores@[c]@.len()
                ==> #[trigger] cores@[c]@[j] == 0,
        decreases cores@.len() - core,
    {
        if core != id.core {
            if let Some(thread) = find_busiest_thread(&cores[core]) {
                return Some(ThreadID { core, thread });
            }
        }
        core = core + 1;
    }
    None
}

/// The thread to give a new task: the emptiest thread of the first core
/// whose emptiest thread has no task, else the emptiest thread of the core
/// whose emptiest thread has the fewest tasks (the first such core).
/// `cores[c][t]` is the number of tasks on thread `t` of core `c`.
pub fn find_thread_to_add_to(cores: &Vec<Vec<usize>>) -> (r: Option<ThreadID>)
    ensures
        match r {
            Some(t) => {
                &&& t.core < cores@.len()
                &&& is_emptiest(cores@[t.core as int]@, t.thread as int)
                &&& forall|c: int| 0 <= c < cores@.len() && cores@[c]@.len() > 0
                    ==> cores@[t.core as int]@[t.thread as int] <= #[trigger] min_tasks(cores@[c]@)
            },
            None => forall|c: int| 0 <= c < cores@.len() ==> #[trigger] cores@[c]@.len() == 0
                || min_tasks(cores@[c]@) == usize::MAX,
        },
{
    let mut best: Option<ThreadID> = None;
    let mut fewest: usize = usize::MAX;
    let mut core: usize = 0;
    while core < cores.len()
        invariant
            core <= cores@.len(),
            forall|c: int| 0 <= c < core && cores@[c]@.len() > 0 ==> fewest <= #[trigger] min_tasks(cores@[c]@),
            match best {
                Some(t) => t.core < core && is_emptiest(cores@[t.core as int]@, t.thread as int)
                    && cores@[t.core as int]@[t.thread as int] == fewest && fewest < usize::MAX,
                None => fewest == usize::MAX,
            },
        decreases cores@.len() - core,
    {
        if let Some((thread, num_tasks)) = find_emptiest_thread(&cores[core]) {
            proof {
                lemma_emptiest_is_min(cores@[core as int]@, thread as int);
            }
            let id = ThreadID { core, thread };
            if num_tasks == 0 {
                proof {
                    assert forall|c: int| 0 <= c < cores@.len() && cores@[c]@.len() > 0
                        implies 0 <= #[trigger] min_tasks(cores@[c]@) by {}
                }
                return Some(id);
            }
            if num_tasks < fewest {
                best = Some(id);
                fewest = num_tasks;
            }
        } else {
            proof {
                if cores@[core as int]@.len() > 0 {
                    lemma_min_is_member(cores@[core as int]@);
                }
            }
        }
        core = core + 1;
    }
    best
}

/// The fewest tasks on any thread of a core.
pub open spec fn min_tasks(counts: Seq<usize>) -> usize
    decreases counts.len(),
{
    if counts.len() == 0 {
        usize::MAX
    } else {
        let rest = min_tasks(counts.drop_last());
        if counts.last() < rest { counts.last() } else { rest }
    }
}

/// The emptiest thread holds the fewest tasks.
proof fn lemma_emptiest_is_min(counts: Seq<usize>, i: int)
    requires
        is_emptiest(counts, i),
    ensures
        counts[i] == min_tasks(counts),
{
    lemma_min_is_lower_bound(counts, counts[i]);
    lemma_min_at_most(counts, i);
}

proof fn lemma_min_at_most(counts: Seq<usize>, k: int)
    requires
        0 <= k < counts.len(),
    ensures
        min_tasks(counts) <= counts[k],
    decreases counts.len(),
{
    if k < counts.len() - 1 {
        lemma_min_at_most(counts.drop_last(), k);
    }
}

proof fn lemma_min_is_lower_bound(counts: Seq<usize>, b: usize)
    requires
        counts.len() > 0,
        forall|j: int| 0 <= j < counts.len() ==> b <= #[trigger] counts[j],
    ensures
        b <= min_tasks(counts),
    decreases counts.len(),
{
    reveal_with_fuel(min_tasks, 2);
    if counts.len() > 1 {
        lemma_min_is_lower_bound(counts.drop_last(), b);
    }
}

proof fn lemma_min_is_member(counts: Seq<usize>)
    requires
        counts.len() > 0,
    ensures
        exists|j: int| 0 <= j < counts.len() && counts[j] == min_tasks(counts),
    decreases counts.len(),
{
    reveal_with_fuel(min_tasks, 2);
    if counts.len() == 1 {
        assert(counts[0] == min_tasks(counts));
    } else {
        lemma_min_is_member(counts.drop_last());
        let j = choose|j: int| 0 <= j < counts.drop_last().len() && counts.drop_last()[j] == min_tasks(counts.drop_last());
        if counts.last() < min_tasks(counts.drop_last()) {
            assert(counts[counts.len() - 1] == min_tasks(counts));
        } else {
            assert(counts[j] == min_tasks(counts));
        }
    }
}

} // verus!
