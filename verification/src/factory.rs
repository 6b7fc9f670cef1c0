use vstd::prelude::*;
use crate::config::{ApiConfig, Workflow};
use crate::loadtest::LoadTest;
use crate::tasks::Task;

verus! {

/// A runnable monitoring step: one plain probe, or one progressive load
/// test. Which one a step becomes is decided by its configuration.
pub enum MonitorTask {
    Plain(Task),
    Load(LoadTest),
}

/// The step configuration a monitor task was built from.
pub open spec fn spec_api_config(t: MonitorTask) -> ApiConfig {
    match t {
        MonitorTask::Plain(task) => task.api_config,
        MonitorTask::Load(lt) => lt.api_config,
    }
}

/// A step's effective execution order: its declared order, or the largest
/// representable order when none is declared, so such steps run last.
pub open spec fn spec_order(t: MonitorTask) -> int {
    let cfg = spec_api_config(t);
    if cfg.task_order is Some {
        cfg.task_order.unwrap() as int
    } else {
        usize::MAX as int
    }
}

impl MonitorTask {
    /// The step's effective execution order.
    pub fn get_task_order(&self) -> (r: usize)
        ensures
            r as int == spec_order(*self),
    {
        match self {
            MonitorTask::Plain(task) => task.get_task_order(),
            MonitorTask::Load(lt) => lt.get_task_order(),
        }
    }

    /// The step's descriptive name.
    pub fn describe(&self) -> (r: String)
        ensures
            r@ == match *self {
                MonitorTask::Plain(task) => "Task for "@ + task.api_config.name@,
                MonitorTask::Load(lt) => "LoadTest for "@ + lt.api_config.name@,
            },
    {
        match self {
            MonitorTask::Plain(task) => task.describe(),
            MonitorTask::Load(lt) => lt.describe(),
        }
    }

    /// Monitor steps carry no response-time threshold.
    pub fn response_time_threshold(&self) -> (r: Option<u64>)
        ensures
            r is None,
    {
        match self {
            MonitorTask::Plain(task) => task.response_time_threshold(),
            MonitorTask::Load(lt) => lt.response_time_threshold(),
        }
    }
}

/// Whether a step is configured as a load test.
pub open spec fn is_load_step(api: ApiConfig) -> bool {
    api.load_test == Some(true)
}

/// The monitor tasks a step list yields, in order: a load-test step with
/// parameters becomes a load test, a load-test step without parameters is
/// skipped, and every other step becomes a plain probe.
pub open spec fn monitor_tasks_of(apis: Seq<ApiConfig>) -> Seq<MonitorTask>
    decreases apis.len(),
{
    if apis.len() == 0 {
        Seq::empty()
    } else {
        let rest = monitor_tasks_of(apis.drop_last());
        let api = apis.last();
        if is_load_step(api) {
            if api.load_test_config is Some {
                rest.push(
                    MonitorTask::Load(
                        LoadTest { api_config: api, load_test_config: api.load_test_config.unwrap() },
                    ),
                )
            } else {
                rest
            }
        } else {
            rest.push(MonitorTask::Plain(Task { api_config: api }))
        }
    }
}

/// Builds the workflow's monitor tasks: every step becomes a plain probe or,
/// when it enables load testing and carries parameters, a load test; a
/// load-test step without parameters yields nothing.
pub fn create_monitor_tasks(cfg: Workflow) -> (r: Vec<MonitorTask>)
    ensures
        r@ == monitor_tasks_of(cfg.apis@),
{
    let mut apis = cfg.apis;
    let ghost all = apis@;
    let n = apis.len();
    let mut tasks: Vec<MonitorTask> = Vec::new();
    let mut i: usize = 0;
    while i < n
        invariant
            0 <= i <= n,
            n == all.len(),
            apis@ =~= all.skip(i as int),
            tasks@ == monitor_tasks_of(all.take(i as int)),
        decreases n - i,
    {
        proof {
            assert(all.take(i + 1).drop_last() =~= all.take(i as int));
            assert(all.take(i + 1).last() == all[i as int]);
            assert(all.skip(i as int)[0] == all[i as int]);
        }
        let api = apis.remove(0);
        proof {
            assert(apis@ =~= all.skip(i + 1));
        }
        let load_test = api.load_test;
        let is_load = match load_test {
            Some(true) => true,
            _ => false,
        };
        if is_load {
            match api.load_test_config {
                Some(load_test_config) => {
                    let api_config = ApiConfig {
                        name: api.name,
                        task_order: api.task_order,
                        url: api.url,
                        headers: api.headers,
                        expected_field: api.expected_field,
                        response_time_threshold: api.response_time_threshold,
                        method: api.method,
                        body: api.body,
                        body_file: api.body_file,
                        load_test: api.load_test,
                        load_test_config: Some(load_test_config),
                    };
                    tasks.push(MonitorTask::Load(LoadTest { api_config, load_test_config }));
                },
                None => {},
            }
        } else {
            tasks.push(MonitorTask::Plain(Task { api_config: api }));
        }
        i = i + 1;
    }
    proof {
        assert(all.take(n as int) =~= all);
    }
    tasks
}

/// The positions 0, 1, ..., n-1.
pub open spec fn index_seq(n: nat) -> Seq<usize> {
    Seq::new(n, |i: int| i as usize)
}

/// The positions of the tasks that share one effective order, ascending.
pub open spec fn task_indices_with_order(tasks: Seq<MonitorTask>, order: int) -> Seq<usize> {
    index_seq(tasks.len()).filter(|k: usize| spec_order(tasks[k as int]) == order)
}

/// Whether some bucket carries the given effective order.
pub open spec fn order_has_group(groups: Seq<OrderGroup>, o: int) -> bool {
    exists|g: int| 0 <= g < groups.len() && (#[trigger] groups[g]).order as int == o
}

/// One execution bucket: the positions, in input order, of every task that
/// shares this effective order.
pub struct OrderGroup {
    pub order: usize,
    pub indices: Vec<usize>,
}

/// Collects the positions of the tasks with the given effective order.
fn indices_with_order(tasks: &Vec<MonitorTask>, order: usize) -> (r: Vec<usize>)
    ensures
        r@ == task_indices_with_order(tasks@, order as int),
{
    let n = tasks.len();
    let mut out: Vec<usize> = Vec::new();
    proof {
        reveal(Seq::filter);
    }
    let mut i: usize = 0;
    while i < n
        invariant
            0 <= i <= n,
            n == tasks@.len(),
            out@ == index_seq(i as nat).filter(
                |k: usize| spec_order(tasks@[k as int]) == order as int,
            ),
        decreases n - i,
    {
        proof {
            reveal(Seq::filter);
            assert(index_seq((i + 1) as nat).drop_last() =~= index_seq(i as nat));
            assert(index_seq((i + 1) as nat).last() == i as usize);
        }
        if tasks[i].get_task_order() == order {
            out.push(i);
        }
        i = i + 1;
    }
    out
}

/// Collects the distinct effective orders of the tasks, strictly ascending.
fn distinct_orders(tasks: &Vec<MonitorTask>) -> (r: Vec<usize>)
    ensures
        forall|a: int, b: int| 0 <= a < b < r@.len() ==> r@[a] < r@[b],
        forall|x: usize|
            r@.contains(x) <==> exists|k: int|
                0 <= k < tasks@.len() && spec_order(#[trigger] tasks@[k]) == x as int,
{
    let n = tasks.len();
    let mut orders: Vec<usize> = Vec::new();
    let mut i: usize = 0;
    while i < n
        invariant
            0 <= i <= n,
            n == tasks@.len(),
            forall|a: int, b: int| 0 <= a < b < orders@.len() ==> orders@[a] < orders@[b],
            forall|x: usize|
                orders@.contains(x) <==> exists|k: int|
                    0 <= k < i && spec_order(#[trigger] tasks@[k]) == x as int,
        decreases n - i,
    {
        let o = tasks[i].get_task_order();
        let ghost prev = orders@;
        let m = orders.len();
        let mut j: usize = 0;
        while j < m && orders[j] < o
            invariant
                0 <= j <= m,
                m == orders@.len(),
                orders@ == prev,
                forall|k: int| 0 <= k < j ==> orders@[k] < o,
            decreases m - j,
        {
            j = j + 1;
        }
        let already = j < m && orders[j] == o;
        if !already {
            orders.insert(j, o);
            proof {
                assert forall|a: int, b: int|
                    0 <= a < b < orders@.len() implies orders@[a] < orders@[b] by {
                    if b < j {
                        assert(orders@[a] == prev[a] && orders@[b] == prev[b]);
                    } else if a > j {
                        assert(orders@[a] == prev[a - 1] && orders@[b] == prev[b - 1]);
                    } else if a < j && b == j {
                        assert(orders@[a] == prev[a]);
                    } else if a == j && b > j {
                        assert(orders@[b] == prev[b - 1]);
                        if j < prev.len() {
                            assert(!(prev[j as int] < o));
                            if b - 1 > j {
                                assert(prev[j as int] < prev[b - 1]);
                            }
                        }
                    } else if a < j && b > j {
                        assert(orders@[a] == prev[a] && orders@[b] == prev[b - 1]);
                        if j < prev.len() && b - 1 > j {
                            assert(!(prev[j as int] < o));
                            assert(prev[j as int] < prev[b - 1]);
                        }
                    }
                }
                assert forall|x: usize|
                    orders@.contains(x) <==> (exists|k: int|
                        0 <= k < i + 1 && spec_order(#[trigger] tasks@[k]) == x as int) by {
                    if orders@.contains(x) {
                        let ghost idx = choose|idx: int|
                            0 <= idx < orders@.len() && orders@[idx] == x;
                        if idx == j {
                            assert(spec_order(tasks@[i as int]) == x as int);
                        } else if idx < j {
                            assert(prev[idx] == x);
                            assert(prev.contains(x));
                        } else {
                            assert(prev[idx - 1] == x);
                            assert(prev.contains(x));
                        }
                    }
                    if exists|k: int| 0 <= k < i + 1 && spec_order(#[trigger] tasks@[k]) == x as int {
                        let ghost k = choose|k: int|
                            0 <= k < i + 1 && spec_order(#[trigger] tasks@[k]) == x as int;
                        if k == i {
                            assert(orders@[j as int] == x);
                        } else {
                            assert(prev.contains(x));
                            let ghost idx = choose|idx: int|
                                0 <= idx < prev.len() && prev[idx] == x;
                            if idx < j {
                                assert(orders@[idx] == x);
                            } else {
                                assert(orders@[idx + 1] == x);
                            }
                        }
                    }
                }
            }
        } else {
            proof {
                assert(orders@[j as int] == o);
                assert(orders@.contains(o));
                assert forall|x: usize|
                    orders@.contains(x) <==> (exists|k: int|
                        0 <= k < i + 1 && spec_order(#[trigger] tasks@[k]) == x as int) by {
                    if exists|k: int| 0 <= k < i + 1 && spec_order(#[trigger] tasks@[k]) == x as int {
                        let ghost k = choose|k: int|
                            0 <= k < i + 1 && spec_order(#[trigger] tasks@[k]) == x as int;
                        if k == i {
                            assert(orders@.contains(o));
                        }
                    }
                }
            }
        }
        i = i + 1;
    }
    orders
}

/// Partitions the tasks into execution buckets by effective order: buckets
/// come strictly ascending by order, each bucket lists the positions of
/// exactly the tasks with its order (in input order), and every task's order
/// has a bucket. The caller runs each bucket's tasks concurrently and the
/// buckets one after another.
pub fn group_tasks_by_order(tasks: &Vec<MonitorTask>) -> (groups: Vec<OrderGroup>)
    ensures
        forall|a: int, b: int|
            0 <= a < b < groups@.len() ==> (#[trigger] groups@[a]).order < (
            #[trigger] groups@[b]).order,
        forall|g: int|
            0 <= g < groups@.len() ==> (#[trigger] groups@[g]).indices@ == task_indices_with_order(
                tasks@,
                groups@[g].order as int,
            ),
        forall|k: int|
            0 <= k < tasks@.len() ==> order_has_group(groups@, spec_order(#[trigger] tasks@[k])),
{
    let orders = distinct_orders(tasks);
    let m = orders.len();
    let mut groups: Vec<OrderGroup> = Vec::new();
    let mut i: usize = 0;
    while i < m
        invariant
            0 <= i <= m,
            m == orders@.len(),
            groups@.len() == i,
            forall|a: int, b: int| 0 <= a < b < orders@.len() ==> orders@[a] < orders@[b],
            forall|x: usize|
                orders@.contains(x) <==> exists|k: int|
                    0 <= k < tasks@.len() && spec_order(#[trigger] tasks@[k]) == x as int,
            forall|g: int| 0 <= g < i ==> (#[trigger] groups@[g]).order == orders@[g],
            forall|g: int|
                0 <= g < i ==> (#[trigger] groups@[g]).indices@ == task_indices_with_order(
                    tasks@,
                    groups@[g].order as int,
                ),
        decreases m - i,
    {
        let order = orders[i];
        let indices = indices_with_order(tasks, order);
        groups.push(OrderGroup { order, indices });
        i = i + 1;
    }
    proof {
        assert forall|k: int| 0 <= k < tasks@.len() implies order_has_group(
            groups@,
            spec_order(#[trigger] tasks@[k]),
        ) by {
            let x = spec_order(tasks@[k]);
            assert(0 <= x <= usize::MAX as int);
            assert(spec_order(tasks@[k]) == (x as usize) as int);
            assert(exists|kk: int|
                0 <= kk < tasks@.len() && spec_order(#[trigger] tasks@[kk]) == (x as usize) as int);
            assert(orders@.contains(x as usize));
            let idx = choose|idx: int| 0 <= idx < orders@.len() && orders@[idx] == x as usize;
            assert(groups@.len() == orders@.len());
            assert(groups@[idx].order == orders@[idx]);
            assert(0 <= idx < groups@.len() && (groups@[idx]).order as int == spec_order(
                tasks@[k],
            ));
            assert(order_has_group(groups@, spec_order(tasks@[k])));
        }
    }
    groups
}

} // verus!
