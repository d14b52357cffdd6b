//! Turning a checked graph into a schedule: one task per node, in an order in which every node
//! comes after the nodes it takes values from, each task knowing where its inputs come from.

use vstd::prelude::*;

use std::collections::HashMap;

use crate::node::{ChannelDirection, ChannelPassBy, NodeConfiguration};

use super::execution::{
    all_inputs_covered, config, edges_checkable, graph_valid, has_incoming, ExecutionGraph,
};
use super::store::{
    graph_edge_endpoints, graph_edge_weight, graph_edges, graph_incoming_edges, graph_node_weight,
    graph_nodes, graph_toposort, has_cycle, incoming, is_cycle, lists_once, topological_order, Graph,
};
use super::NodeIndex;

verus! {

/// Where a task input comes from: an output value channel of an earlier task.
#[derive(Clone, Copy, Debug, PartialEq, Eq, Structural)]
pub struct TaskInput {
    /// The source task index.
    pub task_index: usize,
    /// The channel index of type `ChannelPassBy::Value`.
    pub output_value_channel_index: usize,
}

/// The work of one node within a schedule.
#[derive(Debug)]
pub struct Task {
    pub node_index: NodeIndex,
    pub configuration: NodeConfiguration,
    pub borrows: Vec<TaskInput>,
    pub mutable_borrows: Vec<TaskInput>,
    pub inputs: Vec<TaskInput>,
}

impl Task {
    /// The inputs of the task that take their values as `pass_by`.
    pub open spec fn slots(self, pass_by: ChannelPassBy) -> Seq<TaskInput> {
        match pass_by {
            ChannelPassBy::SharedReference => self.borrows@,
            ChannelPassBy::MutableReference => self.mutable_borrows@,
            ChannelPassBy::Value => self.inputs@,
        }
    }
}

/// The tasks of a graph in execution order; `None` where a task is disabled.
#[derive(Debug)]
pub struct Schedule {
    /// Used to check whether the schedule has been updated.
    pub generation: usize,
    pub tasks: Vec<Option<Task>>,
}

/// The generation of the schedule that follows `previous`.
pub open spec fn next_generation(previous: Option<Schedule>) -> usize {
    match previous {
        Some(s) => if s.generation == usize::MAX {
            0
        } else {
            (s.generation + 1) as usize
        },
        None => 0,
    }
}

/// Edge `e` writes the `j`-th input of its target among those passed as `pass_by`.
pub open spec fn writes_slot(g: Graph, e: u32, pass_by: ChannelPassBy, j: int) -> bool {
    let to = graph_edges(g)[e].2.endpoint_to;
    to.pass_by == pass_by && config(g, graph_edges(g)[e].1).global_index(to) == j
}

/// The input that edge `e` hands to the task of its target: the output value of the task of
/// its source, or, for a reference, the input that the source task itself takes there.
pub open spec fn edge_input(g: Graph, order: Seq<NodeIndex>, tasks: Seq<Option<Task>>, e: u32) -> TaskInput {
    let source = graph_edges(g)[e].0;
    let from = graph_edges(g)[e].2.endpoint_from;
    let q = order.index_of(source);
    if from.pass_by == ChannelPassBy::Value {
        TaskInput { task_index: q as usize, output_value_channel_index: from.channel_index }
    } else {
        tasks[q]->0.slots(from.pass_by)[config(g, source).global_index(from)]
    }
}

/// A reference reaches node `n` from a node whose task is disabled.
pub open spec fn blocked(g: Graph, order: Seq<NodeIndex>, tasks: Seq<Option<Task>>, n: NodeIndex) -> bool {
    exists|e: u32|
        #[trigger] incoming(g, n).contains(e) && graph_edges(g)[e].2.endpoint_from.pass_by
            != ChannelPassBy::Value && tasks[order.index_of(graph_edges(g)[e].0)] is None
}

/// The task of node `n` is disabled: the node takes inputs and no edge ends at it, or it is
/// blocked.
pub open spec fn disabled(g: Graph, order: Seq<NodeIndex>, tasks: Seq<Option<Task>>, n: NodeIndex) -> bool {
    (config(g, n).channel_count(ChannelDirection::In) > 0 && !has_incoming(g, n)) || blocked(
        g,
        order,
        tasks,
        n,
    )
}

/// `t` is the task of node `n`: it has the node's configuration, one input per input channel,
/// and each input is what some edge into that channel hands over.
pub open spec fn task_fits(
    g: Graph,
    order: Seq<NodeIndex>,
    tasks: Seq<Option<Task>>,
    n: NodeIndex,
    t: Task,
) -> bool {
    let c = config(g, n);
    &&& t.node_index == n
    &&& t.configuration.same_as(c)
    &&& t.borrows@.len() == c.channels_by_shared_reference@.len()
    &&& t.mutable_borrows@.len() == c.channels_by_mutable_reference@.len()
    &&& t.inputs@.len() == c.input_channels_by_value@.len()
    &&& forall|pass_by: ChannelPassBy, j: int|
        0 <= j < t.slots(pass_by).len() ==> input_from_edge(
            g,
            order,
            tasks,
            n,
            pass_by,
            j,
            #[trigger] t.slots(pass_by)[j],
        )
}

/// Some edge into node `n` writes the `j`-th of its inputs passed as `pass_by`, and hands over
/// `input`.
pub open spec fn input_from_edge(
    g: Graph,
    order: Seq<NodeIndex>,
    tasks: Seq<Option<Task>>,
    n: NodeIndex,
    pass_by: ChannelPassBy,
    j: int,
    input: TaskInput,
) -> bool {
    exists|e: u32|
        #![trigger writes_slot(g, e, pass_by, j)]
        incoming(g, n).contains(e) && writes_slot(g, e, pass_by, j) && input == edge_input(
            g,
            order,
            tasks,
            e,
        )
}

/// The entry at position `p` is the task of the `p`-th node, or `None` where that task is
/// disabled.
pub open spec fn task_at(g: Graph, order: Seq<NodeIndex>, tasks: Seq<Option<Task>>, p: int) -> bool {
    &&& tasks[p] is None <==> disabled(g, order, tasks, order[p])
    &&& tasks[p] matches Some(t) ==> task_fits(g, order, tasks, order[p], t)
}

/// `tasks` holds the task of each node of `order`, position by position.
pub open spec fn is_schedule_of(g: Graph, order: Seq<NodeIndex>, tasks: Seq<Option<Task>>) -> bool {
    &&& tasks.len() == order.len()
    &&& forall|p: int| 0 <= p < order.len() ==> #[trigger] task_at(g, order, tasks, p)
}

/// The input that edge `e` writes lies among the inputs of its target, and a reference reads
/// an input that lies among the inputs of its source.
pub open spec fn edge_slots_in_range(g: Graph, e: u32) -> bool {
    let (a, b, d) = graph_edges(g)[e];
    &&& config(g, b).global_index(d.endpoint_to) < config(g, b).category(
        d.endpoint_to.pass_by,
        ChannelDirection::In,
    ).len()
    &&& d.endpoint_from.pass_by != ChannelPassBy::Value ==> config(g, a).global_index(
        d.endpoint_from,
    ) < config(g, a).category(d.endpoint_from.pass_by, ChannelDirection::Out).len()
}

/// If an edge ends at node `n`, every input of `n` is written by some edge.
pub open spec fn slots_written(g: Graph, n: NodeIndex) -> bool {
    has_incoming(g, n) ==> forall|pass_by: ChannelPassBy, j: int|
        #![trigger config(g, n).category(pass_by, ChannelDirection::In)[j]]
        0 <= j < config(g, n).category(pass_by, ChannelDirection::In).len() ==> slot_written(
            g,
            n,
            pass_by,
            j,
        )
}

/// Some edge into node `n` writes the `j`-th of its inputs passed as `pass_by`.
pub open spec fn slot_written(g: Graph, n: NodeIndex, pass_by: ChannelPassBy, j: int) -> bool {
    exists|e: u32|
        #![trigger writes_slot(g, e, pass_by, j)]
        incoming(g, n).contains(e) && writes_slot(g, e, pass_by, j)
}

/// The global index of the input that edge `e` writes fits in a `usize`.
pub open spec fn global_index_fits(g: Graph, e: u32) -> bool {
    config(g, graph_edges(g)[e].1).global_index(graph_edges(g)[e].2.endpoint_to) <= usize::MAX
}

/// Node `n` is disabled, given which of the nodes of `order` before it are enabled: it takes
/// inputs and no edge ends at it, or a reference reaches it from a disabled node.
pub open spec fn disabled_given(g: Graph, order: Seq<NodeIndex>, enabled: Seq<bool>, n: NodeIndex) -> bool {
    ||| (config(g, n).channel_count(ChannelDirection::In) > 0 && !has_incoming(g, n))
    ||| exists|e: u32|
        #[trigger] incoming(g, n).contains(e) && graph_edges(g)[e].2.endpoint_from.pass_by
            != ChannelPassBy::Value && !enabled[order.index_of(graph_edges(g)[e].0)]
}

/// Which of the first `p` nodes of `order` have an enabled task, decided node by node.
pub open spec fn enabled_along(g: Graph, order: Seq<NodeIndex>, p: nat) -> Seq<bool>
    decreases p,
{
    if p == 0 {
        Seq::empty()
    } else {
        let before = enabled_along(g, order, (p - 1) as nat);
        before.push(!disabled_given(g, order, before, order[p - 1]))
    }
}

/// Scheduling along `order` never looks past the inputs of a task: every edge that hands over
/// a value, or a reference from a node whose task is enabled, writes and reads inputs that
/// exist, and every enabled node that an edge ends at has each of its inputs written.
pub open spec fn schedulable_along(g: Graph, order: Seq<NodeIndex>) -> bool {
    let enabled = enabled_along(g, order, order.len());
    &&& forall|e: u32| graph_edges(g).dom().contains(e) ==> #[trigger] global_index_fits(g, e)
    &&& forall|e: u32|
        graph_edges(g).dom().contains(e) && (graph_edges(g)[e].2.endpoint_from.pass_by
            == ChannelPassBy::Value || enabled[order.index_of(graph_edges(g)[e].0)])
            ==> #[trigger] edge_slots_in_range(g, e)
    &&& forall|p: int| 0 <= p < order.len() && enabled[p] ==> #[trigger] slots_written(g, order[p])
}

/// Scheduling never looks past the inputs of a task, whichever topological order the nodes
/// are taken in.
pub open spec fn schedulable(g: Graph) -> bool {
    forall|order: Seq<NodeIndex>| topological_order(g, order) ==> #[trigger] schedulable_along(g, order)
}

/// Deciding node by node agrees on the nodes decided so far.
proof fn lemma_enabled_prefix(g: Graph, order: Seq<NodeIndex>, p: nat, m: nat)
    requires
        p <= m,
    ensures
        enabled_along(g, order, m).len() == m,
        forall|q: int| 0 <= q < p ==> enabled_along(g, order, m)[q] == enabled_along(g, order, p)[q],
    decreases m,
{
    if m > 0 {
        lemma_enabled_prefix(g, order, if p < m { p } else { (m - 1) as nat }, (m - 1) as nat);
        if p < m {
            assert forall|q: int| 0 <= q < p implies enabled_along(g, order, m)[q] == enabled_along(g, order, p)[q] by {
                assert(enabled_along(g, order, m)[q] == enabled_along(g, order, (m - 1) as nat)[q]);
            }
        }
    }
}

/// Tasks are present exactly where `enabled_along` says that they are enabled.
pub open spec fn follows_enabled(g: Graph, order: Seq<NodeIndex>, tasks: Seq<Option<Task>>) -> bool {
    forall|q: int| 0 <= q < tasks.len() ==> (tasks[q] is Some) == #[trigger] enabled_along(g, order, order.len())[q]
}

/// Where the tasks before position `k` are present exactly where they are enabled, the node
/// at `k` is disabled exactly as `disabled_given` decides.
proof fn lemma_disabled_given(g: Graph, order: Seq<NodeIndex>, tasks: Seq<Option<Task>>, k: nat)
    requires
        topological_order(g, order),
        k < order.len(),
        k <= tasks.len(),
        enabled_along(g, order, k).len() == k,
        forall|q: int| 0 <= q < k ==> (tasks[q] is Some) == #[trigger] enabled_along(g, order, k)[q],
    ensures
        disabled(g, order, tasks, order[k as int]) == disabled_given(g, order, enabled_along(g, order, k), order[k as int]),
{
    let before = enabled_along(g, order, k);
    let n = order[k as int];
    lemma_index_of_unique(order, k as int);
    assert forall|e: u32| #[trigger] incoming(g, n).contains(e) implies {
        let q = order.index_of(graph_edges(g)[e].0);
        &&& 0 <= q < k
        &&& (tasks[q] is Some) == before[q]
    } by {
        assert(graph_edges(g).dom().contains(e));
        let q = order.index_of(graph_edges(g)[e].0);
        assert(order[q] == graph_edges(g)[e].0);
    }
    if blocked(g, order, tasks, n) {
        let e = choose|e: u32|
            #[trigger] incoming(g, n).contains(e) && graph_edges(g)[e].2.endpoint_from.pass_by
                != ChannelPassBy::Value && tasks[order.index_of(graph_edges(g)[e].0)] is None;
        assert(incoming(g, n).contains(e));
    }
    if exists|e: u32|
        #[trigger] incoming(g, n).contains(e) && graph_edges(g)[e].2.endpoint_from.pass_by
            != ChannelPassBy::Value && !before[order.index_of(graph_edges(g)[e].0)] {
        let e = choose|e: u32|
            #[trigger] incoming(g, n).contains(e) && graph_edges(g)[e].2.endpoint_from.pass_by
                != ChannelPassBy::Value && !before[order.index_of(graph_edges(g)[e].0)];
        assert(incoming(g, n).contains(e));
    }
}

/// The entries of a list of tasks built along `order` are present exactly where
/// `enabled_along` says that they are enabled.
proof fn lemma_tasks_follow_enabled(g: Graph, order: Seq<NodeIndex>, tasks: Seq<Option<Task>>, p: nat)
    requires
        topological_order(g, order),
        p <= tasks.len(),
        p <= order.len(),
        forall|q: int| 0 <= q < p ==> #[trigger] task_at(g, order, tasks, q),
    ensures
        enabled_along(g, order, p).len() == p,
        forall|q: int| 0 <= q < p ==> (tasks[q] is Some) == #[trigger] enabled_along(g, order, p)[q],
    decreases p,
{
    lemma_enabled_prefix(g, order, p, p);
    if p > 0 {
        let k = (p - 1) as nat;
        lemma_tasks_follow_enabled(g, order, tasks, k);
        let before = enabled_along(g, order, k);
        assert(task_at(g, order, tasks, k as int));
        lemma_disabled_given(g, order, tasks, k);
        assert forall|q: int| 0 <= q < p implies (tasks[q] is Some) == #[trigger] enabled_along(g, order, p)[q] by {
            if q < k {
                assert(enabled_along(g, order, p)[q] == before[q]);
            }
        }
    }
}

/// Tasks built along `order` up to position `p` are present exactly where they are enabled.
proof fn lemma_follows_enabled(g: Graph, order: Seq<NodeIndex>, tasks: Seq<Option<Task>>)
    requires
        topological_order(g, order),
        tasks.len() <= order.len(),
        forall|q: int| 0 <= q < tasks.len() ==> #[trigger] task_at(g, order, tasks, q),
    ensures
        follows_enabled(g, order, tasks),
{
    lemma_tasks_follow_enabled(g, order, tasks, tasks.len());
    lemma_enabled_prefix(g, order, tasks.len(), order.len());
    assert forall|q: int| 0 <= q < tasks.len() implies (tasks[q] is Some) == #[trigger] enabled_along(g, order, order.len())[q] by {
        assert(enabled_along(g, order, order.len())[q] == enabled_along(g, order, tasks.len())[q]);
    }
}

/// `positions` maps every node of `order` to its position.
pub open spec fn positions_of(positions: Map<NodeIndex, usize>, order: Seq<NodeIndex>) -> bool {
    &&& forall|n: NodeIndex| #[trigger] positions.contains_key(n) <==> order.contains(n)
    &&& forall|n: NodeIndex| #[trigger] positions.contains_key(n) ==> positions[n] == order.index_of(n)
}

/// In a sequence without duplicates, the element at `i` is found at `i`.
proof fn lemma_index_of_unique(s: Seq<NodeIndex>, i: int)
    requires
        s.no_duplicates(),
        0 <= i < s.len(),
    ensures
        s.index_of(s[i]) == i,
{
    assert(s[i] == s[i]);
    let j = s.index_of(s[i]);
    assert(0 <= j < s.len() && s[j] == s[i]);
}

/// Along a cycle, every step leads further in a topological order; after the last step the
/// walk is back where it started.
proof fn lemma_walk_climbs(g: Graph, order: Seq<NodeIndex>, walk: Seq<u32>, i: int)
    requires
        forall|e: u32|
            #[trigger] graph_edges(g).dom().contains(e) ==> order.index_of(graph_edges(g)[e].0)
                < order.index_of(graph_edges(g)[e].1),
        is_cycle(g, walk),
        1 <= i <= walk.len(),
    ensures
        order.index_of(graph_edges(g)[walk[0]].0) < order.index_of(graph_edges(g)[walk[i - 1]].1),
    decreases i,
{
    assert(graph_edges(g).dom().contains(walk[i - 1]));
    if i > 1 {
        lemma_walk_climbs(g, order, walk, i - 1);
        let l = walk.len() as int;
        vstd::arithmetic::div_mod::lemma_small_mod((i - 1) as nat, l as nat);
        assert(graph_edges(g)[walk[i - 2]].1 == graph_edges(g)[walk[(i - 2 + 1) % l]].0);
    }
}

/// A graph whose nodes can be put in topological order has no cycle.
pub proof fn lemma_topological_order_acyclic(g: Graph, order: Seq<NodeIndex>)
    requires
        topological_order(g, order),
    ensures
        !has_cycle(g),
{
    if has_cycle(g) {
        let walk = choose|walk: Seq<u32>| is_cycle(g, walk);
        let l = walk.len() as int;
        lemma_walk_climbs(g, order, walk, l);
        vstd::arithmetic::div_mod::lemma_mod_self_0(l);
        assert(graph_edges(g)[walk[l - 1]].1 == graph_edges(g)[walk[(l - 1 + 1) % l]].0);
    }
}

/// Maps each node of `order` to its position.
fn task_positions(order: &Vec<NodeIndex>) -> (r: HashMap<NodeIndex, usize>)
    requires
        order@.no_duplicates(),
    ensures
        positions_of(r@, order@),
{
    let mut positions: HashMap<NodeIndex, usize> = HashMap::new();
    let mut i: usize = 0;
    while i < order.len()
        invariant
            i <= order@.len(),
            order@.no_duplicates(),
            forall|n: NodeIndex| #[trigger] positions@.contains_key(n) <==> order@.take(i as int).contains(n),
            forall|j: int| 0 <= j < i ==> #[trigger] positions@[order@[j]] == j,
        decreases order@.len() - i,
    {
        let ghost before = positions@;
        positions.insert(order[i], i);
        proof {
            assert forall|n: NodeIndex| #[trigger] positions@.contains_key(n) <==> order@.take(
                i + 1,
            ).contains(n) by {
                if order@.take(i + 1).contains(n) {
                    let j = choose|j: int| 0 <= j < i + 1 && #[trigger] order@.take(i + 1)[j] == n;
                    if j < i {
                        assert(order@.take(i as int)[j] == n);
                    }
                }
                if order@.take(i as int).contains(n) {
                    let j = choose|j: int| 0 <= j < i && #[trigger] order@.take(i as int)[j] == n;
                    assert(order@.take(i + 1)[j] == n);
                }
                assert(order@.take(i + 1)[i as int] == order@[i as int]);
            }
            assert forall|j: int| 0 <= j < i + 1 implies #[trigger] positions@[order@[j]] == j by {
                if j < i {
                    assert(order@[j] != order@[i as int]);
                    assert(before[order@[j]] == j);
                }
            }
        }
        i = i + 1;
    }
    proof {
        assert(order@.take(i as int) =~= order@);
        assert forall|n: NodeIndex| #[trigger] positions@.contains_key(n) implies positions@[n]
            == order@.index_of(n) by {
            let j = choose|j: int| 0 <= j < order@.len() && #[trigger] order@[j] == n;
            lemma_index_of_unique(order@, j);
            assert(positions@[order@[j]] == j);
        }
    }
    positions
}

/// `len` empty inputs.
fn no_inputs(len: usize) -> (r: Vec<Option<TaskInput>>)
    ensures
        r@.len() == len,
        forall|j: int| 0 <= j < len ==> r@[j] is None,
{
    let mut r: Vec<Option<TaskInput>> = Vec::new();
    let mut i: usize = 0;
    while i < len
        invariant
            i <= len,
            r@.len() == i,
            forall|j: int| 0 <= j < i ==> r@[j] is None,
        decreases len - i,
    {
        r.push(None);
        i = i + 1;
    }
    r
}

/// The inputs, each of which is present.
fn expect_inputs(inputs: Vec<Option<TaskInput>>) -> (r: Vec<TaskInput>)
    requires
        forall|j: int| 0 <= j < inputs@.len() ==> inputs@[j] is Some,
    ensures
        r@.len() == inputs@.len(),
        forall|j: int| 0 <= j < inputs@.len() ==> Some(#[trigger] r@[j]) == inputs@[j],
{
    let mut r: Vec<TaskInput> = Vec::new();
    let mut i: usize = 0;
    while i < inputs.len()
        invariant
            i <= inputs@.len(),
            r@.len() == i,
            forall|j: int| 0 <= j < inputs@.len() ==> inputs@[j] is Some,
            forall|j: int| 0 <= j < i ==> Some(#[trigger] r@[j]) == inputs@[j],
        decreases inputs@.len() - i,
    {
        let input = inputs[i].unwrap();
        r.push(input);
        i = i + 1;
    }
    r
}

/// What the entry for the `p`-th node says depends on the entries before `p` only.
proof fn lemma_earlier_entries(
    g: Graph,
    order: Seq<NodeIndex>,
    s: Seq<Option<Task>>,
    t: Seq<Option<Task>>,
    p: int,
    x: Task,
)
    requires
        topological_order(g, order),
        0 <= p < order.len(),
        p <= s.len(),
        p <= t.len(),
        forall|q: int| 0 <= q < p ==> s[q] == t[q],
    ensures
        disabled(g, order, s, order[p]) == disabled(g, order, t, order[p]),
        task_fits(g, order, s, order[p], x) ==> task_fits(g, order, t, order[p], x),
        task_fits(g, order, t, order[p], x) ==> task_fits(g, order, s, order[p], x),
{
    let n = order[p];
    lemma_index_of_unique(order, p);
    assert forall|e: u32| #[trigger] incoming(g, n).contains(e) implies {
        let q = order.index_of(graph_edges(g)[e].0);
        &&& 0 <= q < p
        &&& s[q] == t[q]
        &&& edge_input(g, order, s, e) == edge_input(g, order, t, e)
    } by {
        assert(graph_edges(g).dom().contains(e));
        let q = order.index_of(graph_edges(g)[e].0);
        assert(order[q] == graph_edges(g)[e].0);
    }
    if blocked(g, order, s, n) {
        let e = choose|e: u32|
            #[trigger] incoming(g, n).contains(e) && graph_edges(g)[e].2.endpoint_from.pass_by
                != ChannelPassBy::Value && s[order.index_of(graph_edges(g)[e].0)] is None;
        assert(incoming(g, n).contains(e));
    }
    if blocked(g, order, t, n) {
        let e = choose|e: u32|
            #[trigger] incoming(g, n).contains(e) && graph_edges(g)[e].2.endpoint_from.pass_by
                != ChannelPassBy::Value && t[order.index_of(graph_edges(g)[e].0)] is None;
        assert(incoming(g, n).contains(e));
    }
    assert forall|pass_by: ChannelPassBy, j: int, input: TaskInput|
        #[trigger] input_from_edge(g, order, s, n, pass_by, j, input) implies input_from_edge(
            g,
            order,
            t,
            n,
            pass_by,
            j,
            input,
        ) by {
        let e = choose|e: u32|
            #![trigger writes_slot(g, e, pass_by, j)]
            incoming(g, n).contains(e) && writes_slot(g, e, pass_by, j) && input == edge_input(
                g,
                order,
                s,
                e,
            );
        assert(incoming(g, n).contains(e));
    }
    assert forall|pass_by: ChannelPassBy, j: int, input: TaskInput|
        #[trigger] input_from_edge(g, order, t, n, pass_by, j, input) implies input_from_edge(
            g,
            order,
            s,
            n,
            pass_by,
            j,
            input,
        ) by {
        let e = choose|e: u32|
            #![trigger writes_slot(g, e, pass_by, j)]
            incoming(g, n).contains(e) && writes_slot(g, e, pass_by, j) && input == edge_input(
                g,
                order,
                t,
                e,
            );
        assert(incoming(g, n).contains(e));
    }
}

/// After the first `k` edges of `ids`: an input is set exactly when one of them writes it, and
/// then it holds what such an edge hands over.
pub open spec fn slots_so_far(
    g: Graph,
    order: Seq<NodeIndex>,
    tasks: Seq<Option<Task>>,
    ids: Seq<u32>,
    k: int,
    pass_by: ChannelPassBy,
    v: Seq<Option<TaskInput>>,
) -> bool {
    forall|j: int|
        #![trigger v[j]]
        0 <= j < v.len() ==> {
            &&& (v[j] is Some <==> exists|i: int|
                #![trigger writes_slot(g, ids[i], pass_by, j)]
                0 <= i < k && writes_slot(g, ids[i], pass_by, j))
            &&& (v[j] matches Some(x) ==> exists|i: int|
                #![trigger writes_slot(g, ids[i], pass_by, j)]
                0 <= i < k && writes_slot(g, ids[i], pass_by, j) && x == edge_input(
                    g,
                    order,
                    tasks,
                    ids[i],
                ))
        }
}

proof fn lemma_slots_step(
    g: Graph,
    order: Seq<NodeIndex>,
    tasks: Seq<Option<Task>>,
    ids: Seq<u32>,
    k: int,
    pass_by: ChannelPassBy,
    v: Seq<Option<TaskInput>>,
    w: Seq<Option<TaskInput>>,
)
    requires
        0 <= k < ids.len(),
        slots_so_far(g, order, tasks, ids, k, pass_by, v),
        w.len() == v.len(),
        forall|j: int|
            0 <= j < v.len() ==> #[trigger] w[j] == if writes_slot(g, ids[k], pass_by, j) {
                Some(edge_input(g, order, tasks, ids[k]))
            } else {
                v[j]
            },
    ensures
        slots_so_far(g, order, tasks, ids, k + 1, pass_by, w),
{
    assert forall|j: int| #![trigger w[j]] 0 <= j < w.len() implies {
        &&& (w[j] is Some <==> exists|i: int|
            #![trigger writes_slot(g, ids[i], pass_by, j)]
            0 <= i < k + 1 && writes_slot(g, ids[i], pass_by, j))
        &&& (w[j] matches Some(x) ==> exists|i: int|
            #![trigger writes_slot(g, ids[i], pass_by, j)]
            0 <= i < k + 1 && writes_slot(g, ids[i], pass_by, j) && x == edge_input(
                g,
                order,
                tasks,
                ids[i],
            ))
    } by {
        assert(v[j] == v[j]);
        if writes_slot(g, ids[k], pass_by, j) {
        } else {
            if exists|i: int|
                #![trigger writes_slot(g, ids[i], pass_by, j)]
                0 <= i < k + 1 && writes_slot(g, ids[i], pass_by, j) {
                let i = choose|i: int|
                    #![trigger writes_slot(g, ids[i], pass_by, j)]
                    0 <= i < k + 1 && writes_slot(g, ids[i], pass_by, j);
                assert(i < k);
            }
        }
    }
}

impl ExecutionGraph {
    /// The input that edge `edge_index` hands to the task of its target, or `None` where a
    /// reference comes from a node whose task is disabled.
    fn edge_task_input(
        &self,
        edge_index: u32,
        order: &Vec<NodeIndex>,
        positions: &HashMap<NodeIndex, usize>,
        tasks: &Vec<Option<Task>>,
    ) -> (r: Option<TaskInput>)
        requires
            graph_edges(self.graph).dom().contains(edge_index),
            topological_order(self.graph, order@),
            positions_of(positions@, order@),
            schedulable_along(self.graph, order@),
            follows_enabled(self.graph, order@, tasks@),
            order@.index_of(graph_edges(self.graph)[edge_index].0) < tasks@.len(),
            forall|q: int| 0 <= q < tasks@.len() ==> #[trigger] task_at(self.graph, order@, tasks@, q),
        ensures
            r is None <==> graph_edges(self.graph)[edge_index].2.endpoint_from.pass_by
                != ChannelPassBy::Value && tasks@[order@.index_of(
                graph_edges(self.graph)[edge_index].0,
            )] is None,
            r matches Some(x) ==> x == edge_input(self.graph, order@, tasks@, edge_index),
    {
        let ghost g = self.graph;
        let edge = graph_edge_weight(&self.graph, edge_index).unwrap();
        let (source, _) = graph_edge_endpoints(&self.graph, edge_index).unwrap();
        assert(order@.contains(source));
        let immediate_source_task_index = *positions.get(&source).unwrap();
        if edge.endpoint_from.pass_by == ChannelPassBy::Value {
            Some(
                TaskInput {
                    task_index: immediate_source_task_index,
                    output_value_channel_index: edge.endpoint_from.channel_index,
                },
            )
        } else {
            let source_task = match &tasks[immediate_source_task_index] {
                Some(task) => task,
                None => {
                    return None;
                },
            };
            proof {
                let q = immediate_source_task_index as int;
                assert(positions@[source] == order@.index_of(source));
                assert(q == order@.index_of(source));
                assert(task_at(g, order@, tasks@, q));
                assert(order@[q] == source);
                assert(source_task.node_index == source);
                assert(enabled_along(g, order@, order@.len())[q]);
                assert(edge_slots_in_range(g, edge_index));
                assert(config(g, source).global_index(edge.endpoint_from) < config(g, source).category(
                    edge.endpoint_from.pass_by, ChannelDirection::Out).len());
            }
            let source_node = graph_node_weight(&self.graph, source_task.node_index).unwrap();
            assert(source_node.configuration.channels_by_shared_reference.len()
                + source_node.configuration.channels_by_mutable_reference.len() >= 0);
            let global_output_channel_index = source_node.configuration.get_global_channel_index(
                edge.endpoint_from,
            );
            let transitive_task_inputs = match edge.endpoint_from.pass_by {
                ChannelPassBy::SharedReference => &source_task.borrows,
                ChannelPassBy::MutableReference => &source_task.mutable_borrows,
                ChannelPassBy::Value => &source_task.inputs,
            };
            Some(transitive_task_inputs[global_output_channel_index])
        }
    }

    /// The task of the node at position `tasks.len()` of `order`, given the tasks of the nodes
    /// before it; `None` where the task is disabled.
    fn build_task(
        &self,
        order: &Vec<NodeIndex>,
        positions: &HashMap<NodeIndex, usize>,
        tasks: &Vec<Option<Task>>,
    ) -> (r: Option<Task>)
        requires
            topological_order(self.graph, order@),
            positions_of(positions@, order@),
            schedulable_along(self.graph, order@),
            follows_enabled(self.graph, order@, tasks@),
            tasks@.len() < order@.len(),
            forall|q: int| 0 <= q < tasks@.len() ==> #[trigger] task_at(self.graph, order@, tasks@, q),
        ensures
            r is None <==> disabled(self.graph, order@, tasks@, order@[tasks@.len() as int]),
            r matches Some(t) ==> task_fits(self.graph, order@, tasks@, order@[tasks@.len() as int], t),
    {
        let ghost g = self.graph;
        let p = tasks.len();
        let node_index = order[p];
        proof {
            lemma_index_of_unique(order@, p as int);
        }
        let node = graph_node_weight(&self.graph, node_index).unwrap();
        let configuration = &node.configuration;
        let ghost c = config(g, node_index);
        let mut borrows = no_inputs(configuration.channels_by_shared_reference.len());
        let mut mutable_borrows = no_inputs(configuration.channels_by_mutable_reference.len());
        let mut inputs = no_inputs(configuration.input_channels_by_value.len());
        let mut used = borrows.len() == 0 && mutable_borrows.len() == 0 && inputs.len() == 0;
        let incoming_ids = graph_incoming_edges(&self.graph, node_index);
        let ghost ids = incoming_ids@;
        let mut k: usize = 0;
        while k < incoming_ids.len()
            invariant
                k <= ids.len(),
                ids == incoming_ids@,
                g == self.graph,
                lists_once(ids, incoming(g, node_index)),
                topological_order(g, order@),
                positions_of(positions@, order@),
                schedulable_along(g, order@),
                follows_enabled(g, order@, tasks@),
                p == tasks@.len(),
                p < order@.len(),
                order@[p as int] == node_index,
                order@.index_of(node_index) == p,
                forall|q: int| 0 <= q < tasks@.len() ==> #[trigger] task_at(g, order@, tasks@, q),
                *configuration == c,
                c == config(g, node_index),
                borrows@.len() == c.channels_by_shared_reference@.len(),
                mutable_borrows@.len() == c.channels_by_mutable_reference@.len(),
                inputs@.len() == c.input_channels_by_value@.len(),
                used == (c.channel_count(ChannelDirection::In) == 0 || k > 0),
                forall|i: int|
                    0 <= i < k ==> (#[trigger] graph_edges(g)[ids[i]]).2.endpoint_from.pass_by
                        != ChannelPassBy::Value ==> tasks@[order@.index_of(
                        graph_edges(g)[ids[i]].0,
                    )] is Some,
                slots_so_far(g, order@, tasks@, ids, k as int, ChannelPassBy::SharedReference, borrows@),
                slots_so_far(g, order@, tasks@, ids, k as int, ChannelPassBy::MutableReference, mutable_borrows@),
                slots_so_far(g, order@, tasks@, ids, k as int, ChannelPassBy::Value, inputs@),
            decreases ids.len() - k,
        {
            let edge_index = incoming_ids[k];
            proof {
                assert(incoming(g, node_index).contains(edge_index));
                assert(graph_edges(g).dom().contains(edge_index));
                assert(global_index_fits(g, edge_index));
            }
            let edge = graph_edge_weight(&self.graph, edge_index).unwrap();
            assert(configuration.channels_by_shared_reference.len()
                + configuration.channels_by_mutable_reference.len()
                + configuration.input_channels_by_value.len() >= 0);
            assert(graph_edges(g)[edge_index].1 == node_index);
            let global_input_channel_index = configuration.get_global_channel_index(edge.endpoint_to);
            let task_input = match self.edge_task_input(edge_index, order, positions, tasks) {
                Some(task_input) => task_input,
                None => {
                    proof {
                        assert(blocked(g, order@, tasks@, node_index));
                    }
                    return None;
                },
            };
            proof {
                let q = order@.index_of(graph_edges(g)[edge_index].0);
                if graph_edges(g)[edge_index].2.endpoint_from.pass_by != ChannelPassBy::Value {
                    assert(enabled_along(g, order@, order@.len())[q]);
                }
                assert(edge_slots_in_range(g, edge_index));
            }
            let ghost before_borrows = borrows@;
            let ghost before_mutable_borrows = mutable_borrows@;
            let ghost before_inputs = inputs@;
            match edge.endpoint_to.pass_by {
                ChannelPassBy::SharedReference => borrows.set(global_input_channel_index, Some(task_input)),
                ChannelPassBy::MutableReference => mutable_borrows.set(
                    global_input_channel_index,
                    Some(task_input),
                ),
                ChannelPassBy::Value => inputs.set(global_input_channel_index, Some(task_input)),
            }
            proof {
                lemma_slots_step(g, order@, tasks@, ids, k as int, ChannelPassBy::SharedReference, before_borrows, borrows@);
                lemma_slots_step(g, order@, tasks@, ids, k as int, ChannelPassBy::MutableReference, before_mutable_borrows, mutable_borrows@);
                lemma_slots_step(g, order@, tasks@, ids, k as int, ChannelPassBy::Value, before_inputs, inputs@);
            }
            used = true;
            k = k + 1;
        }
        proof {
            assert(!blocked(g, order@, tasks@, node_index)) by {
                if blocked(g, order@, tasks@, node_index) {
                    let e = choose|e: u32|
                        #[trigger] incoming(g, node_index).contains(e) && graph_edges(g)[e].2.endpoint_from.pass_by
                            != ChannelPassBy::Value && tasks@[order@.index_of(graph_edges(g)[e].0)] is None;
                    assert(ids.contains(e));
                    let i = choose|i: int| 0 <= i < ids.len() && ids[i] == e;
                    assert(graph_edges(g)[ids[i]] == graph_edges(g)[e]);
                }
            }
            if ids.len() > 0 {
                assert(incoming(g, node_index).contains(ids[0]));
            }
            if has_incoming(g, node_index) {
                let e = choose|e: u32| #[trigger] incoming(g, node_index).contains(e);
                assert(ids.contains(e));
            }
        }
        if used {
            proof {
                if has_incoming(g, node_index) {
                    lemma_tasks_follow_enabled(g, order@, tasks@, p as nat);
                    lemma_disabled_given(g, order@, tasks@, p as nat);
                    lemma_enabled_prefix(g, order@, (p + 1) as nat, order@.len());
                    assert(!disabled(g, order@, tasks@, node_index));
                    assert(enabled_along(g, order@, (p + 1) as nat)[p as int]);
                    assert(enabled_along(g, order@, order@.len())[p as int]);
                    assert(slots_written(g, node_index));
                    assert forall|pass_by: ChannelPassBy, j: int|
                        #![trigger c.category(pass_by, ChannelDirection::In)[j]]
                        0 <= j < c.category(pass_by, ChannelDirection::In).len() implies exists|i: int|
                            #![trigger writes_slot(g, ids[i], pass_by, j)]
                            0 <= i < k && writes_slot(g, ids[i], pass_by, j) by {
                        assert(c.category(pass_by, ChannelDirection::In)[j] == config(g, node_index).category(pass_by, ChannelDirection::In)[j]);
                        let e = choose|e: u32|
                            #![trigger writes_slot(g, e, pass_by, j)]
                            incoming(g, node_index).contains(e) && writes_slot(g, e, pass_by, j);
                        assert(ids.contains(e));
                        let i = choose|i: int| 0 <= i < ids.len() && ids[i] == e;
                        assert(writes_slot(g, ids[i], pass_by, j));
                    }
                    assert forall|j: int| 0 <= j < borrows@.len() implies borrows@[j] is Some by {
                        assert(c.category(ChannelPassBy::SharedReference, ChannelDirection::In)[j] == c.channels_by_shared_reference@[j]);
                    }
                    assert forall|j: int| 0 <= j < mutable_borrows@.len() implies mutable_borrows@[j] is Some by {
                        assert(c.category(ChannelPassBy::MutableReference, ChannelDirection::In)[j] == c.channels_by_mutable_reference@[j]);
                    }
                    assert forall|j: int| 0 <= j < inputs@.len() implies inputs@[j] is Some by {
                        assert(c.category(ChannelPassBy::Value, ChannelDirection::In)[j] == c.input_channels_by_value@[j]);
                    }
                }
            }
            let borrows = expect_inputs(borrows);
            let mutable_borrows = expect_inputs(mutable_borrows);
            let inputs = expect_inputs(inputs);
            let task = Task {
                node_index,
                configuration: configuration.clone_configuration(),
                borrows,
                mutable_borrows,
                inputs,
            };
            Some(task)
        } else {
            None
        }
    }

    /// Checks the graph, orders its nodes so that every node comes after the nodes it takes
    /// values from, and builds the task of each node in that order. Fails where the graph is
    /// invalid or has a cycle.
    pub fn create_schedule(&self) -> (r: Result<Schedule, ()>)
        requires
            all_inputs_covered(self.graph) ==> edges_checkable(self.graph),
            graph_valid(self.graph) && !has_cycle(self.graph) ==> schedulable(self.graph),
        ensures
            r is Ok <==> graph_valid(self.graph) && !has_cycle(self.graph),
            r matches Ok(s) ==> s.generation == next_generation(self.active_schedule),
            r matches Ok(s) ==> exists|order: Seq<NodeIndex>|
                topological_order(self.graph, order) && is_schedule_of(self.graph, order, s.tasks@),
    {
        let ghost g = self.graph;
        match self.check_graph_validity() {
            Ok(()) => {},
            Err(e) => {
                return Err(e);
            },
        }
        let order = match graph_toposort(&self.graph) {
            Ok(order) => order,
            Err(_cycle) => {
                return Err(());
            },
        };
        proof {
            lemma_topological_order_acyclic(g, order@);
            assert(schedulable_along(g, order@));
        }
        let positions = task_positions(&order);
        let mut tasks: Vec<Option<Task>> = Vec::new();
        while tasks.len() < order.len()
            invariant
                g == self.graph,
                topological_order(g, order@),
                positions_of(positions@, order@),
                schedulable_along(g, order@),
                tasks@.len() <= order@.len(),
                forall|q: int| 0 <= q < tasks@.len() ==> #[trigger] task_at(g, order@, tasks@, q),
            decreases order@.len() - tasks@.len(),
        {
            proof {
                lemma_follows_enabled(g, order@, tasks@);
            }
            let task = self.build_task(&order, &positions, &tasks);
            let ghost before = tasks@;
            tasks.push(task);
            proof {
                assert forall|q: int| 0 <= q < tasks@.len() implies #[trigger] task_at(
                    g,
                    order@,
                    tasks@,
                    q,
                ) by {
                    lemma_earlier_entries(g, order@, before, tasks@, q, tasks@[q]->0);
                    if q < before.len() {
                        assert(task_at(g, order@, before, q));
                    }
                }
            }
        }
        let generation = match &self.active_schedule {
            Some(schedule) => schedule.generation.wrapping_add(1),
            None => 0,
        };
        Ok(Schedule { generation, tasks })
    }

    /// Replaces the active schedule by a new one, or clears it where no schedule can be
    /// created.
    pub fn update_schedule(&mut self) -> (r: Result<(), ()>)
        requires
            all_inputs_covered(old(self).graph) ==> edges_checkable(old(self).graph),
            graph_valid(old(self).graph) && !has_cycle(old(self).graph) ==> schedulable(
                old(self).graph,
            ),
        ensures
            final(self).graph == old(self).graph,
            r is Ok <==> graph_valid(old(self).graph) && !has_cycle(old(self).graph),
            r is Ok ==> (final(self).active_schedule matches Some(s) && s.generation
                == next_generation(old(self).active_schedule) && exists|order: Seq<NodeIndex>|
                topological_order(old(self).graph, order) && is_schedule_of(
                    old(self).graph,
                    order,
                    s.tasks@,
                )),
            r is Err ==> final(self).active_schedule is None,
    {
        match self.create_schedule() {
            Ok(schedule) => {
                self.active_schedule = Some(schedule);
                Ok(())
            },
            Err(e) => {
                self.active_schedule = None;
                Err(e)
            },
        }
    }
}

/// A schedule lists each node at most once: two tasks of a schedule belong to different
/// nodes.
pub proof fn lemma_schedule_tasks_distinct(
    g: Graph,
    order: Seq<NodeIndex>,
    tasks: Seq<Option<Task>>,
    p: int,
    q: int,
)
    requires
        topological_order(g, order),
        is_schedule_of(g, order, tasks),
        0 <= p < q < tasks.len(),
        tasks[p] is Some,
        tasks[q] is Some,
    ensures
        tasks[p]->0.node_index != tasks[q]->0.node_index,
{
    assert(task_at(g, order, tasks, p));
    assert(task_at(g, order, tasks, q));
}

/// Every input of a scheduled task comes from an earlier task: the schedule can run its tasks
/// in order.
pub proof fn lemma_inputs_come_earlier(
    g: Graph,
    order: Seq<NodeIndex>,
    tasks: Seq<Option<Task>>,
    p: int,
    pass_by: ChannelPassBy,
    j: int,
)
    requires
        topological_order(g, order),
        is_schedule_of(g, order, tasks),
        schedulable(g),
        tasks.len() <= usize::MAX,
        0 <= p < tasks.len(),
        tasks[p] is Some,
        0 <= j < tasks[p]->0.slots(pass_by).len(),
    ensures
        tasks[p]->0.slots(pass_by)[j].task_index < p,
    decreases p,
{
    let t = tasks[p]->0;
    let n = order[p];
    assert(task_at(g, order, tasks, p));
    assert(input_from_edge(g, order, tasks, n, pass_by, j, t.slots(pass_by)[j]));
    let e = choose|e: u32|
        #![trigger writes_slot(g, e, pass_by, j)]
        incoming(g, n).contains(e) && writes_slot(g, e, pass_by, j) && t.slots(pass_by)[j]
            == edge_input(g, order, tasks, e);
    assert(graph_edges(g).dom().contains(e));
    let source = graph_edges(g)[e].0;
    let from = graph_edges(g)[e].2.endpoint_from;
    let q = order.index_of(source);
    lemma_index_of_unique(order, p);
    assert(order[q] == source);
    assert(q < p);
    if from.pass_by != ChannelPassBy::Value {
        assert(!blocked(g, order, tasks, n));
        assert(tasks[q] is Some);
        assert(schedulable_along(g, order));
        lemma_follows_enabled(g, order, tasks);
        assert(enabled_along(g, order, order.len())[q]);
        assert(task_at(g, order, tasks, q));
        assert(edge_slots_in_range(g, e));
        let t2 = tasks[q]->0;
        assert(t2.node_index == source);
        lemma_inputs_come_earlier(g, order, tasks, q, from.pass_by, config(g, source).global_index(from));
    }
}

/// Every input of a scheduled task is handed over by an edge into that input; an input that
/// an edge passes by value reads the output channel the edge starts at, of the task of the
/// edge's source, whatever input channel the edge ends at.
pub proof fn lemma_value_inputs_read_edge_source(
    g: Graph,
    order: Seq<NodeIndex>,
    tasks: Seq<Option<Task>>,
    p: int,
    pass_by: ChannelPassBy,
    j: int,
)
    requires
        topological_order(g, order),
        is_schedule_of(g, order, tasks),
        tasks.len() <= usize::MAX,
        0 <= p < tasks.len(),
        tasks[p] is Some,
        0 <= j < tasks[p]->0.slots(pass_by).len(),
    ensures
        exists|e: u32|
            #![trigger writes_slot(g, e, pass_by, j)]
            incoming(g, order[p]).contains(e) && writes_slot(g, e, pass_by, j) && (graph_edges(g)[e].2.endpoint_from.pass_by
                == ChannelPassBy::Value ==> {
                let input = tasks[p]->0.slots(pass_by)[j];
                &&& input.output_value_channel_index == graph_edges(g)[e].2.endpoint_from.channel_index
                &&& 0 <= input.task_index < order.len()
                &&& order[input.task_index as int] == graph_edges(g)[e].0
            }),
{
    let t = tasks[p]->0;
    let n = order[p];
    assert(task_at(g, order, tasks, p));
    assert(input_from_edge(g, order, tasks, n, pass_by, j, t.slots(pass_by)[j]));
    let e = choose|e: u32|
        #![trigger writes_slot(g, e, pass_by, j)]
        incoming(g, n).contains(e) && writes_slot(g, e, pass_by, j) && t.slots(pass_by)[j]
            == edge_input(g, order, tasks, e);
    assert(graph_edges(g).dom().contains(e));
    let source = graph_edges(g)[e].0;
    let q = order.index_of(source);
    lemma_index_of_unique(order, p);
    assert(order[q] == source);
}

/// The last position at which `previous` holds node `n`, if any.
pub open spec fn last_position_of(previous: Seq<Option<NodeIndex>>, n: NodeIndex) -> Option<int>
    decreases previous.len(),
{
    if previous.len() == 0 {
        None
    } else if previous.last() == Some(n) {
        Some(previous.len() - 1)
    } else {
        last_position_of(previous.drop_last(), n)
    }
}

/// For each task of a new schedule, the position of the task of the same node among the
/// tasks prepared for the previous schedule, whose state the new task takes over; `None`
/// where the new task is disabled or its node had no previous task. `previous` holds the node
/// of each previously prepared task.
pub fn reused_task_indices(previous: &Vec<Option<NodeIndex>>, schedule: &Schedule) -> (r: Vec<
    Option<usize>,
>)
    ensures
        r@.len() == schedule.tasks@.len(),
        forall|p: int|
            0 <= p < r@.len() ==> #[trigger] r@[p] == match schedule.tasks@[p] {
                Some(t) => match last_position_of(previous@, t.node_index) {
                    Some(q) => Some(q as usize),
                    None => None,
                },
                None => None::<usize>,
            },
{
    let mut previous_node_index_map: HashMap<NodeIndex, usize> = HashMap::new();
    let mut i: usize = 0;
    while i < previous.len()
        invariant
            i <= previous@.len(),
            forall|n: NodeIndex|
                #![trigger previous_node_index_map@.contains_key(n)]
                match last_position_of(previous@.take(i as int), n) {
                    Some(q) => previous_node_index_map@.contains_key(n) && previous_node_index_map@[n] == q,
                    None => !previous_node_index_map@.contains_key(n),
                },
        decreases previous@.len() - i,
    {
        proof {
            assert(previous@.take(i + 1).drop_last() =~= previous@.take(i as int));
        }
        match previous[i] {
            Some(node_index) => {
                previous_node_index_map.insert(node_index, i);
            },
            None => {},
        }
        i = i + 1;
    }
    proof {
        assert(previous@.take(i as int) =~= previous@);
    }
    let mut r: Vec<Option<usize>> = Vec::new();
    let mut p: usize = 0;
    while p < schedule.tasks.len()
        invariant
            p <= schedule.tasks@.len(),
            r@.len() == p,
            forall|n: NodeIndex|
                #![trigger previous_node_index_map@.contains_key(n)]
                match last_position_of(previous@, n) {
                    Some(q) => previous_node_index_map@.contains_key(n) && previous_node_index_map@[n] == q,
                    None => !previous_node_index_map@.contains_key(n),
                },
            forall|k: int|
                0 <= k < p ==> #[trigger] r@[k] == match schedule.tasks@[k] {
                    Some(t) => match last_position_of(previous@, t.node_index) {
                        Some(q) => Some(q as usize),
                        None => None,
                    },
                    None => None::<usize>,
                },
        decreases schedule.tasks@.len() - p,
    {
        let reused = match &schedule.tasks[p] {
            Some(task) => {
                assert(previous_node_index_map@.contains_key(task.node_index) == previous_node_index_map@.contains_key(task.node_index));
                match previous_node_index_map.get(&task.node_index) {
                    Some(task_index) => Some(*task_index),
                    None => None,
                }
            },
            None => None,
        };
        r.push(reused);
        p = p + 1;
    }
    r
}

} // verus!
