use vstd::prelude::*;

use crate::node::ty::{abi_compatible, wf, TypeEnum};
use crate::node::{shows, ChannelDirection, ChannelPassBy, ChannelRef, ConnectionPassBy, NodeConfiguration};

use super::store::{
    graph_edge_endpoints, graph_edge_indices, graph_edge_weight, graph_edges, graph_incoming_edges,
    graph_new, graph_node_indices, graph_node_weight, graph_nodes, graph_try_add_edge,
    graph_try_add_node, incoming, lists_increasing, lists_once, Graph,
};
use super::schedule::Schedule;
use super::{ChannelIdentifier, Connection, EdgeData, EdgeEndpoint, NodeData, NodeIndex};

verus! {

/// The configuration of node `n` of `g`.
pub open spec fn config(g: Graph, n: NodeIndex) -> NodeConfiguration {
    graph_nodes(g)[n].configuration
}

/// Whether `n` is a node of the graph behind the reference.
pub open spec fn has_node(g: &Graph, n: NodeIndex) -> bool {
    graph_nodes(*g).dom().contains(n)
}

/// The configuration of node `n` of the graph behind the reference.
pub open spec fn config_of(g: &Graph, n: NodeIndex) -> NodeConfiguration {
    config(*g, n)
}

/// The output channel edge `e` starts at.
pub open spec fn edge_from(g: Graph, e: u32) -> ChannelIdentifier {
    ChannelIdentifier {
        node_index: graph_edges(g)[e].0,
        channel_direction: ChannelDirection::Out,
        channel_index: graph_edges(g)[e].2.endpoint_from.channel_index,
        pass_by: graph_edges(g)[e].2.endpoint_from.pass_by,
    }
}

/// The input channel edge `e` ends at.
pub open spec fn edge_to(g: Graph, e: u32) -> ChannelIdentifier {
    ChannelIdentifier {
        node_index: graph_edges(g)[e].1,
        channel_direction: ChannelDirection::In,
        channel_index: graph_edges(g)[e].2.endpoint_to.channel_index,
        pass_by: graph_edges(g)[e].2.endpoint_to.pass_by,
    }
}

/// The connection edge `e` stands for.
pub open spec fn is_edge_connection(g: Graph, e: u32, c: Connection) -> bool {
    c.spec_from() == edge_from(g, e) && c.spec_to() == edge_to(g, e)
}

/// Whether more than one edge starts at the output channel `c`.
pub open spec fn aliased(g: Graph, c: ChannelIdentifier) -> bool {
    exists|e1: u32, e2: u32|
        #![trigger edge_from(g, e1), edge_from(g, e2)]
        e1 != e2 && graph_edges(g).dom().contains(e1) && graph_edges(g).dom().contains(e2)
            && edge_from(g, e1) == c && edge_from(g, e2) == c
}

/// Whether two connections of the list start at `c`.
pub open spec fn aliased_in(connections: Seq<Connection>, c: ChannelIdentifier) -> bool {
    exists|p: int, q: int|
        #![trigger connections[p], connections[q]]
        0 <= p < q < connections.len() && connections[p].spec_from() == c
            && connections[q].spec_from() == c
}

/// Whether an edge ends at the `i`-th input channel of node `n`.
pub open spec fn channel_covered(g: Graph, n: NodeIndex, i: int) -> bool {
    exists|e: u32|
        incoming(g, n).contains(e) && #[trigger] graph_edges(g)[e].2.endpoint_to == config(
            g,
            n,
        ).endpoint_at(ChannelDirection::In, i)
}

/// Whether an edge ends at node `n`.
pub open spec fn has_incoming(g: Graph, n: NodeIndex) -> bool {
    exists|e: u32| #[trigger] incoming(g, n).contains(e)
}

/// Whether node `n` is left alone, or receives an edge at every one of its input channels.
pub open spec fn inputs_covered(g: Graph, n: NodeIndex) -> bool {
    !has_incoming(g, n) || forall|i: int|
        0 <= i < config(g, n).channel_count(ChannelDirection::In) ==> #[trigger] channel_covered(
            g,
            n,
            i,
        )
}

/// The pass-by check of edge `e`: its source can hand on the value as its target takes it.
pub open spec fn pass_by_ok(g: Graph, e: u32) -> bool {
    ConnectionPassBy::spec_output(edge_from(g, e).pass_by, aliased(g, edge_from(g, e))).rank()
        >= ConnectionPassBy::spec_from(edge_to(g, e).pass_by).rank()
}

/// The pass-by check of an edge: an edge into a shared-reference input always passes it; an
/// edge from a shared-reference output into a mutable-reference or by-value input never does,
/// since a shared borrow cannot be handed on as something the target may change; and an edge
/// from an output that feeds no other connection and is not a shared reference always passes
/// it.
pub proof fn lemma_pass_by_check(g: Graph, e: u32)
    ensures
        edge_to(g, e).pass_by == ChannelPassBy::SharedReference ==> pass_by_ok(g, e),
        edge_from(g, e).pass_by == ChannelPassBy::SharedReference && edge_to(g, e).pass_by
            != ChannelPassBy::SharedReference ==> !pass_by_ok(g, e),
        edge_from(g, e).pass_by != ChannelPassBy::SharedReference && !aliased(g, edge_from(g, e))
            ==> pass_by_ok(g, e),
        aliased(g, edge_from(g, e)) ==> (pass_by_ok(g, e) <==> edge_to(g, e).pass_by
            == ChannelPassBy::SharedReference),
{
}

/// The channel edge `e` starts at, and the one it ends at.
pub open spec fn from_channel_ty(g: Graph, e: u32) -> TypeEnum {
    config(g, graph_edges(g)[e].0).spec_channel(
        ChannelDirection::Out,
        graph_edges(g)[e].2.endpoint_from,
    ).ty
}

pub open spec fn to_channel_ty(g: Graph, e: u32) -> TypeEnum {
    config(g, graph_edges(g)[e].1).spec_channel(ChannelDirection::In, graph_edges(g)[e].2.endpoint_to).ty
}

/// Checking edge `e`: `Some(valid)`, or `None` where the check would look up a channel the
/// node does not have, or compare types whose compatibility is not decided.
pub open spec fn edge_check(g: Graph, e: u32) -> Option<bool> {
    let (a, b, d) = graph_edges(g)[e];
    if a == b {
        Some(false)
    } else if !pass_by_ok(g, e) {
        Some(false)
    } else if !config(g, a).has_channel(ChannelDirection::Out, d.endpoint_from) || !config(
        g,
        b,
    ).has_channel(ChannelDirection::In, d.endpoint_to) || !wf(from_channel_ty(g, e)) || !wf(
        to_channel_ty(g, e),
    ) {
        None
    } else {
        abi_compatible(from_channel_ty(g, e), to_channel_ty(g, e))
    }
}

/// Every node is either unconnected or fully connected.
pub open spec fn all_inputs_covered(g: Graph) -> bool {
    forall|n: NodeIndex| graph_nodes(g).dom().contains(n) ==> #[trigger] inputs_covered(g, n)
}

/// The edge checks can be carried out: every edge whose predecessors (by index) all pass
/// can be checked.
pub open spec fn edges_checkable(g: Graph) -> bool {
    forall|e: u32|
        #![trigger edge_check(g, e)]
        graph_edges(g).dom().contains(e) && (forall|e0: u32|
            #![trigger edge_check(g, e0)]
            graph_edges(g).dom().contains(e0) && e0 < e ==> edge_check(g, e0) == Some(true))
            ==> edge_check(g, e) is Some
}

/// A graph whose every node is unconnected or fully connected, and whose every edge passes.
pub open spec fn graph_valid(g: Graph) -> bool {
    &&& all_inputs_covered(g)
    &&& forall|e: u32|
        #![trigger edge_check(g, e)]
        graph_edges(g).dom().contains(e) ==> edge_check(g, e) == Some(true)
}

/// Number of connections of the list that start at `c`.
pub open spec fn count_from(s: Seq<Connection>, c: ChannelIdentifier) -> nat
    decreases s.len(),
{
    if s.len() == 0 {
        0
    } else {
        count_from(s.drop_last(), c) + if s.last().spec_from() == c {
            1nat
        } else {
            0nat
        }
    }
}

/// At least one connection of the list starts at `c`.
pub open spec fn some_from(s: Seq<Connection>, c: ChannelIdentifier) -> bool {
    exists|p: int| 0 <= p < s.len() && #[trigger] s[p].spec_from() == c
}

proof fn lemma_count_from(s: Seq<Connection>, c: ChannelIdentifier)
    ensures
        (count_from(s, c) >= 1) == some_from(s, c),
        (count_from(s, c) >= 2) == aliased_in(s, c),
    decreases s.len(),
{
    if s.len() > 0 {
        let t = s.drop_last();
        let last = s.len() - 1;
        lemma_count_from(t, c);
        assert(forall|p: int| 0 <= p < t.len() ==> t[p] == s[p]);
        if s.last().spec_from() == c {
            assert(s[last].spec_from() == c);
            if count_from(t, c) >= 1 {
                let p = choose|p: int| 0 <= p < t.len() && #[trigger] t[p].spec_from() == c;
                assert(s[p].spec_from() == c && s[last].spec_from() == c);
                assert(aliased_in(s, c));
            }
            if aliased_in(s, c) {
                let (p, q) = choose|p: int, q: int|
                    #![trigger s[p], s[q]]
                    0 <= p < q < s.len() && s[p].spec_from() == c && s[q].spec_from() == c;
                assert(t[p].spec_from() == c);
            }
        } else {
            if some_from(s, c) {
                let p = choose|p: int| 0 <= p < s.len() && #[trigger] s[p].spec_from() == c;
                assert(t[p].spec_from() == c);
            }
            if some_from(t, c) {
                let p = choose|p: int| 0 <= p < t.len() && #[trigger] t[p].spec_from() == c;
                assert(s[p].spec_from() == c);
            }
            if aliased_in(s, c) {
                let (p, q) = choose|p: int, q: int|
                    #![trigger s[p], s[q]]
                    0 <= p < q < s.len() && s[p].spec_from() == c && s[q].spec_from() == c;
                assert(t[p].spec_from() == c && t[q].spec_from() == c);
            }
            if aliased_in(t, c) {
                let (p, q) = choose|p: int, q: int|
                    #![trigger t[p], t[q]]
                    0 <= p < q < t.len() && t[p].spec_from() == c && t[q].spec_from() == c;
                assert(s[p].spec_from() == c && s[q].spec_from() == c);
            }
        }
    }
}

/// Counts the connections of the list that start at `channel`.
fn count_connections_from(connections: &Vec<Connection>, channel: ChannelIdentifier) -> (r: usize)
    ensures
        r == count_from(connections@, channel),
{
    let mut count: usize = 0;
    let mut i: usize = 0;
    while i < connections.len()
        invariant
            i <= connections@.len(),
            count <= i,
            count == count_from(connections@.take(i as int), channel),
        decreases connections@.len() - i,
    {
        assert(connections@.take(i + 1).drop_last() =~= connections@.take(i as int));
        if connections[i].from() == channel {
            count = count + 1;
        }
        i = i + 1;
    }
    assert(connections@.take(i as int) =~= connections@);
    count
}

/// In an increasing enumeration, an element below the `k`-th comes before it.
proof fn lemma_increasing_before(s: Seq<u32>, set: Set<u32>, k: int, x: u32)
    requires
        lists_increasing(s, set),
        0 <= k < s.len(),
        set.contains(x),
        x < s[k],
    ensures
        exists|j: int| 0 <= j < k && s[j] == x,
{
    assert(s.contains(x));
    let j = choose|j: int| 0 <= j < s.len() && s[j] == x;
    if j >= k {
        if j > k {
            assert(s[k] < s[j]);
        }
    }
}

/// Two connections of the list start at `c` exactly when two edges of the graph do.
proof fn lemma_aliased_in(g: Graph, conns: Seq<Connection>, ids: Seq<u32>, c: ChannelIdentifier)
    requires
        lists_increasing(ids, graph_edges(g).dom()),
        conns.len() == ids.len(),
        forall|k: int| 0 <= k < ids.len() ==> is_edge_connection(g, ids[k], #[trigger] conns[k]),
    ensures
        aliased_in(conns, c) == aliased(g, c),
{
    if aliased_in(conns, c) {
        let (p, q) = choose|p: int, q: int|
            #![trigger conns[p], conns[q]]
            0 <= p < q < conns.len() && conns[p].spec_from() == c && conns[q].spec_from() == c;
        assert(is_edge_connection(g, ids[p], conns[p]));
        assert(is_edge_connection(g, ids[q], conns[q]));
        assert(ids[p] < ids[q]);
        assert(edge_from(g, ids[p]) == c && edge_from(g, ids[q]) == c);
    }
    if aliased(g, c) {
        let (e1, e2) = choose|e1: u32, e2: u32|
            #![trigger edge_from(g, e1), edge_from(g, e2)]
            e1 != e2 && graph_edges(g).dom().contains(e1) && graph_edges(g).dom().contains(e2)
                && edge_from(g, e1) == c && edge_from(g, e2) == c;
        assert(ids.contains(e1));
        assert(ids.contains(e2));
        let p1 = choose|p: int| 0 <= p < ids.len() && ids[p] == e1;
        let q1 = choose|p: int| 0 <= p < ids.len() && ids[p] == e2;
        assert(is_edge_connection(g, ids[p1], conns[p1]));
        assert(is_edge_connection(g, ids[q1], conns[q1]));
        if p1 < q1 {
            assert(conns[p1].spec_from() == c && conns[q1].spec_from() == c);
        } else {
            assert(conns[q1].spec_from() == c && conns[p1].spec_from() == c);
        }
    }
}

/// Whether one of the first `k` listed edges ends at `endpoint`.
pub open spec fn covered_by(g: Graph, ids: Seq<u32>, k: int, endpoint: EdgeEndpoint) -> bool {
    exists|j: int| 0 <= j < k && #[trigger] graph_edges(g)[ids[j]].2.endpoint_to == endpoint
}

/// Whether every flag is set.
fn all_set(flags: &Vec<bool>) -> (r: bool)
    ensures
        r == forall|q: int| 0 <= q < flags@.len() ==> flags@[q],
{
    let mut i: usize = 0;
    while i < flags.len()
        invariant
            i <= flags@.len(),
            forall|q: int| 0 <= q < i ==> flags@[q],
        decreases flags@.len() - i,
    {
        if !flags[i] {
            return false;
        }
        i = i + 1;
    }
    true
}

/// The graph of nodes, together with the schedule derived from it last.
pub struct ExecutionGraph {
    pub graph: Graph,
    /// The schedule created last; `None` before the first and after a failed update.
    pub active_schedule: Option<Schedule>,
}

impl ExecutionGraph {
    /// An empty graph, with no schedule.
    pub fn new() -> (r: Self)
        ensures
            graph_nodes(r.graph).is_empty(),
            graph_edges(r.graph).is_empty(),
            r.active_schedule is None,
    {
        ExecutionGraph { graph: graph_new(), active_schedule: None }
    }

    /// Adds a node; `None` when the graph cannot hold more nodes: every index below
    /// `u32::MAX` already holds one.
    pub fn add_node(&mut self, node: NodeData) -> (r: Option<NodeIndex>)
        ensures
            final(self).active_schedule == old(self).active_schedule,
            graph_edges(final(self).graph) == graph_edges(old(self).graph),
            r matches Some(n) ==> !graph_nodes(old(self).graph).dom().contains(n) && graph_nodes(
                final(self).graph,
            ) == graph_nodes(old(self).graph).insert(n, node),
            r is None ==> graph_nodes(final(self).graph) == graph_nodes(old(self).graph),
            r is None ==> forall|n: NodeIndex|
                n < u32::MAX ==> #[trigger] graph_nodes(old(self).graph).dom().contains(n),
    {
        graph_try_add_node(&mut self.graph, node)
    }

    /// Adds an edge between two nodes of the graph; `None` when the graph cannot hold more
    /// edges: every index below `u32::MAX` already holds one.
    pub fn add_edge(&mut self, from: NodeIndex, to: NodeIndex, data: EdgeData) -> (r: Option<u32>)
        requires
            graph_nodes(old(self).graph).dom().contains(from),
            graph_nodes(old(self).graph).dom().contains(to),
        ensures
            final(self).active_schedule == old(self).active_schedule,
            graph_nodes(final(self).graph) == graph_nodes(old(self).graph),
            r matches Some(e) ==> !graph_edges(old(self).graph).dom().contains(e) && graph_edges(
                final(self).graph,
            ) == graph_edges(old(self).graph).insert(e, (from, to, data)),
            r is None ==> graph_edges(final(self).graph) == graph_edges(old(self).graph),
            r is None ==> forall|e: u32|
                e < u32::MAX ==> #[trigger] graph_edges(old(self).graph).dom().contains(e),
    {
        graph_try_add_edge(&mut self.graph, from, to, data)
    }

    /// The connection of every edge, in the order of the edge indices.
    pub fn get_connections(&self) -> (r: Vec<Connection>)
        ensures
            exists|ids: Seq<u32>|
                {
                    &&& lists_increasing(ids, graph_edges(self.graph).dom())
                    &&& r@.len() == ids.len()
                    &&& forall|k: int|
                        0 <= k < ids.len() ==> is_edge_connection(self.graph, ids[k], #[trigger] r@[k])
                },
    {
        let ids = graph_edge_indices(&self.graph);
        let mut connections: Vec<Connection> = Vec::new();
        let mut k: usize = 0;
        while k < ids.len()
            invariant
                k <= ids@.len(),
                lists_increasing(ids@, graph_edges(self.graph).dom()),
                connections@.len() == k,
                forall|j: int|
                    0 <= j < k ==> is_edge_connection(self.graph, ids@[j], #[trigger] connections@[j]),
            decreases ids@.len() - k,
        {
            let edge_index = ids[k];
            let edge_data = graph_edge_weight(&self.graph, edge_index).unwrap();
            let (index_from, index_to) = graph_edge_endpoints(&self.graph, edge_index).unwrap();
            let from = edge_data.endpoint_from.into_undirected_identifier(index_from);
            let to = edge_data.endpoint_to.into_undirected_identifier(index_to);
            connections.push(Connection([from, to]));
            k = k + 1;
        }
        connections
    }

    /// Whether node `node_index`, a node of the graph, is unconnected or fully connected.
    fn check_node_inputs(&self, node_index: NodeIndex) -> (r: bool)
        requires
            graph_nodes(self.graph).dom().contains(node_index),
        ensures
            r == inputs_covered(self.graph, node_index),
    {
        let ghost g = self.graph;
        let node = graph_node_weight(&self.graph, node_index).unwrap();
        let configuration = &node.configuration;
        let input_channels = configuration.channels(ChannelDirection::In);
        let count = input_channels.len();
        let mut covered: Vec<bool> = Vec::new();
        let mut q: usize = 0;
        while q < count
            invariant
                q <= count,
                covered@.len() == q,
                forall|p: int| 0 <= p < q ==> !covered@[p],
            decreases count - q,
        {
            covered.push(false);
            q = q + 1;
        }
        let incoming_ids = graph_incoming_edges(&self.graph, node_index);
        let mut used = false;
        let mut k: usize = 0;
        while k < incoming_ids.len()
            invariant
                k <= incoming_ids@.len(),
                g == self.graph,
                *configuration == config(g, node_index),
                count == configuration.channel_count(ChannelDirection::In),
                count <= usize::MAX,
                lists_once(incoming_ids@, incoming(g, node_index)),
                covered@.len() == count,
                used == (k > 0),
                forall|p: int|
                    0 <= p < count ==> (#[trigger] covered@[p] <==> covered_by(
                        g,
                        incoming_ids@,
                        k as int,
                        configuration.endpoint_at(ChannelDirection::In, p),
                    )),
            decreases incoming_ids@.len() - k,
        {
            let edge_index = incoming_ids[k];
            assert(incoming(g, node_index).contains(edge_index));
            let edge = graph_edge_weight(&self.graph, edge_index).unwrap();
            let endpoint = edge.endpoint_to;
            let ghost old_covered = covered@;
            if configuration.contains_channel(ChannelDirection::In, endpoint) {
                proof {
                    configuration.lemma_global_index(ChannelDirection::In, endpoint);
                }
                let global = configuration.get_global_channel_index(endpoint);
                covered.set(global, true);
                assert forall|p: int|
                    0 <= p < count implies (#[trigger] covered@[p] <==> covered_by(
                    g,
                    incoming_ids@,
                    k + 1,
                    configuration.endpoint_at(ChannelDirection::In, p),
                )) by {
                    let ep = configuration.endpoint_at(ChannelDirection::In, p);
                    if p == global {
                        assert(graph_edges(g)[incoming_ids@[k as int]].2.endpoint_to == ep);
                    } else {
                        configuration.lemma_endpoint_at(ChannelDirection::In, p);
                        if covered_by(g, incoming_ids@, k + 1, ep) {
                            let j = choose|j: int|
                                0 <= j < k + 1 && #[trigger] graph_edges(g)[incoming_ids@[j]].2.endpoint_to
                                    == ep;
                            if j == k {
                                assert(configuration.global_index(ep) == global);
                            }
                        }
                        if old_covered[p] {
                            assert(covered_by(g, incoming_ids@, k as int, ep));
                            let j = choose|j: int|
                                0 <= j < k && #[trigger] graph_edges(g)[incoming_ids@[j]].2.endpoint_to
                                    == ep;
                            assert(graph_edges(g)[incoming_ids@[j]].2.endpoint_to == ep);
                        }
                    }
                }
            } else {
                assert forall|p: int|
                    0 <= p < count implies (#[trigger] covered@[p] <==> covered_by(
                    g,
                    incoming_ids@,
                    k + 1,
                    configuration.endpoint_at(ChannelDirection::In, p),
                )) by {
                    let ep = configuration.endpoint_at(ChannelDirection::In, p);
                    configuration.lemma_endpoint_at(ChannelDirection::In, p);
                    if covered_by(g, incoming_ids@, k + 1, ep) {
                        let j = choose|j: int|
                            0 <= j < k + 1 && #[trigger] graph_edges(g)[incoming_ids@[j]].2.endpoint_to
                                == ep;
                        if j == k {
                            assert(false);
                        }
                    }
                    if old_covered[p] {
                        let j = choose|j: int|
                            0 <= j < k && #[trigger] graph_edges(g)[incoming_ids@[j]].2.endpoint_to
                                == ep;
                        assert(graph_edges(g)[incoming_ids@[j]].2.endpoint_to == ep);
                    }
                }
            }
            used = true;
            k = k + 1;
        }
        let all = all_set(&covered);
        proof {
            if incoming_ids@.len() > 0 {
                assert(incoming(g, node_index).contains(incoming_ids@[0]));
            }
            if has_incoming(g, node_index) {
                let e = choose|e: u32| #[trigger] incoming(g, node_index).contains(e);
                assert(incoming_ids@.contains(e));
            }
            assert forall|p: int|
                0 <= p < count implies (covered@[p] <==> #[trigger] channel_covered(
                g,
                node_index,
                p,
            )) by {
                let ep = configuration.endpoint_at(ChannelDirection::In, p);
                if covered@[p] {
                    let j = choose|j: int|
                        0 <= j < incoming_ids@.len() && #[trigger] graph_edges(
                            g,
                        )[incoming_ids@[j]].2.endpoint_to == ep;
                    assert(incoming(g, node_index).contains(incoming_ids@[j]));
                }
                if channel_covered(g, node_index, p) {
                    let e = choose|e: u32|
                        incoming(g, node_index).contains(e) && #[trigger] graph_edges(
                            g,
                        )[e].2.endpoint_to == ep;
                    assert(incoming_ids@.contains(e));
                    let j = choose|j: int| 0 <= j < incoming_ids@.len() && incoming_ids@[j] == e;
                    assert(graph_edges(g)[incoming_ids@[j]].2.endpoint_to == ep);
                }
            }
        }
        assert(k == incoming_ids@.len());
        assert(used == (incoming_ids@.len() > 0));
        assert(incoming_ids@.len() > 0 ==> has_incoming(g, node_index));
        assert(has_incoming(g, node_index) ==> incoming_ids@.len() > 0);
        assert(used == has_incoming(g, node_index));
        proof {
            if all {
                assert forall|p: int| 0 <= p < count implies #[trigger] channel_covered(
                    g,
                    node_index,
                    p,
                ) by {
                    assert(covered@[p]);
                }
            } else {
                let p = choose|p: int| 0 <= p < covered@.len() && !covered@[p];
                assert(!channel_covered(g, node_index, p));
            }
        }
        !(used && !all)
    }

    /// Checks the graph: every node is unconnected or receives an edge at each of its input
    /// channels, and every edge joins two different nodes, passes a value the way the input
    /// takes it, and joins channels of compatible types.
    #[verifier::rlimit(40)]
    #[verifier::loop_isolation(false)]
    pub fn check_graph_validity(&self) -> (r: Result<(), ()>)
        requires
            all_inputs_covered(self.graph) ==> edges_checkable(self.graph),
        ensures
            r is Ok <==> graph_valid(self.graph),
    {
        let ghost g = self.graph;
        let node_ids = graph_node_indices(&self.graph);
        let mut i: usize = 0;
        while i < node_ids.len()
            invariant
                i <= node_ids@.len(),
                g == self.graph,
                lists_increasing(node_ids@, graph_nodes(g).dom()),
                forall|j: int| 0 <= j < i ==> inputs_covered(g, #[trigger] node_ids@[j]),
            decreases node_ids@.len() - i,
        {
            let node_index = node_ids[i];
            if !self.check_node_inputs(node_index) {
                return Err(());
            }
            i = i + 1;
        }
        assert(all_inputs_covered(g)) by {
            assert forall|n: NodeIndex| graph_nodes(g).dom().contains(n) implies #[trigger] inputs_covered(
                g,
                n,
            ) by {
                assert(node_ids@.contains(n));
                let j = choose|j: int| 0 <= j < node_ids@.len() && node_ids@[j] == n;
                assert(inputs_covered(g, node_ids@[j]));
            }
        }

        let connections = self.get_connections();
        let ghost cids = choose|ids: Seq<u32>|
            {
                &&& lists_increasing(ids, graph_edges(g).dom())
                &&& connections@.len() == ids.len()
                &&& forall|k: int|
                    0 <= k < ids.len() ==> is_edge_connection(g, ids[k], #[trigger] connections@[k])
            };
        let is_aliased = |channel: ChannelIdentifier| -> (r: bool)
            ensures
                r == aliased_in(connections@, channel),
            {
                let count = count_connections_from(&connections, channel);
                proof {
                    lemma_count_from(connections@, channel);
                }
                count > 1
            };
        let graph = &self.graph;
        let get_channel = move |channel: ChannelIdentifier| -> (r: ChannelRef<'_>)
            requires
                has_node(graph, channel.node_index),
                config_of(graph, channel.node_index).has_channel(
                    channel.channel_direction,
                    channel.into_spec_edge_endpoint(),
                ),
            ensures
                shows(
                    r,
                    config_of(graph, channel.node_index).spec_channel(
                        channel.channel_direction,
                        channel.into_spec_edge_endpoint(),
                    ),
                    channel.into_spec_edge_endpoint(),
                    channel.channel_direction,
                ),
            {
                let node = graph_node_weight(graph, channel.node_index).unwrap();
                node.configuration.channel(channel.channel_direction, channel.into_edge_endpoint())
            };

        let edge_ids = graph_edge_indices(&self.graph);
        let mut k: usize = 0;
        while k < edge_ids.len()
            invariant
                k <= edge_ids@.len(),
                g == self.graph,
                *graph == g,
                all_inputs_covered(g),
                edges_checkable(g),
                lists_increasing(edge_ids@, graph_edges(g).dom()),
                lists_increasing(cids, graph_edges(g).dom()),
                connections@.len() == cids.len(),
                forall|q: int|
                    0 <= q < cids.len() ==> is_edge_connection(g, cids[q], #[trigger] connections@[q]),
                forall|j: int| 0 <= j < k ==> edge_check(g, #[trigger] edge_ids@[j]) == Some(true),
            decreases edge_ids@.len() - k,
        {
            let edge_index = edge_ids[k];
            let edge = graph_edge_weight(&self.graph, edge_index).unwrap();
            let (node_index_from, node_index_to) = graph_edge_endpoints(&self.graph, edge_index).unwrap();
            let connection = Connection(
                [
                    edge.endpoint_from.into_undirected_identifier(node_index_from),
                    edge.endpoint_to.into_undirected_identifier(node_index_to),
                ],
            );
            proof {
                assert(is_edge_connection(g, edge_index, connection));
                lemma_aliased_in(g, connections@, cids, connection.spec_from());
                assert forall|e0: u32|
                    graph_edges(g).dom().contains(e0) && e0 < edge_index implies #[trigger] edge_check(
                    g,
                    e0,
                ) == Some(true) by {
                    lemma_increasing_before(edge_ids@, graph_edges(g).dom(), k as int, e0);
                    let j = choose|j: int| 0 <= j < k && edge_ids@[j] == e0;
                    assert(edge_check(g, edge_ids@[j]) == Some(true));
                }
                assert(edge_check(g, edge_index) is Some);
                let from = connection.spec_from();
                let to = connection.spec_to();
                assert(from == edge_from(g, edge_index));
                assert(to == edge_to(g, edge_index));
                assert forall|al: bool|
                    #![trigger is_aliased.ensures((connection.spec_from(),), al)]
                    is_aliased.ensures((connection.spec_from(),), al) && connection.spec_from().node_index
                        != connection.spec_to().node_index && connection.pass_ok(al) implies {
                    &&& get_channel.requires((connection.spec_from(),))
                    &&& get_channel.requires((connection.spec_to(),))
                    &&& forall|a: ChannelRef<'_>, b: ChannelRef<'_>|
                        #![trigger get_channel.ensures((connection.spec_from(),), a), get_channel.ensures((connection.spec_to(),), b)]
                        get_channel.ensures((connection.spec_from(),), a) && get_channel.ensures(
                            (connection.spec_to(),),
                            b,
                        ) ==> wf(*a.ty) && wf(*b.ty) && abi_compatible(*a.ty, *b.ty) is Some
                } by {
                    assert(al == aliased(g, from));
                    assert(pass_by_ok(g, edge_index));
                    assert(config(g, from.node_index).has_channel(
                        ChannelDirection::Out,
                        from.into_spec_edge_endpoint(),
                    ));
                    assert(config(g, to.node_index).has_channel(
                        ChannelDirection::In,
                        to.into_spec_edge_endpoint(),
                    ));
                    assert forall|a: ChannelRef<'_>, b: ChannelRef<'_>|
                        #![trigger get_channel.ensures((connection.spec_from(),), a), get_channel.ensures((connection.spec_to(),), b)]
                        get_channel.ensures((connection.spec_from(),), a) && get_channel.ensures(
                            (connection.spec_to(),),
                            b,
                        ) implies wf(*a.ty) && wf(*b.ty) && abi_compatible(*a.ty, *b.ty) is Some by {
                        assert(from.into_spec_edge_endpoint() == graph_edges(g)[edge_index].2.endpoint_from);
                        assert(has_node(graph, from.node_index));
                        assert(get_channel.requires((from,)));
                        assert(to.into_spec_edge_endpoint() == graph_edges(g)[edge_index].2.endpoint_to);
                        assert(shows(
                            a,
                            config_of(graph, from.node_index).spec_channel(
                                ChannelDirection::Out,
                                from.into_spec_edge_endpoint(),
                            ),
                            from.into_spec_edge_endpoint(),
                            ChannelDirection::Out,
                        ));
                        assert(*a.ty == from_channel_ty(g, edge_index));
                        assert(*b.ty == to_channel_ty(g, edge_index));
                    }
                }
            }
            let valid = connection.is_valid(&is_aliased, &get_channel);
            proof {
                if connection.spec_from().node_index != connection.spec_to().node_index {
                    let al = choose|al: bool|
                        #![trigger is_aliased.ensures((connection.spec_from(),), al)]
                        {
                            &&& is_aliased.ensures((connection.spec_from(),), al)
                            &&& !connection.pass_ok(al) ==> !valid
                            &&& connection.pass_ok(al) ==> exists|a: ChannelRef<'_>, b: ChannelRef<'_>|
                                #![trigger get_channel.ensures((connection.spec_from(),), a), get_channel.ensures((connection.spec_to(),), b)]
                                get_channel.ensures((connection.spec_from(),), a)
                                    && get_channel.ensures((connection.spec_to(),), b) && valid
                                    == abi_compatible(*a.ty, *b.ty).unwrap()
                        };
                    assert(al == aliased(g, edge_from(g, edge_index)));
                }
            }
            if !valid {
                return Err(());
            }
            k = k + 1;
        }
        proof {
            assert forall|e: u32|
                graph_edges(g).dom().contains(e) implies #[trigger] edge_check(g, e) == Some(true) by {
                assert(edge_ids@.contains(e));
                let j = choose|j: int| 0 <= j < edge_ids@.len() && edge_ids@[j] == e;
                assert(edge_check(g, edge_ids@[j]) == Some(true));
            }
        }
        Ok(())
    }
}

} // verus!
