//! A check that a graph can be handed to validation and scheduling: those look channels up
//! by the indices the edges give, and assume that the lookups land.

use vstd::prelude::*;

use crate::node::ty::{has_texture, lemma_abi_decided, wf};
use crate::node::{ChannelDirection, ChannelPassBy, NodeConfiguration};

use super::execution::{
    all_inputs_covered, channel_covered, config, edge_check, edges_checkable, from_channel_ty,
    graph_valid, has_incoming, inputs_covered, to_channel_ty, ExecutionGraph,
};
use super::schedule::{
    edge_slots_in_range, global_index_fits, schedulable, schedulable_along, slot_written, slots_written,
    writes_slot,
};
use super::store::{
    graph_edge_endpoints, graph_edge_indices, graph_edge_weight, graph_edges, graph_incoming_edges,
    graph_node_indices, graph_node_weight, graph_nodes, has_cycle, incoming, lists_increasing,
    lists_once, topological_order, Graph,
};
use super::{EdgeEndpoint, NodeIndex};

verus! {

/// Edge `e` joins channels that its nodes have, of well-formed types without a texture in the
/// one it starts at, and the inputs it writes and reads lie among those of its target and of
/// its source.
pub open spec fn edge_schedulable(g: Graph, e: u32) -> bool {
    let (a, b, d) = graph_edges(g)[e];
    &&& config(g, a).has_channel(ChannelDirection::Out, d.endpoint_from)
    &&& config(g, b).has_channel(ChannelDirection::In, d.endpoint_to)
    &&& wf(from_channel_ty(g, e))
    &&& wf(to_channel_ty(g, e))
    &&& !has_texture(from_channel_ty(g, e))
    &&& global_index_fits(g, e)
    &&& edge_slots_in_range(g, e)
}

/// The inputs of a configuration come in one way at most: by shared reference, by mutable
/// reference, or by value.
pub open spec fn one_input_category(c: NodeConfiguration) -> bool {
    &&& c.channels_by_mutable_reference@.len() > 0 ==> c.channels_by_shared_reference@.len() == 0
    &&& c.input_channels_by_value@.len() > 0 ==> c.channels_by_shared_reference@.len() == 0
        && c.channels_by_mutable_reference@.len() == 0
}

/// Every edge can be scheduled, and every node that an edge ends at takes its inputs in one
/// way only.
pub open spec fn schedule_checked(g: Graph) -> bool {
    &&& forall|e: u32| graph_edges(g).dom().contains(e) ==> #[trigger] edge_schedulable(g, e)
    &&& forall|n: NodeIndex|
        graph_nodes(g).dom().contains(n) && #[trigger] has_incoming(g, n) ==> one_input_category(
            config(g, n),
        )
}

/// An edge that can be scheduled can be checked.
proof fn lemma_edge_checkable(g: Graph, e: u32)
    requires
        edge_schedulable(g, e),
    ensures
        edge_check(g, e) is Some,
{
    lemma_abi_decided(from_channel_ty(g, e), to_channel_ty(g, e));
}

/// A fully connected node that takes its inputs in one way only has each of them written.
proof fn lemma_slots_written(g: Graph, n: NodeIndex)
    requires
        inputs_covered(g, n),
        has_incoming(g, n) ==> one_input_category(config(g, n)),
    ensures
        slots_written(g, n),
{
    let c = config(g, n);
    if has_incoming(g, n) {
        assert forall|pass_by: ChannelPassBy, j: int|
            #![trigger slot_written(g, n, pass_by, j)]
            0 <= j < config(g, n).category(pass_by, ChannelDirection::In).len() implies slot_written(
            g,
            n,
            pass_by,
            j,
        ) by {
            assert(c.channels_by_shared_reference.len() == c.channels_by_shared_reference@.len());
            assert(c.channels_by_mutable_reference.len() == c.channels_by_mutable_reference@.len());
            assert(c.input_channels_by_value.len() == c.input_channels_by_value@.len());
            let ep = EdgeEndpoint { channel_index: j as usize, pass_by };
            assert(j < c.channel_count(ChannelDirection::In));
            assert(c.endpoint_at(ChannelDirection::In, j) == ep);
            c.lemma_endpoint_at(ChannelDirection::In, j);
            assert(channel_covered(g, n, j));
            let e = choose|e: u32|
                incoming(g, n).contains(e) && #[trigger] graph_edges(g)[e].2.endpoint_to == c.endpoint_at(
                    ChannelDirection::In,
                    j,
                );
            assert(graph_edges(g)[e].1 == n);
            assert(writes_slot(g, e, pass_by, j));
        }
    }
}

/// A graph that passes the check can be handed to validation, and, where it is valid and
/// has no cycle, to scheduling.
pub proof fn lemma_schedule_checked(g: Graph)
    requires
        schedule_checked(g),
    ensures
        all_inputs_covered(g) ==> edges_checkable(g),
        graph_valid(g) && !has_cycle(g) ==> schedulable(g),
{
    assert forall|e: u32| graph_edges(g).dom().contains(e) implies #[trigger] edge_check(g, e) is Some by {
        assert(edge_schedulable(g, e));
        lemma_edge_checkable(g, e);
    }
    if graph_valid(g) {
        assert forall|order: Seq<NodeIndex>| topological_order(g, order) implies #[trigger] schedulable_along(
            g,
            order,
        ) by {
            assert forall|e: u32| graph_edges(g).dom().contains(e) implies #[trigger] global_index_fits(g, e) by {
                assert(edge_schedulable(g, e));
            }
            assert forall|e: u32| graph_edges(g).dom().contains(e) implies #[trigger] edge_slots_in_range(g, e) by {
                assert(edge_schedulable(g, e));
            }
            assert forall|p: int| 0 <= p < order.len() implies #[trigger] slots_written(g, order[p]) by {
                let n = order[p];
                assert(graph_nodes(g).dom().contains(n));
                assert(inputs_covered(g, n));
                lemma_slots_written(g, n);
            }
        }
    }
}

/// The number of channels of `c` in the category `pass_by` of `direction`.
fn category_len(c: &NodeConfiguration, pass_by: ChannelPassBy, direction: ChannelDirection) -> (r: usize)
    ensures
        r == c.category(pass_by, direction).len(),
{
    match pass_by {
        ChannelPassBy::SharedReference => c.channels_by_shared_reference.len(),
        ChannelPassBy::MutableReference => c.channels_by_mutable_reference.len(),
        ChannelPassBy::Value => match direction {
            ChannelDirection::In => c.input_channels_by_value.len(),
            ChannelDirection::Out => c.output_channels_by_value.len(),
        },
    }
}

/// The global index of `endpoint` on `c`, or `None` where it does not fit in a `usize`.
fn checked_global_index(c: &NodeConfiguration, endpoint: EdgeEndpoint) -> (r: Option<usize>)
    ensures
        r matches Some(i) ==> i == c.global_index(endpoint),
        r is None ==> c.global_index(endpoint) > usize::MAX,
{
    let shared = c.channels_by_shared_reference.len();
    let mutable = c.channels_by_mutable_reference.len();
    match endpoint.pass_by {
        ChannelPassBy::SharedReference => Some(endpoint.channel_index),
        ChannelPassBy::MutableReference => endpoint.channel_index.checked_add(shared),
        ChannelPassBy::Value => match endpoint.channel_index.checked_add(shared) {
            Some(partial) => partial.checked_add(mutable),
            None => None,
        },
    }
}

impl ExecutionGraph {
    /// Whether edge `edge_index` of the graph can be scheduled.
    fn check_edge_schedulable(&self, edge_index: u32) -> (r: bool)
        requires
            graph_edges(self.graph).dom().contains(edge_index),
        ensures
            r == edge_schedulable(self.graph, edge_index),
    {
        let ghost g = self.graph;
        let edge = graph_edge_weight(&self.graph, edge_index).unwrap();
        let (from, to) = graph_edge_endpoints(&self.graph, edge_index).unwrap();
        let source = &graph_node_weight(&self.graph, from).unwrap().configuration;
        let target = &graph_node_weight(&self.graph, to).unwrap().configuration;
        if !source.contains_channel(ChannelDirection::Out, edge.endpoint_from) || !target.contains_channel(
            ChannelDirection::In,
            edge.endpoint_to,
        ) {
            return false;
        }
        let source_channel = source.channel(ChannelDirection::Out, edge.endpoint_from);
        let target_channel = target.channel(ChannelDirection::In, edge.endpoint_to);
        assert(*source_channel.ty == from_channel_ty(g, edge_index));
        assert(*target_channel.ty == to_channel_ty(g, edge_index));
        if !source_channel.ty.checked_size().0 || !target_channel.ty.checked_size().0
            || source_channel.ty.contains_texture() {
            return false;
        }
        let target_len = category_len(target, edge.endpoint_to.pass_by, ChannelDirection::In);
        let target_index = match checked_global_index(target, edge.endpoint_to) {
            Some(index) => index,
            None => {
                return false;
            },
        };
        if target_index >= target_len {
            return false;
        }
        if edge.endpoint_from.pass_by != ChannelPassBy::Value {
            let source_len = category_len(source, edge.endpoint_from.pass_by, ChannelDirection::Out);
            match checked_global_index(source, edge.endpoint_from) {
                Some(source_index) => source_index < source_len,
                None => false,
            }
        } else {
            true
        }
    }

    /// Whether the graph can be handed to `check_graph_validity`, and, where it is valid and
    /// has no cycle, to `create_schedule` and `update_schedule`: every edge joins channels
    /// that its nodes have, of well-formed types without a texture in the one it starts at,
    /// and writes and reads inputs that lie among those of its nodes, and every node that an
    /// edge ends at takes its inputs in one way only. Where it fails, those functions may
    /// look up an input past the end of a list, or compare types whose compatibility is not
    /// decided.
    pub fn schedule_checks_pass(&self) -> (r: bool)
        ensures
            r == schedule_checked(self.graph),
            r ==> (all_inputs_covered(self.graph) ==> edges_checkable(self.graph)),
            r ==> (graph_valid(self.graph) && !has_cycle(self.graph) ==> schedulable(self.graph)),
    {
        let ghost g = self.graph;
        let edge_ids = graph_edge_indices(&self.graph);
        let mut k: usize = 0;
        while k < edge_ids.len()
            invariant
                k <= edge_ids@.len(),
                g == self.graph,
                lists_increasing(edge_ids@, graph_edges(g).dom()),
                forall|j: int| 0 <= j < k ==> edge_schedulable(g, #[trigger] edge_ids@[j]),
            decreases edge_ids@.len() - k,
        {
            if !self.check_edge_schedulable(edge_ids[k]) {
                return false;
            }
            k = k + 1;
        }
        let node_ids = graph_node_indices(&self.graph);
        let mut i: usize = 0;
        while i < node_ids.len()
            invariant
                i <= node_ids@.len(),
                g == self.graph,
                lists_increasing(node_ids@, graph_nodes(g).dom()),
                forall|j: int|
                    0 <= j < i ==> has_incoming(g, #[trigger] node_ids@[j]) ==> one_input_category(
                        config(g, node_ids@[j]),
                    ),
            decreases node_ids@.len() - i,
        {
            let node_index = node_ids[i];
            let incoming_ids = graph_incoming_edges(&self.graph, node_index);
            proof {
                if incoming_ids@.len() > 0 {
                    assert(incoming(g, node_index).contains(incoming_ids@[0]));
                }
                if has_incoming(g, node_index) {
                    let e = choose|e: u32| #[trigger] incoming(g, node_index).contains(e);
                    assert(incoming_ids@.contains(e));
                }
            }
            if incoming_ids.len() > 0 {
                let c = &graph_node_weight(&self.graph, node_index).unwrap().configuration;
                let shared = c.channels_by_shared_reference.len();
                let mutable = c.channels_by_mutable_reference.len();
                let value = c.input_channels_by_value.len();
                if (mutable > 0 && shared > 0) || (value > 0 && (shared > 0 || mutable > 0)) {
                    return false;
                }
            }
            i = i + 1;
        }
        proof {
            assert forall|e: u32| graph_edges(g).dom().contains(e) implies #[trigger] edge_schedulable(g, e) by {
                assert(edge_ids@.contains(e));
                let j = choose|j: int| 0 <= j < edge_ids@.len() && edge_ids@[j] == e;
                assert(edge_schedulable(g, edge_ids@[j]));
            }
            assert forall|n: NodeIndex|
                graph_nodes(g).dom().contains(n) && #[trigger] has_incoming(g, n) implies one_input_category(
                config(g, n),
            ) by {
                assert(node_ids@.contains(n));
                let j = choose|j: int| 0 <= j < node_ids@.len() && node_ids@[j] == n;
                assert(has_incoming(g, node_ids@[j]));
            }
            lemma_schedule_checked(g);
        }
        true
    }
}

} // verus!
