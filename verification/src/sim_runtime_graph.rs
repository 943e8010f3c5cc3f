//! A live picture of the network: which nodes are up and which channels are
//! open, kept current while a run is in flight.

use vstd::prelude::*;
use vstd::pervasive::VecAdditionalExecFns;
use crate::sim_channel::SimChannel;
use crate::sim_event::{SimulationEvent, SimulationEventView};
use crate::sim_node::SimNode;
use crate::text::{ascii_chars, ascii_string, decimal_bytes, spec_decimal};

verus! {

/// Placeholder on-chain balance given to the backing nodes of the network,
/// in sats.
pub const SIM_NODE_BALANCE: u64 = 1_000_000_000;

/// The runtime network graph: the nodes and the open channels.
pub struct RuntimeNetworkGraph {
    pub nodes: Vec<SimNode>,
    pub channels: Vec<SimChannel>,
}

/// The name of the `number`-th backing node of the network.
pub open spec fn spec_sim_node_name(number: u64) -> Seq<char> {
    "simnode"@ + ascii_chars(spec_decimal(number))
}

/// A user channel as it enters the graph: the backend-assigned fields are
/// not known yet.
pub open spec fn spec_graph_channel(c: SimChannel) -> SimChannel {
    SimChannel {
        short_id: None,
        run_time_id: None,
        funding_tx: None,
        penalty_reserve_sats: None,
        ..c
    }
}

/// Whether the first node of the given name, if any, has its running flag
/// set to `up`, all else unchanged.
pub open spec fn spec_set_running(nodes: Seq<SimNode>, name: Seq<char>, up: bool) -> Seq<SimNode> {
    let j = first_named(nodes, name);
    if j < 0 {
        nodes
    } else {
        nodes.update(j, SimNode { running: up, ..nodes[j] })
    }
}

/// The index of the first node with the given name, or -1.
pub open spec fn first_named(nodes: Seq<SimNode>, name: Seq<char>) -> int
    decreases nodes.len(),
{
    if nodes.len() == 0 {
        -1
    } else {
        let rest = first_named(nodes.drop_last(), name);
        if rest >= 0 {
            rest
        } else if nodes.last().name@ == name {
            nodes.len() - 1
        } else {
            -1
        }
    }
}

impl RuntimeNetworkGraph {
    pub fn new() -> (r: Self)
        ensures
            r.nodes@ =~= Seq::<SimNode>::empty(),
            r.channels@ =~= Seq::<SimChannel>::empty(),
    {
        RuntimeNetworkGraph { nodes: Vec::new(), channels: Vec::new() }
    }

    /// Seed the graph: the user nodes in order, the user channels with the
    /// backend-assigned fields cleared, and `num_nodes` backing nodes named
    /// `simnode1..`, each running with the placeholder balance.
    pub fn update(&mut self, nodes: &Vec<SimNode>, channels: &Vec<SimChannel>, num_nodes: u64)
        requires
            num_nodes < u64::MAX,
        ensures
            final(self).channels@ == old(self).channels@ + channels@.map_values(
                |c: SimChannel| spec_graph_channel(c),
            ),
            final(self).nodes@.len() == old(self).nodes@.len() + nodes@.len() + num_nodes,
            forall|i: int|
                0 <= i < old(self).nodes@.len() ==> final(self).nodes@[i] == old(self).nodes@[i],
            forall|i: int|
                0 <= i < nodes@.len() ==> final(self).nodes@[old(self).nodes@.len() + i]
                    == nodes@[i],
            forall|i: int|
                0 <= i < num_nodes ==> (#[trigger] final(self).nodes@[old(self).nodes@.len()
                    + nodes@.len() + i]) == (SimNode {
                    name: final(self).nodes@[old(self).nodes@.len() + nodes@.len() + i].name,
                    initial_balance: SIM_NODE_BALANCE,
                    running: true,
                }) && final(self).nodes@[old(self).nodes@.len() + nodes@.len() + i].name@
                    == spec_sim_node_name((i + 1) as u64),
    {
        let ghost n0 = self.nodes@;
        let mut i: usize = 0;
        while i < nodes.len()
            invariant
                i <= nodes.len(),
                self.channels@ == old(self).channels@,
                self.nodes@ =~= n0 + nodes@.take(i as int),
            decreases nodes.len() - i,
        {
            let n = &nodes[i];
            self.nodes.push(
                SimNode {
                    name: n.name.clone(),
                    initial_balance: n.initial_balance,
                    running: n.running,
                },
            );
            proof {
                assert(self.nodes@ =~= n0 + nodes@.take(i + 1));
            }
            i += 1;
        }
        let ghost c0 = self.channels@;
        let mut k: usize = 0;
        while k < channels.len()
            invariant
                k <= channels.len(),
                self.nodes@ == n0 + nodes@.take(nodes@.len() as int),
                self.channels@ =~= c0 + channels@.take(k as int).map_values(
                    |c: SimChannel| spec_graph_channel(c),
                ),
            decreases channels.len() - k,
        {
            let c = &channels[k];
            self.channels.push(
                SimChannel {
                    src_node: c.src_node.clone(),
                    dest_node: c.dest_node.clone(),
                    src_balance_sats: c.src_balance_sats,
                    dest_balance_sats: c.dest_balance_sats,
                    id: c.id,
                    short_id: None,
                    run_time_id: None,
                    funding_tx: None,
                    penalty_reserve_sats: None,
                },
            );
            proof {
                assert(self.channels@ =~= c0 + channels@.take(k + 1).map_values(
                    |c: SimChannel| spec_graph_channel(c),
                ));
            }
            k += 1;
        }
        let ghost base = self.nodes@;
        let mut number: u64 = 0;
        while number < num_nodes
            invariant
                number <= num_nodes,
                num_nodes < u64::MAX,
                self.channels@ == c0 + channels@.take(channels@.len() as int).map_values(
                    |c: SimChannel| spec_graph_channel(c),
                ),
                self.nodes@.len() == base.len() + number,
                forall|j: int| 0 <= j < base.len() ==> self.nodes@[j] == base[j],
                forall|j: int|
                    0 <= j < number ==> (#[trigger] self.nodes@[base.len() + j])
                        == (SimNode {
                        name: self.nodes@[base.len() + j].name,
                        initial_balance: SIM_NODE_BALANCE,
                        running: true,
                    }) && self.nodes@[base.len() + j].name@ == spec_sim_node_name((j + 1) as u64),
            decreases num_nodes - number,
        {
            number = number + 1;
            let name = sim_node_name(number);
            self.nodes.push(SimNode { name, initial_balance: SIM_NODE_BALANCE, running: true });
        }
        proof {
            assert(nodes@.take(nodes@.len() as int) =~= nodes@);
            assert(channels@.take(channels@.len() as int) =~= channels@);
            assert(base =~= n0 + nodes@);
            assert forall|i: int| 0 <= i < n0.len() implies self.nodes@[i] == n0[i] by {
                assert(self.nodes@[i] == base[i]);
                assert(base[i] == n0[i]);
            }
            assert forall|i: int| 0 <= i < nodes@.len() implies self.nodes@[n0.len() + i]
                == nodes@[i] by {
                assert(self.nodes@[n0.len() + i] == base[n0.len() + i]);
                assert(base[n0.len() + i] == nodes@[i]);
            }
        }
    }

    /// Fold one scheduled event into the graph: stop and start set the
    /// first matching node's running flag, a close removes every channel of
    /// the closed id, an open adds the channel; other events leave the graph
    /// as it is.
    pub fn apply_event(&mut self, event: &SimulationEvent)
        ensures
            match event@ {
                SimulationEventView::StopNodeEvent(name) => final(self).nodes@ == spec_set_running(
                    old(self).nodes@,
                    name@,
                    false,
                ) && final(self).channels@ == old(self).channels@,
                SimulationEventView::StartNodeEvent(name) => final(self).nodes@ == spec_set_running(
                    old(self).nodes@,
                    name@,
                    true,
                ) && final(self).channels@ == old(self).channels@,
                SimulationEventView::CloseChannelEvent(_, id) => final(self).channels@ == old(
                    self,
                ).channels@.filter(|c: SimChannel| c.id != id) && final(self).nodes@ == old(
                    self,
                ).nodes@,
                SimulationEventView::OpenChannelEvent(c) => final(self).channels@ == old(
                    self,
                ).channels@.push(c) && final(self).nodes@ == old(self).nodes@,
                _ => final(self).nodes@ == old(self).nodes@ && final(self).channels@ == old(
                    self,
                ).channels@,
            },
    {
        match event {
            SimulationEvent::StopNodeEvent(name) => {
                self.set_running(name, false);
            },
            SimulationEvent::StartNodeEvent(name) => {
                self.set_running(name, true);
            },
            SimulationEvent::CloseChannelEvent(_, id) => {
                let kept = filter_channels(&self.channels, *id);
                self.channels = kept;
            },
            SimulationEvent::OpenChannelEvent(c) => {
                self.channels.push(c.clone());
            },
            _ => {},
        }
    }

    /// Set the running flag of the first node with the given name.
    fn set_running(&mut self, name: &String, up: bool)
        ensures
            final(self).nodes@ == spec_set_running(old(self).nodes@, name@, up),
            final(self).channels@ == old(self).channels@,
    {
        let ghost all = self.nodes@;
        let mut i: usize = 0;
        while i < self.nodes.len()
            invariant
                i <= self.nodes.len(),
                all == self.nodes@,
                all == old(self).nodes@,
                self.channels@ == old(self).channels@,
                first_named(all.take(i as int), name@) == -1,
            decreases self.nodes.len() - i,
        {
            proof {
                assert(all.take(i + 1).drop_last() =~= all.take(i as int));
                assert(all.take(i + 1).last() == all[i as int]);
            }
            if crate::sim_results::string_eq(&self.nodes[i].name, name) {
                let n = &self.nodes[i];
                let updated = SimNode {
                    name: n.name.clone(),
                    initial_balance: n.initial_balance,
                    running: up,
                };
                self.nodes.set(i, updated);
                proof {
                    lemma_first_named_found(all, name@, i as int);
                    assert(self.nodes@ =~= spec_set_running(all, name@, up));
                }
                return ;
            }
            i += 1;
        }
        proof {
            assert(all.take(all.len() as int) =~= all);
            assert(self.nodes@ =~= spec_set_running(all, name@, up));
        }
    }
}

/// If the prefix before `i` holds no node of the name and `nodes[i]` has it,
/// `i` is the first.
pub proof fn lemma_first_named_found(nodes: Seq<SimNode>, name: Seq<char>, i: int)
    requires
        0 <= i < nodes.len(),
        first_named(nodes.take(i), name) == -1,
        nodes[i].name@ == name,
    ensures
        first_named(nodes, name) == i,
    decreases nodes.len(),
{
    if nodes.len() - 1 > i {
        assert(nodes.drop_last().take(i) =~= nodes.take(i));
        lemma_first_named_found(nodes.drop_last(), name, i);
        assert(nodes.drop_last()[i] == nodes[i]);
    } else {
        assert(nodes.take(i) =~= nodes.drop_last());
    }
}

/// The channels that do not carry the given id, in order.
fn filter_channels(v: &Vec<SimChannel>, id: u64) -> (r: Vec<SimChannel>)
    ensures
        r@ == v@.filter(|c: SimChannel| c.id != id),
{
    let ghost pred = |c: SimChannel| c.id != id;
    let mut out: Vec<SimChannel> = Vec::new();
    let mut i: usize = 0;
    while i < v.len()
        invariant
            i <= v.len(),
            pred == (|c: SimChannel| c.id != id),
            out@ == v@.take(i as int).filter(pred),
        decreases v.len() - i,
    {
        proof {
            assert(v@.take(i + 1).drop_last() =~= v@.take(i as int));
            assert(v@.take(i + 1).last() == v@[i as int]);
            reveal(Seq::filter);
        }
        if v[i].id != id {
            out.push(v[i].clone());
        }
        i += 1;
    }
    proof {
        assert(v@.take(v@.len() as int) =~= v@);
    }
    out
}

/// The name of the `number`-th backing node.
pub fn sim_node_name(number: u64) -> (r: String)
    ensures
        r@ == spec_sim_node_name(number),
{
    let mut bytes: Vec<u8> = Vec::new();
    bytes.push(115);  // 's'
    bytes.push(105);  // 'i'
    bytes.push(109);  // 'm'
    bytes.push(110);  // 'n'
    bytes.push(111);  // 'o'
    bytes.push(100);  // 'd'
    bytes.push(101);  // 'e'
    let ghost prefix = bytes@;
    let mut digits = decimal_bytes(number);
    let ghost ds = digits@;
    bytes.append(&mut digits);
    let r = ascii_string(bytes);
    proof {
        reveal_strlit("simnode");
        assert(ascii_chars(prefix + ds) =~= ascii_chars(prefix) + ascii_chars(ds));
        assert(ascii_chars(prefix) =~= "simnode"@);
        assert(r@ =~= spec_sim_node_name(number));
    }
    r
}

} // verus!
