//! A discrete-event simulator core for a payment-channel network.
//!
//! The crate models the event bus traffic of a simulation run: user-declared
//! actions are scheduled on a timeline, a controller realises them against a
//! backend and republishes outcomes, a translator turns backend-native
//! notifications into result events, and an analyzer folds the stream of
//! result events into a queryable, time-indexed ledger of balances, channel
//! states and payment outcomes.
//!
//! [`LnSimulation`] is the public face: a user declares nodes, channels and
//! a timeline of actions on it, and the surrounding runtime drives the
//! declared run against a backend through the verified state machines of
//! [`sim_event_manager`], [`sensei_controller`], [`ln_event_processor`] and
//! [`network_analyzer`].

pub mod laws;
pub mod ln_event_processor;
pub mod network_analyzer;
pub mod sensei_controller;
pub mod sim_channel;
pub mod sim_event;
pub mod sim_event_manager;
pub mod sim_node;
pub mod sim_node_status;
pub mod sim_results;
pub mod sim_runtime_graph;
pub mod sim_transaction;
pub mod text;
pub mod timeline;

use vstd::prelude::*;
use crate::sim_channel::SimChannel;
use crate::sim_event::{SimulationEvent, SimulationEventView};
use crate::sim_event_manager::{
    EventSlot, EventSlotView, add_to_slots, slots_view, slots_wf, spec_add_event,
};
use crate::sim_node::SimNode;
use crate::sim_runtime_graph::{RuntimeNetworkGraph, first_named};
use crate::sim_transaction::{SimTransaction, SimTransactionStatus};

verus! {

/// Simulated seconds since the start of a run: the sole time axis.
pub type SimTime = u64;

/// Channels below this capacity, in sats, are not accepted.
pub const MIN_CHANNEL_SATS: u64 = 20000;

/// A declared simulation: the initial network and the timeline of actions.
///
/// A user builds the simulation with the `create_*` methods; the runtime
/// that owns the run reads the declared state back and drives it.
pub struct LnSimulation {
    /// The name the simulation was declared under.
    pub name: String,
    /// How long the run lasts, in simulated seconds.
    pub duration: u64,
    /// How many backing nodes the network is set up with.
    pub num_sim_nodes: u64,
    /// The declared timeline: one slot per time with actions in order.
    pub user_events: Vec<EventSlot>,
    /// The declared nodes.
    pub user_nodes: Vec<SimNode>,
    /// The channels declared open at the start of the run.
    pub user_channels: Vec<SimChannel>,
    /// The live picture of the network, kept current during a run.
    pub network_graph: RuntimeNetworkGraph,
}

/// A node list with the named node replaced, or with the node appended when
/// the name is new: declaring a node twice redefines it.
pub open spec fn spec_upsert_node(nodes: Seq<SimNode>, n: SimNode) -> Seq<SimNode> {
    let j = first_named(nodes, n.name@);
    if j < 0 {
        nodes.push(n)
    } else {
        nodes.update(j, n)
    }
}

/// Whether a channel declaration is accepted: both nodes are declared and
/// running at the start, the source can fund the capacity, and the capacity
/// is at least [`MIN_CHANNEL_SATS`].
pub open spec fn spec_channel_accepted(
    nodes: Seq<SimNode>,
    src: Seq<char>,
    dest: Seq<char>,
    amount_sats: u64,
) -> bool {
    let i = first_named(nodes, src);
    let j = first_named(nodes, dest);
    &&& i >= 0
    &&& nodes[i].running
    &&& nodes[i].initial_balance >= amount_sats
    &&& j >= 0
    &&& nodes[j].running
    &&& amount_sats >= MIN_CHANNEL_SATS
}

/// The channel a declaration stands for: the whole amount starts on the
/// source side and the backend-assigned fields are not known yet.
pub open spec fn spec_declared_channel(
    src: String,
    dest: String,
    amount_sats: u64,
    id: u64,
) -> SimChannel {
    SimChannel {
        src_node: src,
        dest_node: dest,
        src_balance_sats: amount_sats,
        dest_balance_sats: 0,
        id,
        short_id: None,
        run_time_id: None,
        funding_tx: None,
        penalty_reserve_sats: None,
    }
}

impl LnSimulation {
    /// The declared timeline has at most one slot per time.
    pub open spec fn wf(self) -> bool {
        slots_wf(slots_view(self.user_events@))
    }

    /// The declared action slots.
    pub open spec fn events(self) -> Seq<EventSlotView> {
        slots_view(self.user_events@)
    }

    /// The declared nodes.
    pub open spec fn nodes(self) -> Seq<SimNode> {
        self.user_nodes@
    }

    /// The declared channels.
    pub open spec fn channels(self) -> Seq<SimChannel> {
        self.user_channels@
    }

    pub fn new(name: String, duration: u64, num_sim_nodes: u64) -> (r: Self)
        ensures
            r.name@ == name@,
            r.duration == duration,
            r.num_sim_nodes == num_sim_nodes,
            r.events() =~= Seq::<EventSlotView>::empty(),
            r.nodes() =~= Seq::<SimNode>::empty(),
            r.channels() =~= Seq::<SimChannel>::empty(),
            r.network_graph.nodes@ =~= Seq::<SimNode>::empty(),
            r.network_graph.channels@ =~= Seq::<SimChannel>::empty(),
            r.wf(),
    {
        LnSimulation {
            name,
            duration,
            num_sim_nodes,
            user_events: Vec::new(),
            user_nodes: Vec::new(),
            user_channels: Vec::new(),
            network_graph: RuntimeNetworkGraph::new(),
        }
    }

    /// Declare a node of the simulated network. Declaring a name again
    /// redefines that node.
    pub fn create_node(&mut self, name: String, initial_balance: u64, running: bool)
        ensures
            final(self).nodes() == spec_upsert_node(
                old(self).nodes(),
                SimNode { name, initial_balance, running },
            ),
            final(self).user_events@ == old(self).user_events@,
            final(self).user_channels@ == old(self).user_channels@,
            final(self).network_graph == old(self).network_graph,
            final(self).duration == old(self).duration,
            final(self).num_sim_nodes == old(self).num_sim_nodes,
            final(self).name == old(self).name,
    {
        let node = SimNode { name, initial_balance, running };
        let ghost all = self.user_nodes@;
        let ghost target = node;
        let mut i: usize = 0;
        while i < self.user_nodes.len()
            invariant
                i <= self.user_nodes.len(),
                all == self.user_nodes@,
                all == old(self).user_nodes@,
                self.user_events@ == old(self).user_events@,
                self.user_channels@ == old(self).user_channels@,
                self.network_graph == old(self).network_graph,
                self.duration == old(self).duration,
                self.num_sim_nodes == old(self).num_sim_nodes,
                self.name == old(self).name,
                node == target,
                target == (SimNode { name, initial_balance, running }),
                first_named(all.take(i as int), target.name@) == -1,
            decreases self.user_nodes.len() - i,
        {
            proof {
                assert(all.take(i + 1).drop_last() =~= all.take(i as int));
                assert(all.take(i + 1).last() == all[i as int]);
            }
            if crate::sim_results::string_eq(&self.user_nodes[i].name, &node.name) {
                proof {
                    crate::sim_runtime_graph::lemma_first_named_found(all, target.name@, i as int);
                }
                vstd::pervasive::VecAdditionalExecFns::set(&mut self.user_nodes, i, node);
                proof {
                    assert(self.user_nodes@ =~= spec_upsert_node(all, target));
                }
                return ;
            }
            i += 1;
        }
        proof {
            assert(all.take(all.len() as int) =~= all);
        }
        self.user_nodes.push(node);
        proof {
            assert(self.user_nodes@ =~= spec_upsert_node(all, target));
        }
    }

    /// Declare a channel of the simulated network, funded wholly by the
    /// source node. The declaration is accepted — and the channel recorded —
    /// exactly when both nodes are declared and running at the start, the
    /// source's initial balance covers the amount, and the amount is at
    /// least [`MIN_CHANNEL_SATS`]; otherwise the declaration is dropped.
    pub fn create_channel(&mut self, src: String, dest: String, amount_sats: u64, id: u64)
        ensures
            final(self).channels() == (if spec_channel_accepted(
                old(self).nodes(),
                src@,
                dest@,
                amount_sats,
            ) {
                old(self).channels().push(spec_declared_channel(src, dest, amount_sats, id))
            } else {
                old(self).channels()
            }),
            final(self).nodes() == old(self).nodes(),
            final(self).user_events@ == old(self).user_events@,
            final(self).network_graph == old(self).network_graph,
            final(self).duration == old(self).duration,
            final(self).num_sim_nodes == old(self).num_sim_nodes,
            final(self).name == old(self).name,
    {
        match find_node(&self.user_nodes, &src) {
            Some(n) => {
                if !n.running {
                    return ;
                }
                if n.initial_balance < amount_sats {
                    return ;
                }
            },
            None => {
                return ;
            },
        }
        match find_node(&self.user_nodes, &dest) {
            Some(n) => {
                if !n.running {
                    return ;
                }
            },
            None => {
                return ;
            },
        }
        if amount_sats < MIN_CHANNEL_SATS {
            return ;
        }
        let channel = SimChannel {
            src_node: src,
            dest_node: dest,
            src_balance_sats: amount_sats,
            dest_balance_sats: 0,
            id,
            short_id: None,
            run_time_id: None,
            funding_tx: None,
            penalty_reserve_sats: None,
        };
        self.user_channels.push(channel);
    }

    /// Schedule a start of the named node.
    pub fn create_start_node_event(&mut self, name: String, time: u64)
        requires
            old(self).wf(),
        ensures
            final(self).wf(),
            final(self).events() == spec_add_event(
                old(self).events(),
                SimulationEventView::StartNodeEvent(name),
                time,
            ),
            unchanged_but_events(*old(self), *final(self)),
    {
        let event = SimulationEvent::StartNodeEvent(name);
        self.add_event(event, time);
    }

    /// Schedule a stop of the named node.
    pub fn create_stop_node_event(&mut self, name: String, time: u64)
        requires
            old(self).wf(),
        ensures
            final(self).wf(),
            final(self).events() == spec_add_event(
                old(self).events(),
                SimulationEventView::StopNodeEvent(name),
                time,
            ),
            unchanged_but_events(*old(self), *final(self)),
    {
        let event = SimulationEvent::StopNodeEvent(name);
        self.add_event(event, time);
    }

    /// Schedule the opening of a channel, funded wholly by the source node.
    pub fn create_open_channel_event(
        &mut self,
        src: String,
        dest: String,
        amount_sats: u64,
        time: u64,
        id: u64,
    )
        requires
            old(self).wf(),
        ensures
            final(self).wf(),
            final(self).events() == spec_add_event(
                old(self).events(),
                SimulationEventView::OpenChannelEvent(
                    spec_declared_channel(src, dest, amount_sats, id),
                ),
                time,
            ),
            unchanged_but_events(*old(self), *final(self)),
    {
        let channel = SimChannel {
            src_node: src,
            dest_node: dest,
            src_balance_sats: amount_sats,
            dest_balance_sats: 0,
            id,
            short_id: None,
            run_time_id: None,
            funding_tx: None,
            penalty_reserve_sats: None,
        };
        let event = SimulationEvent::OpenChannelEvent(channel);
        self.add_event(event, time);
    }

    /// Schedule the close of the channel with the given simulation id.
    pub fn create_close_channel_event(&mut self, node: String, channel_id: u64, time: u64)
        requires
            old(self).wf(),
        ensures
            final(self).wf(),
            final(self).events() == spec_add_event(
                old(self).events(),
                SimulationEventView::CloseChannelEvent(node, channel_id),
                time,
            ),
            unchanged_but_events(*old(self), *final(self)),
    {
        let event = SimulationEvent::CloseChannelEvent(node, channel_id);
        self.add_event(event, time);
    }

    /// Schedule a payment between two nodes.
    pub fn create_transaction_event(
        &mut self,
        src: String,
        dest: String,
        amount_sats: u64,
        time: u64,
    )
        requires
            old(self).wf(),
        ensures
            final(self).wf(),
            final(self).events() == spec_add_event(
                old(self).events(),
                SimulationEventView::TransactionEvent(
                    SimTransaction {
                        id: None,
                        src_node: src,
                        dest_node: dest,
                        amount_sats,
                        status: SimTransactionStatus::NONE,
                    },
                ),
                time,
            ),
            unchanged_but_events(*old(self), *final(self)),
    {
        let event = SimulationEvent::TransactionEvent(
            SimTransaction {
                id: None,
                src_node: src,
                dest_node: dest,
                amount_sats,
                status: SimTransactionStatus::NONE,
            },
        );
        self.add_event(event, time);
    }

    /// Declare an event for a time on the simulation's timeline.
    pub fn add_event(&mut self, event: SimulationEvent, time: u64)
        requires
            old(self).wf(),
        ensures
            final(self).wf(),
            final(self).events() == spec_add_event(old(self).events(), event@, time),
            unchanged_but_events(*old(self), *final(self)),
    {
        add_to_slots(&mut self.user_events, event, time);
    }
}

/// Everything of a simulation but its timeline is as it was.
pub open spec fn unchanged_but_events(a: LnSimulation, b: LnSimulation) -> bool {
    &&& b.nodes() == a.nodes()
    &&& b.channels() == a.channels()
    &&& b.network_graph == a.network_graph
    &&& b.duration == a.duration
    &&& b.num_sim_nodes == a.num_sim_nodes
    &&& b.name == a.name
}

/// The first declared node of the given name.
fn find_node<'a>(nodes: &'a Vec<SimNode>, name: &String) -> (r: Option<&'a SimNode>)
    ensures
        ({
            let j = first_named(nodes@, name@);
            match r {
                Some(n) => j >= 0 && *n == nodes@[j],
                None => j == -1,
            }
        }),
{
    let ghost all = nodes@;
    let mut i: usize = 0;
    while i < nodes.len()
        invariant
            i <= nodes.len(),
            all == nodes@,
            first_named(all.take(i as int), name@) == -1,
        decreases nodes.len() - i,
    {
        proof {
            assert(all.take(i + 1).drop_last() =~= all.take(i as int));
            assert(all.take(i + 1).last() == all[i as int]);
        }
        if crate::sim_results::string_eq(&nodes[i].name, name) {
            proof {
                crate::sim_runtime_graph::lemma_first_named_found(all, name@, i as int);
            }
            return Some(&nodes[i]);
        }
        i += 1;
    }
    proof {
        assert(all.take(all.len() as int) =~= all);
    }
    None
}

} // verus!
