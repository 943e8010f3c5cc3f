//! The results engine: folds the stream of result events into the ledger.
//!
//! The analyzer is a pure state machine. [`NetworkAnalyzer::process_event`]
//! applies one result event to the ledger and answers with the outside work
//! the caller owes: nothing, fetching an open fee, polling for a close
//! settlement, or stopping. The caller performs that work and hands the
//! outcome back through [`NetworkAnalyzer::apply_open_fee`] and
//! [`NetworkAnalyzer::apply_closing_fees`].
//!
//! An update that cannot find its correlated entity, that lacks the time it
//! must be placed at, or whose arithmetic would leave `u64`, is dropped; the
//! run never fails.

use vstd::prelude::*;
use crate::sim_channel::SimChannel;
use crate::sim_event::{SimResultsEvent, SimResultsEventView, SimulationEventView, SimulationEvent};
use crate::sim_node_status::SimNodeStatus;
use crate::sim_results::{
    SimResults, SimResultsView, BalanceRecord, StatusRecord, Tx, latest_snapshot, spec_last_match,
    spec_mark_txs, spec_first_match, string_eq,
};
use crate::sim_runtime_graph::RuntimeNetworkGraph;
use crate::sim_transaction::SimTransactionStatus;
use crate::sim_event::PathHop;
use crate::timeline::best_index;

verus! {

/// One entry of the correlation table from backend public key to node name.
pub struct PubKeyEntry {
    pub pub_key: String,
    pub node: String,
}

impl Clone for PubKeyEntry {
    /// Cloning yields an entry equal to the original.
    fn clone(&self) -> (r: Self)
        ensures
            r == *self,
    {
        PubKeyEntry { pub_key: self.pub_key.clone(), node: self.node.clone() }
    }
}

/// The outside work a processed event asks of the caller.
pub enum AnalyzerAction {
    /// Nothing; read the next event.
    Continue,
    /// The terminal event was processed; stop reading.
    Stop,
    /// A channel opened: ask the chain observer for the fee its funding
    /// transaction paid, then call `apply_open_fee`.
    AwaitOpenFee { channel: SimChannel, time: u64 },
    /// A channel close settled off-chain: poll the chain observer for the
    /// closing transaction, split its fee, then call `apply_closing_fees`.
    AwaitClosingFees { channel: SimChannel, time: u64 },
}

/// View of [`NetworkAnalyzer`].
#[verifier::ext_equal]
pub struct NetworkAnalyzerView {
    pub results: SimResultsView,
    pub pub_key_map: Seq<PubKeyEntry>,
    pub finalized: Seq<String>,
}

/// Processes result events and builds the [`SimResults`] that a run returns.
pub struct NetworkAnalyzer {
    results: SimResults,
    pub_key_map: Vec<PubKeyEntry>,
    finalized_closed_channels: Vec<String>,
}

impl View for NetworkAnalyzer {
    type V = NetworkAnalyzerView;

    closed spec fn view(&self) -> NetworkAnalyzerView {
        NetworkAnalyzerView {
            results: self.results@,
            pub_key_map: self.pub_key_map@,
            finalized: self.finalized_closed_channels@,
        }
    }
}

/// Whether a sequence holds a string of this content.
pub open spec fn contains_string(s: Seq<String>, x: Seq<char>) -> bool {
    exists|i: int| 0 <= i < s.len() && (#[trigger] s[i])@ == x
}

/// The node name the correlation table gives a public key: first entry wins.
pub open spec fn pk_lookup(pk: Seq<PubKeyEntry>, key: Seq<char>) -> Option<String>
    decreases pk.len(),
{
    if pk.len() == 0 {
        None
    } else {
        let rest = pk_lookup(pk.drop_last(), key);
        if rest is Some {
            rest
        } else if pk.last().pub_key@ == key {
            Some(pk.last().node)
        } else {
            None
        }
    }
}

/// The first channel of a snapshot with the given simulation id.
pub open spec fn find_channel_by_id(snap: Seq<SimChannel>, id: u64) -> Option<SimChannel>
    decreases snap.len(),
{
    if snap.len() == 0 {
        None
    } else {
        let rest = find_channel_by_id(snap.drop_last(), id);
        if rest is Some {
            rest
        } else if snap.last().id == id {
            Some(snap.last())
        } else {
            None
        }
    }
}

/// The first channel of a snapshot with the given backend channel id.
pub open spec fn find_channel_by_backend_id(snap: Seq<SimChannel>, id: Seq<char>) -> Option<
    SimChannel,
>
    decreases snap.len(),
{
    if snap.len() == 0 {
        None
    } else {
        let rest = find_channel_by_backend_id(snap.drop_last(), id);
        if rest is Some {
            rest
        } else if snap.last().run_time_id matches Some(r) && r@ == id {
            Some(snap.last())
        } else {
            None
        }
    }
}

/// The latest snapshot of a timeline together with its recorded time, or
/// time 0 and the empty snapshot before any record.
pub open spec fn latest_snapshot_entry(snaps: Seq<(u64, Seq<SimChannel>)>) -> (u64, Seq<
    SimChannel,
>) {
    if snaps.len() == 0 {
        (0, Seq::empty())
    } else {
        let j = best_index(snaps, u64::MAX);
        (snaps[j].0, snaps[j].1)
    }
}

/// Note an observation time in the ledger, when the event carries one.
pub open spec fn spec_note_time(rv: SimResultsView, time: Option<u64>) -> SimResultsView {
    match time {
        Some(t) => SimResultsView {
            event_times: if rv.event_times.contains(t) {
                rv.event_times
            } else {
                rv.event_times.push(t)
            },
            ..rv
        },
        None => rv,
    }
}

/// A failed event appended to the ledger.
pub open spec fn spec_push_failed(rv: SimResultsView, e: SimResultsEventView) -> SimResultsView {
    SimResultsView { failed_events: rv.failed_events.push(e), ..rv }
}

/// The amount a hop moves through a channel: the payment alone when the hop
/// carries it, the payment plus the hop's fee otherwise.
pub open spec fn hop_amount(payment: u64, hop: PathHop) -> int {
    if payment == hop.amount {
        payment as int
    } else {
        payment + hop.amount
    }
}

/// Whether the correlation table resolves the hop's public key.
pub open spec fn hop_resolved(pk: Seq<PubKeyEntry>, hop: PathHop) -> bool {
    pk_lookup(pk, hop.node_pub_key@) is Some
}

/// The name of the node a hop leads to, per the correlation table.
pub open spec fn hop_node(pk: Seq<PubKeyEntry>, hop: PathHop) -> Seq<char> {
    match pk_lookup(pk, hop.node_pub_key@) {
        Some(n) => n@,
        None => Seq::empty(),
    }
}

/// Whether the hop used this channel and leads to its source node.
pub open spec fn hop_touches_src(c: SimChannel, hop: PathHop, pk: Seq<PubKeyEntry>) -> bool {
    c.short_id == Some(hop.short_channel_id) && hop_resolved(pk, hop) && hop_node(pk, hop)
        == c.src_node@
}

/// Whether the hop used this channel and leads to its destination node.
pub open spec fn hop_touches_dest(c: SimChannel, hop: PathHop, pk: Seq<PubKeyEntry>) -> bool {
    c.short_id == Some(hop.short_channel_id) && hop_resolved(pk, hop) && hop_node(pk, hop)
        == c.dest_node@
}

/// The channel with the hop's amount shifted to its source side.
pub open spec fn channel_shift_to_src(c: SimChannel, amt: int) -> SimChannel {
    SimChannel {
        src_balance_sats: (c.src_balance_sats + amt) as u64,
        dest_balance_sats: (c.dest_balance_sats - amt) as u64,
        ..c
    }
}

/// The channel with the hop's amount shifted to its destination side.
pub open spec fn channel_shift_to_dest(c: SimChannel, amt: int) -> SimChannel {
    SimChannel {
        src_balance_sats: (c.src_balance_sats - amt) as u64,
        dest_balance_sats: (c.dest_balance_sats + amt) as u64,
        ..c
    }
}

/// Whether shifting the hop's amount keeps the channel's balances in `u64`.
pub open spec fn hop_update_fits(
    c: SimChannel,
    hop: PathHop,
    pk: Seq<PubKeyEntry>,
    payment: u64,
) -> bool {
    let amt = hop_amount(payment, hop);
    &&& (hop_touches_src(c, hop, pk) ==> c.dest_balance_sats >= amt && c.src_balance_sats + amt
        <= u64::MAX)
    &&& (hop_touches_dest(c, hop, pk) ==> c.src_balance_sats >= amt && c.dest_balance_sats + amt
        <= u64::MAX)
}

/// Whether a payment path can be applied to a snapshot: every hop's public
/// key resolves, every hop amount fits `u64`, and every shift it asks of a
/// channel keeps that channel's balances in `u64`.
pub open spec fn path_fits(
    chans: Seq<SimChannel>,
    hops: Seq<PathHop>,
    pk: Seq<PubKeyEntry>,
    payment: u64,
) -> bool {
    &&& forall|k: int| 0 <= k < hops.len() ==> hop_resolved(pk, #[trigger] hops[k])
    &&& forall|k: int|
        0 <= k < hops.len() ==> payment == (#[trigger] hops[k]).amount || payment + hops[k].amount
            <= u64::MAX
    &&& forall|i: int, k: int|
        0 <= i < chans.len() && 0 <= k < hops.len() ==> hop_update_fits(
            #[trigger] chans[i],
            #[trigger] hops[k],
            pk,
            payment,
        )
}

/// What one hop contributes for one channel: the shifted channel for each
/// side of it the hop leads to.
pub open spec fn hop_segment(
    c: SimChannel,
    hop: PathHop,
    pk: Seq<PubKeyEntry>,
    payment: u64,
) -> Seq<SimChannel> {
    let amt = hop_amount(payment, hop);
    let s1: Seq<SimChannel> = if hop_touches_src(c, hop, pk) {
        seq![channel_shift_to_src(c, amt)]
    } else {
        Seq::empty()
    };
    let s2: Seq<SimChannel> = if hop_touches_dest(c, hop, pk) {
        seq![channel_shift_to_dest(c, amt)]
    } else {
        Seq::empty()
    };
    s1 + s2
}

/// What all hops contribute for one channel, in hop order.
pub open spec fn channel_segments(
    c: SimChannel,
    hops: Seq<PathHop>,
    pk: Seq<PubKeyEntry>,
    payment: u64,
) -> Seq<SimChannel>
    decreases hops.len(),
{
    if hops.len() == 0 {
        Seq::empty()
    } else {
        channel_segments(c, hops.drop_last(), pk, payment) + hop_segment(
            c,
            hops.last(),
            pk,
            payment,
        )
    }
}

/// A channel after a payment path: its shifted versions where the path
/// touched it, the channel itself carried forward unchanged otherwise.
pub open spec fn channel_after_path(
    c: SimChannel,
    hops: Seq<PathHop>,
    pk: Seq<PubKeyEntry>,
    payment: u64,
) -> Seq<SimChannel> {
    let segs = channel_segments(c, hops, pk, payment);
    if segs.len() == 0 {
        seq![c]
    } else {
        segs
    }
}

/// A whole snapshot after a payment path, channel by channel in order.
pub open spec fn apply_path(
    chans: Seq<SimChannel>,
    hops: Seq<PathHop>,
    pk: Seq<PubKeyEntry>,
    payment: u64,
) -> Seq<SimChannel>
    decreases chans.len(),
{
    if chans.len() == 0 {
        Seq::empty()
    } else {
        apply_path(chans.drop_last(), hops, pk, payment) + channel_after_path(
            chans.last(),
            hops,
            pk,
            payment,
        )
    }
}

/// Credit each hop's node with its hop amount, in hop order, at the given
/// time.
pub open spec fn credit_hops(
    rv: SimResultsView,
    hops: Seq<PathHop>,
    pk: Seq<PubKeyEntry>,
    time: u64,
) -> SimResultsView
    decreases hops.len(),
{
    if hops.len() == 0 {
        rv
    } else {
        let prev = credit_hops(rv, hops.drop_last(), pk, time);
        match pk_lookup(pk, hops.last().node_pub_key@) {
            Some(n) => SimResults::spec_off_chain_updated(prev, time, n, hops.last().amount, false),
            None => prev,
        }
    }
}

/// The destination node of the channel with this id, per the declared
/// network; `fallback` when no declared channel has the id.
pub open spec fn dest_node_for(net: Seq<SimChannel>, id: u64, fallback: String) -> String {
    match find_channel_by_id(net, id) {
        Some(c) => c.dest_node,
        None => fallback,
    }
}

/// A channel of the time-0 snapshot, built from what the backend reports:
/// capacities come in msats and are scaled to sats.
pub open spec fn initial_channel(
    nc: crate::sim_node_status::SimNodeChannel,
    node_name: String,
    net: Seq<SimChannel>,
    fallback: String,
) -> SimChannel {
    SimChannel {
        src_node: node_name,
        dest_node: dest_node_for(net, nc.id, fallback),
        src_balance_sats: nc.outbound_capacity / 1000,
        dest_balance_sats: nc.inbound_capacity / 1000,
        id: nc.id,
        short_id: nc.short_id,
        run_time_id: Some(nc.run_time_id),
        funding_tx: nc.funding_tx,
        penalty_reserve_sats: nc.punishment_reserve,
    }
}

/// The outbound channels one node contributes to the time-0 snapshot.
pub open spec fn initial_snapshot_for(
    s: SimNodeStatus,
    name: String,
    net: Seq<SimChannel>,
    fallback: String,
) -> Seq<SimChannel> {
    s.channels@.filter(|c: crate::sim_node_status::SimNodeChannel| c.is_outbound).map_values(
        |c: crate::sim_node_status::SimNodeChannel| initial_channel(c, name, net, fallback),
    )
}

/// The analyzer seeded with the first `i` nodes, paired with the time-0
/// channels gathered so far: each node is registered; for each with a
/// reported status, its public key joins the correlation table, its
/// balances and running flag are recorded at time 0, and its outbound
/// channels join the snapshot.
pub open spec fn spec_seed_upto(
    v: NetworkAnalyzerView,
    nodes: Seq<crate::sim_node::SimNode>,
    statuses: Seq<Option<SimNodeStatus>>,
    net: Seq<SimChannel>,
    fallback: String,
    i: int,
) -> (NetworkAnalyzerView, Seq<SimChannel>)
    decreases i,
{
    if i <= 0 {
        (v, Seq::empty())
    } else {
        let (pv, psnap) = spec_seed_upto(v, nodes, statuses, net, fallback, i - 1);
        let n = nodes[i - 1];
        let r1 = SimResultsView { nodes: pv.results.nodes.push(n.name), ..pv.results };
        match statuses[i - 1] {
            Some(s) => {
                let r2 = SimResultsView {
                    on_chain: r1.on_chain.push(
                        BalanceRecord { node: n.name, time: 0, value: s.balance.onchain },
                    ),
                    off_chain: r1.off_chain.push(
                        BalanceRecord { node: n.name, time: 0, value: s.balance.offchain },
                    ),
                    status: r1.status.push(
                        StatusRecord { node: n.name, time: 0, running: n.running },
                    ),
                    ..r1
                };
                let v2 = NetworkAnalyzerView {
                    results: r2,
                    pub_key_map: pv.pub_key_map.push(
                        PubKeyEntry { pub_key: s.pub_key, node: n.name },
                    ),
                    ..pv
                };
                (v2, psnap + initial_snapshot_for(s, n.name, net, fallback))
            },
            None => (NetworkAnalyzerView { results: r1, ..pv }, psnap),
        }
    }
}

/// The analyzer after seeding: time 0 is noted, every node seeded, and the
/// gathered channels recorded as the open-channel snapshot at time 0.
pub open spec fn spec_seeded(
    v: NetworkAnalyzerView,
    nodes: Seq<crate::sim_node::SimNode>,
    statuses: Seq<Option<SimNodeStatus>>,
    net: Seq<SimChannel>,
    fallback: String,
) -> NetworkAnalyzerView {
    let noted = NetworkAnalyzerView {
        results: spec_note_time(v.results, Some(0)),
        ..v
    };
    let (v1, snap) = spec_seed_upto(noted, nodes, statuses, net, fallback, nodes.len() as int);
    NetworkAnalyzerView {
        results: SimResultsView {
            open_channels: v1.results.open_channels.push((0, snap)),
            ..v1.results
        },
        ..v1
    }
}

impl NetworkAnalyzerView {
    /// How one result event steps the analyzer: the next state and the
    /// outside work owed. This is the update table of the results engine.
    pub open spec fn spec_step(self, e: SimResultsEventView) -> (NetworkAnalyzerView, AnalyzerAction) {
        let rv = spec_note_time(self.results, e.sim_time);
        let v1 = NetworkAnalyzerView { results: rv, ..self };
        match e.event {
            SimulationEventView::StopNodeEvent(name) => {
                if e.success {
                    let r2 = match e.sim_time {
                        Some(t) => SimResults::spec_status_updated(rv, t, name, false),
                        None => rv,
                    };
                    (NetworkAnalyzerView { results: r2, ..v1 }, AnalyzerAction::Continue)
                } else {
                    (
                        NetworkAnalyzerView { results: spec_push_failed(rv, e), ..v1 },
                        AnalyzerAction::Continue,
                    )
                }
            },
            SimulationEventView::StartNodeEvent(name) => {
                if e.success {
                    let r2 = match e.sim_time {
                        Some(t) => SimResults::spec_status_updated(rv, t, name, true),
                        None => rv,
                    };
                    (NetworkAnalyzerView { results: r2, ..v1 }, AnalyzerAction::Continue)
                } else {
                    (
                        NetworkAnalyzerView { results: spec_push_failed(rv, e), ..v1 },
                        AnalyzerAction::Continue,
                    )
                }
            },
            SimulationEventView::CloseChannelEvent(_, id) => {
                if e.success {
                    let r2 = match (
                        find_channel_by_id(latest_snapshot(rv.open_channels), id),
                        e.sim_time,
                    ) {
                        (Some(c), Some(t)) => SimResults::spec_close_channel_updated(rv, t, c),
                        _ => rv,
                    };
                    (NetworkAnalyzerView { results: r2, ..v1 }, AnalyzerAction::Continue)
                } else {
                    (
                        NetworkAnalyzerView { results: spec_push_failed(rv, e), ..v1 },
                        AnalyzerAction::Continue,
                    )
                }
            },
            SimulationEventView::CloseChannelSuccessEvent(id) => {
                if contains_string(self.finalized, id@) {
                    (v1, AnalyzerAction::Continue)
                } else {
                    let (t, snap) = latest_snapshot_entry(rv.closed_channels);
                    match find_channel_by_backend_id(snap, id@) {
                        Some(c) => {
                            if c.spec_src_balance() <= u64::MAX {
                                let r2 = SimResults::spec_off_chain_updated(
                                    rv,
                                    t,
                                    c.src_node,
                                    c.spec_src_balance() as u64,
                                    true,
                                );
                                let r3 = SimResults::spec_off_chain_updated(
                                    r2,
                                    t,
                                    c.dest_node,
                                    c.dest_balance_sats,
                                    true,
                                );
                                (
                                    NetworkAnalyzerView {
                                        results: r3,
                                        finalized: self.finalized.push(id),
                                        ..v1
                                    },
                                    AnalyzerAction::AwaitClosingFees { channel: c, time: t },
                                )
                            } else {
                                (v1, AnalyzerAction::Continue)
                            }
                        },
                        None => (v1, AnalyzerAction::Continue),
                    }
                }
            },
            SimulationEventView::OpenChannelEvent(c) => {
                if e.success {
                    match e.sim_time {
                        Some(t) => {
                            if c.spec_src_balance() <= u64::MAX {
                                let r2 = SimResults::spec_open_channel_updated(rv, t, c);
                                let r3 = SimResults::spec_off_chain_updated(
                                    r2,
                                    t,
                                    c.src_node,
                                    c.spec_src_balance() as u64,
                                    false,
                                );
                                let r4 = SimResults::spec_off_chain_updated(
                                    r3,
                                    t,
                                    c.dest_node,
                                    c.dest_balance_sats,
                                    false,
                                );
                                (
                                    NetworkAnalyzerView { results: r4, ..v1 },
                                    AnalyzerAction::AwaitOpenFee { channel: c, time: t },
                                )
                            } else {
                                (v1, AnalyzerAction::Continue)
                            }
                        },
                        None => (v1, AnalyzerAction::Continue),
                    }
                } else {
                    (
                        NetworkAnalyzerView { results: spec_push_failed(rv, e), ..v1 },
                        AnalyzerAction::Continue,
                    )
                }
            },
            SimulationEventView::TransactionEvent(tx) => {
                if e.success {
                    let r2 = match e.sim_time {
                        Some(t) => SimResultsView { txs: rv.txs.push(Tx { time: t, transaction: tx }), ..rv },
                        None => rv,
                    };
                    (NetworkAnalyzerView { results: r2, ..v1 }, AnalyzerAction::Continue)
                } else {
                    (
                        NetworkAnalyzerView { results: spec_push_failed(rv, e), ..v1 },
                        AnalyzerAction::Continue,
                    )
                }
            },
            SimulationEventView::PaymentFailedEvent(id) => {
                let r2 = SimResultsView {
                    txs: spec_mark_txs(rv.txs, id@, SimTransactionStatus::FAILED),
                    ..rv
                };
                (NetworkAnalyzerView { results: r2, ..v1 }, AnalyzerAction::Continue)
            },
            SimulationEventView::PaymentSuccessEvent(id, fee) => {
                let j = spec_last_match(rv.txs, id@);
                let r2 = SimResultsView {
                    txs: spec_mark_txs(rv.txs, id@, SimTransactionStatus::SUCCESSFUL),
                    ..rv
                };
                let r3 = if j >= 0 {
                    let t = rv.txs[j];
                    if t.transaction.amount_sats + fee <= u64::MAX {
                        SimResults::spec_off_chain_updated(
                            r2,
                            t.time,
                            t.transaction.src_node,
                            (t.transaction.amount_sats + fee) as u64,
                            true,
                        )
                    } else {
                        r2
                    }
                } else {
                    r2
                };
                (NetworkAnalyzerView { results: r3, ..v1 }, AnalyzerAction::Continue)
            },
            SimulationEventView::PaymentPathSuccessful(path) => {
                let hops = path.hops;
                let r2 = if hops.len() == 0 {
                    rv
                } else {
                    let payment = hops.last().amount;
                    let j = spec_first_match(rv.txs, path.payment_id@);
                    if j < 0 {
                        rv
                    } else {
                        let t0 = rv.txs[j].time;
                        let prev = latest_snapshot(rv.open_channels);
                        if path_fits(prev, hops, self.pub_key_map, payment) {
                            let ra = SimResultsView {
                                open_channels: rv.open_channels.push(
                                    (t0, apply_path(prev, hops, self.pub_key_map, payment)),
                                ),
                                ..rv
                            };
                            credit_hops(ra, hops, self.pub_key_map, t0)
                        } else {
                            rv
                        }
                    }
                };
                (NetworkAnalyzerView { results: r2, ..v1 }, AnalyzerAction::Continue)
            },
            SimulationEventView::SimulationEndedEvent => (v1, AnalyzerAction::Stop),
        }
    }

    /// How the open fee of a confirmed channel open steps the analyzer: the
    /// opener's on-chain balance is debited, at the open's time, by the
    /// channel's total locked value plus the fee.
    pub open spec fn spec_open_fee_applied(
        self,
        c: SimChannel,
        time: u64,
        fee: u64,
    ) -> NetworkAnalyzerView {
        if c.spec_total_balance() + fee <= u64::MAX {
            NetworkAnalyzerView {
                results: SimResults::spec_on_chain_updated(
                    self.results,
                    time,
                    c.src_node,
                    (c.spec_total_balance() + fee) as u64,
                    false,
                ),
                ..self
            }
        } else {
            self
        }
    }

    /// How a settled close steps the analyzer: each endpoint's on-chain
    /// balance is credited, at the close's time, with its settled share
    /// minus the fee it owes.
    pub open spec fn spec_closing_fees_applied(
        self,
        c: SimChannel,
        time: u64,
        src_fee: u64,
        dest_fee: u64,
    ) -> NetworkAnalyzerView {
        let r2 = if c.spec_src_balance() <= u64::MAX && src_fee <= c.spec_src_balance() {
            SimResults::spec_on_chain_updated(
                self.results,
                time,
                c.src_node,
                (c.spec_src_balance() - src_fee) as u64,
                true,
            )
        } else {
            self.results
        };
        let r3 = if dest_fee <= c.dest_balance_sats {
            SimResults::spec_on_chain_updated(
                r2,
                time,
                c.dest_node,
                (c.dest_balance_sats - dest_fee) as u64,
                true,
            )
        } else {
            r2
        };
        NetworkAnalyzerView { results: r3, ..self }
    }
}

impl NetworkAnalyzer {
    pub fn new() -> (r: Self)
        ensures
            r@.results == crate::sim_results::empty_results_view(),
            r@.pub_key_map =~= Seq::<PubKeyEntry>::empty(),
            r@.finalized =~= Seq::<String>::empty(),
    {
        NetworkAnalyzer {
            results: SimResults::new(),
            pub_key_map: Vec::new(),
            finalized_closed_channels: Vec::new(),
        }
    }

    /// Seed the time-0 state of the ledger from the declared network and
    /// what the backend reports of each node: `statuses[i]` is the reported
    /// status of `network.nodes[i]`, or `None` when the backend does not
    /// know the node.
    pub fn initialize_network(
        &mut self,
        network: &RuntimeNetworkGraph,
        statuses: &Vec<Option<SimNodeStatus>>,
    )
        requires
            statuses@.len() == network.nodes@.len(),
        ensures
            exists|fb: String|
                fb@ == Seq::<char>::empty() && final(self)@ == spec_seeded(
                    old(self)@,
                    network.nodes@,
                    statuses@,
                    network.channels@,
                    fb,
                ),
    {
        let ghost v0 = self@;
        let fallback = String::new();
        self.results.note_event_time(0);
        let ghost noted = NetworkAnalyzerView {
            results: spec_note_time(v0.results, Some(0)),
            ..v0
        };
        proof {
            assert(self@ =~= noted);
        }
        let mut snapshot: Vec<SimChannel> = Vec::new();
        let mut i: usize = 0;
        while i < network.nodes.len()
            invariant
                i <= network.nodes.len(),
                statuses@.len() == network.nodes@.len(),
                fallback@ == Seq::<char>::empty(),
                ({
                    let (pv, psnap) = spec_seed_upto(
                        noted,
                        network.nodes@,
                        statuses@,
                        network.channels@,
                        fallback,
                        i as int,
                    );
                    self@ == pv && snapshot@ == psnap
                }),
            decreases network.nodes.len() - i,
        {
            let n = &network.nodes[i];
            self.results.register_node(&n.name);
            match &statuses[i] {
                Some(s) => {
                    self.pub_key_map.push(
                        PubKeyEntry { pub_key: s.pub_key.clone(), node: n.name.clone() },
                    );
                    self.results.record_on_chain_value(0, &n.name, s.balance.onchain);
                    self.results.record_off_chain_value(0, &n.name, s.balance.offchain);
                    self.results.record_status_value(0, &n.name, n.running);
                    gather_outbound(&mut snapshot, s, &n.name, &network.channels, &fallback);
                },
                None => {},
            }
            proof {
                let (pv, psnap) = spec_seed_upto(
                    noted,
                    network.nodes@,
                    statuses@,
                    network.channels@,
                    fallback,
                    i + 1,
                );
                assert(self@ =~= pv);
                assert(snapshot@ =~= psnap);
            }
            i += 1;
        }
        self.results.record_open_snapshot(0, snapshot);
        proof {
            let seeded = spec_seeded(v0, network.nodes@, statuses@, network.channels@, fallback);
            assert(self@ =~= seeded);
            assert(fallback@ == Seq::<char>::empty() && self@ == seeded);
        }
    }

    /// The results gathered so far.
    pub fn get_sim_results(self) -> (r: SimResults)
        ensures
            r@ == self@.results,
    {
        self.results
    }

    /// Process one result event against the ledger; the answer names the
    /// outside work the caller owes before the next event.
    pub fn process_event(&mut self, event: &SimResultsEvent) -> (r: AnalyzerAction)
        ensures
            final(self)@ == old(self)@.spec_step(event@).0,
            r == old(self)@.spec_step(event@).1,
    {
        let ghost v0 = self@;
        let ghost st = v0.spec_step(event@);
        match event.sim_time {
            Some(t) => self.results.note_event_time(t),
            None => {},
        }
        let ghost rv = self.results@;
        proof {
            assert(rv =~= spec_note_time(v0.results, event@.sim_time));
        }
        match &event.event {
            SimulationEvent::StopNodeEvent(name) => {
                if event.success {
                    match event.sim_time {
                        Some(t) => self.results.update_node_status(t, name, false),
                        None => {},
                    }
                } else {
                    self.results.push_failed(event);
                }
                proof {
                    assert(self@ =~= st.0);
                }
                AnalyzerAction::Continue
            },
            SimulationEvent::StartNodeEvent(name) => {
                if event.success {
                    match event.sim_time {
                        Some(t) => self.results.update_node_status(t, name, true),
                        None => {},
                    }
                } else {
                    self.results.push_failed(event);
                }
                proof {
                    assert(self@ =~= st.0);
                }
                AnalyzerAction::Continue
            },
            SimulationEvent::CloseChannelEvent(_, id) => {
                if event.success {
                    let chan = self.get_last_open_channel_status(*id);
                    match (chan, event.sim_time) {
                        (Some(c), Some(t)) => {
                            self.results.update_close_channel_results(t, &c);
                        },
                        _ => {},
                    }
                } else {
                    self.results.push_failed(event);
                }
                proof {
                    assert(self@ =~= st.0);
                }
                AnalyzerAction::Continue
            },
            SimulationEvent::CloseChannelSuccessEvent(id) => {
                if self.is_finalized(id) {
                    proof {
                        assert(self@ =~= st.0);
                    }
                    return AnalyzerAction::Continue;
                }
                match self.get_last_closed_channel_status(id) {
                    Some((c, t)) => {
                        if c.src_balance_sats <= u64::MAX - reserve_of(&c) {
                            let src_share = c.get_src_balance();
                            let dest_share = c.get_dest_balance();
                            self.results.update_off_chain_balance(t, &c.src_node, src_share, true);
                            self.results.update_off_chain_balance(
                                t,
                                &c.dest_node,
                                dest_share,
                                true,
                            );
                            self.finalized_closed_channels.push(id.clone());
                            proof {
                                assert(self@ =~= st.0);
                            }
                            AnalyzerAction::AwaitClosingFees { channel: c, time: t }
                        } else {
                            proof {
                                assert(self@ =~= st.0);
                            }
                            AnalyzerAction::Continue
                        }
                    },
                    None => {
                        proof {
                            assert(self@ =~= st.0);
                        }
                        AnalyzerAction::Continue
                    },
                }
            },
            SimulationEvent::OpenChannelEvent(c) => {
                if event.success {
                    match event.sim_time {
                        Some(t) => {
                            if c.src_balance_sats <= u64::MAX - reserve_of(c) {
                                let src_share = c.get_src_balance();
                                let dest_share = c.get_dest_balance();
                                self.results.update_open_channel_results(t, c);
                                self.results.update_off_chain_balance(
                                    t,
                                    &c.src_node,
                                    src_share,
                                    false,
                                );
                                self.results.update_off_chain_balance(
                                    t,
                                    &c.dest_node,
                                    dest_share,
                                    false,
                                );
                                proof {
                                    assert(self@ =~= st.0);
                                }
                                return AnalyzerAction::AwaitOpenFee {
                                    channel: c.clone(),
                                    time: t,
                                };
                            }
                        },
                        None => {},
                    }
                } else {
                    self.results.push_failed(event);
                }
                proof {
                    assert(self@ =~= st.0);
                }
                AnalyzerAction::Continue
            },
            SimulationEvent::TransactionEvent(tx) => {
                if event.success {
                    match event.sim_time {
                        Some(t) => self.results.push_transaction(t, tx),
                        None => {},
                    }
                } else {
                    self.results.push_failed(event);
                }
                proof {
                    assert(self@ =~= st.0);
                }
                AnalyzerAction::Continue
            },
            SimulationEvent::PaymentFailedEvent(id) => {
                let _ = self.results.set_transaction_status(id, SimTransactionStatus::FAILED);
                proof {
                    assert(self@ =~= st.0);
                }
                AnalyzerAction::Continue
            },
            SimulationEvent::PaymentSuccessEvent(id, fee) => {
                let marked = self.results.set_transaction_status(
                    id,
                    SimTransactionStatus::SUCCESSFUL,
                );
                match marked {
                    Some(t) => {
                        if t.transaction.amount_sats <= u64::MAX - *fee {
                            self.results.update_off_chain_balance(
                                t.time,
                                &t.transaction.src_node,
                                t.transaction.amount_sats + *fee,
                                true,
                            );
                        }
                    },
                    None => {},
                }
                proof {
                    assert(self@ =~= st.0);
                }
                AnalyzerAction::Continue
            },
            SimulationEvent::PaymentPathSuccessful(path) => {
                if path.path.len() == 0 {
                    proof {
                        assert(self@ =~= st.0);
                    }
                    return AnalyzerAction::Continue;
                }
                let payment = path.path[path.path.len() - 1].amount;
                let t0 = match self.results.find_transaction_time(&path.payment_id) {
                    Some(t) => t,
                    None => {
                        proof {
                            assert(self@ =~= st.0);
                        }
                        return AnalyzerAction::Continue;
                    },
                };
                proof {
                    crate::sim_results::snapshots_keys(self.results.channels.open_channels.records());
                }
                let prev: Vec<SimChannel> = match self.results.latest_open_snapshot() {
                    Some(v) => v,
                    None => Vec::new(),
                };
                if !check_path_fits(&prev, &path.path, &self.pub_key_map, payment) {
                    proof {
                        assert(self@ =~= st.0);
                    }
                    return AnalyzerAction::Continue;
                }
                let updated = apply_path_exec(&prev, &path.path, &self.pub_key_map, payment);
                self.results.record_open_snapshot(t0, updated);
                self.credit_path_hops(&path.path, t0);
                proof {
                    assert(self@ =~= st.0);
                }
                AnalyzerAction::Continue
            },
            SimulationEvent::SimulationEndedEvent => {
                proof {
                    assert(self@ =~= st.0);
                }
                AnalyzerAction::Stop
            },
        }
    }

    /// Settle the on-chain side of a channel open: debit the opener by the
    /// locked value plus the open fee, at the open's time.
    pub fn apply_open_fee(&mut self, channel: &SimChannel, time: u64, fee: u64)
        ensures
            final(self)@ == old(self)@.spec_open_fee_applied(*channel, time, fee),
    {
        let ghost v0 = self@;
        if channel.src_balance_sats <= u64::MAX - reserve_of(channel) {
            let total_with_reserve = channel.get_src_balance();
            if channel.dest_balance_sats <= u64::MAX - total_with_reserve {
                let total = total_with_reserve + channel.dest_balance_sats;
                if fee <= u64::MAX - total {
                    self.results.update_on_chain_balance(
                        time,
                        &channel.src_node,
                        total + fee,
                        false,
                    );
                }
            }
        }
        proof {
            assert(self@ =~= v0.spec_open_fee_applied(*channel, time, fee));
        }
    }

    /// Settle the on-chain side of a channel close: credit each endpoint
    /// with its settled share minus the fee it owes, at the close's time.
    pub fn apply_closing_fees(&mut self, channel: &SimChannel, time: u64, src_fee: u64, dest_fee: u64)
        ensures
            final(self)@ == old(self)@.spec_closing_fees_applied(*channel, time, src_fee, dest_fee),
    {
        let ghost v0 = self@;
        if channel.src_balance_sats <= u64::MAX - reserve_of(channel) {
            let src_share = channel.get_src_balance();
            if src_fee <= src_share {
                self.results.update_on_chain_balance(
                    time,
                    &channel.src_node,
                    src_share - src_fee,
                    true,
                );
            }
        }
        if dest_fee <= channel.dest_balance_sats {
            self.results.update_on_chain_balance(
                time,
                &channel.dest_node,
                channel.dest_balance_sats - dest_fee,
                true,
            );
        }
        proof {
            assert(self@ =~= v0.spec_closing_fees_applied(*channel, time, src_fee, dest_fee));
        }
    }

    /// Record that a close settlement was given up on: the confirmation
    /// event joins the failed list, marked unsuccessful, at the given time.
    pub fn record_settlement_timeout(&mut self, backend_id: &String, time: u64)
        ensures
            final(self)@ == (NetworkAnalyzerView {
                results: spec_push_failed(
                    old(self)@.results,
                    SimResultsEventView {
                        sim_time: Some(time),
                        success: false,
                        event: SimulationEventView::CloseChannelSuccessEvent(*backend_id),
                    },
                ),
                ..old(self)@
            }),
    {
        let ghost v0 = self@;
        let e = SimResultsEvent {
            sim_time: Some(time),
            success: false,
            event: SimulationEvent::CloseChannelSuccessEvent(backend_id.clone()),
        };
        self.results.push_failed(&e);
        proof {
            assert(self@ =~= (NetworkAnalyzerView {
                results: spec_push_failed(
                    v0.results,
                    SimResultsEventView {
                        sim_time: Some(time),
                        success: false,
                        event: SimulationEventView::CloseChannelSuccessEvent(*backend_id),
                    },
                ),
                ..v0
            }));
        }
    }

    /// Whether a backend channel id has already been settled.
    fn is_finalized(&self, id: &String) -> (r: bool)
        ensures
            r == contains_string(self@.finalized, id@),
    {
        let mut i: usize = 0;
        while i < self.finalized_closed_channels.len()
            invariant
                i <= self.finalized_closed_channels.len(),
                forall|j: int|
                    0 <= j < i ==> (#[trigger] self.finalized_closed_channels@[j])@ != id@,
            decreases self.finalized_closed_channels.len() - i,
        {
            if string_eq(&self.finalized_closed_channels[i], id) {
                return true;
            }
            i += 1;
        }
        false
    }

    /// The last known state of a channel in the open set, by simulation id.
    fn get_last_open_channel_status(&self, id: u64) -> (r: Option<SimChannel>)
        ensures
            r == find_channel_by_id(latest_snapshot(self@.results.open_channels), id),
    {
        proof {
            crate::sim_results::snapshots_keys(self.results.channels.open_channels.records());
        }
        let prev: Vec<SimChannel> = match self.results.latest_open_snapshot() {
            Some(v) => v,
            None => Vec::new(),
        };
        find_by_id(&prev, id)
    }

    /// The last known state of a channel in the closed set, by backend id,
    /// with the time of that snapshot; `None` once the id was settled.
    fn get_last_closed_channel_status(&self, id: &String) -> (r: Option<(SimChannel, u64)>)
        ensures
            ({
                let (t, snap) = latest_snapshot_entry(self@.results.closed_channels);
                match r {
                    Some((c, rt)) => rt == t && find_channel_by_backend_id(snap, id@) == Some(c),
                    None => find_channel_by_backend_id(snap, id@) is None,
                }
            }),
    {
        proof {
            crate::sim_results::snapshots_keys(self.results.channels.closed_channels.records());
        }
        let (time, prev) = self.results.latest_closed_entry();
        match find_by_backend_id(&prev, id) {
            Some(c) => Some((c, time)),
            None => None,
        }
    }

    /// Credit each hop's node with its hop amount at the given time.
    fn credit_path_hops(&mut self, hops: &Vec<PathHop>, time: u64)
        ensures
            final(self)@ == (NetworkAnalyzerView {
                results: credit_hops(old(self)@.results, hops@, old(self)@.pub_key_map, time),
                ..old(self)@
            }),
    {
        let ghost v0 = self@;
        let ghost pk = self@.pub_key_map;
        let mut k: usize = 0;
        while k < hops.len()
            invariant
                k <= hops.len(),
                pk == self@.pub_key_map,
                self@.finalized == v0.finalized,
                v0.pub_key_map == pk,
                self@.results == credit_hops(v0.results, hops@.take(k as int), pk, time),
            decreases hops.len() - k,
        {
            proof {
                assert(hops@.take(k + 1).drop_last() =~= hops@.take(k as int));
                assert(hops@.take(k + 1).last() == hops@[k as int]);
            }
            match pk_lookup_exec(&self.pub_key_map, &hops[k].node_pub_key) {
                Some(n) => {
                    self.results.update_off_chain_balance(time, &n, hops[k].amount, false);
                },
                None => {},
            }
            k += 1;
        }
        proof {
            assert(hops@.take(hops@.len() as int) =~= hops@);
        }
    }
}

/// The destination node of the declared channel with this id.
fn get_dest_node(net: &Vec<SimChannel>, id: u64, fallback: &String) -> (r: String)
    ensures
        r == dest_node_for(net@, id, *fallback),
{
    match find_by_id(net, id) {
        Some(c) => c.dest_node,
        None => fallback.clone(),
    }
}

/// Append the outbound channels a node's status reports to the time-0
/// snapshot being gathered.
fn gather_outbound(
    out: &mut Vec<SimChannel>,
    s: &SimNodeStatus,
    name: &String,
    net: &Vec<SimChannel>,
    fallback: &String,
)
    ensures
        final(out)@ == old(out)@ + initial_snapshot_for(*s, *name, net@, *fallback),
{
    let ghost base = out@;
    let ghost pred = |c: crate::sim_node_status::SimNodeChannel| c.is_outbound;
    let ghost f = |c: crate::sim_node_status::SimNodeChannel|
        initial_channel(c, *name, net@, *fallback);
    let mut k: usize = 0;
    while k < s.channels.len()
        invariant
            k <= s.channels.len(),
            pred == (|c: crate::sim_node_status::SimNodeChannel| c.is_outbound),
            f == (|c: crate::sim_node_status::SimNodeChannel|
                initial_channel(c, *name, net@, *fallback)),
            out@ == base + s.channels@.take(k as int).filter(pred).map_values(f),
        decreases s.channels.len() - k,
    {
        proof {
            assert(s.channels@.take(k + 1).drop_last() =~= s.channels@.take(k as int));
            assert(s.channels@.take(k + 1).last() == s.channels@[k as int]);
            reveal(Seq::filter);
        }
        let c = &s.channels[k];
        if c.is_outbound {
            let built = SimChannel {
                src_node: name.clone(),
                dest_node: get_dest_node(net, c.id, fallback),
                src_balance_sats: c.outbound_capacity / 1000,
                dest_balance_sats: c.inbound_capacity / 1000,
                id: c.id,
                short_id: c.short_id,
                run_time_id: Some(c.run_time_id.clone()),
                funding_tx: c.funding_tx.clone(),
                penalty_reserve_sats: c.punishment_reserve,
            };
            proof {
                assert(built == f(s.channels@[k as int]));
            }
            out.push(built);
            proof {
                assert(out@ =~= base + s.channels@.take(k + 1).filter(pred).map_values(f));
            }
        } else {
            proof {
                assert(out@ =~= base + s.channels@.take(k + 1).filter(pred).map_values(f));
            }
        }
        k += 1;
    }
    proof {
        assert(s.channels@.take(s.channels@.len() as int) =~= s.channels@);
    }
}

/// The reserve of a channel, or 0 when none is set.
fn reserve_of(c: &SimChannel) -> (r: u64)
    ensures
        r == c.spec_reserve(),
{
    match c.penalty_reserve_sats {
        Some(p) => p,
        None => 0,
    }
}

/// The first channel of a list with the given simulation id.
fn find_by_id(v: &Vec<SimChannel>, id: u64) -> (r: Option<SimChannel>)
    ensures
        r == find_channel_by_id(v@, id),
{
    let ghost all = v@;
    let mut i: usize = 0;
    while i < v.len()
        invariant
            i <= v.len(),
            all == v@,
            find_channel_by_id(all.take(i as int), id) is None,
        decreases v.len() - i,
    {
        proof {
            assert(all.take(i + 1).drop_last() =~= all.take(i as int));
            assert(all.take(i + 1).last() == all[i as int]);
        }
        if v[i].id == id {
            proof {
                first_channel_found(all, id, i as int);
            }
            return Some(v[i].clone());
        }
        i += 1;
    }
    proof {
        assert(all.take(all.len() as int) =~= all);
    }
    None
}

/// If the prefix before `i` holds no channel of the id and `v[i]` has it,
/// `i` is the first.
proof fn first_channel_found(v: Seq<SimChannel>, id: u64, i: int)
    requires
        0 <= i < v.len(),
        find_channel_by_id(v.take(i), id) is None,
        v[i].id == id,
    ensures
        find_channel_by_id(v, id) == Some(v[i]),
    decreases v.len(),
{
    if v.len() - 1 > i {
        assert(v.drop_last().take(i) =~= v.take(i));
        first_channel_found(v.drop_last(), id, i);
        assert(v.drop_last()[i] == v[i]);
    } else {
        assert(v.take(i) =~= v.drop_last());
    }
}

/// The first channel of a list with the given backend id.
fn find_by_backend_id(v: &Vec<SimChannel>, id: &String) -> (r: Option<SimChannel>)
    ensures
        r == find_channel_by_backend_id(v@, id@),
{
    let ghost all = v@;
    let mut i: usize = 0;
    while i < v.len()
        invariant
            i <= v.len(),
            all == v@,
            find_channel_by_backend_id(all.take(i as int), id@) is None,
        decreases v.len() - i,
    {
        proof {
            assert(all.take(i + 1).drop_last() =~= all.take(i as int));
            assert(all.take(i + 1).last() == all[i as int]);
        }
        let matched = match &v[i].run_time_id {
            Some(rid) => string_eq(rid, id),
            None => false,
        };
        if matched {
            proof {
                first_backend_channel_found(all, id@, i as int);
            }
            return Some(v[i].clone());
        }
        i += 1;
    }
    proof {
        assert(all.take(all.len() as int) =~= all);
    }
    None
}

/// If the prefix before `i` holds no channel of the backend id and `v[i]`
/// has it, `i` is the first.
proof fn first_backend_channel_found(v: Seq<SimChannel>, id: Seq<char>, i: int)
    requires
        0 <= i < v.len(),
        find_channel_by_backend_id(v.take(i), id) is None,
        v[i].run_time_id matches Some(r) && r@ == id,
    ensures
        find_channel_by_backend_id(v, id) == Some(v[i]),
    decreases v.len(),
{
    if v.len() - 1 > i {
        assert(v.drop_last().take(i) =~= v.take(i));
        first_backend_channel_found(v.drop_last(), id, i);
        assert(v.drop_last()[i] == v[i]);
    } else {
        assert(v.take(i) =~= v.drop_last());
    }
}

/// The node name the correlation table gives a public key.
fn pk_lookup_exec(pk: &Vec<PubKeyEntry>, key: &String) -> (r: Option<String>)
    ensures
        r == pk_lookup(pk@, key@),
{
    let ghost all = pk@;
    let mut i: usize = 0;
    while i < pk.len()
        invariant
            i <= pk.len(),
            all == pk@,
            pk_lookup(all.take(i as int), key@) is None,
        decreases pk.len() - i,
    {
        proof {
            assert(all.take(i + 1).drop_last() =~= all.take(i as int));
            assert(all.take(i + 1).last() == all[i as int]);
        }
        if string_eq(&pk[i].pub_key, key) {
            proof {
                first_pk_found(all, key@, i as int);
            }
            return Some(pk[i].node.clone());
        }
        i += 1;
    }
    proof {
        assert(all.take(all.len() as int) =~= all);
    }
    None
}

/// If the prefix before `i` holds no entry for the key and `pk[i]` has it,
/// `i` is the first.
proof fn first_pk_found(pk: Seq<PubKeyEntry>, key: Seq<char>, i: int)
    requires
        0 <= i < pk.len(),
        pk_lookup(pk.take(i), key) is None,
        pk[i].pub_key@ == key,
    ensures
        pk_lookup(pk, key) == Some(pk[i].node),
    decreases pk.len(),
{
    if pk.len() - 1 > i {
        assert(pk.drop_last().take(i) =~= pk.take(i));
        first_pk_found(pk.drop_last(), key, i);
        assert(pk.drop_last()[i] == pk[i]);
    } else {
        assert(pk.take(i) =~= pk.drop_last());
    }
}

/// Whether a payment path can be applied to a snapshot; see [`path_fits`].
fn check_path_fits(
    chans: &Vec<SimChannel>,
    hops: &Vec<PathHop>,
    pk: &Vec<PubKeyEntry>,
    payment: u64,
) -> (r: bool)
    ensures
        r == path_fits(chans@, hops@, pk@, payment),
{
    let mut k: usize = 0;
    while k < hops.len()
        invariant
            k <= hops.len(),
            forall|j: int|
                0 <= j < k ==> hop_resolved(pk@, #[trigger] hops@[j]) && (payment == hops@[j].amount
                    || payment + hops@[j].amount <= u64::MAX),
        decreases hops.len() - k,
    {
        let hop = &hops[k];
        match pk_lookup_exec(pk, &hop.node_pub_key) {
            Some(_) => {},
            None => {
                return false;
            },
        }
        if payment != hop.amount && hop.amount > u64::MAX - payment {
            return false;
        }
        k += 1;
    }
    let mut i: usize = 0;
    while i < chans.len()
        invariant
            i <= chans.len(),
            forall|j: int|
                0 <= j < hops@.len() ==> hop_resolved(pk@, #[trigger] hops@[j]) && (payment
                    == hops@[j].amount || payment + hops@[j].amount <= u64::MAX),
            forall|a: int, b: int|
                0 <= a < i && 0 <= b < hops@.len() ==> hop_update_fits(
                    #[trigger] chans@[a],
                    #[trigger] hops@[b],
                    pk@,
                    payment,
                ),
        decreases chans.len() - i,
    {
        let c = &chans[i];
        let mut b: usize = 0;
        while b < hops.len()
            invariant
                b <= hops.len(),
                i < chans@.len(),
                c == &chans[i as int],
                forall|j: int|
                    0 <= j < hops@.len() ==> hop_resolved(pk@, #[trigger] hops@[j]) && (payment
                        == hops@[j].amount || payment + hops@[j].amount <= u64::MAX),
                forall|j: int|
                    0 <= j < b ==> hop_update_fits(chans@[i as int], #[trigger] hops@[j], pk@, payment),
            decreases hops.len() - b,
        {
            let hop = &hops[b];
            let amt: u64 = if payment == hop.amount {
                payment
            } else {
                payment + hop.amount
            };
            let is_match = match c.short_id {
                Some(sid) => sid == hop.short_channel_id,
                None => false,
            };
            if is_match {
                let node = match pk_lookup_exec(pk, &hop.node_pub_key) {
                    Some(n) => n,
                    None => {
                        return false;
                    },
                };
                if string_eq(&node, &c.src_node) {
                    if c.dest_balance_sats < amt || c.src_balance_sats > u64::MAX - amt {
                        return false;
                    }
                }
                if string_eq(&node, &c.dest_node) {
                    if c.src_balance_sats < amt || c.dest_balance_sats > u64::MAX - amt {
                        return false;
                    }
                }
            }
            b += 1;
        }
        i += 1;
    }
    true
}

/// The snapshot after a payment path; see [`apply_path`].
#[verifier::rlimit(60)]
#[verifier::spinoff_prover]
fn apply_path_exec(
    chans: &Vec<SimChannel>,
    hops: &Vec<PathHop>,
    pk: &Vec<PubKeyEntry>,
    payment: u64,
) -> (r: Vec<SimChannel>)
    requires
        path_fits(chans@, hops@, pk@, payment),
    ensures
        r@ == apply_path(chans@, hops@, pk@, payment),
{
    let mut out: Vec<SimChannel> = Vec::new();
    let mut i: usize = 0;
    while i < chans.len()
        invariant
            i <= chans.len(),
            path_fits(chans@, hops@, pk@, payment),
            out@ =~= apply_path(chans@.take(i as int), hops@, pk@, payment),
        decreases chans.len() - i,
    {
        proof {
            assert(chans@.take(i + 1).drop_last() =~= chans@.take(i as int));
            assert(chans@.take(i + 1).last() == chans@[i as int]);
        }
        let c = &chans[i];
        let mut touched = false;
        let mut b: usize = 0;
        while b < hops.len()
            invariant
                b <= hops.len(),
                i < chans@.len(),
                c == &chans[i as int],
                path_fits(chans@, hops@, pk@, payment),
                touched == (channel_segments(*c, hops@.take(b as int), pk@, payment).len() > 0),
                out@ =~= apply_path(chans@.take(i as int), hops@, pk@, payment) + channel_segments(
                    *c,
                    hops@.take(b as int),
                    pk@,
                    payment,
                ),
            decreases hops.len() - b,
        {
            proof {
                assert(hops@.take(b + 1).drop_last() =~= hops@.take(b as int));
                assert(hops@.take(b + 1).last() == hops@[b as int]);
            }
            let hop = &hops[b];
            let amt: u64 = if payment == hop.amount {
                payment
            } else {
                proof {
                    assert(hop_resolved(pk@, hops@[b as int]) && (payment == hops@[b as int].amount
                        || payment + hops@[b as int].amount <= u64::MAX));
                }
                payment + hop.amount
            };
            let is_match = match c.short_id {
                Some(sid) => sid == hop.short_channel_id,
                None => false,
            };
            if is_match {
                let node = match pk_lookup_exec(pk, &hop.node_pub_key) {
                    Some(n) => n,
                    None => {
                        proof {
                            assert(hop_resolved(pk@, hops@[b as int]));
                            assert(false);
                        }
                        String::new()
                    },
                };
                proof {
                    assert(hop_update_fits(chans@[i as int], hops@[b as int], pk@, payment));
                }
                if string_eq(&node, &c.src_node) {
                    out.push(
                        SimChannel {
                            id: c.id,
                            src_node: c.src_node.clone(),
                            dest_node: c.dest_node.clone(),
                            short_id: c.short_id,
                            run_time_id: c.run_time_id.clone(),
                            dest_balance_sats: c.dest_balance_sats - amt,
                            src_balance_sats: c.src_balance_sats + amt,
                            funding_tx: c.funding_tx.clone(),
                            penalty_reserve_sats: c.penalty_reserve_sats,
                        },
                    );
                    touched = true;
                }
                if string_eq(&node, &c.dest_node) {
                    out.push(
                        SimChannel {
                            id: c.id,
                            src_node: c.src_node.clone(),
                            dest_node: c.dest_node.clone(),
                            short_id: c.short_id,
                            run_time_id: c.run_time_id.clone(),
                            dest_balance_sats: c.dest_balance_sats + amt,
                            src_balance_sats: c.src_balance_sats - amt,
                            funding_tx: c.funding_tx.clone(),
                            penalty_reserve_sats: c.penalty_reserve_sats,
                        },
                    );
                    touched = true;
                }
            }
            b += 1;
        }
        if !touched {
            out.push(c.clone());
        }
        proof {
            assert(hops@.take(hops@.len() as int) =~= hops@);
            assert(out@ =~= apply_path(chans@.take(i + 1), hops@, pk@, payment));
        }
        i += 1;
    }
    proof {
        assert(chans@.take(chans@.len() as int) =~= chans@);
    }
    out
}

} // verus!
