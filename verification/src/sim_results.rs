//! The results ledger: what happened in a run, indexed by simulated time.
//!
//! Every table is append-only while a run is live. A point query at time `t`
//! answers with the record at the greatest recorded time `<= t` and reports
//! "unknown" (`None`) when nothing at or before `t` was recorded.

use vstd::prelude::*;
use vstd::pervasive::VecAdditionalExecFns;
use crate::sim_channel::SimChannel;
use crate::sim_event::{SimResultsEvent, SimResultsEventView, results_events_view};
use crate::sim_transaction::{SimTransaction, SimTransactionStatus};
use crate::timeline::{Timeline, value_at, best_index, lemma_best_index, lemma_best_index_push};

verus! {

/// One balance observation: the node's balance in sats at a simulated time.
pub struct BalanceRecord {
    pub node: String,
    pub time: u64,
    pub value: u64,
}

/// The on-chain and off-chain balance observations of all nodes.
pub struct BalanceResults {
    pub on_chain: Vec<BalanceRecord>,
    pub off_chain: Vec<BalanceRecord>,
}

/// One status observation: whether the node was running at a simulated time.
pub struct StatusRecord {
    pub node: String,
    pub time: u64,
    pub running: bool,
}

/// The status observations of all nodes.
pub struct StatusResults {
    pub nodes: Vec<StatusRecord>,
}

/// A transaction together with the simulated time it was issued.
pub struct Tx {
    pub time: u64,
    pub transaction: SimTransaction,
}

/// All transactions that occurred in the run, in arrival order.
pub struct TxResults {
    pub txs: Vec<Tx>,
}

/// Snapshots of the open and of the closed channel sets over time.
pub struct ChannelResults {
    pub open_channels: Timeline<Vec<SimChannel>>,
    pub closed_channels: Timeline<Vec<SimChannel>>,
}

/// The results of a simulation run.
pub struct SimResults {
    /// The nodes the ledger knows; observations for other names are dropped.
    pub nodes: Vec<String>,
    pub balance: BalanceResults,
    pub transactions: TxResults,
    pub channels: ChannelResults,
    pub status: StatusResults,
    /// Result events whose action failed, in arrival order.
    pub failed_events: Vec<SimResultsEvent>,
    /// Every simulated time at which some event was observed.
    pub event_times: Vec<u64>,
}

/// View of [`SimResults`]: every vector abstracted to a sequence, channel
/// snapshots and failed events to their views.
#[verifier::ext_equal]
pub struct SimResultsView {
    pub nodes: Seq<String>,
    pub on_chain: Seq<BalanceRecord>,
    pub off_chain: Seq<BalanceRecord>,
    pub txs: Seq<Tx>,
    pub open_channels: Seq<(u64, Seq<SimChannel>)>,
    pub closed_channels: Seq<(u64, Seq<SimChannel>)>,
    pub status: Seq<StatusRecord>,
    pub failed_events: Seq<SimResultsEventView>,
    pub event_times: Seq<u64>,
}

/// The channel snapshots with each snapshot vector abstracted to a sequence.
pub open spec fn snapshots_view(s: Seq<(u64, Vec<SimChannel>)>) -> Seq<(u64, Seq<SimChannel>)> {
    s.map_values(|p: (u64, Vec<SimChannel>)| (p.0, p.1@))
}

impl View for SimResults {
    type V = SimResultsView;

    open spec fn view(&self) -> SimResultsView {
        SimResultsView {
            nodes: self.nodes@,
            on_chain: self.balance.on_chain@,
            off_chain: self.balance.off_chain@,
            txs: self.transactions.txs@,
            open_channels: snapshots_view(self.channels.open_channels.records()),
            closed_channels: snapshots_view(self.channels.closed_channels.records()),
            status: self.status.nodes@,
            failed_events: results_events_view(self.failed_events@),
            event_times: self.event_times@,
        }
    }
}

/// The time series of one node's balance: its observations, in order.
pub open spec fn balance_series(recs: Seq<BalanceRecord>, name: Seq<char>) -> Seq<(u64, u64)>
    decreases recs.len(),
{
    if recs.len() == 0 {
        Seq::empty()
    } else {
        let rest = balance_series(recs.drop_last(), name);
        if recs.last().node@ == name {
            rest.push((recs.last().time, recs.last().value))
        } else {
            rest
        }
    }
}

/// The time series of one node's status: its observations, in order.
pub open spec fn status_series(recs: Seq<StatusRecord>, name: Seq<char>) -> Seq<(u64, bool)>
    decreases recs.len(),
{
    if recs.len() == 0 {
        Seq::empty()
    } else {
        let rest = status_series(recs.drop_last(), name);
        if recs.last().node@ == name {
            rest.push((recs.last().time, recs.last().running))
        } else {
            rest
        }
    }
}

/// Whether the ledger knows a node by this name.
pub open spec fn knows_node(nodes: Seq<String>, name: Seq<char>) -> bool {
    exists|i: int| 0 <= i < nodes.len() && (#[trigger] nodes[i])@ == name
}

/// Whether a transaction belongs to the node: it is its sender or receiver.
pub open spec fn tx_involves(t: Tx, name: Seq<char>) -> bool {
    t.transaction.src_node@ == name || t.transaction.dest_node@ == name
}

/// The view of a freshly created ledger: every table empty.
pub open spec fn empty_results_view() -> SimResultsView {
    SimResultsView {
        nodes: Seq::empty(),
        on_chain: Seq::empty(),
        off_chain: Seq::empty(),
        txs: Seq::empty(),
        open_channels: Seq::empty(),
        closed_channels: Seq::empty(),
        status: Seq::empty(),
        failed_events: Seq::empty(),
        event_times: Seq::empty(),
    }
}

impl SimResults {
    /// What a query for a node's on-chain balance at a time answers.
    pub open spec fn spec_on_chain_bal(self, time: u64, name: Seq<char>) -> Option<u64> {
        value_at(balance_series(self@.on_chain, name), time)
    }

    /// What a query for a node's off-chain balance at a time answers.
    pub open spec fn spec_off_chain_bal(self, time: u64, name: Seq<char>) -> Option<u64> {
        value_at(balance_series(self@.off_chain, name), time)
    }

    /// What a query for a node's running status at a time answers; a node
    /// with no recorded status at or before the time reads as not running.
    pub open spec fn spec_node_status(self, time: u64, name: Seq<char>) -> bool {
        match value_at(status_series(self@.status, name), time) {
            None => false,
            Some(b) => b,
        }
    }

    /// The open-channel snapshot in force at a time, if any.
    pub open spec fn spec_open_channels(self, time: u64) -> Option<Seq<SimChannel>> {
        value_at(self@.open_channels, time)
    }

    /// The closed-channel snapshot in force at a time, if any.
    pub open spec fn spec_closed_channels(self, time: u64) -> Option<Seq<SimChannel>> {
        value_at(self@.closed_channels, time)
    }

    pub fn new() -> (r: Self)
        ensures
            r@ =~= empty_results_view(),
    {
        SimResults {
            nodes: Vec::new(),
            balance: BalanceResults { on_chain: Vec::new(), off_chain: Vec::new() },
            transactions: TxResults { txs: Vec::new() },
            channels: ChannelResults {
                open_channels: Timeline::new(),
                closed_channels: Timeline::new(),
            },
            status: StatusResults { nodes: Vec::new() },
            failed_events: Vec::new(),
            event_times: Vec::new(),
        }
    }

    /// The on-chain balance of a node at a given time in the simulation.
    pub fn get_on_chain_bal(&self, time: u64, node: &String) -> (r: Option<u64>)
        ensures
            r == self.spec_on_chain_bal(time, node@),
    {
        balance_query(&self.balance.on_chain, node, time)
    }

    /// The off-chain balance of a node at a given time in the simulation.
    pub fn get_off_chain_bal(&self, time: u64, node: &String) -> (r: Option<u64>)
        ensures
            r == self.spec_off_chain_bal(time, node@),
    {
        balance_query(&self.balance.off_chain, node, time)
    }

    /// Whether a node was running at a given time in the simulation; an
    /// unknown node, or a time before the first observation, reads as not
    /// running.
    pub fn get_node_status(&self, time: u64, node: &String) -> (r: bool)
        ensures
            r == self.spec_node_status(time, node@),
    {
        match status_query(&self.status.nodes, node, time) {
            Some(b) => b,
            None => false,
        }
    }

    /// All the transactions in which a node took part, as sender or receiver,
    /// in arrival order.
    pub fn get_node_transactions(&self, node: &String) -> (r: Option<Vec<Tx>>)
        ensures
            match r {
                Some(v) => v@ == self@.txs.filter(|t: Tx| tx_involves(t, node@)),
                None => false,
            },
    {
        let ghost all = self.transactions.txs@;
        let ghost pred = |t: Tx| tx_involves(t, node@);
        let mut out: Vec<Tx> = Vec::new();
        let mut i: usize = 0;
        while i < self.transactions.txs.len()
            invariant
                i <= self.transactions.txs.len(),
                all == self.transactions.txs@,
                pred == (|t: Tx| tx_involves(t, node@)),
                out@ == all.take(i as int).filter(pred),
            decreases self.transactions.txs.len() - i,
        {
            let t = &self.transactions.txs[i];
            proof {
                assert(all.take(i + 1).drop_last() =~= all.take(i as int));
                assert(all.take(i + 1).last() == all[i as int]);
                reveal(Seq::filter);
            }
            if string_eq(&t.transaction.src_node, node) || string_eq(
                &t.transaction.dest_node,
                node,
            ) {
                out.push(t.clone());
            }
            i += 1;
        }
        proof {
            assert(all.take(all.len() as int) =~= all);
        }
        Some(out)
    }

    /// Every transaction of the run, in arrival order.
    pub fn get_all_transactions(&self) -> (r: Option<Vec<Tx>>)
        ensures
            match r {
                Some(v) => v@ == self@.txs,
                None => false,
            },
    {
        Some(clone_txs(&self.transactions.txs))
    }

    /// The open channels at a given time in the simulation.
    pub fn get_open_channels(&self, time: u64) -> (r: Option<Vec<SimChannel>>)
        ensures
            match r {
                Some(v) => self.spec_open_channels(time) == Some(v@),
                None => self.spec_open_channels(time) is None,
            },
    {
        let ghost recs = self.channels.open_channels.records();
        proof {
            snapshots_keys(recs);
        }
        match self.channels.open_channels.query(time) {
            Some(v) => {
                proof {
                    lemma_best_index(recs, time);
                }
                Some(clone_channels(v))
            },
            None => None,
        }
    }

    /// The channels that had been closed by a given time in the simulation.
    pub fn get_closed_channels(&self, time: u64) -> (r: Option<Vec<SimChannel>>)
        ensures
            match r {
                Some(v) => self.spec_closed_channels(time) == Some(v@),
                None => self.spec_closed_channels(time) is None,
            },
    {
        let ghost recs = self.channels.closed_channels.records();
        proof {
            snapshots_keys(recs);
        }
        match self.channels.closed_channels.query(time) {
            Some(v) => {
                proof {
                    lemma_best_index(recs, time);
                }
                Some(clone_channels(v))
            },
            None => None,
        }
    }

    /// The names of all the nodes the ledger knows, in registration order.
    pub fn get_nodes(&self) -> (r: Vec<String>)
        ensures
            r@.len() == self@.nodes.len(),
            forall|i: int| 0 <= i < r@.len() ==> (#[trigger] r@[i]) == self@.nodes[i],
    {
        let mut out: Vec<String> = Vec::new();
        let mut i: usize = 0;
        while i < self.nodes.len()
            invariant
                i <= self.nodes.len(),
                out@.len() == i,
                forall|j: int| 0 <= j < i ==> (#[trigger] out@[j]) == self.nodes@[j],
            decreases self.nodes.len() - i,
        {
            out.push(self.nodes[i].clone());
            i += 1;
        }
        out
    }

    /// The greatest key in `keys` that is at most `target`, or `None` when
    /// every key is above `target`.
    pub fn find_closest_less(keys: &Vec<u64>, target: &u64) -> (r: Option<u64>)
        ensures
            match r {
                Some(k) => {
                    &&& keys@.contains(k)
                    &&& k <= *target
                    &&& forall|i: int|
                        0 <= i < keys@.len() && (#[trigger] keys@[i]) <= *target ==> keys@[i] <= k
                },
                None => forall|i: int| 0 <= i < keys@.len() ==> (#[trigger] keys@[i]) > *target,
            },
    {
        let mut closest_key: Option<u64> = None;
        let mut i: usize = 0;
        while i < keys.len()
            invariant
                i <= keys.len(),
                match closest_key {
                    Some(k) => {
                        &&& keys@.take(i as int).contains(k)
                        &&& k <= *target
                        &&& forall|j: int|
                            0 <= j < i && (#[trigger] keys@[j]) <= *target ==> keys@[j] <= k
                    },
                    None => forall|j: int| 0 <= j < i ==> (#[trigger] keys@[j]) > *target,
                },
            decreases keys.len() - i,
        {
            let key = keys[i];
            if key <= *target {
                closest_key = match closest_key {
                    None => Some(key),
                    Some(prev_key) => if key > prev_key {
                        Some(key)
                    } else {
                        Some(prev_key)
                    },
                };
            }
            proof {
                let taken = keys@.take(i + 1);
                assert(taken[i as int] == keys@[i as int]);
                assert(forall|j: int| 0 <= j < i ==> taken[j] == (#[trigger] keys@[j]));
                if closest_key is Some {
                    let k = closest_key.unwrap();
                    if keys@.take(i as int).contains(k) {
                        let w = choose|w: int|
                            0 <= w < i && (#[trigger] keys@.take(i as int)[w]) == k;
                        assert(taken[w] == k);
                    }
                }
            }
            i += 1;
        }
        proof {
            assert(keys@.take(keys@.len() as int) =~= keys@);
        }
        closest_key
    }
}

/// The latest value of a series, or 0 before any observation.
pub open spec fn latest_or_zero(series: Seq<(u64, u64)>) -> u64 {
    match value_at(series, u64::MAX) {
        None => 0,
        Some(v) => v,
    }
}

/// The latest channel snapshot, or the empty set before any snapshot.
pub open spec fn latest_snapshot(snaps: Seq<(u64, Seq<SimChannel>)>) -> Seq<SimChannel> {
    match value_at(snaps, u64::MAX) {
        None => Seq::empty(),
        Some(l) => l,
    }
}

/// Whether a transaction carries the given payment id.
pub open spec fn tx_id_matches(t: Tx, id: Seq<char>) -> bool {
    match t.transaction.id {
        Some(s) => s@ == id,
        None => false,
    }
}

/// A transaction with its status replaced.
pub open spec fn spec_with_status(t: Tx, status: SimTransactionStatus) -> Tx {
    Tx { time: t.time, transaction: SimTransaction { status, ..t.transaction } }
}

/// Every transaction carrying the payment id, with its status replaced.
pub open spec fn spec_mark_txs(txs: Seq<Tx>, id: Seq<char>, status: SimTransactionStatus) -> Seq<
    Tx,
> {
    txs.map_values(
        |t: Tx|
            if tx_id_matches(t, id) {
                spec_with_status(t, status)
            } else {
                t
            },
    )
}

/// The index of the last transaction carrying the payment id, or -1.
pub open spec fn spec_last_match(txs: Seq<Tx>, id: Seq<char>) -> int
    decreases txs.len(),
{
    if txs.len() == 0 {
        -1
    } else if tx_id_matches(txs.last(), id) {
        txs.len() - 1
    } else {
        spec_last_match(txs.drop_last(), id)
    }
}

/// The index of the first transaction carrying the payment id, or -1.
pub open spec fn spec_first_match(txs: Seq<Tx>, id: Seq<char>) -> int
    decreases txs.len(),
{
    if txs.len() == 0 {
        -1
    } else {
        let rest = spec_first_match(txs.drop_last(), id);
        if rest >= 0 {
            rest
        } else if tx_id_matches(txs.last(), id) {
            txs.len() - 1
        } else {
            -1
        }
    }
}

/// A balance update to a known node: the new balance, derived from the
/// latest one, is recorded at the event's time. An update to an unknown
/// node, or one whose new balance would leave `u64`, is dropped.
pub open spec fn spec_balance_updated(
    recs: Seq<BalanceRecord>,
    known: bool,
    time: u64,
    node: String,
    amount: u64,
    subtract: bool,
) -> Seq<BalanceRecord> {
    if !known {
        recs
    } else {
        let prev = latest_or_zero(balance_series(recs, node@));
        let next = if subtract {
            prev - amount
        } else {
            prev + amount
        };
        if 0 <= next <= u64::MAX {
            recs.push(BalanceRecord { node, time, value: next as u64 })
        } else {
            recs
        }
    }
}

impl SimResults {
    /// How `update_off_chain_balance` changes the ledger.
    pub open spec fn spec_off_chain_updated(
        v: SimResultsView,
        time: u64,
        node: String,
        amount: u64,
        sent: bool,
    ) -> SimResultsView {
        SimResultsView {
            off_chain: spec_balance_updated(
                v.off_chain,
                knows_node(v.nodes, node@),
                time,
                node,
                amount,
                sent,
            ),
            ..v
        }
    }

    /// How `update_on_chain_balance` changes the ledger; `close` means the
    /// amount settles back on-chain and is added.
    pub open spec fn spec_on_chain_updated(
        v: SimResultsView,
        time: u64,
        node: String,
        amount: u64,
        close: bool,
    ) -> SimResultsView {
        SimResultsView {
            on_chain: spec_balance_updated(
                v.on_chain,
                knows_node(v.nodes, node@),
                time,
                node,
                amount,
                !close,
            ),
            ..v
        }
    }

    /// How `update_node_status` changes the ledger.
    pub open spec fn spec_status_updated(
        v: SimResultsView,
        time: u64,
        node: String,
        running: bool,
    ) -> SimResultsView {
        if knows_node(v.nodes, node@) {
            SimResultsView { status: v.status.push(StatusRecord { node, time, running }), ..v }
        } else {
            v
        }
    }

    /// How `update_open_channel_results` changes the ledger: the latest
    /// open-channel snapshot, extended by the channel, is recorded at the
    /// event's time.
    pub open spec fn spec_open_channel_updated(
        v: SimResultsView,
        time: u64,
        channel: SimChannel,
    ) -> SimResultsView {
        SimResultsView {
            open_channels: v.open_channels.push(
                (time, latest_snapshot(v.open_channels).push(channel)),
            ),
            ..v
        }
    }

    /// How `update_close_channel_results` changes the ledger: the channel
    /// joins the latest closed-channel snapshot and leaves the latest
    /// open-channel snapshot, both recorded at the event's time.
    pub open spec fn spec_close_channel_updated(
        v: SimResultsView,
        time: u64,
        channel: SimChannel,
    ) -> SimResultsView {
        let closed = v.closed_channels.push(
            (time, latest_snapshot(v.closed_channels).push(channel)),
        );
        let open = if v.open_channels.len() > 0 {
            v.open_channels.push(
                (
                    time,
                    latest_snapshot(v.open_channels).filter(
                        |c: SimChannel| c.id != channel.id,
                    ),
                ),
            )
        } else {
            v.open_channels
        };
        SimResultsView { open_channels: open, closed_channels: closed, ..v }
    }

    /// Whether the ledger knows a node by this name.
    pub fn contains_node(&self, name: &String) -> (r: bool)
        ensures
            r == knows_node(self@.nodes, name@),
    {
        let mut i: usize = 0;
        while i < self.nodes.len()
            invariant
                i <= self.nodes.len(),
                forall|j: int| 0 <= j < i ==> (#[trigger] self.nodes@[j])@ != name@,
            decreases self.nodes.len() - i,
        {
            if string_eq(&self.nodes[i], name) {
                return true;
            }
            i += 1;
        }
        false
    }

    /// Record a node's off-chain balance change at a time: the amount is
    /// subtracted from the latest balance when `sent`, added otherwise.
    /// An update to an unknown node, or one that would take the balance
    /// outside `u64`, is dropped.
    pub fn update_off_chain_balance(&mut self, time: u64, node: &String, amount: u64, sent: bool)
        ensures
            final(self)@ == Self::spec_off_chain_updated(old(self)@, time, *node, amount, sent),
    {
        let ghost v0 = self@;
        if !self.contains_node(node) {
            return ;
        }
        let prev = match balance_query(&self.balance.off_chain, node, u64::MAX) {
            Some(b) => b,
            None => 0,
        };
        if sent {
            if amount <= prev {
                self.balance.off_chain.push(
                    BalanceRecord { node: node.clone(), time, value: prev - amount },
                );
            }
        } else {
            if amount <= u64::MAX - prev {
                self.balance.off_chain.push(
                    BalanceRecord { node: node.clone(), time, value: prev + amount },
                );
            }
        }
        proof {
            assert(self@ =~= Self::spec_off_chain_updated(v0, time, *node, amount, sent));
        }
    }

    /// Record a node's on-chain balance change at a time: the amount is
    /// added to the latest balance when `close` (funds settling back
    /// on-chain), subtracted otherwise. An update to an unknown node, or one
    /// that would take the balance outside `u64`, is dropped.
    pub fn update_on_chain_balance(&mut self, time: u64, node: &String, amount: u64, close: bool)
        ensures
            final(self)@ == Self::spec_on_chain_updated(old(self)@, time, *node, amount, close),
    {
        let ghost v0 = self@;
        if !self.contains_node(node) {
            return ;
        }
        let prev = match balance_query(&self.balance.on_chain, node, u64::MAX) {
            Some(b) => b,
            None => 0,
        };
        if close {
            if amount <= u64::MAX - prev {
                self.balance.on_chain.push(
                    BalanceRecord { node: node.clone(), time, value: prev + amount },
                );
            }
        } else {
            if amount <= prev {
                self.balance.on_chain.push(
                    BalanceRecord { node: node.clone(), time, value: prev - amount },
                );
            }
        }
        proof {
            assert(self@ =~= Self::spec_on_chain_updated(v0, time, *node, amount, close));
        }
    }

    /// Record whether a node is running at a time; an update to an unknown
    /// node is dropped.
    pub fn update_node_status(&mut self, time: u64, node: &String, running: bool)
        ensures
            final(self)@ == Self::spec_status_updated(old(self)@, time, *node, running),
    {
        let ghost v0 = self@;
        if self.contains_node(node) {
            self.status.nodes.push(StatusRecord { node: node.clone(), time, running });
        }
        proof {
            assert(self@ =~= Self::spec_status_updated(v0, time, *node, running));
        }
    }

    /// Add a channel to the open set: the latest open-channel snapshot,
    /// extended by the channel, is recorded at the given time.
    pub fn update_open_channel_results(&mut self, time: u64, channel: &SimChannel)
        ensures
            final(self)@ == Self::spec_open_channel_updated(old(self)@, time, *channel),
    {
        let ghost v0 = self@;
        proof {
            snapshots_keys(self.channels.open_channels.records());
            lemma_best_index(self.channels.open_channels.records(), u64::MAX);
        }
        let mut list: Vec<SimChannel> = match self.channels.open_channels.latest() {
            Some(v) => clone_channels(v),
            None => Vec::new(),
        };
        list.push(channel.clone());
        self.channels.open_channels.record(time, list);
        proof {
            assert(self@.open_channels =~= Self::spec_open_channel_updated(
                v0,
                time,
                *channel,
            ).open_channels);
            assert(self@ =~= Self::spec_open_channel_updated(v0, time, *channel));
        }
    }

    /// Move a channel from the open set to the closed set at the given time:
    /// it joins the latest closed-channel snapshot, and the latest
    /// open-channel snapshot, with every channel of its id removed, is
    /// recorded anew.
    pub fn update_close_channel_results(&mut self, time: u64, channel: &SimChannel)
        ensures
            final(self)@ == Self::spec_close_channel_updated(old(self)@, time, *channel),
    {
        let ghost v0 = self@;
        proof {
            snapshots_keys(self.channels.closed_channels.records());
            lemma_best_index(self.channels.closed_channels.records(), u64::MAX);
        }
        let mut closed_list: Vec<SimChannel> = match self.channels.closed_channels.latest() {
            Some(v) => clone_channels(v),
            None => Vec::new(),
        };
        closed_list.push(channel.clone());
        self.channels.closed_channels.record(time, closed_list);
        proof {
            snapshots_keys(self.channels.open_channels.records());
            lemma_best_index(self.channels.open_channels.records(), u64::MAX);
        }
        if self.channels.open_channels.len() > 0 {
            let open_list: Vec<SimChannel> = match self.channels.open_channels.latest() {
                Some(v) => filter_out_id(v, channel.id),
                None => Vec::new(),
            };
            self.channels.open_channels.record(time, open_list);
        }
        proof {
            let expect = Self::spec_close_channel_updated(v0, time, *channel);
            assert(self@.open_channels =~= expect.open_channels);
            assert(self@.closed_channels =~= expect.closed_channels);
            assert(self@ =~= expect);
        }
    }

    /// Append a failed result event.
    pub fn push_failed(&mut self, event: &SimResultsEvent)
        ensures
            final(self)@ == (SimResultsView {
                failed_events: old(self)@.failed_events.push(event@),
                ..old(self)@
            }),
    {
        let ghost v0 = self@;
        self.failed_events.push(event.clone());
        proof {
            assert(self@ =~= (SimResultsView {
                failed_events: v0.failed_events.push(event@),
                ..v0
            }));
        }
    }

    /// Append a transaction issued at the given time.
    pub fn push_transaction(&mut self, time: u64, tx: &SimTransaction)
        ensures
            final(self)@ == (SimResultsView {
                txs: old(self)@.txs.push(Tx { time, transaction: *tx }),
                ..old(self)@
            }),
    {
        let ghost v0 = self@;
        self.transactions.txs.push(Tx { time, transaction: tx.clone() });
        proof {
            assert(self@ =~= (SimResultsView {
                txs: v0.txs.push(Tx { time, transaction: *tx }),
                ..v0
            }));
        }
    }

    /// Note that an event was observed at a simulated time.
    pub fn note_event_time(&mut self, time: u64)
        ensures
            final(self)@ == (SimResultsView {
                event_times: if old(self)@.event_times.contains(time) {
                    old(self)@.event_times
                } else {
                    old(self)@.event_times.push(time)
                },
                ..old(self)@
            }),
    {
        let ghost v0 = self@;
        let found = vec_contains_u64(&self.event_times, time);
        if !found {
            self.event_times.push(time);
        }
        proof {
            assert(self@ =~= (SimResultsView {
                event_times: if v0.event_times.contains(time) {
                    v0.event_times
                } else {
                    v0.event_times.push(time)
                },
                ..v0
            }));
        }
    }

    /// Set the status of every transaction carrying the payment id, and hand
    /// back the last of them, as updated, with its issue time.
    pub fn set_transaction_status(&mut self, id: &String, status: SimTransactionStatus) -> (r:
        Option<Tx>)
        ensures
            final(self)@ == (SimResultsView {
                txs: spec_mark_txs(old(self)@.txs, id@, status),
                ..old(self)@
            }),
            ({
                let j = spec_last_match(old(self)@.txs, id@);
                match r {
                    Some(t) => j >= 0 && t == spec_with_status(old(self)@.txs[j], status),
                    None => j == -1,
                }
            }),
    {
        let ghost v0 = self@;
        let ghost all = self.transactions.txs@;
        let mut last_idx: Option<usize> = None;
        let mut i: usize = 0;
        while i < self.transactions.txs.len()
            invariant
                i <= self.transactions.txs.len(),
                self.transactions.txs@.len() == all.len(),
                self@ == (SimResultsView { txs: self.transactions.txs@, ..v0 }),
                v0.txs == all,
                forall|k: int|
                    0 <= k < i ==> (#[trigger] self.transactions.txs@[k]) == (if tx_id_matches(
                        all[k],
                        id@,
                    ) {
                        spec_with_status(all[k], status)
                    } else {
                        all[k]
                    }),
                forall|k: int| i <= k < all.len() ==> (#[trigger] self.transactions.txs@[k]) == all[k],
                match last_idx {
                    Some(j) => j < i && spec_last_match(all.take(i as int), id@) == j
                        && tx_id_matches(all[j as int], id@),
                    None => spec_last_match(all.take(i as int), id@) == -1,
                },
            decreases self.transactions.txs.len() - i,
        {
            proof {
                assert(all.take(i + 1).drop_last() =~= all.take(i as int));
                assert(all.take(i + 1).last() == all[i as int]);
            }
            let matched = match &self.transactions.txs[i].transaction.id {
                Some(s) => string_eq(s, id),
                None => false,
            };
            if matched {
                let t = &self.transactions.txs[i];
                let nt = Tx {
                    time: t.time,
                    transaction: SimTransaction {
                        id: t.transaction.id.clone(),
                        src_node: t.transaction.src_node.clone(),
                        dest_node: t.transaction.dest_node.clone(),
                        amount_sats: t.transaction.amount_sats,
                        status,
                    },
                };
                proof {
                    assert(nt == spec_with_status(all[i as int], status));
                }
                self.transactions.txs.set(i, nt);
                last_idx = Some(i);
                proof {
                    assert(self@ =~= (SimResultsView { txs: self.transactions.txs@, ..v0 }));
                }
            }
            i += 1;
        }
        proof {
            assert(all.take(all.len() as int) =~= all);
            assert(self.transactions.txs@ =~= spec_mark_txs(all, id@, status));
            assert(self@ =~= (SimResultsView { txs: spec_mark_txs(v0.txs, id@, status), ..v0 }));
        }
        match last_idx {
            Some(j) => {
                let t = &self.transactions.txs[j];
                proof {
                    assert(self.transactions.txs@[j as int] == spec_with_status(
                        all[j as int],
                        status,
                    ));
                }
                Some(t.clone())
            },
            None => None,
        }
    }

    /// Make a node known to the ledger.
    pub fn register_node(&mut self, name: &String)
        ensures
            final(self)@ == (SimResultsView { nodes: old(self)@.nodes.push(*name), ..old(self)@ }),
    {
        let ghost v0 = self@;
        self.nodes.push(name.clone());
        proof {
            assert(self@ =~= (SimResultsView { nodes: v0.nodes.push(*name), ..v0 }));
        }
    }

    /// Record a node's absolute on-chain balance at a time.
    pub fn record_on_chain_value(&mut self, time: u64, node: &String, value: u64)
        ensures
            final(self)@ == (SimResultsView {
                on_chain: old(self)@.on_chain.push(BalanceRecord { node: *node, time, value }),
                ..old(self)@
            }),
    {
        let ghost v0 = self@;
        self.balance.on_chain.push(BalanceRecord { node: node.clone(), time, value });
        proof {
            assert(self@ =~= (SimResultsView {
                on_chain: v0.on_chain.push(BalanceRecord { node: *node, time, value }),
                ..v0
            }));
        }
    }

    /// Record a node's absolute off-chain balance at a time.
    pub fn record_off_chain_value(&mut self, time: u64, node: &String, value: u64)
        ensures
            final(self)@ == (SimResultsView {
                off_chain: old(self)@.off_chain.push(BalanceRecord { node: *node, time, value }),
                ..old(self)@
            }),
    {
        let ghost v0 = self@;
        self.balance.off_chain.push(BalanceRecord { node: node.clone(), time, value });
        proof {
            assert(self@ =~= (SimResultsView {
                off_chain: v0.off_chain.push(BalanceRecord { node: *node, time, value }),
                ..v0
            }));
        }
    }

    /// Record whether a node was running at a time, unconditionally.
    pub fn record_status_value(&mut self, time: u64, node: &String, running: bool)
        ensures
            final(self)@ == (SimResultsView {
                status: old(self)@.status.push(StatusRecord { node: *node, time, running }),
                ..old(self)@
            }),
    {
        let ghost v0 = self@;
        self.status.nodes.push(StatusRecord { node: node.clone(), time, running });
        proof {
            assert(self@ =~= (SimResultsView {
                status: v0.status.push(StatusRecord { node: *node, time, running }),
                ..v0
            }));
        }
    }

    /// A copy of the latest open-channel snapshot, if any was recorded.
    pub fn latest_open_snapshot(&self) -> (r: Option<Vec<SimChannel>>)
        ensures
            match r {
                Some(v) => value_at(self@.open_channels, u64::MAX) == Some(v@),
                None => value_at(self@.open_channels, u64::MAX) is None,
            },
    {
        proof {
            snapshots_keys(self.channels.open_channels.records());
            lemma_best_index(self.channels.open_channels.records(), u64::MAX);
        }
        match self.channels.open_channels.latest() {
            Some(v) => Some(clone_channels(v)),
            None => None,
        }
    }

    /// The latest closed-channel snapshot with its recorded time, or time 0
    /// and the empty snapshot before any record.
    pub fn latest_closed_entry(&self) -> (r: (u64, Vec<SimChannel>))
        ensures
            ({
                let snaps = self@.closed_channels;
                if snaps.len() == 0 {
                    r.0 == 0 && r.1@ =~= Seq::<SimChannel>::empty()
                } else {
                    let j = best_index(snaps, u64::MAX);
                    j >= 0 && r.0 == snaps[j].0 && r.1@ == snaps[j].1
                }
            }),
    {
        proof {
            snapshots_keys(self.channels.closed_channels.records());
            lemma_best_index(self.channels.closed_channels.records(), u64::MAX);
        }
        match self.channels.closed_channels.query_entry(u64::MAX) {
            Some(e) => (e.0, clone_channels(&e.1)),
            None => (0, Vec::new()),
        }
    }

    /// Record an open-channel snapshot at a time.
    pub fn record_open_snapshot(&mut self, time: u64, snapshot: Vec<SimChannel>)
        ensures
            final(self)@ == (SimResultsView {
                open_channels: old(self)@.open_channels.push((time, snapshot@)),
                ..old(self)@
            }),
    {
        let ghost v0 = self@;
        let ghost snap = snapshot@;
        self.channels.open_channels.record(time, snapshot);
        proof {
            assert(self@ =~= (SimResultsView {
                open_channels: v0.open_channels.push((time, snap)),
                ..v0
            }));
        }
    }

    /// The issue time of the first transaction carrying the payment id.
    pub fn find_transaction_time(&self, id: &String) -> (r: Option<u64>)
        ensures
            ({
                let j = spec_first_match(self@.txs, id@);
                match r {
                    Some(t) => j >= 0 && t == self@.txs[j].time,
                    None => j == -1,
                }
            }),
    {
        let ghost all = self.transactions.txs@;
        let mut i: usize = 0;
        while i < self.transactions.txs.len()
            invariant
                i <= self.transactions.txs.len(),
                all == self.transactions.txs@,
                spec_first_match(all.take(i as int), id@) == -1,
            decreases self.transactions.txs.len() - i,
        {
            proof {
                assert(all.take(i + 1).drop_last() =~= all.take(i as int));
                assert(all.take(i + 1).last() == all[i as int]);
            }
            let matched = match &self.transactions.txs[i].transaction.id {
                Some(s) => string_eq(s, id),
                None => false,
            };
            if matched {
                proof {
                    first_match_found(all, id@, i as int);
                }
                return Some(self.transactions.txs[i].time);
            }
            i += 1;
        }
        proof {
            assert(all.take(all.len() as int) =~= all);
        }
        None
    }
}

/// Remove every channel with the given id from a snapshot.
fn filter_out_id(v: &Vec<SimChannel>, id: u64) -> (r: Vec<SimChannel>)
    ensures
        r@ == v@.filter(|c: SimChannel| c.id != id),
{
    let ghost pred = |c: SimChannel| c.id != id;
    let mut out: Vec<SimChannel> = Vec::new();
    let mut i: usize = 0;
    while i < v.len()
        invariant
            i <= v.len(),
            pred == (|c: SimChannel| c.id != id),
            out@ == v@.take(i as int).filter(pred),
        decreases v.len() - i,
    {
        proof {
            assert(v@.take(i + 1).drop_last() =~= v@.take(i as int));
            assert(v@.take(i + 1).last() == v@[i as int]);
            reveal(Seq::filter);
        }
        if v[i].id != id {
            out.push(v[i].clone());
        }
        i += 1;
    }
    proof {
        assert(v@.take(v@.len() as int) =~= v@);
    }
    out
}

/// If the prefix before `i` holds no match and `txs[i]` matches, `i` is the
/// first match.
proof fn first_match_found(txs: Seq<Tx>, id: Seq<char>, i: int)
    requires
        0 <= i < txs.len(),
        spec_first_match(txs.take(i), id) == -1,
        tx_id_matches(txs[i], id),
    ensures
        spec_first_match(txs, id) == i,
    decreases txs.len(),
{
    if txs.len() - 1 > i {
        assert(txs.drop_last().take(i) =~= txs.take(i));
        first_match_found(txs.drop_last(), id, i);
        assert(txs.drop_last()[i] == txs[i]);
    } else {
        assert(txs.take(i) =~= txs.drop_last());
    }
}

/// Whether a vector holds a value.
pub fn vec_contains_u64(v: &Vec<u64>, x: u64) -> (r: bool)
    ensures
        r == v@.contains(x),
{
    let mut i: usize = 0;
    while i < v.len()
        invariant
            i <= v.len(),
            forall|j: int| 0 <= j < i ==> (#[trigger] v@[j]) != x,
        decreases v.len() - i,
    {
        if v[i] == x {
            return true;
        }
        i += 1;
    }
    false
}

/// String equality by content.
pub fn string_eq(a: &String, b: &String) -> (r: bool)
    ensures
        r == (a@ == b@),
{
    a.eq(b)
}

/// Copy a transaction list element by element.
pub fn clone_txs(v: &Vec<Tx>) -> (r: Vec<Tx>)
    ensures
        r@ =~= v@,
{
    let mut r: Vec<Tx> = Vec::new();
    let mut i: usize = 0;
    while i < v.len()
        invariant
            i <= v.len(),
            r@ =~= v@.take(i as int),
        decreases v.len() - i,
    {
        r.push(v[i].clone());
        proof {
            assert(v@.take(i + 1).drop_last() =~= v@.take(i as int));
            assert(r@.drop_last() =~= v@.take(i as int));
        }
        i += 1;
    }
    proof {
        assert(v@.take(v.len() as int) =~= v@);
    }
    r
}

/// Copy a channel list element by element.
pub fn clone_channels(v: &Vec<SimChannel>) -> (r: Vec<SimChannel>)
    ensures
        r@ =~= v@,
{
    let mut r: Vec<SimChannel> = Vec::new();
    let mut i: usize = 0;
    while i < v.len()
        invariant
            i <= v.len(),
            r@ =~= v@.take(i as int),
        decreases v.len() - i,
    {
        r.push(v[i].clone());
        proof {
            assert(v@.take(i + 1).drop_last() =~= v@.take(i as int));
            assert(r@.drop_last() =~= v@.take(i as int));
        }
        i += 1;
    }
    proof {
        assert(v@.take(v.len() as int) =~= v@);
    }
    r
}

impl Clone for Tx {
    /// Cloning yields a transaction record equal to the original.
    fn clone(&self) -> (r: Self)
        ensures
            r == *self,
    {
        Tx { time: self.time, transaction: self.transaction.clone() }
    }
}

/// The snapshot view has the same keys as the records it was taken from.
pub proof fn snapshots_keys(recs: Seq<(u64, Vec<SimChannel>)>)
    ensures
        forall|t: u64| #[trigger]
            best_index(snapshots_view(recs), t) == best_index(recs, t),
        snapshots_view(recs).len() == recs.len(),
        forall|i: int|
            0 <= i < recs.len() ==> (#[trigger] snapshots_view(recs)[i]) == (
            recs[i].0,
            recs[i].1@,
            ),
{
    assert forall|t: u64| #[trigger]
        best_index(snapshots_view(recs), t) == best_index(recs, t) by {
        crate::timeline::lemma_best_index_same_keys(snapshots_view(recs), recs, t);
    }
}

/// A point query over one node's status records: the status recorded at the
/// greatest time `<= t`.
fn status_query(recs: &Vec<StatusRecord>, node: &String, time: u64) -> (r: Option<bool>)
    ensures
        r == value_at(status_series(recs@, node@), time),
{
    let ghost all = recs@;
    let mut best: Option<(u64, bool)> = None;
    let mut i: usize = 0;
    while i < recs.len()
        invariant
            i <= recs.len(),
            all == recs@,
            ({
                let s = status_series(all.take(i as int), node@);
                match best {
                    None => best_index(s, time) == -1,
                    Some(b) => {
                        let j = best_index(s, time);
                        j >= 0 && s[j] == b
                    },
                }
            }),
        decreases recs.len() - i,
    {
        proof {
            assert(all.take(i + 1).drop_last() =~= all.take(i as int));
            assert(all.take(i + 1).last() == all[i as int]);
        }
        let ghost s0 = status_series(all.take(i as int), node@);
        let ghost s1 = status_series(all.take(i + 1), node@);
        let rec = &recs[i];
        if string_eq(&rec.node, node) {
            let e = (rec.time, rec.running);
            proof {
                assert(s1 == s0.push(e));
                lemma_best_index(s0, time);
                lemma_best_index_push(s0, e, time);
            }
            if e.0 <= time {
                best = match best {
                    None => Some(e),
                    Some(b) => if e.0 >= b.0 {
                        Some(e)
                    } else {
                        Some(b)
                    },
                };
            }
        } else {
            proof {
                assert(s1 == s0);
            }
        }
        i += 1;
    }
    proof {
        assert(all.take(all.len() as int) =~= all);
    }
    match best {
        Some(b) => Some(b.1),
        None => None,
    }
}

/// A point query over one node's balance records: the value recorded at the
/// greatest time `<= t`.
fn balance_query(recs: &Vec<BalanceRecord>, node: &String, time: u64) -> (r: Option<u64>)
    ensures
        r == value_at(balance_series(recs@, node@), time),
{
    let ghost all = recs@;
    let mut best: Option<(u64, u64)> = None;
    let mut i: usize = 0;
    while i < recs.len()
        invariant
            i <= recs.len(),
            all == recs@,
            ({
                let s = balance_series(all.take(i as int), node@);
                match best {
                    None => best_index(s, time) == -1,
                    Some(b) => {
                        let j = best_index(s, time);
                        j >= 0 && s[j] == b
                    },
                }
            }),
        decreases recs.len() - i,
    {
        proof {
            assert(all.take(i + 1).drop_last() =~= all.take(i as int));
            assert(all.take(i + 1).last() == all[i as int]);
        }
        let ghost s0 = balance_series(all.take(i as int), node@);
        let ghost s1 = balance_series(all.take(i + 1), node@);
        let rec = &recs[i];
        if string_eq(&rec.node, node) {
            let e = (rec.time, rec.value);
            proof {
                assert(s1 == s0.push(e));
                lemma_best_index(s0, time);
                lemma_best_index_push(s0, e, time);
            }
            if e.0 <= time {
                best = match best {
                    None => Some(e),
                    Some(b) => if e.0 >= b.0 {
                        Some(e)
                    } else {
                        Some(b)
                    },
                };
            }
        } else {
            proof {
                assert(s1 == s0);
            }
        }
        i += 1;
    }
    proof {
        assert(all.take(all.len() as int) =~= all);
    }
    match best {
        Some(b) => Some(b.1),
        None => None,
    }
}

} // verus!
