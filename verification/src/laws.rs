//! What the ledger guarantees, proved once and for all.
//!
//! Each proof function here states a property of the results engine over
//! the spec functions that its operations are contracted against.

use vstd::prelude::*;
use crate::network_analyzer::{
    AnalyzerAction, NetworkAnalyzerView, contains_string, credit_hops, spec_note_time,
};
use crate::sim_channel::SimChannel;
use crate::sim_event::{PathHop, SimResultsEventView, SimulationEventView};
use crate::sim_results::{
    SimResults, SimResultsView, Tx, spec_mark_txs, tx_id_matches, spec_with_status, latest_snapshot,
};
use crate::sim_transaction::{SimTransactionStatus, status_can_follow};
use crate::timeline::{best_index, lemma_best_index, lemma_best_index_push, value_at};
use crate::network_analyzer::PubKeyEntry;

verus! {

/// The ledger `b` extends the ledger `a`: every per-entity table of `a` is
/// a prefix of the corresponding table of `b`, and the transactions of `a`
/// are still there, in place, with their issue times; only their statuses
/// may differ. Recorded times, once present, are never removed or moved.
pub open spec fn ledger_extends(a: SimResultsView, b: SimResultsView) -> bool {
    &&& a.nodes.is_prefix_of(b.nodes)
    &&& a.on_chain.is_prefix_of(b.on_chain)
    &&& a.off_chain.is_prefix_of(b.off_chain)
    &&& a.status.is_prefix_of(b.status)
    &&& a.open_channels.is_prefix_of(b.open_channels)
    &&& a.closed_channels.is_prefix_of(b.closed_channels)
    &&& a.event_times.is_prefix_of(b.event_times)
    &&& a.failed_events.is_prefix_of(b.failed_events)
    &&& a.txs.len() <= b.txs.len()
    &&& forall|i: int|
        0 <= i < a.txs.len() ==> (#[trigger] b.txs[i]).time == a.txs[i].time && b.txs[i].transaction.id
            == a.txs[i].transaction.id && b.txs[i].transaction.src_node
            == a.txs[i].transaction.src_node && b.txs[i].transaction.dest_node
            == a.txs[i].transaction.dest_node && b.txs[i].transaction.amount_sats
            == a.txs[i].transaction.amount_sats
}

/// Extension is transitive.
proof fn lemma_extends_trans(a: SimResultsView, b: SimResultsView, c: SimResultsView)
    requires
        ledger_extends(a, b),
        ledger_extends(b, c),
    ensures
        ledger_extends(a, c),
{
}

/// Crediting hop nodes only appends to the ledger.
proof fn lemma_credit_hops_extends(
    rv: SimResultsView,
    hops: Seq<PathHop>,
    pk: Seq<PubKeyEntry>,
    time: u64,
)
    ensures
        ledger_extends(rv, credit_hops(rv, hops, pk, time)),
    decreases hops.len(),
{
    if hops.len() > 0 {
        lemma_credit_hops_extends(rv, hops.drop_last(), pk, time);
        let prev = credit_hops(rv, hops.drop_last(), pk, time);
        lemma_extends_trans(rv, prev, credit_hops(rv, hops, pk, time));
    }
}

/// Crediting hop nodes touches only balances: the transactions are left
/// exactly as they were.
proof fn lemma_credit_hops_keeps_txs(
    rv: SimResultsView,
    hops: Seq<PathHop>,
    pk: Seq<PubKeyEntry>,
    time: u64,
)
    ensures
        credit_hops(rv, hops, pk, time).txs == rv.txs,
    decreases hops.len(),
{
    if hops.len() > 0 {
        lemma_credit_hops_keeps_txs(rv, hops.drop_last(), pk, time);
    }
}

/// Ledger monotonicity: processing a result event only ever appends to the
/// ledger. For any entity, the set of times with a recorded value can only
/// grow from one state to the next; a value recorded at a time is never
/// overwritten or removed, so a point query at a past time keeps its
/// answer's place in the table.
pub proof fn lemma_step_appends_only(v: NetworkAnalyzerView, e: SimResultsEventView)
    ensures
        ledger_extends(v.results, v.spec_step(e).0.results),
{
    let rv = spec_note_time(v.results, e.sim_time);
    assert(ledger_extends(v.results, rv));
    let out = v.spec_step(e).0.results;
    match e.event {
        SimulationEventView::PaymentPathSuccessful(path) => {
            let hops = path.hops;
            if hops.len() > 0 {
                let payment = hops.last().amount;
                let j = crate::sim_results::spec_first_match(rv.txs, path.payment_id@);
                if j >= 0 {
                    let t0 = rv.txs[j].time;
                    let prev = latest_snapshot(rv.open_channels);
                    if crate::network_analyzer::path_fits(prev, hops, v.pub_key_map, payment) {
                        let ra = SimResultsView {
                            open_channels: rv.open_channels.push(
                                (
                                    t0,
                                    crate::network_analyzer::apply_path(
                                        prev,
                                        hops,
                                        v.pub_key_map,
                                        payment,
                                    ),
                                ),
                            ),
                            ..rv
                        };
                        assert(ledger_extends(rv, ra));
                        lemma_credit_hops_extends(ra, hops, v.pub_key_map, t0);
                        lemma_extends_trans(v.results, ra, out);
                    }
                }
            }
        },
        _ => {},
    }
}

/// Settling the open fee of a channel only appends to the ledger.
pub proof fn lemma_open_fee_appends_only(
    v: NetworkAnalyzerView,
    c: SimChannel,
    time: u64,
    fee: u64,
)
    ensures
        ledger_extends(v.results, v.spec_open_fee_applied(c, time, fee).results),
{
}

/// Settling the closing fees of a channel only appends to the ledger.
pub proof fn lemma_closing_fees_append_only(
    v: NetworkAnalyzerView,
    c: SimChannel,
    time: u64,
    src_fee: u64,
    dest_fee: u64,
)
    ensures
        ledger_extends(v.results, v.spec_closing_fees_applied(c, time, src_fee, dest_fee).results),
{
}

/// Whether an event does not contradict an outcome the ledger already
/// holds: a payment-failed event for a payment already successful, or a
/// payment-success event for one already failed, is a second, conflicting
/// outcome for the same payment.
pub open spec fn no_conflicting_outcome(txs: Seq<Tx>, e: SimResultsEventView) -> bool {
    match e.event {
        SimulationEventView::PaymentFailedEvent(id) => forall|i: int|
            0 <= i < txs.len() && tx_id_matches(#[trigger] txs[i], id@) ==> txs[i].transaction.status
                != SimTransactionStatus::SUCCESSFUL,
        SimulationEventView::PaymentSuccessEvent(id, _) => forall|i: int|
            0 <= i < txs.len() && tx_id_matches(#[trigger] txs[i], id@) ==> txs[i].transaction.status
                != SimTransactionStatus::FAILED,
        _ => true,
    }
}

/// Transaction status monotonicity: as long as no event asserts a second,
/// conflicting outcome for a payment, every transaction's status only
/// advances along `NONE -> PENDING -> SUCCESSFUL | FAILED` from one state
/// to the next, and never reverts.
pub proof fn lemma_step_statuses_advance(v: NetworkAnalyzerView, e: SimResultsEventView)
    requires
        no_conflicting_outcome(v.results.txs, e),
    ensures
        ({
            let out = v.spec_step(e).0.results;
            &&& out.txs.len() >= v.results.txs.len()
            &&& forall|i: int|
                0 <= i < v.results.txs.len() ==> status_can_follow(
                    (#[trigger] v.results.txs[i]).transaction.status,
                    out.txs[i].transaction.status,
                )
        }),
{
    let out = v.spec_step(e).0.results;
    match e.event {
        SimulationEventView::PaymentFailedEvent(id) => {
            assert forall|i: int| 0 <= i < v.results.txs.len() implies status_can_follow(
                (#[trigger] v.results.txs[i]).transaction.status,
                out.txs[i].transaction.status,
            ) by {
                assert(out.txs[i] == if tx_id_matches(v.results.txs[i], id@) {
                    spec_with_status(v.results.txs[i], SimTransactionStatus::FAILED)
                } else {
                    v.results.txs[i]
                });
            }
        },
        SimulationEventView::PaymentSuccessEvent(id, _) => {
            assert forall|i: int| 0 <= i < v.results.txs.len() implies status_can_follow(
                (#[trigger] v.results.txs[i]).transaction.status,
                out.txs[i].transaction.status,
            ) by {
                let marked = spec_mark_txs(v.results.txs, id@, SimTransactionStatus::SUCCESSFUL);
                assert(marked[i] == if tx_id_matches(v.results.txs[i], id@) {
                    spec_with_status(v.results.txs[i], SimTransactionStatus::SUCCESSFUL)
                } else {
                    v.results.txs[i]
                });
                assert(out.txs[i] == marked[i]);
            }
        },
        SimulationEventView::PaymentPathSuccessful(path) => {
            let rv = spec_note_time(v.results, e.sim_time);
            let hops = path.hops;
            if hops.len() > 0 {
                let payment = hops.last().amount;
                let j = crate::sim_results::spec_first_match(rv.txs, path.payment_id@);
                if j >= 0 {
                    let t0 = rv.txs[j].time;
                    let prev = latest_snapshot(rv.open_channels);
                    if crate::network_analyzer::path_fits(prev, hops, v.pub_key_map, payment) {
                        let ra = SimResultsView {
                            open_channels: rv.open_channels.push(
                                (
                                    t0,
                                    crate::network_analyzer::apply_path(
                                        prev,
                                        hops,
                                        v.pub_key_map,
                                        payment,
                                    ),
                                ),
                            ),
                            ..rv
                        };
                        lemma_credit_hops_keeps_txs(ra, hops, v.pub_key_map, t0);
                    }
                }
            }
        },
        _ => {},
    }
}

/// Idempotent settlement: delivering the same channel-close confirmation a
/// second time changes nothing. The first delivery records the backend id
/// as finalized, so the second finds it there and leaves the ledger, the
/// correlation table and the finalized set exactly as they were; in
/// particular the balance debits happen only once, and no second settlement
/// is asked of the caller.
pub proof fn lemma_settlement_idempotent(v: NetworkAnalyzerView, e: SimResultsEventView)
    requires
        e.event is CloseChannelSuccessEvent,
    ensures
        ({
            let s1 = v.spec_step(e).0;
            &&& s1.spec_step(e).0 == s1
            &&& (v.spec_step(e).1 is AwaitClosingFees ==> s1.spec_step(e).1
                == AnalyzerAction::Continue)
        }),
{
    let s1 = v.spec_step(e).0;
    let id = e.event->CloseChannelSuccessEvent_0;
    match e.sim_time {
        Some(t) => {
            assert(s1.results.event_times.contains(t)) by {
                if !v.results.event_times.contains(t) {
                    assert(s1.results.event_times == spec_note_time(
                        v.results,
                        e.sim_time,
                    ).event_times || s1.results.event_times == v.results.event_times.push(t));
                    assert(v.results.event_times.push(t)[v.results.event_times.len() as int] == t);
                }
            }
        },
        None => {},
    }
    assert(spec_note_time(s1.results, e.sim_time) == s1.results) by {
        match e.sim_time {
            Some(t) => {
                assert(spec_note_time(s1.results, e.sim_time) =~= s1.results);
            },
            None => {},
        }
    }
    if contains_string(v.finalized, id@) {
        assert(s1.finalized == v.finalized);
        assert(s1.spec_step(e).0 =~= s1);
    } else {
        if v.spec_step(e).1 is AwaitClosingFees {
            assert(s1.finalized == v.finalized.push(id));
            assert(contains_string(s1.finalized, id@)) by {
                assert(s1.finalized[v.finalized.len() as int] == id);
            }
            assert(s1.spec_step(e).0 =~= s1);
        } else {
            assert(s1.finalized == v.finalized);
            assert(s1.results.closed_channels == v.results.closed_channels);
            assert(s1.spec_step(e).0 =~= s1);
        }
    }
}

/// Point query correctness: a channel opened at `t_o` and closed at
/// `t_c >= t_o`, with no later snapshot recorded in between, is in the
/// open-channel set for every time from `t_o` up to but not including
/// `t_c`; from `t_c` on no channel of its id is in the open set, and the
/// channel is in the closed set.
pub proof fn lemma_point_query_open_close(
    r0: SimResultsView,
    c: SimChannel,
    t_o: u64,
    t_c: u64,
    t: u64,
)
    requires
        forall|i: int| 0 <= i < r0.open_channels.len() ==> (#[trigger] r0.open_channels[i]).0 <= t_o,
        forall|i: int|
            0 <= i < r0.closed_channels.len() ==> (#[trigger] r0.closed_channels[i]).0 <= t_c,
        t_o <= t_c,
    ensures
        ({
            let r1 = SimResults::spec_open_channel_updated(r0, t_o, c);
            let r2 = SimResults::spec_close_channel_updated(r1, t_c, c);
            &&& (t_o <= t < t_c ==> {
                &&& value_at(r2.open_channels, t) is Some
                &&& value_at(r2.open_channels, t).unwrap().contains(c)
            })
            &&& (t >= t_c ==> {
                &&& value_at(r2.open_channels, t) is Some
                &&& forall|k: int|
                    0 <= k < value_at(r2.open_channels, t).unwrap().len() ==> (#[trigger] value_at(
                        r2.open_channels,
                        t,
                    ).unwrap()[k]).id != c.id
            })
            &&& (t >= t_c ==> {
                &&& value_at(r2.closed_channels, t) is Some
                &&& value_at(r2.closed_channels, t).unwrap().contains(c)
            })
        }),
{
    let r1 = SimResults::spec_open_channel_updated(r0, t_o, c);
    let r2 = SimResults::spec_close_channel_updated(r1, t_c, c);
    let snap_open = latest_snapshot(r0.open_channels).push(c);
    lemma_best_index(r0.open_channels, u64::MAX);
    lemma_best_index(r0.open_channels, t);
    lemma_best_index_push(r0.open_channels, (t_o, snap_open), t);
    assert(r1.open_channels == r0.open_channels.push((t_o, snap_open)));
    // the record at t_o is the latest of r1
    lemma_best_index(r0.open_channels, u64::MAX);
    lemma_best_index_push(r0.open_channels, (t_o, snap_open), u64::MAX);
    assert(value_at(r1.open_channels, u64::MAX) == Some(snap_open));
    assert(latest_snapshot(r1.open_channels) == snap_open);
    let pred = |x: SimChannel| x.id != c.id;
    let closed_snap = snap_open.filter(pred);
    assert(r2.open_channels == r1.open_channels.push((t_c, closed_snap)));
    lemma_best_index(r1.open_channels, t);
    lemma_best_index_push(r1.open_channels, (t_c, closed_snap), t);
    if t_o <= t && t < t_c {
        // the close record is invisible at t; the open record answers
        assert(best_index(r1.open_channels, t) == r0.open_channels.len());
        assert(value_at(r2.open_channels, t) == Some(snap_open));
        assert(snap_open[snap_open.len() - 1] == c);
        assert(snap_open.contains(c));
    }
    if t >= t_c {
        // the close record answers; nothing of the channel's id survives
        if best_index(r1.open_channels, t) >= 0 {
            assert(r1.open_channels[best_index(r1.open_channels, t)].0 <= t_c);
        }
        assert(best_index(r2.open_channels, t) == r1.open_channels.len());
        assert(value_at(r2.open_channels, t) == Some(closed_snap));
        assert forall|k: int| 0 <= k < closed_snap.len() implies (#[trigger] closed_snap[k]).id
            != c.id by {
            snap_open.lemma_filter_pred(pred, k);
        }
        // the closed set gains the channel at t_c and answers from then on
        let snap_closed = latest_snapshot(r0.closed_channels).push(c);
        assert(r1.closed_channels == r0.closed_channels);
        assert(r2.closed_channels == r0.closed_channels.push((t_c, snap_closed)));
        lemma_best_index(r0.closed_channels, t);
        lemma_best_index_push(r0.closed_channels, (t_c, snap_closed), t);
        assert(best_index(r2.closed_channels, t) == r0.closed_channels.len());
        assert(value_at(r2.closed_channels, t) == Some(snap_closed));
        assert(snap_closed[snap_closed.len() - 1] == c);
        assert(snap_closed.contains(c));
    }
}

} // verus!
