//! The backend controller's decision core.
//!
//! The controller consumes scheduled actions, realises each against the
//! backend, and republishes the outcome as a result event. The backend calls
//! themselves are outside work owned by the runtime; everything the
//! controller decides — what to ask of the backend, how to correlate
//! identifiers, and which result event each outcome yields — is computed and
//! proved here.

use vstd::prelude::*;
use vstd::pervasive::VecAdditionalExecFns;
use crate::sim_channel::SimChannel;
use crate::sim_event::{SimEvent, SimResultsEvent, SimResultsEventView, SimulationEvent};
use crate::sim_node_status::SimNodeChannel;
use crate::sim_results::string_eq;
use crate::sim_transaction::{SimTransaction, SimTransactionStatus};

verus! {

/// One correlation between a simulation channel id and the backend's id for
/// the same channel.
pub struct IdPair {
    pub sim_id: u64,
    pub backend_id: String,
}

/// The bidirectional correlation table `sim_channel_id <-> backend_channel_id`,
/// built incrementally as channels open and read-only thereafter.
pub struct ChannelIdMap {
    pairs: Vec<IdPair>,
}

/// The index of the first pair with the given simulation id, or -1.
pub open spec fn pair_by_sim(pairs: Seq<IdPair>, sim_id: u64) -> int
    decreases pairs.len(),
{
    if pairs.len() == 0 {
        -1
    } else {
        let rest = pair_by_sim(pairs.drop_last(), sim_id);
        if rest >= 0 {
            rest
        } else if pairs.last().sim_id == sim_id {
            pairs.len() - 1
        } else {
            -1
        }
    }
}

/// The index of the first pair with the given backend id, or -1.
pub open spec fn pair_by_backend(pairs: Seq<IdPair>, backend_id: Seq<char>) -> int
    decreases pairs.len(),
{
    if pairs.len() == 0 {
        -1
    } else {
        let rest = pair_by_backend(pairs.drop_last(), backend_id);
        if rest >= 0 {
            rest
        } else if pairs.last().backend_id@ == backend_id {
            pairs.len() - 1
        } else {
            -1
        }
    }
}

impl ChannelIdMap {
    /// The recorded pairs, in insertion order.
    pub closed spec fn pairs(self) -> Seq<IdPair> {
        self.pairs@
    }

    pub fn new() -> (r: Self)
        ensures
            r.pairs() =~= Seq::<IdPair>::empty(),
    {
        ChannelIdMap { pairs: Vec::new() }
    }

    /// Record that the backend knows the simulation channel under this id;
    /// a second insertion for the same simulation id replaces the first.
    pub fn insert(&mut self, sim_id: u64, backend_id: String)
        ensures
            final(self).pairs() == ({
                let j = pair_by_sim(old(self).pairs(), sim_id);
                if j < 0 {
                    old(self).pairs().push(IdPair { sim_id, backend_id })
                } else {
                    old(self).pairs().update(j, IdPair { sim_id, backend_id })
                }
            }),
    {
        let ghost all = self.pairs@;
        let mut i: usize = 0;
        while i < self.pairs.len()
            invariant
                i <= self.pairs.len(),
                all == self.pairs@,
                all == old(self).pairs@,
                pair_by_sim(all.take(i as int), sim_id) == -1,
            decreases self.pairs.len() - i,
        {
            proof {
                assert(all.take(i + 1).drop_last() =~= all.take(i as int));
                assert(all.take(i + 1).last() == all[i as int]);
            }
            if self.pairs[i].sim_id == sim_id {
                proof {
                    pair_by_sim_found(all, sim_id, i as int);
                }
                self.pairs.set(i, IdPair { sim_id, backend_id });
                return ;
            }
            i += 1;
        }
        proof {
            assert(all.take(all.len() as int) =~= all);
        }
        self.pairs.push(IdPair { sim_id, backend_id });
    }

    /// The backend id recorded for a simulation channel id.
    pub fn get_backend_id(&self, sim_id: u64) -> (r: Option<String>)
        ensures
            ({
                let j = pair_by_sim(self.pairs(), sim_id);
                match r {
                    Some(id) => j >= 0 && id == self.pairs()[j].backend_id,
                    None => j == -1,
                }
            }),
    {
        let ghost all = self.pairs@;
        let mut i: usize = 0;
        while i < self.pairs.len()
            invariant
                i <= self.pairs.len(),
                all == self.pairs@,
                pair_by_sim(all.take(i as int), sim_id) == -1,
            decreases self.pairs.len() - i,
        {
            proof {
                assert(all.take(i + 1).drop_last() =~= all.take(i as int));
                assert(all.take(i + 1).last() == all[i as int]);
            }
            if self.pairs[i].sim_id == sim_id {
                proof {
                    pair_by_sim_found(all, sim_id, i as int);
                }
                return Some(self.pairs[i].backend_id.clone());
            }
            i += 1;
        }
        proof {
            assert(all.take(all.len() as int) =~= all);
        }
        None
    }

    /// The simulation channel id recorded for a backend id.
    pub fn get_sim_id(&self, backend_id: &String) -> (r: Option<u64>)
        ensures
            ({
                let j = pair_by_backend(self.pairs(), backend_id@);
                match r {
                    Some(id) => j >= 0 && id == self.pairs()[j].sim_id,
                    None => j == -1,
                }
            }),
    {
        let ghost all = self.pairs@;
        let mut i: usize = 0;
        while i < self.pairs.len()
            invariant
                i <= self.pairs.len(),
                all == self.pairs@,
                pair_by_backend(all.take(i as int), backend_id@) == -1,
            decreases self.pairs.len() - i,
        {
            proof {
                assert(all.take(i + 1).drop_last() =~= all.take(i as int));
                assert(all.take(i + 1).last() == all[i as int]);
            }
            if string_eq(&self.pairs[i].backend_id, backend_id) {
                proof {
                    pair_by_backend_found(all, backend_id@, i as int);
                }
                return Some(self.pairs[i].sim_id);
            }
            i += 1;
        }
        proof {
            assert(all.take(all.len() as int) =~= all);
        }
        None
    }
}

/// If the prefix before `i` has no pair for the simulation id and
/// `pairs[i]` has it, `i` is the first.
proof fn pair_by_sim_found(pairs: Seq<IdPair>, sim_id: u64, i: int)
    requires
        0 <= i < pairs.len(),
        pair_by_sim(pairs.take(i), sim_id) == -1,
        pairs[i].sim_id == sim_id,
    ensures
        pair_by_sim(pairs, sim_id) == i,
    decreases pairs.len(),
{
    if pairs.len() - 1 > i {
        assert(pairs.drop_last().take(i) =~= pairs.take(i));
        pair_by_sim_found(pairs.drop_last(), sim_id, i);
        assert(pairs.drop_last()[i] == pairs[i]);
    } else {
        assert(pairs.take(i) =~= pairs.drop_last());
    }
}

/// If the prefix before `i` has no pair for the backend id and `pairs[i]`
/// has it, `i` is the first.
proof fn pair_by_backend_found(pairs: Seq<IdPair>, backend_id: Seq<char>, i: int)
    requires
        0 <= i < pairs.len(),
        pair_by_backend(pairs.take(i), backend_id) == -1,
        pairs[i].backend_id@ == backend_id,
    ensures
        pair_by_backend(pairs, backend_id) == i,
    decreases pairs.len(),
{
    if pairs.len() - 1 > i {
        assert(pairs.drop_last().take(i) =~= pairs.take(i));
        pair_by_backend_found(pairs.drop_last(), backend_id, i);
        assert(pairs.drop_last()[i] == pairs[i]);
    } else {
        assert(pairs.take(i) =~= pairs.drop_last());
    }
}

/// What the backend is asked when a channel opens: the total capacity in
/// sats, and the amount pushed to the counterparty in msats. `None` when
/// either leaves `u64`.
pub fn open_channel_params(c: &SimChannel) -> (r: Option<(u64, u64)>)
    ensures
        match r {
            Some(p) => c.src_balance_sats + c.dest_balance_sats <= u64::MAX
                && c.dest_balance_sats * 1000 <= u64::MAX && p.0 == c.src_balance_sats
                + c.dest_balance_sats && p.1 == c.dest_balance_sats * 1000,
            None => c.src_balance_sats + c.dest_balance_sats > u64::MAX || c.dest_balance_sats
                * 1000 > u64::MAX,
        },
{
    if c.src_balance_sats > u64::MAX - c.dest_balance_sats {
        return None;
    }
    if c.dest_balance_sats > u64::MAX / 1000 {
        return None;
    }
    Some((c.src_balance_sats + c.dest_balance_sats, c.dest_balance_sats * 1000))
}

/// What the backend is asked when a payment is requested: the invoice
/// amount in msats. `None` when it leaves `u64`.
pub fn invoice_amount_msat(tx: &SimTransaction) -> (r: Option<u64>)
    ensures
        match r {
            Some(a) => tx.amount_sats * 1000 <= u64::MAX && a == tx.amount_sats * 1000,
            None => tx.amount_sats * 1000 > u64::MAX,
        },
{
    if tx.amount_sats > u64::MAX / 1000 {
        None
    } else {
        Some(tx.amount_sats * 1000)
    }
}

/// The result event reporting the outcome of a scheduled action, stamped
/// with the action's simulated time.
pub fn action_result_event(event: &SimEvent, success: bool) -> (r: SimResultsEvent)
    ensures
        r@ == (SimResultsEventView {
            sim_time: Some(event.sim_time),
            success,
            event: event@.event,
        }),
{
    SimResultsEvent { sim_time: Some(event.sim_time), success, event: event.event.clone() }
}

/// A declared channel as confirmed by the backend: it carries the ids, the
/// funding transaction and the reserve that the node reports for it.
pub fn confirmed_channel(c: &SimChannel, reported: &SimNodeChannel) -> (r: SimChannel)
    ensures
        r == (SimChannel {
            short_id: reported.short_id,
            run_time_id: Some(reported.run_time_id),
            funding_tx: reported.funding_tx,
            penalty_reserve_sats: reported.punishment_reserve,
            ..*c
        }),
{
    SimChannel {
        id: c.id,
        short_id: reported.short_id,
        run_time_id: Some(reported.run_time_id.clone()),
        funding_tx: reported.funding_tx.clone(),
        src_node: c.src_node.clone(),
        dest_node: c.dest_node.clone(),
        src_balance_sats: c.src_balance_sats,
        dest_balance_sats: c.dest_balance_sats,
        penalty_reserve_sats: reported.punishment_reserve,
    }
}

/// A transaction as accepted by the backend: it carries the assigned
/// payment id and stands pending until its outcome arrives.
pub fn transaction_pending(tx: &SimTransaction, payment_id: String) -> (r: SimTransaction)
    ensures
        r == (SimTransaction {
            id: Some(payment_id),
            status: SimTransactionStatus::PENDING,
            ..*tx
        }),
{
    SimTransaction {
        id: Some(payment_id),
        src_node: tx.src_node.clone(),
        dest_node: tx.dest_node.clone(),
        amount_sats: tx.amount_sats,
        status: SimTransactionStatus::PENDING,
    }
}

/// Which endpoint of a closed channel paid the closing fee: the endpoint
/// whose balance is reproduced exactly in an output of the closing
/// transaction did not pay it.
pub fn closing_fee_split(src_matches_output: bool, fee: u64) -> (r: (u64, u64))
    ensures
        r == (if src_matches_output {
            (0u64, fee)
        } else {
            (fee, 0u64)
        }),
{
    if src_matches_output {
        (0, fee)
    } else {
        (fee, 0)
    }
}

} // verus!
