//! A bilateral payment channel as declared in the simulation.

use vstd::prelude::*;

verus! {

/// A channel between two nodes with a source/destination balance split.
///
/// `id` is assigned by the user once, at declaration or open time, and never
/// reused within a run. `short_id`, `run_time_id`, `funding_tx` and
/// `penalty_reserve_sats` are populated only after the backend confirms the
/// open.
pub struct SimChannel {
    /// Simulation-assigned channel id, unique within a run.
    pub id: u64,
    /// Backend-assigned short id, set once the channel is confirmed open.
    pub short_id: Option<u64>,
    /// Backend-assigned channel id, set once the channel is confirmed open.
    pub run_time_id: Option<String>,
    /// Id of the transaction that funds the channel, set by the backend.
    pub funding_tx: Option<String>,
    /// The node that initiated the channel.
    pub src_node: String,
    /// The node that accepted the incoming channel.
    pub dest_node: String,
    /// Outbound liquidity of the source node, in sats.
    pub src_balance_sats: u64,
    /// Outbound liquidity of the destination node, in sats.
    pub dest_balance_sats: u64,
    /// Reserve the source node must hold back, set by the backend.
    pub penalty_reserve_sats: Option<u64>,
}

impl SimChannel {
    /// The reserve held back by the source node, or 0 when none is set.
    pub open spec fn spec_reserve(self) -> int {
        match self.penalty_reserve_sats {
            Some(p) => p as int,
            None => 0,
        }
    }

    /// Total value locked in the channel: both balances plus the reserve.
    pub open spec fn spec_total_balance(self) -> int {
        self.src_balance_sats + self.dest_balance_sats + self.spec_reserve()
    }

    /// The source node's share on settlement: its balance plus the reserve.
    pub open spec fn spec_src_balance(self) -> int {
        self.src_balance_sats + self.spec_reserve()
    }

    /// The destination node's share on settlement.
    pub open spec fn spec_dest_balance(self) -> int {
        self.dest_balance_sats as int
    }

    pub fn get_total_balance(&self) -> (r: u64)
        requires
            self.spec_total_balance() <= u64::MAX,
        ensures
            r == self.spec_total_balance(),
    {
        match self.penalty_reserve_sats {
            Some(p) => self.src_balance_sats + self.dest_balance_sats + p,
            None => self.src_balance_sats + self.dest_balance_sats,
        }
    }

    pub fn get_src_balance(&self) -> (r: u64)
        requires
            self.spec_src_balance() <= u64::MAX,
        ensures
            r == self.spec_src_balance(),
    {
        match self.penalty_reserve_sats {
            Some(p) => self.src_balance_sats + p,
            None => self.src_balance_sats,
        }
    }

    pub fn get_dest_balance(&self) -> (r: u64)
        ensures
            r == self.spec_dest_balance(),
    {
        self.dest_balance_sats
    }
}

impl Clone for SimChannel {
    /// Cloning yields a channel equal to the original.
    fn clone(&self) -> (r: Self)
        ensures
            r == *self,
    {
        SimChannel {
            id: self.id,
            short_id: self.short_id,
            run_time_id: self.run_time_id.clone(),
            funding_tx: self.funding_tx.clone(),
            src_node: self.src_node.clone(),
            dest_node: self.dest_node.clone(),
            src_balance_sats: self.src_balance_sats,
            dest_balance_sats: self.dest_balance_sats,
            penalty_reserve_sats: self.penalty_reserve_sats,
        }
    }
}

} // verus!
