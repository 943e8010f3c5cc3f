//! The status of a node as reported by the backend.

use vstd::prelude::*;

verus! {

/// What a node-status query against the backend reports: the node's public
/// key, its balances, and its channels.
pub struct SimNodeStatus {
    pub pub_key: String,
    pub balance: SimNodeBalance,
    pub channels: Vec<SimNodeChannel>,
}

impl SimNodeStatus {
    pub fn new() -> (r: Self)
        ensures
            r.pub_key@ == Seq::<char>::empty(),
            r.balance == (SimNodeBalance { total: 0, onchain: 0, offchain: 0 }),
            r.channels@ =~= Seq::<SimNodeChannel>::empty(),
    {
        SimNodeStatus { pub_key: String::new(), balance: SimNodeBalance::new(), channels: Vec::new() }
    }

    /// The first reported channel with the given simulation id, if any.
    pub fn get_channel(&self, id: u64) -> (r: Option<SimNodeChannel>)
        ensures
            match r {
                Some(c) => {
                    &&& exists|i: int|
                        0 <= i < self.channels@.len() && (#[trigger] self.channels@[i]).id == id
                            && c == self.channels@[i]
                    &&& c.id == id
                },
                None => forall|i: int|
                    0 <= i < self.channels@.len() ==> (#[trigger] self.channels@[i]).id != id,
            },
    {
        let mut i: usize = 0;
        while i < self.channels.len()
            invariant
                i <= self.channels.len(),
                forall|j: int| 0 <= j < i ==> (#[trigger] self.channels@[j]).id != id,
            decreases self.channels.len() - i,
        {
            if self.channels[i].id == id {
                return Some(self.channels[i].clone());
            }
            i += 1;
        }
        None
    }
}

/// The balances of a node as reported by the backend, in sats.
pub struct SimNodeBalance {
    /// On-chain plus off-chain.
    pub total: u64,
    /// Funds in the node's base-layer wallet.
    pub onchain: u64,
    /// Funds held inside open channels.
    pub offchain: u64,
}

impl SimNodeBalance {
    pub fn new() -> (r: Self)
        ensures
            r == (SimNodeBalance { total: 0, onchain: 0, offchain: 0 }),
    {
        SimNodeBalance { total: 0, onchain: 0, offchain: 0 }
    }
}

/// One channel of a node as reported by the backend.
pub struct SimNodeChannel {
    /// Simulation id the channel was opened under.
    pub id: u64,
    /// Backend-assigned short id.
    pub short_id: Option<u64>,
    /// Backend-assigned channel id.
    pub run_time_id: String,
    /// Confirmations the funding transaction needs.
    pub confirmations_required: u32,
    pub is_usable: bool,
    pub is_public: bool,
    /// Whether this node initiated the channel.
    pub is_outbound: bool,
    /// Balance on this node's side, in msats.
    pub balance: u64,
    /// Amount this node can send, in msats.
    pub outbound_capacity: u64,
    /// Amount this node can receive, in msats.
    pub inbound_capacity: u64,
    pub is_channel_ready: bool,
    /// Id of the transaction that funds the channel.
    pub funding_tx: Option<String>,
    /// Reserve this node must hold back, in sats.
    pub punishment_reserve: Option<u64>,
}

impl SimNodeChannel {
    pub fn new(
        id: u64,
        short_id: Option<u64>,
        run_time_id: String,
        conf_req: u32,
        usable: bool,
        public: bool,
        outbound: bool,
        bal: u64,
        out_bal: u64,
        in_bal: u64,
        ready: bool,
        funding_tx: Option<String>,
        punishment: Option<u64>,
    ) -> (r: Self)
        ensures
            r == (SimNodeChannel {
                id,
                short_id,
                run_time_id,
                confirmations_required: conf_req,
                is_usable: usable,
                is_public: public,
                is_outbound: outbound,
                balance: bal,
                outbound_capacity: out_bal,
                inbound_capacity: in_bal,
                is_channel_ready: ready,
                funding_tx,
                punishment_reserve: punishment,
            }),
    {
        SimNodeChannel {
            id,
            short_id,
            run_time_id,
            confirmations_required: conf_req,
            is_usable: usable,
            is_public: public,
            is_outbound: outbound,
            balance: bal,
            outbound_capacity: out_bal,
            inbound_capacity: in_bal,
            is_channel_ready: ready,
            funding_tx,
            punishment_reserve: punishment,
        }
    }
}

impl Clone for SimNodeChannel {
    /// Cloning yields a channel report equal to the original.
    fn clone(&self) -> (r: Self)
        ensures
            r == *self,
    {
        SimNodeChannel {
            id: self.id,
            short_id: self.short_id,
            run_time_id: self.run_time_id.clone(),
            confirmations_required: self.confirmations_required,
            is_usable: self.is_usable,
            is_public: self.is_public,
            is_outbound: self.is_outbound,
            balance: self.balance,
            outbound_capacity: self.outbound_capacity,
            inbound_capacity: self.inbound_capacity,
            is_channel_ready: self.is_channel_ready,
            funding_tx: self.funding_tx.clone(),
            punishment_reserve: self.punishment_reserve,
        }
    }
}

} // verus!
