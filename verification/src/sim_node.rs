//! A participant node as declared in the simulation.

use vstd::prelude::*;

verus! {

/// A node in the simulated network.
pub struct SimNode {
    /// Stable name of the node.
    pub name: String,
    /// On-chain balance the node starts the simulation with, in sats.
    pub initial_balance: u64,
    /// Whether the node is running at the start of the simulation.
    pub running: bool,
}

impl Clone for SimNode {
    /// Cloning yields a node equal to the original.
    fn clone(&self) -> (r: Self)
        ensures
            r == *self,
    {
        SimNode { name: self.name.clone(), initial_balance: self.initial_balance, running: self.running }
    }
}

} // verus!
