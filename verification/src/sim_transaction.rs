//! A routed payment declared in the simulation, and its status.

use vstd::prelude::*;

verus! {

/// A payment from one node to another.
///
/// `id` is `None` until the backend accepts the payment, which assigns the
/// payment id; `status` is `NONE` until the payment is sent.
pub struct SimTransaction {
    /// Backend-assigned payment id, set when the payment is sent.
    pub id: Option<String>,
    /// The node that sends the payment.
    pub src_node: String,
    /// The node that receives the payment.
    pub dest_node: String,
    /// Amount in sats.
    pub amount_sats: u64,
    /// Where the payment stands in its lifecycle.
    pub status: SimTransactionStatus,
}

/// The status of a transaction. It only ever advances:
/// `NONE -> PENDING -> SUCCESSFUL | FAILED`.
#[derive(Clone, Copy, PartialEq, Eq, Structural, Debug)]
pub enum SimTransactionStatus {
    /// The transaction has been created but not sent.
    NONE,
    /// The transaction has been sent and awaits its outcome.
    PENDING,
    /// The transaction was received.
    SUCCESSFUL,
    /// The transaction failed.
    FAILED,
}

/// Position of a status in the lifecycle order.
pub open spec fn status_rank(s: SimTransactionStatus) -> int {
    match s {
        SimTransactionStatus::NONE => 0,
        SimTransactionStatus::PENDING => 1,
        SimTransactionStatus::SUCCESSFUL => 2,
        SimTransactionStatus::FAILED => 2,
    }
}

/// Whether a status may be followed by another: the sequence of statuses a
/// transaction goes through is a subsequence of
/// `NONE -> PENDING -> SUCCESSFUL | FAILED` and never reverts.
pub open spec fn status_can_follow(a: SimTransactionStatus, b: SimTransactionStatus) -> bool {
    a == b || status_rank(a) < status_rank(b)
}

impl Clone for SimTransaction {
    /// Cloning yields a transaction equal to the original.
    fn clone(&self) -> (r: Self)
        ensures
            r == *self,
    {
        SimTransaction {
            id: self.id.clone(),
            src_node: self.src_node.clone(),
            dest_node: self.dest_node.clone(),
            amount_sats: self.amount_sats,
            status: self.status,
        }
    }
}

} // verus!
