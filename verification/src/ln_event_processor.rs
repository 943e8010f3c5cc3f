//! The event translator: turns backend-native lifecycle notifications into
//! result events.
//!
//! Reading a node's native event stream is outside work owned by the
//! runtime, which hands each notification over as a [`NativeEvent`] of plain
//! values; what each notification becomes on the results bus is decided and
//! proved here. Amounts arrive in msats and are scaled to sats; byte-string
//! identifiers are spelled in lower-case hexadecimal.

use vstd::prelude::*;
use crate::sim_event::{PathHop, SimPaymentPath, SimResultsEvent, SimulationEvent, SimulationEventView};
use crate::text::{hex_str, spec_hex_str};

verus! {

/// A backend-native lifecycle notification, reduced to plain values.
pub enum NativeEvent {
    /// A payment this node sent settled. The payment id is absent for
    /// payments the backend cannot attribute; the fee is absent when the
    /// backend does not know it.
    PaymentSent { payment_id: Option<Vec<u8>>, fee_paid_msat: Option<u64> },
    /// A payment this node sent failed for good.
    PaymentFailed { payment_id: Vec<u8> },
    /// A payment settled and took this path; arrives after the settlement.
    PaymentPathSuccessful { payment_id: Vec<u8>, hops: Vec<NativeHop> },
    /// A channel of this node closed.
    ChannelClosed { channel_id: Vec<u8> },
    /// Any other native notification; the translator ignores it.
    Other,
}

/// One hop of a native payment path.
pub struct NativeHop {
    /// Backend short id of the channel the hop used.
    pub short_channel_id: u64,
    /// For a forwarding hop its fee, for the final hop the amount received,
    /// in msats.
    pub fee_msat: u64,
    /// Public key of the node the hop leads to.
    pub pubkey: String,
}

/// The simulation hop a native hop becomes: the amount is scaled to sats.
pub open spec fn spec_hop(h: NativeHop) -> PathHop {
    PathHop {
        short_channel_id: h.short_channel_id,
        amount: h.fee_msat / 1000,
        node_pub_key: h.pubkey,
    }
}

/// The fee, in sats, a settled payment reports: 0 when the backend does not
/// know it.
pub open spec fn spec_fee_sats(fee_paid_msat: Option<u64>) -> u64 {
    match fee_paid_msat {
        Some(f) => (f / 1000) as u64,
        None => 0,
    }
}

/// Translate one native notification into the result event to republish,
/// or `None` for notifications the simulation does not track. Every
/// produced event carries no simulated time — the analyzer recovers it by
/// correlation — and reports success.
pub fn translate(e: &NativeEvent) -> (r: Option<SimResultsEvent>)
    ensures
        match *e {
            NativeEvent::PaymentSent { payment_id: Some(ref id), fee_paid_msat } => {
                &&& r is Some
                &&& r.unwrap()@.sim_time is None
                &&& r.unwrap()@.success
                &&& r.unwrap()@.event matches SimulationEventView::PaymentSuccessEvent(p, fee)
                    && p@ == spec_hex_str(id@) && fee == spec_fee_sats(fee_paid_msat)
            },
            NativeEvent::PaymentSent { payment_id: None, .. } => r is None,
            NativeEvent::PaymentFailed { payment_id: ref id } => {
                &&& r is Some
                &&& r.unwrap()@.sim_time is None
                &&& r.unwrap()@.success
                &&& r.unwrap()@.event matches SimulationEventView::PaymentFailedEvent(p) && p@
                    == spec_hex_str(id@)
            },
            NativeEvent::PaymentPathSuccessful { payment_id: ref id, hops: ref hops } => {
                &&& r is Some
                &&& r.unwrap()@.sim_time is None
                &&& r.unwrap()@.success
                &&& r.unwrap()@.event matches SimulationEventView::PaymentPathSuccessful(p)
                    && p.payment_id@ == spec_hex_str(id@) && p.hops == hops@.map_values(
                    |h: NativeHop| spec_hop(h),
                )
            },
            NativeEvent::ChannelClosed { channel_id: ref id } => {
                &&& r is Some
                &&& r.unwrap()@.sim_time is None
                &&& r.unwrap()@.success
                &&& r.unwrap()@.event matches SimulationEventView::CloseChannelSuccessEvent(p)
                    && p@ == spec_hex_str(id@)
            },
            NativeEvent::Other => r is None,
        },
{
    match e {
        NativeEvent::PaymentSent { payment_id, fee_paid_msat } => {
            match payment_id {
                Some(id) => {
                    let fee_paid: u64 = match fee_paid_msat {
                        Some(f) => *f / 1000,
                        None => 0,
                    };
                    Some(
                        SimResultsEvent {
                            sim_time: None,
                            success: true,
                            event: SimulationEvent::PaymentSuccessEvent(hex_str(id), fee_paid),
                        },
                    )
                },
                None => None,
            }
        },
        NativeEvent::PaymentFailed { payment_id } => {
            Some(
                SimResultsEvent {
                    sim_time: None,
                    success: true,
                    event: SimulationEvent::PaymentFailedEvent(hex_str(payment_id)),
                },
            )
        },
        NativeEvent::PaymentPathSuccessful { payment_id, hops } => {
            let ghost all = hops@;
            let mut path: Vec<PathHop> = Vec::new();
            let mut i: usize = 0;
            while i < hops.len()
                invariant
                    i <= hops.len(),
                    all == hops@,
                    path@ =~= all.take(i as int).map_values(|h: NativeHop| spec_hop(h)),
                decreases hops.len() - i,
            {
                let h = &hops[i];
                path.push(
                    PathHop {
                        short_channel_id: h.short_channel_id,
                        amount: h.fee_msat / 1000,
                        node_pub_key: h.pubkey.clone(),
                    },
                );
                proof {
                    assert(path@ =~= all.take(i + 1).map_values(|h: NativeHop| spec_hop(h)));
                }
                i += 1;
            }
            proof {
                assert(all.take(all.len() as int) =~= all);
            }
            Some(
                SimResultsEvent {
                    sim_time: None,
                    success: true,
                    event: SimulationEvent::PaymentPathSuccessful(
                        SimPaymentPath { payment_id: hex_str(payment_id), path },
                    ),
                },
            )
        },
        NativeEvent::ChannelClosed { channel_id } => {
            Some(
                SimResultsEvent {
                    sim_time: None,
                    success: true,
                    event: SimulationEvent::CloseChannelSuccessEvent(hex_str(channel_id)),
                },
            )
        },
        NativeEvent::Other => None,
    }
}

} // verus!
