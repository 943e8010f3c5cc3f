//! The events that drive a simulation run.
//!
//! Types that hold a `Vec` are given a view (`@`) whose sequence fields
//! abstract the vectors; contracts speak of those views. Types whose fields
//! are numbers, booleans and strings are compared by value directly.

use vstd::prelude::*;
use crate::sim_channel::SimChannel;
use crate::sim_transaction::SimTransaction;

verus! {

/// Every action or outcome that can travel over the event bus.
///
/// The first five variants are user-declared actions fired by the scheduler;
/// the next four are produced when the backend reports the outcome of an
/// earlier action; the last one is the shared terminal signal.
pub enum SimulationEvent {
    /// Start the named node.
    StartNodeEvent(String),
    /// Stop the named node.
    StopNodeEvent(String),
    /// Open the described channel.
    OpenChannelEvent(SimChannel),
    /// Close a channel: the acting node and the simulation channel id.
    CloseChannelEvent(String, u64),
    /// Attempt the described payment.
    TransactionEvent(SimTransaction),
    /// A routed payment succeeded and took this path.
    PaymentPathSuccessful(SimPaymentPath),
    /// The payment with this id failed.
    PaymentFailedEvent(String),
    /// The payment with this id succeeded and paid this fee, in sats.
    PaymentSuccessEvent(String, u64),
    /// The channel with this backend channel id finished closing.
    CloseChannelSuccessEvent(String),
    /// The simulation has ended.
    SimulationEndedEvent,
}

/// The path a successful payment took.
pub struct SimPaymentPath {
    /// Backend-assigned payment id.
    pub payment_id: String,
    /// Hops ordered from sender-adjacent to receiver-adjacent; the last
    /// hop's `amount` is what the receiver is credited.
    pub path: Vec<PathHop>,
}

/// One hop of a payment path.
pub struct PathHop {
    /// Backend short id of the channel the hop used.
    pub short_channel_id: u64,
    /// Amount carried at this hop, in sats; for forwarding hops this is the
    /// fee earned, for the final hop the amount received.
    pub amount: u64,
    /// Public key of the node the hop leads to.
    pub node_pub_key: String,
}

/// An action scheduled to fire at a given simulated time.
pub struct SimEvent {
    /// When the action fires.
    pub sim_time: u64,
    /// The action itself.
    pub event: SimulationEvent,
}

/// The reported outcome of an action.
pub struct SimResultsEvent {
    /// When the originating action fired. `None` for events that are
    /// asynchronous reactions to an earlier action (payment outcomes and
    /// channel-close confirmations), whose true time is recovered by
    /// correlating with that action.
    pub sim_time: Option<u64>,
    /// Whether the action succeeded.
    pub success: bool,
    /// The action or outcome this event reports on.
    pub event: SimulationEvent,
}

/// View of [`SimPaymentPath`]: the hop vector abstracted to a sequence.
#[verifier::ext_equal]
pub struct SimPaymentPathView {
    pub payment_id: String,
    pub hops: Seq<PathHop>,
}

impl View for SimPaymentPath {
    type V = SimPaymentPathView;

    open spec fn view(&self) -> SimPaymentPathView {
        SimPaymentPathView { payment_id: self.payment_id, hops: self.path@ }
    }
}

/// View of [`SimulationEvent`]: identical except that a payment path is
/// taken to its view.
#[verifier::ext_equal]
pub enum SimulationEventView {
    StartNodeEvent(String),
    StopNodeEvent(String),
    OpenChannelEvent(SimChannel),
    CloseChannelEvent(String, u64),
    TransactionEvent(SimTransaction),
    PaymentPathSuccessful(SimPaymentPathView),
    PaymentFailedEvent(String),
    PaymentSuccessEvent(String, u64),
    CloseChannelSuccessEvent(String),
    SimulationEndedEvent,
}

impl View for SimulationEvent {
    type V = SimulationEventView;

    open spec fn view(&self) -> SimulationEventView {
        match self {
            SimulationEvent::StartNodeEvent(name) => SimulationEventView::StartNodeEvent(*name),
            SimulationEvent::StopNodeEvent(name) => SimulationEventView::StopNodeEvent(*name),
            SimulationEvent::OpenChannelEvent(c) => SimulationEventView::OpenChannelEvent(*c),
            SimulationEvent::CloseChannelEvent(node, id) => SimulationEventView::CloseChannelEvent(
                *node,
                *id,
            ),
            SimulationEvent::TransactionEvent(tx) => SimulationEventView::TransactionEvent(*tx),
            SimulationEvent::PaymentPathSuccessful(p) => {
                SimulationEventView::PaymentPathSuccessful(p@)
            },
            SimulationEvent::PaymentFailedEvent(id) => SimulationEventView::PaymentFailedEvent(*id),
            SimulationEvent::PaymentSuccessEvent(id, fee) => {
                SimulationEventView::PaymentSuccessEvent(*id, *fee)
            },
            SimulationEvent::CloseChannelSuccessEvent(id) => {
                SimulationEventView::CloseChannelSuccessEvent(*id)
            },
            SimulationEvent::SimulationEndedEvent => SimulationEventView::SimulationEndedEvent,
        }
    }
}

/// View of [`SimEvent`].
#[verifier::ext_equal]
pub struct SimEventView {
    pub sim_time: u64,
    pub event: SimulationEventView,
}

impl View for SimEvent {
    type V = SimEventView;

    open spec fn view(&self) -> SimEventView {
        SimEventView { sim_time: self.sim_time, event: self.event@ }
    }
}

/// View of [`SimResultsEvent`].
#[verifier::ext_equal]
pub struct SimResultsEventView {
    pub sim_time: Option<u64>,
    pub success: bool,
    pub event: SimulationEventView,
}

impl View for SimResultsEvent {
    type V = SimResultsEventView;

    open spec fn view(&self) -> SimResultsEventView {
        SimResultsEventView { sim_time: self.sim_time, success: self.success, event: self.event@ }
    }
}

/// The views of a sequence of result events.
pub open spec fn results_events_view(s: Seq<SimResultsEvent>) -> Seq<SimResultsEventView> {
    s.map_values(|e: SimResultsEvent| e@)
}

/// The display name of an event kind.
pub open spec fn spec_event_name(e: SimulationEventView) -> Seq<char> {
    match e {
        SimulationEventView::StartNodeEvent(_) => "StartNodeEvent"@,
        SimulationEventView::StopNodeEvent(_) => "StopNodeEvent"@,
        SimulationEventView::OpenChannelEvent(_) => "OpenChannelEvent"@,
        SimulationEventView::CloseChannelEvent(_, _) => "CloseChannelEvent"@,
        SimulationEventView::TransactionEvent(_) => "TransactionEvent"@,
        SimulationEventView::PaymentPathSuccessful(_) => "PaymentPathSuccessful"@,
        SimulationEventView::PaymentFailedEvent(_) => "PaymentFailedEvent"@,
        SimulationEventView::PaymentSuccessEvent(_, _) => "PaymentSuccessEvent"@,
        SimulationEventView::CloseChannelSuccessEvent(_) => "CloseChannelSuccessEvent"@,
        SimulationEventView::SimulationEndedEvent => "SimulationEndedEvent"@,
    }
}

impl SimulationEvent {
    /// The name of the event's kind, as log lines and failure listings
    /// print it.
    pub fn name(&self) -> (r: &'static str)
        ensures
            r@ == spec_event_name(self@),
    {
        match self {
            SimulationEvent::StartNodeEvent(_) => "StartNodeEvent",
            SimulationEvent::StopNodeEvent(_) => "StopNodeEvent",
            SimulationEvent::OpenChannelEvent(_) => "OpenChannelEvent",
            SimulationEvent::CloseChannelEvent(_, _) => "CloseChannelEvent",
            SimulationEvent::TransactionEvent(_) => "TransactionEvent",
            SimulationEvent::PaymentPathSuccessful(_) => "PaymentPathSuccessful",
            SimulationEvent::PaymentFailedEvent(_) => "PaymentFailedEvent",
            SimulationEvent::PaymentSuccessEvent(_, _) => "PaymentSuccessEvent",
            SimulationEvent::CloseChannelSuccessEvent(_) => "CloseChannelSuccessEvent",
            SimulationEvent::SimulationEndedEvent => "SimulationEndedEvent",
        }
    }
}

/// Copy a hop list element by element.
pub fn clone_path(v: &Vec<PathHop>) -> (r: Vec<PathHop>)
    ensures
        r@ =~= v@,
{
    let mut r: Vec<PathHop> = Vec::new();
    let mut i: usize = 0;
    while i < v.len()
        invariant
            i <= v.len(),
            r@ =~= v@.take(i as int),
        decreases v.len() - i,
    {
        r.push(v[i].clone());
        proof {
            assert(v@.take(i + 1).drop_last() =~= v@.take(i as int));
            assert(r@.drop_last() =~= v@.take(i as int));
        }
        i += 1;
    }
    proof {
        assert(v@.take(v.len() as int) =~= v@);
    }
    r
}

impl Clone for PathHop {
    /// Cloning yields a hop equal to the original.
    fn clone(&self) -> (r: Self)
        ensures
            r == *self,
    {
        PathHop {
            short_channel_id: self.short_channel_id,
            amount: self.amount,
            node_pub_key: self.node_pub_key.clone(),
        }
    }
}

impl Clone for SimPaymentPath {
    /// Cloning preserves the view: the payment id and the hops.
    fn clone(&self) -> (r: Self)
        ensures
            r@ == self@,
    {
        SimPaymentPath { payment_id: self.payment_id.clone(), path: clone_path(&self.path) }
    }
}

impl Clone for SimulationEvent {
    /// Cloning preserves the view.
    fn clone(&self) -> (r: Self)
        ensures
            r@ == self@,
    {
        match self {
            SimulationEvent::StartNodeEvent(name) => SimulationEvent::StartNodeEvent(name.clone()),
            SimulationEvent::StopNodeEvent(name) => SimulationEvent::StopNodeEvent(name.clone()),
            SimulationEvent::OpenChannelEvent(c) => SimulationEvent::OpenChannelEvent(c.clone()),
            SimulationEvent::CloseChannelEvent(node, id) => SimulationEvent::CloseChannelEvent(
                node.clone(),
                *id,
            ),
            SimulationEvent::TransactionEvent(tx) => SimulationEvent::TransactionEvent(tx.clone()),
            SimulationEvent::PaymentPathSuccessful(p) => SimulationEvent::PaymentPathSuccessful(
                p.clone(),
            ),
            SimulationEvent::PaymentFailedEvent(id) => SimulationEvent::PaymentFailedEvent(
                id.clone(),
            ),
            SimulationEvent::PaymentSuccessEvent(id, fee) => SimulationEvent::PaymentSuccessEvent(
                id.clone(),
                *fee,
            ),
            SimulationEvent::CloseChannelSuccessEvent(id) => {
                SimulationEvent::CloseChannelSuccessEvent(id.clone())
            },
            SimulationEvent::SimulationEndedEvent => SimulationEvent::SimulationEndedEvent,
        }
    }
}

impl Clone for SimEvent {
    /// Cloning preserves the view.
    fn clone(&self) -> (r: Self)
        ensures
            r@ == self@,
    {
        SimEvent { sim_time: self.sim_time, event: self.event.clone() }
    }
}

impl Clone for SimResultsEvent {
    /// Cloning preserves the view.
    fn clone(&self) -> (r: Self)
        ensures
            r@ == self@,
    {
        SimResultsEvent { sim_time: self.sim_time, success: self.success, event: self.event.clone() }
    }
}

} // verus!
