//! The event scheduler: holds every action declared for a run and says what
//! must be published at each simulated second.
//!
//! The scheduler's pacing (one tick per wall-clock second) is outside work;
//! the schedule itself — which events fire at which tick, in declaration
//! order, closed by the terminal event — is computed and proved here.

use vstd::prelude::*;
use vstd::pervasive::VecAdditionalExecFns;
use crate::sim_event::{SimEvent, SimEventView, SimulationEvent, SimulationEventView};

verus! {

/// The actions declared for one simulated second, in declaration order.
pub struct EventSlot {
    pub time: u64,
    pub events: Vec<SimulationEvent>,
}

/// The views of an event list.
pub open spec fn events_view(s: Seq<SimulationEvent>) -> Seq<SimulationEventView> {
    s.map_values(|e: SimulationEvent| e@)
}

/// The views of a scheduled-event list.
pub open spec fn sim_events_view(s: Seq<SimEvent>) -> Seq<SimEventView> {
    s.map_values(|e: SimEvent| e@)
}

/// View of an [`EventSlot`].
#[verifier::ext_equal]
pub struct EventSlotView {
    pub time: u64,
    pub events: Seq<SimulationEventView>,
}

impl View for EventSlot {
    type V = EventSlotView;

    open spec fn view(&self) -> EventSlotView {
        EventSlotView { time: self.time, events: events_view(self.events@) }
    }
}

/// The views of a slot list.
pub open spec fn slots_view(s: Seq<EventSlot>) -> Seq<EventSlotView> {
    s.map_values(|slot: EventSlot| slot@)
}

/// Each time has at most one slot.
pub open spec fn slots_wf(slots: Seq<EventSlotView>) -> bool {
    forall|i: int, j: int|
        0 <= i < j < slots.len() ==> (#[trigger] slots[i]).time != (#[trigger] slots[j]).time
}

/// The index of the slot for a time, or -1.
pub open spec fn slot_index(slots: Seq<EventSlotView>, time: u64) -> int
    decreases slots.len(),
{
    if slots.len() == 0 {
        -1
    } else {
        let rest = slot_index(slots.drop_last(), time);
        if rest >= 0 {
            rest
        } else if slots.last().time == time {
            slots.len() - 1
        } else {
            -1
        }
    }
}

/// The events declared for a time, in declaration order.
pub open spec fn events_at_time(slots: Seq<EventSlotView>, time: u64) -> Seq<SimulationEventView> {
    let j = slot_index(slots, time);
    if j < 0 {
        Seq::empty()
    } else {
        slots[j].events
    }
}

/// The events of one tick stamped with their tick.
pub open spec fn stamped(events: Seq<SimulationEventView>, tick: u64) -> Seq<SimEventView> {
    events.map_values(|e: SimulationEventView| SimEventView { sim_time: tick, event: e })
}

/// The publish sequence of the ticks 0 through `tick`: each tick's events
/// in declaration order, stamped with their tick.
pub open spec fn schedule_through(slots: Seq<EventSlotView>, tick: int) -> Seq<SimEventView>
    decreases tick + 1,
{
    if tick < 0 {
        Seq::empty()
    } else {
        schedule_through(slots, tick - 1) + stamped(events_at_time(slots, tick as u64), tick as u64)
    }
}

/// The full schedule: every tick's events, then the terminal event.
pub open spec fn full_schedule_view(slots: Seq<EventSlotView>, duration: u64) -> Seq<SimEventView> {
    schedule_through(slots, duration as int).push(
        SimEventView { sim_time: duration, event: SimulationEventView::SimulationEndedEvent },
    )
}

/// How `add_event` changes the slot list.
pub open spec fn spec_add_event(
    slots: Seq<EventSlotView>,
    event: SimulationEventView,
    time: u64,
) -> Seq<EventSlotView> {
    let j = slot_index(slots, time);
    if j < 0 {
        slots.push(EventSlotView { time, events: seq![event] })
    } else {
        slots.update(j, EventSlotView { time, events: slots[j].events.push(event) })
    }
}

/// Holds all of the events that will take place over the duration of the
/// simulation and says when each is published.
pub struct SimEventManager {
    slots: Vec<EventSlot>,
}

impl SimEventManager {
    /// The declared slots, one per time, in first-declaration order.
    pub closed spec fn slots(self) -> Seq<EventSlotView> {
        slots_view(self.slots@)
    }

    pub fn new(sim_events: Vec<EventSlot>) -> (r: Self)
        requires
            slots_wf(slots_view(sim_events@)),
        ensures
            r.slots() == slots_view(sim_events@),
            slots_wf(r.slots()),
    {
        SimEventManager { slots: sim_events }
    }

    /// Declare an event for a time: it joins that time's slot in declaration
    /// order, in a new slot at the end if the time had none.
    pub fn add_event(&mut self, event: SimulationEvent, time: u64)
        requires
            slots_wf(old(self).slots()),
        ensures
            slots_wf(final(self).slots()),
            final(self).slots() == spec_add_event(old(self).slots(), event@, time),
    {
        add_to_slots(&mut self.slots, event, time);
    }

    /// The events published at a tick, in declaration order.
    pub fn events_at(&self, time: u64) -> (r: Vec<SimulationEvent>)
        ensures
            events_view(r@) == events_at_time(self.slots(), time),
    {
        events_at_exec(&self.slots, time)
    }

    /// The whole publish sequence of a run: every tick's events from 0
    /// through `duration`, in tick then declaration order, closed by the
    /// terminal event at `duration`.
    pub fn full_schedule(&self, duration: u64) -> (r: Vec<SimEvent>)
        requires
            duration < u64::MAX,
        ensures
            sim_events_view(r@) == full_schedule_view(self.slots(), duration),
    {
        let mut out: Vec<SimEvent> = Vec::new();
        let mut tick: u64 = 0;
        proof {
            assert(sim_events_view(out@) =~= schedule_through(self.slots(), -1));
        }
        while tick <= duration
            invariant
                duration < u64::MAX,
                tick <= duration + 1,
                sim_events_view(out@) == schedule_through(self.slots(), tick - 1),
            decreases duration + 1 - tick,
        {
            let evs = events_at_exec(&self.slots, tick);
            let ghost before = out@;
            let mut k: usize = 0;
            while k < evs.len()
                invariant
                    k <= evs.len(),
                    events_view(evs@) == events_at_time(self.slots(), tick),
                    sim_events_view(out@) == sim_events_view(before) + stamped(
                        events_at_time(self.slots(), tick).take(k as int),
                        tick,
                    ),
                decreases evs.len() - k,
            {
                let ghost ets = events_at_time(self.slots(), tick);
                let ghost out_pre = out@;
                let ev = evs[k].clone();
                let ghost x = SimEvent { sim_time: tick, event: ev };
                out.push(SimEvent { sim_time: tick, event: ev });
                proof {
                    assert(ets.take(k + 1) =~= ets.take(k as int).push(ets[k as int]));
                    assert(ets[k as int] == events_view(evs@)[k as int]);
                    assert(x@ == SimEventView { sim_time: tick, event: ets[k as int] });
                    assert(sim_events_view(out@) =~= sim_events_view(out_pre).push(x@));
                    assert(stamped(ets.take(k + 1), tick) =~= stamped(
                        ets.take(k as int),
                        tick,
                    ).push(SimEventView { sim_time: tick, event: ets[k as int] }));
                    assert(sim_events_view(out@) =~= sim_events_view(before) + stamped(
                        ets.take(k + 1),
                        tick,
                    ));
                }
                k += 1;
            }
            proof {
                let ets = events_at_time(self.slots(), tick);
                assert(ets.take(ets.len() as int) =~= ets);
                assert(sim_events_view(out@) =~= schedule_through(self.slots(), tick as int));
            }
            tick += 1;
        }
        out.push(SimEvent { sim_time: duration, event: SimulationEvent::SimulationEndedEvent });
        proof {
            assert(sim_events_view(out@) =~= full_schedule_view(self.slots(), duration));
        }
        out
    }
}

/// Declare an event for a time in a slot list.
pub fn add_to_slots(slots: &mut Vec<EventSlot>, event: SimulationEvent, time: u64)
    requires
        slots_wf(slots_view(old(slots)@)),
    ensures
        slots_view(final(slots)@) == spec_add_event(slots_view(old(slots)@), event@, time),
        slots_wf(slots_view(final(slots)@)),
{
    let ghost all = slots_view(slots@);
    let mut i: usize = 0;
    while i < slots.len()
        invariant
            i <= slots.len(),
            all == slots_view(slots@),
            all == slots_view(old(slots)@),
            slots_wf(all),
            slot_index(all.take(i as int), time) == -1,
        decreases slots.len() - i,
    {
        proof {
            assert(all.take(i + 1).drop_last() =~= all.take(i as int));
            assert(all.take(i + 1).last() == all[i as int]);
        }
        if slots[i].time == time {
            proof {
                slot_found(all, time, i as int);
            }
            let evs = &slots[i].events;
            let mut new_events = clone_events(evs);
            new_events.push(event);
            let replacement = EventSlot { time, events: new_events };
            slots.set(i, replacement);
            proof {
                assert(slots_view(slots@) =~~= spec_add_event(all, event@, time));
                assert forall|a: int, b: int|
                    0 <= a < b < slots_view(slots@).len() implies (#[trigger] slots_view(
                    slots@,
                )[a]).time != (#[trigger] slots_view(slots@)[b]).time by {
                    assert(slots_view(slots@)[a].time == all[a].time);
                    assert(slots_view(slots@)[b].time == all[b].time);
                }
            }
            return ;
        }
        i += 1;
    }
    proof {
        assert(all.take(all.len() as int) =~= all);
    }
    let mut events: Vec<SimulationEvent> = Vec::new();
    events.push(event);
    slots.push(EventSlot { time, events });
    proof {
        assert(slots_view(slots@) =~~= spec_add_event(all, event@, time));
        slot_index_none_means_no_time(all, time);
        assert forall|a: int, b: int| 0 <= a < b < slots_view(slots@).len() implies (
        #[trigger] slots_view(slots@)[a]).time != (#[trigger] slots_view(slots@)[b]).time by {
            assert(slots_view(slots@)[a].time == all[a].time);
            if b < all.len() {
                assert(slots_view(slots@)[b].time == all[b].time);
            } else {
                assert(slots_view(slots@)[b].time == time);
            }
        }
    }
}

/// If the prefix before `i` has no slot for the time and `slots[i]` is for
/// it, `i` is its slot.
proof fn slot_found(slots: Seq<EventSlotView>, time: u64, i: int)
    requires
        0 <= i < slots.len(),
        slot_index(slots.take(i), time) == -1,
        slots[i].time == time,
    ensures
        slot_index(slots, time) == i,
    decreases slots.len(),
{
    if slots.len() - 1 > i {
        assert(slots.drop_last().take(i) =~= slots.take(i));
        slot_found(slots.drop_last(), time, i);
        assert(slots.drop_last()[i] == slots[i]);
    } else {
        assert(slots.take(i) =~= slots.drop_last());
    }
}

/// A slot list without a slot for a time has no slot of that time anywhere.
proof fn slot_index_none_means_no_time(slots: Seq<EventSlotView>, time: u64)
    requires
        slot_index(slots, time) == -1,
    ensures
        forall|i: int| 0 <= i < slots.len() ==> (#[trigger] slots[i]).time != time,
    decreases slots.len(),
{
    if slots.len() > 0 {
        slot_index_none_means_no_time(slots.drop_last(), time);
        assert(forall|i: int|
            0 <= i < slots.len() - 1 ==> #[trigger] slots[i] == slots.drop_last()[i]);
        assert(slots.last() == slots[slots.len() - 1]);
    }
}

/// Copy an event list element by element.
pub fn clone_events(v: &Vec<SimulationEvent>) -> (r: Vec<SimulationEvent>)
    ensures
        events_view(r@) == events_view(v@),
{
    let mut r: Vec<SimulationEvent> = Vec::new();
    let mut i: usize = 0;
    while i < v.len()
        invariant
            i <= v.len(),
            r@.len() == i,
            forall|j: int| 0 <= j < i ==> (#[trigger] r@[j])@ == v@[j]@,
        decreases v.len() - i,
    {
        r.push(v[i].clone());
        i += 1;
    }
    proof {
        assert(events_view(r@) =~= events_view(v@));
    }
    r
}

/// The events declared for a time, in declaration order.
fn events_at_exec(slots: &Vec<EventSlot>, time: u64) -> (r: Vec<SimulationEvent>)
    ensures
        events_view(r@) == events_at_time(slots_view(slots@), time),
{
    let ghost all = slots_view(slots@);
    let mut i: usize = 0;
    while i < slots.len()
        invariant
            i <= slots.len(),
            all == slots_view(slots@),
            slot_index(all.take(i as int), time) == -1,
        decreases slots.len() - i,
    {
        proof {
            assert(all.take(i + 1).drop_last() =~= all.take(i as int));
            assert(all.take(i + 1).last() == all[i as int]);
        }
        if slots[i].time == time {
            proof {
                slot_found(all, time, i as int);
            }
            let r = clone_events(&slots[i].events);
            proof {
                assert(events_view(r@) =~= events_at_time(all, time));
            }
            return r;
        }
        i += 1;
    }
    proof {
        assert(all.take(all.len() as int) =~= all);
    }
    let r: Vec<SimulationEvent> = Vec::new();
    proof {
        assert(events_view(r@) =~= events_at_time(all, time));
    }
    r
}

} // verus!
