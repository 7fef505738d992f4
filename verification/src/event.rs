//! The side effects that a machine asks the host to perform.

use vstd::prelude::*;

verus! {

/// A side effect for the host. A machine queues its events, and the host
/// takes each of them once.
#[derive(Clone, Debug, PartialEq, Eq)]
pub enum Event {
    /// Shows a text.
    Print { text: String },
    /// Pauses for a number of milliseconds.
    Sleep { ms: u16 },
}

/// An event as a mathematical value.
pub ghost enum EventView {
    Print { text: Seq<char> },
    Sleep { ms: u16 },
}

impl View for Event {
    type V = EventView;

    open spec fn view(&self) -> EventView {
        match *self {
            Event::Print { text } => EventView::Print { text: text@ },
            Event::Sleep { ms } => EventView::Sleep { ms },
        }
    }
}

/// The views of a sequence of events, in order.
pub open spec fn events_view(s: Seq<Event>) -> Seq<EventView> {
    s.map_values(|e: Event| e@)
}

impl Event {
    /// Makes a copy of the event.
    pub fn duplicate(&self) -> (r: Event)
        ensures
            r@ == self@,
    {
        match self {
            Event::Print { text } => Event::Print { text: text.clone() },
            Event::Sleep { ms } => Event::Sleep { ms: *ms },
        }
    }
}

/// Copies a vector of events.
pub fn copy_events(events: &Vec<Event>) -> (r: Vec<Event>)
    ensures
        events_view(r@) == events_view(events@),
{
    let mut r: Vec<Event> = Vec::new();
    let mut i: usize = 0;
    while i < events.len()
        invariant
            i <= events.len(),
            r@.len() == i,
            forall|j: int| 0 <= j < i ==> r@[j]@ == events@[j]@,
        decreases events.len() - i,
    {
        r.push(events[i].duplicate());
        i += 1;
    }
    assert(events_view(r@) =~= events_view(events@));
    r
}

} // verus!
