use vstd::prelude::*;

verus! {

/// One input event, in OS delivery order. Key codes are the host's plain
/// scan values.
#[derive(Clone, Copy, PartialEq, Eq, Structural, Debug)]
pub enum Event {
    KeyDown(u32),
    KeyUp(u32),
}

/// Mathematical model of an `EventQueue`.
pub struct EventQueueV {
    pub events: Seq<Event>,
    pub closed: bool,
}

/// The monotonically growing, append-only log of input events for the
/// current generation, shared by every task. Each task keeps its own
/// consumed-count cursor, so each observes the full stream in order
/// regardless of the others' pace. Closing the queue is the explicit
/// end-of-stream mark; resetting between generations is the host's job.
pub struct EventQueue {
    events: Vec<Event>,
    closed: bool,
}

impl View for EventQueue {
    type V = EventQueueV;

    closed spec fn view(&self) -> EventQueueV {
        EventQueueV { events: self.events@, closed: self.closed }
    }
}

impl EventQueue {
    /// Task cursors are `u32` counters, so the log never outgrows them.
    pub open spec fn wf(self) -> bool {
        self@.events.len() <= u32::MAX
    }

    /// An empty, open queue.
    pub fn new() -> (q: EventQueue)
        ensures
            q@.events == Seq::<Event>::empty(),
            !q@.closed,
            q.wf(),
    {
        EventQueue { events: Vec::new(), closed: false }
    }

    /// Append one event to the log. Events are only appended, never
    /// reordered or dropped, and only while the queue is open.
    pub fn push(&mut self, e: Event)
        requires
            !old(self)@.closed,
            old(self)@.events.len() < u32::MAX,
        ensures
            final(self)@.events == old(self)@.events.push(e),
            final(self)@.closed == old(self)@.closed,
            final(self).wf(),
    {
        self.events.push(e);
    }

    /// Terminate the stream: tasks waiting for an event past the end now
    /// observe end-of-stream instead of staying pending.
    pub fn close(&mut self)
        ensures
            final(self)@.events == old(self)@.events,
            final(self)@.closed,
            old(self).wf() ==> final(self).wf(),
    {
        self.closed = true;
    }

    /// Number of events logged so far.
    pub fn len(&self) -> (n: usize)
        ensures
            n == self@.events.len(),
    {
        self.events.len()
    }

    /// Whether the stream has been terminated.
    pub fn is_closed(&self) -> (b: bool)
        ensures
            b == self@.closed,
    {
        self.closed
    }

    /// The event at position `i` of the log.
    pub fn at(&self, i: usize) -> (e: Event)
        requires
            i < self@.events.len(),
        ensures
            e == self@.events[i as int],
    {
        self.events[i]
    }
}

} // verus!
