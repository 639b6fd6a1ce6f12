use vstd::prelude::*;

use crate::error::FatalError;
use crate::event::{Event, EventQueue};

verus! {

/// Per-task execution context: the task's private event cursor and its
/// run-state, the flag that gates frame-barrier crossings.
#[derive(Clone, Copy, PartialEq, Eq, Structural, Debug)]
pub struct FutureContext {
    pub processed_events: u32,
    pub state: ExecState,
}

/// The two-state run flag of a task. `RunOnce` is set by the scheduler at
/// the start of each tick and spent by the first frame-barrier crossing;
/// `Waiting` makes every further frame barrier report pending until the
/// next tick.
#[derive(Clone, Copy, PartialEq, Eq, Structural, Debug)]
pub enum ExecState {
    RunOnce,
    Waiting,
}

/// What one poll of a suspension point reports: a completion value, or
/// still pending.
pub enum Poll<T> {
    Ready(T),
    Pending,
}

/// The frame barrier: resolves exactly once per tick, on the first poll
/// after the owning task's run-state was set to `RunOnce`; resolving
/// flips the run-state to `Waiting`, so a second poll within the same
/// tick reports pending. A task crosses at most one frame barrier per
/// tick.
#[derive(Clone, Copy, PartialEq, Eq, Structural, Debug)]
pub struct FrameFuture;

impl FrameFuture {
    pub fn poll(&self, context: &mut FutureContext) -> (r: Poll<()>)
        ensures
            old(context).state == ExecState::RunOnce ==> {
                &&& r is Ready
                &&& final(context).state == ExecState::Waiting
                &&& final(context).processed_events == old(context).processed_events
            },
            old(context).state != ExecState::RunOnce ==> {
                &&& r is Pending
                &&& *final(context) == *old(context)
            },
    {
        if context.state == ExecState::RunOnce {
            context.state = ExecState::Waiting;
            Poll::Ready(())
        } else {
            Poll::Pending
        }
    }
}

/// The event wait: resolves to the next event beyond the task's cursor if
/// one exists, advancing the cursor by one; once the queue has been
/// explicitly terminated it resolves to the distinguished end-of-stream
/// value `None` instead of staying pending.
#[derive(Clone, Copy, PartialEq, Eq, Structural, Debug)]
pub struct EventFuture;

impl EventFuture {
    pub fn new() -> (r: EventFuture) {
        EventFuture
    }

    pub fn poll(&self, context: &mut FutureContext, events: &EventQueue) -> (r: Poll<
        Option<Event>,
    >)
        requires
            events.wf(),
        ensures
            ({
                let cur = old(context).processed_events as int;
                if cur < events@.events.len() {
                    &&& r matches Poll::Ready(Some(e)) && e == events@.events[cur]
                    &&& final(context).processed_events == cur + 1
                    &&& final(context).state == old(context).state
                } else if events@.closed {
                    &&& r matches Poll::Ready(None::<Event>)
                    &&& *final(context) == *old(context)
                } else {
                    &&& r is Pending
                    &&& *final(context) == *old(context)
                }
            }),
    {
        let cur = context.processed_events;
        if (cur as usize) < events.len() {
            let e = events.at(cur as usize);
            context.processed_events = cur + 1;
            Poll::Ready(Some(e))
        } else if events.is_closed() {
            Poll::Ready(None)
        } else {
            Poll::Pending
        }
    }
}

/// The timer wait: pending until the host's clock, sampled once per tick,
/// has advanced at least `time` units past `start_time`. Resolution
/// granularity is one tick.
#[derive(Clone, Copy, PartialEq, Eq, Structural, Debug)]
pub struct TimerDelayFuture {
    pub start_time: u64,
    pub time: u64,
}

impl TimerDelayFuture {
    pub fn new(start_time: u64, time: u64) -> (r: TimerDelayFuture)
        ensures
            r.start_time == start_time,
            r.time == time,
    {
        TimerDelayFuture { start_time, time }
    }

    pub fn poll(&self, now: u64) -> (r: Poll<()>)
        ensures
            r is Ready <==> now >= self.start_time + self.time,
    {
        if now >= self.start_time && now - self.start_time >= self.time {
            Poll::Ready(())
        } else {
            Poll::Pending
        }
    }
}

/// One rendezvous cell for an asynchronous load: empty until the host's
/// callback fills it, then holding the raw bytes, or marked failed.
#[derive(Debug)]
pub enum ResourceCell {
    Empty,
    Loaded(Vec<u8>),
    Failed,
}

/// Mathematical model of a `ResourceCell`.
pub enum ResourceCellV {
    Empty,
    Loaded(Seq<u8>),
    Failed,
}

impl View for ResourceCell {
    type V = ResourceCellV;

    open spec fn view(&self) -> ResourceCellV {
        match self {
            ResourceCell::Empty => ResourceCellV::Empty,
            ResourceCell::Loaded(b) => ResourceCellV::Loaded(b@),
            ResourceCell::Failed => ResourceCellV::Failed,
        }
    }
}

/// Model of a whole bank of rendezvous cells.
pub open spec fn cells_view(s: Seq<ResourceCell>) -> Seq<ResourceCellV> {
    s.map_values(|c: ResourceCell| c@)
}

/// The asynchronous-resource wait: a rendezvous on a single cell that the
/// host populates out-of-band at an arbitrary future tick. It consumes
/// the value by taking it out of the cell, so each logical wait resolves
/// exactly once; it is not gated by the run flag — only the frame barrier
/// is — so an already-filled cell resolves in the same tick as anything
/// else. A failed load is fatal.
#[derive(Clone, Copy, PartialEq, Eq, Structural, Debug)]
pub struct TextureLoadingFuture {
    pub cell: usize,
}

impl TextureLoadingFuture {
    pub fn poll(&self, cells: &mut Vec<ResourceCell>) -> (r: Poll<Result<Vec<u8>, FatalError>>)
        requires
            self.cell < old(cells)@.len(),
        ensures
            ({
                let pre = cells_view(old(cells)@);
                let post = cells_view(final(cells)@);
                match pre[self.cell as int] {
                    ResourceCellV::Loaded(b) => {
                        &&& r matches Poll::Ready(Ok(v)) && v@ == b
                        &&& post == pre.update(self.cell as int, ResourceCellV::Empty)
                    },
                    ResourceCellV::Failed => {
                        &&& r matches Poll::Ready(Err(FatalError::ResourceUnavailable))
                        &&& post == pre
                    },
                    ResourceCellV::Empty => {
                        &&& r is Pending
                        &&& post == pre
                    },
                }
            }),
    {
        match &cells[self.cell] {
            ResourceCell::Failed => {
                proof {
                    assert(cells_view(cells@) =~= cells_view(old(cells)@));
                }
                return Poll::Ready(Err(FatalError::ResourceUnavailable));
            },
            ResourceCell::Empty => {
                proof {
                    assert(cells_view(cells@) =~= cells_view(old(cells)@));
                }
                return Poll::Pending;
            },
            ResourceCell::Loaded(_) => {},
        }
        let mut slot = ResourceCell::Empty;
        core::mem::swap(&mut slot, &mut cells[self.cell]);
        proof {
            assert(cells_view(cells@) =~= cells_view(old(cells)@).update(
                self.cell as int,
                ResourceCellV::Empty,
            ));
        }
        match slot {
            ResourceCell::Loaded(b) => Poll::Ready(Ok(b)),
            _ => {
                proof {
                    assert(false);
                }
                Poll::Pending
            },
        }
    }
}

} // verus!
