//! The frame synchronisation flag shared by the vsync interrupt and the main
//! loop, as a two-state machine.
use vstd::prelude::*;

verus! {

/// State of the flag shared by the vsync interrupt and the main loop.
#[derive(Clone, Copy, Debug, PartialEq, Eq, Structural)]
pub enum SyncFlag {
    /// The last composed frame is on screen; the main loop waits for vsync.
    Presented,
    /// Vsync arrived: the main loop may compose the next frame.
    PendingPresent,
}

impl SyncFlag {
    /// The flag at startup.
    pub fn new() -> (r: SyncFlag)
        ensures
            r == SyncFlag::Presented,
    {
        SyncFlag::Presented
    }

    /// The flag as the boolean stored between the two contexts.
    pub fn is_pending(self) -> (r: bool)
        ensures
            r == (self == SyncFlag::PendingPresent),
    {
        match self {
            SyncFlag::Presented => false,
            SyncFlag::PendingPresent => true,
        }
    }

    /// The flag stored as a boolean, read back.
    pub fn from_pending(pending: bool) -> (r: SyncFlag)
        ensures
            pending == (r == SyncFlag::PendingPresent),
    {
        if pending {
            SyncFlag::PendingPresent
        } else {
            SyncFlag::Presented
        }
    }

    /// The interrupt's step on vsync: from `Presented` the flag moves to
    /// `PendingPresent` and the buffers are to be swapped when double buffering
    /// is on; from `PendingPresent` the tick is dropped and nothing changes.
    pub fn on_vsync(self, double_buffer: bool) -> (r: (SyncFlag, bool))
        ensures
            r.0 == SyncFlag::PendingPresent,
            r.1 == (self == SyncFlag::Presented && double_buffer),
    {
        match self {
            SyncFlag::Presented => (SyncFlag::PendingPresent, double_buffer),
            SyncFlag::PendingPresent => (SyncFlag::PendingPresent, false),
        }
    }

    /// Whether the main loop may compose a frame now.
    pub fn may_compose(self) -> (r: bool)
        ensures
            r == (self == SyncFlag::PendingPresent),
    {
        self.is_pending()
    }

    /// The main loop's step after it has composed a frame.
    pub fn frame_done(self) -> (r: SyncFlag)
        requires
            self == SyncFlag::PendingPresent,
        ensures
            r == SyncFlag::Presented,
    {
        SyncFlag::Presented
    }
}

/// An event seen by the synchronisation protocol.
pub enum SyncEvent {
    /// The vsync interrupt fired.
    Vsync,
    /// The main loop looked at the flag (and, if permitted, composed a frame).
    MainPoll,
}

/// The protocol's state together with a count of the flag's transitions to
/// `PendingPresent` and of the frames composed.
pub struct SyncTrace {
    pub flag: SyncFlag,
    pub pending_transitions: nat,
    pub compositions: nat,
}

/// One event of the protocol: vsync raises a `Presented` flag; the main loop
/// composes one frame, then clears the flag, exactly when the flag is raised.
pub open spec fn sync_step(t: SyncTrace, e: SyncEvent) -> SyncTrace {
    match e {
        SyncEvent::Vsync => if t.flag == SyncFlag::Presented {
            SyncTrace {
                flag: SyncFlag::PendingPresent,
                pending_transitions: t.pending_transitions + 1,
                ..t
            }
        } else {
            t
        },
        SyncEvent::MainPoll => if t.flag == SyncFlag::PendingPresent {
            SyncTrace { flag: SyncFlag::Presented, compositions: t.compositions + 1, ..t }
        } else {
            t
        },
    }
}

/// The protocol after a sequence of events, from startup.
pub open spec fn sync_run(events: Seq<SyncEvent>) -> SyncTrace
    decreases events.len(),
{
    if events.len() == 0 {
        SyncTrace { flag: SyncFlag::Presented, pending_transitions: 0, compositions: 0 }
    } else {
        sync_step(sync_run(events.drop_last()), events.last())
    }
}

/// Over every sequence of events: no frame is composed while the flag is
/// `Presented`, each transition to `PendingPresent` is followed by exactly one
/// composition before vsync can raise the flag again, and no transition is
/// composed twice.
pub proof fn lemma_one_composition_per_vsync(events: Seq<SyncEvent>)
    ensures
        sync_run(events).pending_transitions == sync_run(events).compositions + if sync_run(
            events,
        ).flag == SyncFlag::PendingPresent {
            1int
        } else {
            0int
        },
        sync_run(events).flag == SyncFlag::Presented ==> sync_step(
            sync_run(events),
            SyncEvent::MainPoll,
        ).compositions == sync_run(events).compositions,
        sync_run(events).flag == SyncFlag::PendingPresent ==> sync_step(
            sync_run(events),
            SyncEvent::Vsync,
        ).pending_transitions == sync_run(events).pending_transitions,
    decreases events.len(),
{
    if events.len() > 0 {
        lemma_one_composition_per_vsync(events.drop_last());
    }
}

} // verus!
