//! The decisions of a record session: when to capture, when to write, and
//! when to stop the background playback. The caller performs each action on
//! the devices and reports back what happened.
use vstd::prelude::*;

verus! {

/// Where a capture session stands.
#[derive(PartialEq, Eq, Structural, Clone, Copy, Debug)]
pub enum Phase {
    /// Before both loops have passed the start barrier.
    Idle,
    /// Reading buffers and dropping them until one is active.
    WaitingForSound,
    /// Writing each captured buffer to the sink.
    Recording,
    /// The playback loop has been told to stop; waiting for it to end.
    Stopping,
    /// The session is over.
    Done,
}

/// What happened since the last step.
#[derive(PartialEq, Eq, Structural, Clone, Copy, Debug)]
pub enum Event {
    /// Both loops have passed the start barrier.
    BarrierReleased,
    /// A full buffer has been read from the input device and classified.
    Captured { silent: bool },
    /// The buffer held has been written to the sink, and was classified.
    Written { silent: bool },
    /// The playback loop has ended.
    PlaybackJoined,
}

/// What the caller should do next.
#[derive(PartialEq, Eq, Structural, Clone, Copy, Debug)]
pub enum Action {
    /// Read a full buffer from the input device into the capture buffer.
    Capture,
    /// Write the capture buffer to the sink.
    Write,
    /// Send the stop signal to the playback loop and wait for it to end.
    Cancel,
    /// The session is over.
    Finish,
    /// The event does not apply to this phase: nothing to do.
    Ignore,
}

/// The transition of a capture session on one event.
pub open spec fn next(phase: Phase, event: Event) -> (Phase, Action) {
    match (phase, event) {
        (Phase::Idle, Event::BarrierReleased) => (Phase::WaitingForSound, Action::Capture),
        (Phase::WaitingForSound, Event::Captured { silent }) => if silent {
            (Phase::WaitingForSound, Action::Capture)
        } else {
            (Phase::Recording, Action::Write)
        },
        (Phase::Recording, Event::Captured { .. }) => (Phase::Recording, Action::Write),
        (Phase::Recording, Event::Written { silent }) => if silent {
            (Phase::Stopping, Action::Cancel)
        } else {
            (Phase::Recording, Action::Capture)
        },
        (Phase::Stopping, Event::PlaybackJoined) => (Phase::Done, Action::Finish),
        _ => (phase, Action::Ignore),
    }
}

/// Advance `phase` on `event` and return what to do next.
pub fn step(phase: &mut Phase, event: Event) -> (r: Action)
    ensures
        (*final(phase), r) == next(*old(phase), event),
{
    let (p, a) = match (*phase, event) {
        (Phase::Idle, Event::BarrierReleased) => (Phase::WaitingForSound, Action::Capture),
        (Phase::WaitingForSound, Event::Captured { silent }) => if silent {
            (Phase::WaitingForSound, Action::Capture)
        } else {
            (Phase::Recording, Action::Write)
        },
        (Phase::Recording, Event::Captured { .. }) => (Phase::Recording, Action::Write),
        (Phase::Recording, Event::Written { silent }) => if silent {
            (Phase::Stopping, Action::Cancel)
        } else {
            (Phase::Recording, Action::Capture)
        },
        (Phase::Stopping, Event::PlaybackJoined) => (Phase::Done, Action::Finish),
        _ => (*phase, Action::Ignore),
    };
    *phase = p;
    a
}

/// The phase reached from `phase` after `events`, in order.
pub open spec fn run(phase: Phase, events: Seq<Event>) -> Phase
    decreases events.len(),
{
    if events.len() == 0 {
        phase
    } else {
        run(next(phase, events[0]).0, events.drop_first())
    }
}

/// The number of `Cancel` actions issued from `phase` over `events`.
pub open spec fn cancels(phase: Phase, events: Seq<Event>) -> nat
    decreases events.len(),
{
    if events.len() == 0 {
        0
    } else {
        let (p, a) = next(phase, events[0]);
        (if a == Action::Cancel { 1nat } else { 0nat }) + cancels(p, events.drop_first())
    }
}

/// The number of `Write` actions issued from `phase` over `events`.
pub open spec fn writes(phase: Phase, events: Seq<Event>) -> nat
    decreases events.len(),
{
    if events.len() == 0 {
        0
    } else {
        let (p, a) = next(phase, events[0]);
        (if a == Action::Write { 1nat } else { 0nat }) + writes(p, events.drop_first())
    }
}

/// Whether a phase comes after the playback loop was told to stop.
pub open spec fn is_stopped(phase: Phase) -> bool {
    phase == Phase::Stopping || phase == Phase::Done
}

/// Whatever events arrive, a session tells the playback loop to stop at most
/// once, and never once it has done so; after that it writes nothing more.
pub proof fn lemma_cancel_at_most_once(phase: Phase, events: Seq<Event>)
    ensures
        cancels(phase, events) <= 1,
        is_stopped(phase) ==> cancels(phase, events) == 0,
        is_stopped(phase) ==> writes(phase, events) == 0,
        is_stopped(phase) ==> is_stopped(run(phase, events)),
        cancels(phase, events) == 1 ==> is_stopped(run(phase, events)),
    decreases events.len(),
{
    if events.len() > 0 {
        lemma_cancel_at_most_once(next(phase, events[0]).0, events.drop_first());
    }
}

/// While sound has not started, every buffer captured is dropped: a run of
/// silent captures leaves the session waiting and writes nothing.
pub proof fn lemma_leading_silence_not_written(events: Seq<Event>)
    requires
        forall|i: int| 0 <= i < events.len() ==> #[trigger] events[i] == (Event::Captured {
            silent: true,
        }),
    ensures
        writes(Phase::WaitingForSound, events) == 0,
        cancels(Phase::WaitingForSound, events) == 0,
        run(Phase::WaitingForSound, events) == Phase::WaitingForSound,
    decreases events.len(),
{
    if events.len() > 0 {
        let rest = events.drop_first();
        assert forall|i: int| 0 <= i < rest.len() implies #[trigger] rest[i] == (Event::Captured {
            silent: true,
        }) by {
            assert(rest[i] == events[i + 1]);
        }
        assert(events[0] == Event::Captured { silent: true });
        lemma_leading_silence_not_written(rest);
    }
}

/// What the playback loop learns when it polls its stop channel after a pass.
#[derive(PartialEq, Eq, Structural, Clone, Copy, Debug)]
pub enum StopPoll {
    /// The stop signal has arrived.
    Signalled,
    /// The sending side is gone.
    Disconnected,
    /// Nothing has arrived yet.
    Empty,
}

/// Whether the playback loop plays the clip once more after a poll: only
/// while no stop signal has arrived and the sender is still there.
pub fn keep_playing(poll: StopPoll) -> (r: bool)
    ensures
        r == (poll == StopPoll::Empty),
{
    match poll {
        StopPoll::Empty => true,
        StopPoll::Signalled | StopPoll::Disconnected => false,
    }
}

} // verus!
