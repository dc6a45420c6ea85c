use vstd::prelude::*;
use crate::extract::{extract_spec, string_views};
use crate::frame::{frame_of, RawFrame};
use crate::shutdown::ServerOutcome;

verus! {

/// What one read from an accepted connection gave.
#[derive(Debug, Clone, PartialEq, Eq)]
pub enum ReadOutcome {
    /// The bytes that were read (at most one buffer's worth is kept).
    Received(Vec<u8>),
    /// The peer closed the connection before sending anything more.
    PeerClosed,
    /// The read failed otherwise.
    Failed,
}

/// What happened in the network loop since its last step.
#[derive(Debug, Clone, PartialEq, Eq)]
pub enum ServerEvent {
    /// A connection was accepted and read from.
    Read(ReadOutcome),
    /// Accepting failed; `listener_closed` tells whether the listener had
    /// been closed on purpose.
    AcceptFailed { listener_closed: bool },
    /// The notification surface failed to show a message.
    ShowFailed,
}

/// What the network loop does next.
#[derive(Debug, Clone, PartialEq, Eq)]
pub enum ServerStep {
    /// Show these lines, then accept the next connection.
    Show(Vec<String>),
    /// Drop this connection and accept the next one.
    Continue,
    /// Leave the loop with this outcome.
    End(ServerOutcome),
}

/// The events that end the network loop.
pub open spec fn ends_server_loop(e: ServerEvent) -> bool {
    e is AcceptFailed || e is ShowFailed
}

/// What the network loop does on `event`. A connection that delivered
/// well-formed text is shown, also when it is empty; one whose text is not
/// valid UTF-8, or whose read failed, is skipped; the loop goes on. A failed
/// accept ends the loop: as a deliberate stop where the listener was closed,
/// as a failure otherwise. A failure to show a message ends it as a failure.
pub fn server_step(event: ServerEvent) -> (r: ServerStep)
    ensures
        (r is End) == ends_server_loop(event),
        match event {
            ServerEvent::Read(ReadOutcome::Received(bytes)) => match extract_spec(
                frame_of(bytes@),
            ) {
                Ok(lines) => r matches ServerStep::Show(shown) && string_views(shown@) == lines,
                Err(_) => r is Continue,
            },
            ServerEvent::Read(ReadOutcome::PeerClosed) => r matches ServerStep::Show(shown)
                && shown@.len() == 0,
            ServerEvent::Read(ReadOutcome::Failed) => r is Continue,
            ServerEvent::AcceptFailed { listener_closed } => r == ServerStep::End(
                if listener_closed {
                    ServerOutcome::Stopped
                } else {
                    ServerOutcome::Failed
                },
            ),
            ServerEvent::ShowFailed => r == ServerStep::End(ServerOutcome::Failed),
        },
{
    match event {
        ServerEvent::Read(ReadOutcome::Received(bytes)) => {
            let frame = RawFrame::from_received(bytes.as_slice());
            match frame.message() {
                Ok(lines) => ServerStep::Show(lines),
                Err(_) => ServerStep::Continue,
            }
        },
        ServerEvent::Read(ReadOutcome::PeerClosed) => ServerStep::Show(Vec::new()),
        ServerEvent::Read(ReadOutcome::Failed) => ServerStep::Continue,
        ServerEvent::AcceptFailed { listener_closed } => {
            if listener_closed {
                ServerStep::End(ServerOutcome::Stopped)
            } else {
                ServerStep::End(ServerOutcome::Failed)
            }
        },
        ServerEvent::ShowFailed => ServerStep::End(ServerOutcome::Failed),
    }
}

/// The number of steps the network loop takes on `events` before the step
/// that ends it (the length of `events` where none does).
pub open spec fn server_steps_before_end(events: Seq<ServerEvent>) -> nat
    decreases events.len(),
{
    if events.len() == 0 || ends_server_loop(events[0]) {
        0
    } else {
        1 + server_steps_before_end(events.drop_first())
    }
}

/// Once the listener is closed from outside, the next accept fails; the
/// network loop then ends at that event at the latest, and it is the first
/// event that ends it.
pub proof fn lemma_server_stops_after_close(events: Seq<ServerEvent>, j: int)
    requires
        0 <= j < events.len(),
        events[j] == (ServerEvent::AcceptFailed { listener_closed: true }),
    ensures
        server_steps_before_end(events) <= j,
        ends_server_loop(events[server_steps_before_end(events) as int]),
        forall|k: int| 0 <= k < server_steps_before_end(events) ==> !ends_server_loop(events[k]),
    decreases j,
{
    if !ends_server_loop(events[0]) {
        let rest = events.drop_first();
        lemma_server_stops_after_close(rest, j - 1);
        assert forall|k: int| 0 <= k < server_steps_before_end(events) implies !ends_server_loop(
            events[k],
        ) by {
            if k > 0 {
                assert(events[k] == rest[k - 1]);
            }
        }
    }
}

} // verus!
