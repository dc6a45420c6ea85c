use vstd::prelude::*;

verus! {

/// How the network loop ended.
#[derive(Debug, Clone, Copy, PartialEq, Eq, Structural)]
pub enum ServerOutcome {
    /// The listener was closed on purpose: a deliberate stop.
    Stopped,
    /// Accepting or notifying failed.
    Failed,
}

/// Why the process shuts down.
#[derive(Debug, Clone, Copy, PartialEq, Eq, Structural)]
pub enum ShutdownReason {
    /// The user chose "Exit" from the menu.
    UserRequestedExit,
    /// The network loop ended.
    ServerLoopEnded(ServerOutcome),
}

/// The signal after a raise: the first reason raised is kept.
pub open spec fn raise_spec(
    signal: Option<ShutdownReason>,
    reason: ShutdownReason,
) -> Option<ShutdownReason> {
    if signal is None {
        Some(reason)
    } else {
        signal
    }
}

/// The signal after raising each reason in turn.
pub open spec fn raise_all(
    signal: Option<ShutdownReason>,
    reasons: Seq<ShutdownReason>,
) -> Option<ShutdownReason>
    decreases reasons.len(),
{
    if reasons.len() == 0 {
        signal
    } else {
        raise_all(raise_spec(signal, reasons[0]), reasons.drop_first())
    }
}

/// A one-shot signal that both contexts share: written at most once, read
/// any number of times.
pub struct ShutdownSignal {
    reason: Option<ShutdownReason>,
}

impl View for ShutdownSignal {
    type V = Option<ShutdownReason>;

    closed spec fn view(&self) -> Option<ShutdownReason> {
        self.reason
    }
}

impl ShutdownSignal {
    /// A signal that has not been raised.
    pub fn new() -> (s: ShutdownSignal)
        ensures
            s@ is None,
    {
        ShutdownSignal { reason: None }
    }

    /// Raises the signal with `reason` unless it was raised before; returns
    /// whether this call was the one that raised it.
    pub fn raise(&mut self, reason: ShutdownReason) -> (first: bool)
        ensures
            final(self)@ == raise_spec(old(self)@, reason),
            first == (old(self)@ is None),
    {
        if self.reason.is_none() {
            self.reason = Some(reason);
            true
        } else {
            false
        }
    }

    /// The reason that the signal was raised with, if it was.
    pub fn observe(&self) -> (r: Option<ShutdownReason>)
        ensures
            r == self@,
    {
        self.reason
    }

    /// Whether the signal was raised.
    pub fn is_raised(&self) -> (r: bool)
        ensures
            r == (self@ is Some),
    {
        self.reason.is_some()
    }
}

/// The signal is write-once: after a first raise, any further raises, with
/// the same reason or others, leave the first reason in place.
pub proof fn lemma_raise_write_once(first: ShutdownReason, later: Seq<ShutdownReason>)
    ensures
        raise_all(raise_spec(None, first), later) == Some(first),
    decreases later.len(),
{
    if later.len() > 0 {
        lemma_raise_write_once(first, later.drop_first());
    }
}

/// How a run of the process ended.
#[derive(Debug, Clone, Copy, PartialEq, Eq, Structural)]
pub enum Termination {
    /// Setting up failed (address, port, listener or menu), before any loop ran.
    StartupFailed,
    /// The user-interface loop failed.
    UiFailed,
    /// The user-interface loop returned; the signal held this reason.
    Finished(Option<ShutdownReason>),
}

/// The exit status of the process: zero for a clean exit, one otherwise.
pub open spec fn exit_code_spec(t: Termination) -> i32 {
    match t {
        Termination::Finished(Some(ShutdownReason::ServerLoopEnded(ServerOutcome::Failed))) => 1,
        Termination::Finished(_) => 0,
        _ => 1,
    }
}

/// The exit status of the process.
pub fn exit_code(t: Termination) -> (code: i32)
    ensures
        code == exit_code_spec(t),
{
    match t {
        Termination::Finished(Some(ShutdownReason::ServerLoopEnded(ServerOutcome::Failed))) => 1,
        Termination::Finished(_) => 0,
        _ => 1,
    }
}

} // verus!
