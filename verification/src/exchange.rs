//! How decisions and the audio system talk to each other.
//!
//! A [`Machine`] names the next call to make; whoever runs it makes the call and hands
//! the reply back. Nothing here touches the audio system.
use crate::context::ContextId;
use crate::volume::Volume;
use vstd::prelude::*;

verus! {

/// The mask of all places where an object of the audio system may run.
pub const ANYWHERE: u32 = 23;

/// A call into the window manager, the audio system or the state shared by the handlers.
#[derive(Clone, Copy, Debug, PartialEq, Eq)]
pub enum Call {
    /// Look up the foreground window.
    ForegroundWindow,
    /// Look up the process that owns the window at hand.
    WindowProcess,
    /// Look up the process of the session that reported the change.
    SourceProcess,
    /// Activate the session manager of the endpoint, in one of these places.
    ActivateManager(u32),
    /// Ask the manager for the list of its sessions.
    ListSessions,
    /// Ask how many sessions the list holds.
    CountSessions,
    /// Open a session of the list.
    OpenSession(i32),
    /// Obtain the extended control of the session.
    OpenControl(i32),
    /// Ask for the process of the session.
    SessionProcess(i32),
    /// Obtain the volume control of the session.
    OpenVolume(i32),
    /// Read the level of the session.
    ReadVolume(i32),
    /// Set the level of the session, marked with its author where one is given.
    WriteVolume(i32, Volume, Option<ContextId>),
    /// Take hold of the proxy's session, if there is one.
    AcquireProxy,
    /// Load the last known level.
    LoadLevel,
    /// Set the level of the proxy's session, marked with this author.
    WriteOwn(Volume, ContextId),
    /// Store the last known level.
    StoreLevel(Volume),
}

/// What came of a call.
#[derive(Clone, Copy, Debug, PartialEq, Eq, Structural)]
pub enum Reply {
    /// The call failed.
    Failed,
    /// The call succeeded and returned nothing.
    Done,
    /// Whether there is such a window.
    Window(bool),
    /// A number of sessions.
    Count(i32),
    /// A process identifier; 0 stands for none.
    Process(u32),
    /// A level.
    Level(Volume),
}

/// `reply` is of the kind that `call` gives.
pub open spec fn answers(call: Call, reply: Reply) -> bool {
    match call {
        Call::ForegroundWindow => reply is Window,
        Call::WindowProcess => reply is Process,
        Call::SourceProcess | Call::SessionProcess(_) => reply is Process || reply is Failed,
        Call::CountSessions => reply is Count || reply is Failed,
        Call::ReadVolume(_) => reply is Level || reply is Failed,
        Call::LoadLevel => reply is Level,
        Call::StoreLevel(_) => reply is Done,
        _ => reply is Done || reply is Failed,
    }
}

/// The process that a reply names, where a failure names none.
pub open spec fn process_or_none(reply: Reply) -> u32 {
    match reply {
        Reply::Process(pid) => pid,
        _ => 0,
    }
}

/// Reads the process out of a reply.
pub(crate) fn process_of(reply: Reply) -> (pid: u32)
    ensures
        pid == process_or_none(reply),
{
    match reply {
        Reply::Process(pid) => pid,
        _ => 0,
    }
}

/// A course of action that proceeds from reply to reply and comes to an end.
pub trait Machine: Sized {
    /// The state is one that a run can be in.
    spec fn valid(self) -> bool;

    /// The call to make next; none once the course has ended.
    spec fn pending(self) -> Option<Call>;

    /// The state that a reply leads to.
    spec fn after(self, reply: Reply) -> Self;

    /// A bound on the number of calls still to be made.
    spec fn rank(self) -> nat;

    /// Every reply brings the end closer.
    proof fn progress(self, reply: Reply)
        requires
            self.valid(),
            self.pending() matches Some(call) && answers(call, reply),
        ensures
            self.after(reply).valid(),
            self.after(reply).rank() < self.rank(),
    ;

    /// Names the call to make next.
    fn call(&self) -> (call: Option<Call>)
        ensures
            call == self.pending(),
    ;

    /// Takes the reply to the pending call.
    fn advance(self, reply: Reply) -> (next: Self)
        requires
            self.valid(),
            self.pending() matches Some(call) && answers(call, reply),
        ensures
            next == self.after(reply),
            next.valid(),
    ;
}

} // verus!
