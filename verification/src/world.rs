//! A model of the audio system, for statements about whole runs.
//!
//! The model is that of a run which nothing else interferes with: between two of its
//! calls, only the calls themselves change the world.
use crate::exchange::{Call, Machine, Reply};
use crate::volume::Volume;
use vstd::prelude::*;

verus! {

/// An audio session of the endpoint.
#[verifier::ext_equal]
pub ghost struct Session {
    /// The session can be opened.
    pub opens: bool,
    /// It offers the extended control.
    pub controllable: bool,
    /// Its process, where the session tells.
    pub process: Option<u32>,
    /// It offers a volume control.
    pub adjustable: bool,
    /// Its level, where it can be read.
    pub level: Option<Volume>,
    /// The levels that it accepts.
    pub accepts: Set<Volume>,
}

/// The audio system and what the handlers share, as one run finds them.
#[verifier::ext_equal]
pub ghost struct World {
    /// The process of the window at hand, where there is such a window: the one in the
    /// foreground, or the one that a window event names.
    pub window: Option<u32>,
    /// The process of the session that reported a change, where the session tells.
    pub source: Option<u32>,
    /// The session manager can be activated.
    pub manager: bool,
    /// The manager lists its sessions.
    pub listing: bool,
    /// How many sessions the list claims to hold, where it tells.
    pub count: Option<i32>,
    pub sessions: Seq<Session>,
    /// The proxy's session can be reached.
    pub proxy: bool,
    /// The level of the proxy's session.
    pub own: Volume,
    /// The levels that the proxy's session accepts.
    pub own_accepts: Set<Volume>,
    /// The last known level.
    pub last: Volume,
}

/// The reply to a call that either succeeds or fails.
pub open spec fn success(ok: bool) -> Reply {
    if ok {
        Reply::Done
    } else {
        Reply::Failed
    }
}

impl World {
    /// The reply to a call.
    pub open spec fn reply(self, call: Call) -> Reply {
        match call {
            Call::ForegroundWindow => Reply::Window(self.window is Some),
            Call::WindowProcess => Reply::Process(
                match self.window {
                    Some(pid) => pid,
                    None => 0,
                },
            ),
            Call::SourceProcess => match self.source {
                Some(pid) => Reply::Process(pid),
                None => Reply::Failed,
            },
            Call::ActivateManager(_) => success(self.manager),
            Call::ListSessions => success(self.listing),
            Call::CountSessions => match self.count {
                Some(n) => Reply::Count(n),
                None => Reply::Failed,
            },
            Call::OpenSession(i) => success(self.sessions[i as int].opens),
            Call::OpenControl(i) => success(self.sessions[i as int].controllable),
            Call::SessionProcess(i) => match self.sessions[i as int].process {
                Some(pid) => Reply::Process(pid),
                None => Reply::Failed,
            },
            Call::OpenVolume(i) => success(self.sessions[i as int].adjustable),
            Call::ReadVolume(i) => match self.sessions[i as int].level {
                Some(level) => Reply::Level(level),
                None => Reply::Failed,
            },
            Call::WriteVolume(i, level, _) => success(
                self.sessions[i as int].accepts.contains(level),
            ),
            Call::AcquireProxy => success(self.proxy),
            Call::LoadLevel => Reply::Level(self.last),
            Call::WriteOwn(level, _) => success(self.own_accepts.contains(level)),
            Call::StoreLevel(_) => Reply::Done,
        }
    }

    /// The world after a call.
    pub open spec fn effect(self, call: Call) -> World {
        match call {
            Call::WriteVolume(i, level, _) => if self.sessions[i as int].accepts.contains(level) {
                World {
                    sessions: self.sessions.update(
                        i as int,
                        Session { level: Some(level), ..self.sessions[i as int] },
                    ),
                    ..self
                }
            } else {
                self
            },
            Call::WriteOwn(level, _) => if self.own_accepts.contains(level) {
                World { own: level, ..self }
            } else {
                self
            },
            Call::StoreLevel(level) => World { last: level, ..self },
            _ => self,
        }
    }

    /// How many sessions a walk visits.
    pub open spec fn reach(self) -> int {
        if self.manager && self.listing && self.count is Some && self.count->0 > 0 {
            self.count->0 as int
        } else {
            0
        }
    }

    /// The list claims to hold no more sessions than there are.
    pub open spec fn honest(self) -> bool {
        self.reach() <= self.sessions.len()
    }
}

/// A run of `machine` to its end: its last state, and the world it leaves.
pub open spec fn finish<M: Machine>(machine: M, world: World) -> (M, World)
    decreases machine.rank(),
    when machine.valid()
{
    match machine.pending() {
        None => (machine, world),
        Some(call) => {
            proof {
                machine.progress(world.reply(call));
            }
            finish(machine.after(world.reply(call)), world.effect(call))
        },
    }
}

} // verus!
