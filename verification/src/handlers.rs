//! What happens when a level or the foreground window changes.
use crate::context::{is_own_write, made_by_proxy, ContextId};
use crate::exchange::{process_of, process_or_none, Call, Machine, Reply};
use crate::foreground::{ForegroundPid, ForegroundPlace, ForegroundScan};
use crate::platform::event_system_foreground;
use crate::scan::{Place, Purpose, Scan};
use crate::volume::Volume;
use vstd::prelude::*;

verus! {

/// Where the handling of a change of the proxy's own level stands.
#[derive(Clone, Copy, Debug, PartialEq, Eq, Structural)]
pub enum ProxyPlace {
    Load,
    Walk(ForegroundScan),
    Write(Volume),
    Store(Volume),
    End,
}

/// Passes a change of the proxy's level on to the process in the foreground.
///
/// The change since the last known level is applied to the sessions of that process, and
/// the proxy's level then follows what came of it.
#[derive(Clone, Copy, Debug, PartialEq, Eq, Structural)]
pub struct ProxyChange {
    /// The level that the proxy was set to.
    pub level: Volume,
    pub place: ProxyPlace,
}

impl ProxyChange {
    /// The handling of a change to `level` by `author`, before its first call.
    pub open spec fn of(author: Option<ContextId>, level: Volume) -> ProxyChange {
        ProxyChange {
            level,
            place: if made_by_proxy(author) {
                ProxyPlace::End
            } else {
                ProxyPlace::Load
            },
        }
    }

    /// The level that the proxy takes once the walk has ended.
    pub open spec fn settled(self, outcome: Option<Volume>) -> Volume {
        match outcome {
            Some(level) => level,
            None => self.level,
        }
    }

    /// Begins to handle a change of the proxy's level.
    pub fn start(author: Option<ContextId>, level: Volume) -> (change: ProxyChange)
        ensures
            change == ProxyChange::of(author, level),
            change.valid(),
    {
        ProxyChange {
            level,
            place: if is_own_write(&author) {
                ProxyPlace::End
            } else {
                ProxyPlace::Load
            },
        }
    }
}

impl Machine for ProxyChange {
    open spec fn valid(self) -> bool {
        match self.place {
            ProxyPlace::Walk(walk) => walk.valid() && !(walk.place is Ended),
            _ => true,
        }
    }

    open spec fn pending(self) -> Option<Call> {
        match self.place {
            ProxyPlace::Load => Some(Call::LoadLevel),
            ProxyPlace::Walk(walk) => walk.pending(),
            ProxyPlace::Write(level) => Some(Call::WriteOwn(level, ContextId::of_own())),
            ProxyPlace::Store(level) => Some(Call::StoreLevel(level)),
            ProxyPlace::End => None,
        }
    }

    open spec fn after(self, reply: Reply) -> ProxyChange {
        let place = match self.place {
            ProxyPlace::Load => match reply {
                Reply::Level(last) => {
                    let delta = self.level.difference(last);
                    if delta.is_negligible() {
                        ProxyPlace::End
                    } else {
                        ProxyPlace::Walk(ForegroundScan::fresh(Purpose::Shift(delta)))
                    }
                },
                _ => ProxyPlace::End,
            },
            ProxyPlace::Walk(walk) => match walk.after(reply).place {
                ForegroundPlace::Ended(outcome) => ProxyPlace::Write(self.settled(outcome)),
                _ => ProxyPlace::Walk(walk.after(reply)),
            },
            // The last known level follows even where the write was refused.
            ProxyPlace::Write(level) => ProxyPlace::Store(level),
            _ => ProxyPlace::End,
        };
        ProxyChange { place, ..self }
    }

    open spec fn rank(self) -> nat {
        match self.place {
            ProxyPlace::Load => ForegroundScan::fresh(Purpose::Find).rank() + 4,
            ProxyPlace::Walk(walk) => walk.rank() + 3,
            ProxyPlace::Write(_) => 2,
            ProxyPlace::Store(_) => 1,
            ProxyPlace::End => 0,
        }
    }

    proof fn progress(self, reply: Reply) {
        if let ProxyPlace::Walk(walk) = self.place {
            walk.progress(reply);
        }
    }

    fn call(&self) -> (call: Option<Call>) {
        match self.place {
            ProxyPlace::Load => Some(Call::LoadLevel),
            ProxyPlace::Walk(walk) => walk.call(),
            ProxyPlace::Write(level) => Some(Call::WriteOwn(level, ContextId::own())),
            ProxyPlace::Store(level) => Some(Call::StoreLevel(level)),
            ProxyPlace::End => None,
        }
    }

    fn advance(self, reply: Reply) -> (next: ProxyChange) {
        proof {
            self.progress(reply);
        }
        let place: ProxyPlace = match (self.place, reply) {
            (ProxyPlace::Load, Reply::Level(last)) => {
                let delta: Volume = self.level.minus(last);
                if delta.negligible() {
                    ProxyPlace::End
                } else {
                    ProxyPlace::Walk(ForegroundScan::start(Purpose::Shift(delta)))
                }
            },
            (ProxyPlace::Walk(walk), _) => {
                let walk: ForegroundScan = walk.advance(reply);
                match walk.outcome() {
                    Some(Some(level)) => ProxyPlace::Write(level),
                    Some(None) => ProxyPlace::Write(self.level),
                    None => ProxyPlace::Walk(walk),
                }
            },
            (ProxyPlace::Write(level), _) => ProxyPlace::Store(level),
            _ => ProxyPlace::End,
        };
        ProxyChange { level: self.level, place }
    }
}

/// Where the handling of a change of an application's level stands.
#[derive(Clone, Copy, Debug, PartialEq, Eq, Structural)]
pub enum AppPlace {
    Source,
    Search { pid: u32, search: ForegroundPid },
    Acquire,
    Load,
    Write,
    Store,
    End,
}

/// Lets the proxy's level follow a change of the level of the process in the foreground.
#[derive(Clone, Copy, Debug, PartialEq, Eq, Structural)]
pub struct AppChange {
    /// The level that the session was set to.
    pub level: Volume,
    pub place: AppPlace,
}

impl AppChange {
    /// The handling of a change to `level` by `author`, before its first call.
    pub open spec fn of(author: Option<ContextId>, level: Volume) -> AppChange {
        AppChange {
            level,
            place: if made_by_proxy(author) {
                AppPlace::End
            } else {
                AppPlace::Source
            },
        }
    }

    /// Begins to handle a change of an application's level.
    pub fn start(author: Option<ContextId>, level: Volume) -> (change: AppChange)
        ensures
            change == AppChange::of(author, level),
            change.valid(),
    {
        AppChange {
            level,
            place: if is_own_write(&author) {
                AppPlace::End
            } else {
                AppPlace::Source
            },
        }
    }
}

impl Machine for AppChange {
    open spec fn valid(self) -> bool {
        match self.place {
            AppPlace::Search { pid, search } => pid != 0 && !(search is Found),
            _ => true,
        }
    }

    open spec fn pending(self) -> Option<Call> {
        match self.place {
            AppPlace::Source => Some(Call::SourceProcess),
            AppPlace::Search { search, .. } => search.pending(),
            AppPlace::Acquire => Some(Call::AcquireProxy),
            AppPlace::Load => Some(Call::LoadLevel),
            AppPlace::Write => Some(Call::WriteOwn(self.level, ContextId::of_own())),
            AppPlace::Store => Some(Call::StoreLevel(self.level)),
            AppPlace::End => None,
        }
    }

    open spec fn after(self, reply: Reply) -> AppChange {
        let place = match self.place {
            AppPlace::Source => if process_or_none(reply) == 0 {
                AppPlace::End
            } else {
                AppPlace::Search { pid: process_or_none(reply), search: ForegroundPid::Window }
            },
            AppPlace::Search { pid, search } => match search.after(reply) {
                ForegroundPid::Found(foreground) => if foreground == pid {
                    AppPlace::Acquire
                } else {
                    AppPlace::End
                },
                other => AppPlace::Search { pid, search: other },
            },
            AppPlace::Acquire => if reply is Done {
                AppPlace::Load
            } else {
                AppPlace::End
            },
            AppPlace::Load => match reply {
                Reply::Level(last) => if self.level.difference(last).is_notable() {
                    AppPlace::Write
                } else {
                    AppPlace::End
                },
                _ => AppPlace::End,
            },
            AppPlace::Write => if reply is Done {
                AppPlace::Store
            } else {
                AppPlace::End
            },
            _ => AppPlace::End,
        };
        AppChange { place, ..self }
    }

    open spec fn rank(self) -> nat {
        match self.place {
            AppPlace::Source => 7,
            AppPlace::Search { search, .. } => search.rank() + 4,
            AppPlace::Acquire => 4,
            AppPlace::Load => 3,
            AppPlace::Write => 2,
            AppPlace::Store => 1,
            AppPlace::End => 0,
        }
    }

    proof fn progress(self, reply: Reply) {
        if let AppPlace::Search { pid, search } = self.place {
            search.progress(reply);
        }
    }

    fn call(&self) -> (call: Option<Call>) {
        match self.place {
            AppPlace::Source => Some(Call::SourceProcess),
            AppPlace::Search { search, .. } => search.call(),
            AppPlace::Acquire => Some(Call::AcquireProxy),
            AppPlace::Load => Some(Call::LoadLevel),
            AppPlace::Write => Some(Call::WriteOwn(self.level, ContextId::own())),
            AppPlace::Store => Some(Call::StoreLevel(self.level)),
            AppPlace::End => None,
        }
    }

    fn advance(self, reply: Reply) -> (next: AppChange) {
        proof {
            self.progress(reply);
        }
        let place: AppPlace = match (self.place, reply) {
            (AppPlace::Source, _) => {
                let pid: u32 = process_of(reply);
                if pid == 0 {
                    AppPlace::End
                } else {
                    AppPlace::Search { pid, search: ForegroundPid::start() }
                }
            },
            (AppPlace::Search { pid, search }, _) => match search.advance(reply) {
                ForegroundPid::Found(foreground) => if foreground == pid {
                    AppPlace::Acquire
                } else {
                    AppPlace::End
                },
                other => AppPlace::Search { pid, search: other },
            },
            (AppPlace::Acquire, Reply::Done) => AppPlace::Load,
            (AppPlace::Load, Reply::Level(last)) => if self.level.minus(last).notable() {
                AppPlace::Write
            } else {
                AppPlace::End
            },
            (AppPlace::Write, Reply::Done) => AppPlace::Store,
            _ => AppPlace::End,
        };
        AppChange { level: self.level, place }
    }
}

/// Where the handling of a window event stands.
#[derive(Clone, Copy, Debug, PartialEq, Eq, Structural)]
pub enum WindowPlace {
    Process,
    Acquire(u32),
    Walk(Scan),
    Load(Volume),
    Write(Volume),
    Store(Volume),
    End,
}

/// Lets the proxy's level follow the process whose window came to the foreground.
#[derive(Clone, Copy, Debug, PartialEq, Eq, Structural)]
pub struct WindowChange {
    pub place: WindowPlace,
}

/// The number of the event that announces a new foreground window.
pub const FOREGROUND_EVENT: u32 = 3;

impl WindowChange {
    /// The handling of a window event, before its first call.
    pub open spec fn of(event: u32, window: bool) -> WindowChange {
        WindowChange {
            place: if event == FOREGROUND_EVENT && window {
                WindowPlace::Process
            } else {
                WindowPlace::End
            },
        }
    }

    /// Begins to handle a window event; `window` tells whether it names a window.
    pub fn start(event: u32, window: bool) -> (change: WindowChange)
        ensures
            change == WindowChange::of(event, window),
            change.valid(),
    {
        WindowChange {
            place: if event != event_system_foreground() || !window {
                WindowPlace::End
            } else {
                WindowPlace::Process
            },
        }
    }
}

impl Machine for WindowChange {
    open spec fn valid(self) -> bool {
        match self.place {
            WindowPlace::Walk(walk) => walk.valid() && walk.place != Place::End,
            _ => true,
        }
    }

    open spec fn pending(self) -> Option<Call> {
        match self.place {
            WindowPlace::Process => Some(Call::WindowProcess),
            WindowPlace::Acquire(_) => Some(Call::AcquireProxy),
            WindowPlace::Walk(walk) => walk.pending(),
            WindowPlace::Load(_) => Some(Call::LoadLevel),
            WindowPlace::Write(level) => Some(Call::WriteOwn(level, ContextId::of_own())),
            WindowPlace::Store(level) => Some(Call::StoreLevel(level)),
            WindowPlace::End => None,
        }
    }

    open spec fn after(self, reply: Reply) -> WindowChange {
        let place = match self.place {
            WindowPlace::Process => if process_or_none(reply) == 0 {
                WindowPlace::End
            } else {
                WindowPlace::Acquire(process_or_none(reply))
            },
            WindowPlace::Acquire(pid) => if reply is Done {
                WindowPlace::Walk(Scan::finding(pid))
            } else {
                WindowPlace::End
            },
            WindowPlace::Walk(walk) => if walk.after(reply).place == Place::End {
                match walk.after(reply).found {
                    Some(level) => WindowPlace::Load(level),
                    None => WindowPlace::End,
                }
            } else {
                WindowPlace::Walk(walk.after(reply))
            },
            WindowPlace::Load(level) => match reply {
                Reply::Level(last) => if level.difference(last).is_notable() {
                    WindowPlace::Write(level)
                } else {
                    WindowPlace::End
                },
                _ => WindowPlace::End,
            },
            WindowPlace::Write(level) => if reply is Done {
                WindowPlace::Store(level)
            } else {
                WindowPlace::End
            },
            _ => WindowPlace::End,
        };
        WindowChange { place }
    }

    open spec fn rank(self) -> nat {
        match self.place {
            WindowPlace::Process => Scan::finding(0).rank() + 6,
            WindowPlace::Acquire(_) => Scan::finding(0).rank() + 5,
            WindowPlace::Walk(walk) => walk.rank() + 4,
            WindowPlace::Load(_) => 3,
            WindowPlace::Write(_) => 2,
            WindowPlace::Store(_) => 1,
            WindowPlace::End => 0,
        }
    }

    proof fn progress(self, reply: Reply) {
        if let WindowPlace::Walk(walk) = self.place {
            walk.progress(reply);
        }
    }

    fn call(&self) -> (call: Option<Call>) {
        match self.place {
            WindowPlace::Process => Some(Call::WindowProcess),
            WindowPlace::Acquire(_) => Some(Call::AcquireProxy),
            WindowPlace::Walk(walk) => walk.call(),
            WindowPlace::Load(_) => Some(Call::LoadLevel),
            WindowPlace::Write(level) => Some(Call::WriteOwn(level, ContextId::own())),
            WindowPlace::Store(level) => Some(Call::StoreLevel(level)),
            WindowPlace::End => None,
        }
    }

    fn advance(self, reply: Reply) -> (next: WindowChange) {
        proof {
            self.progress(reply);
        }
        let place: WindowPlace = match (self.place, reply) {
            (WindowPlace::Process, _) => {
                let pid: u32 = process_of(reply);
                if pid == 0 {
                    WindowPlace::End
                } else {
                    WindowPlace::Acquire(pid)
                }
            },
            (WindowPlace::Acquire(pid), Reply::Done) => WindowPlace::Walk(Scan::find(pid)),
            (WindowPlace::Walk(walk), _) => {
                let walk: Scan = walk.advance(reply);
                if walk.ended() {
                    match walk.found {
                        Some(level) => WindowPlace::Load(level),
                        None => WindowPlace::End,
                    }
                } else {
                    WindowPlace::Walk(walk)
                }
            },
            (WindowPlace::Load(level), Reply::Level(last)) => if level.minus(last).notable() {
                WindowPlace::Write(level)
            } else {
                WindowPlace::End
            },
            (WindowPlace::Write(level), Reply::Done) => WindowPlace::Store(level),
            _ => WindowPlace::End,
        };
        WindowChange { place }
    }
}

} // verus!
