//! The process in the foreground and its level.
use crate::exchange::{process_of, process_or_none, Call, Machine, Reply};
use crate::scan::{Place, Purpose, Scan};
use crate::volume::Volume;
use vstd::prelude::*;

verus! {

/// Finds the process that owns the foreground window.
#[derive(Clone, Copy, Debug, PartialEq, Eq, Structural)]
pub enum ForegroundPid {
    /// The foreground window is looked up.
    Window,
    /// The process of that window is looked up.
    Process,
    /// The process is known; 0 stands for none.
    Found(u32),
}

impl ForegroundPid {
    /// Begins the search.
    pub fn start() -> (search: ForegroundPid)
        ensures
            search == ForegroundPid::Window,
    {
        ForegroundPid::Window
    }
}

impl Machine for ForegroundPid {
    open spec fn valid(self) -> bool {
        true
    }

    open spec fn pending(self) -> Option<Call> {
        match self {
            ForegroundPid::Window => Some(Call::ForegroundWindow),
            ForegroundPid::Process => Some(Call::WindowProcess),
            ForegroundPid::Found(_) => None,
        }
    }

    open spec fn after(self, reply: Reply) -> ForegroundPid {
        match self {
            ForegroundPid::Window => if reply == Reply::Window(true) {
                ForegroundPid::Process
            } else {
                ForegroundPid::Found(0)
            },
            _ => ForegroundPid::Found(process_or_none(reply)),
        }
    }

    open spec fn rank(self) -> nat {
        match self {
            ForegroundPid::Window => 2,
            ForegroundPid::Process => 1,
            ForegroundPid::Found(_) => 0,
        }
    }

    proof fn progress(self, reply: Reply) {
    }

    fn call(&self) -> (call: Option<Call>) {
        match self {
            ForegroundPid::Window => Some(Call::ForegroundWindow),
            ForegroundPid::Process => Some(Call::WindowProcess),
            ForegroundPid::Found(_) => None,
        }
    }

    fn advance(self, reply: Reply) -> (next: ForegroundPid) {
        match (self, reply) {
            (ForegroundPid::Window, Reply::Window(true)) => ForegroundPid::Process,
            (ForegroundPid::Window, _) => ForegroundPid::Found(0),
            _ => ForegroundPid::Found(process_of(reply)),
        }
    }
}

/// Where a walk through the sessions of the foreground process stands.
#[derive(Clone, Copy, Debug, PartialEq, Eq, Structural)]
pub enum ForegroundPlace {
    /// The process is searched for.
    Search(ForegroundPid),
    /// Its sessions are walked through.
    Walk(Scan),
    /// The walk has ended with this level, or without one.
    Ended(Option<Volume>),
}

/// A walk through the sessions of the process in the foreground.
#[derive(Clone, Copy, Debug, PartialEq, Eq, Structural)]
pub struct ForegroundScan {
    pub purpose: Purpose,
    pub place: ForegroundPlace,
}

impl ForegroundScan {
    /// A walk that has not begun.
    pub open spec fn fresh(purpose: Purpose) -> ForegroundScan {
        ForegroundScan { purpose, place: ForegroundPlace::Search(ForegroundPid::Window) }
    }

    /// The walk through the sessions of process `pid`.
    pub open spec fn walk(purpose: Purpose, pid: u32) -> Scan {
        Scan { pid, purpose, place: Place::Activate, found: None }
    }

    /// Begins a walk.
    pub fn start(purpose: Purpose) -> (walk: ForegroundScan)
        ensures
            walk == ForegroundScan::fresh(purpose),
            walk.valid(),
    {
        ForegroundScan { purpose, place: ForegroundPlace::Search(ForegroundPid::start()) }
    }

    /// Tells how the walk ended, once it has.
    pub fn outcome(&self) -> (outcome: Option<Option<Volume>>)
        ensures
            outcome == (match self.place {
                ForegroundPlace::Ended(level) => Some(level),
                _ => None,
            }),
    {
        match self.place {
            ForegroundPlace::Ended(level) => Some(level),
            _ => None,
        }
    }
}

impl Machine for ForegroundScan {
    open spec fn valid(self) -> bool {
        match self.place {
            ForegroundPlace::Search(search) => !(search is Found),
            ForegroundPlace::Walk(walk) => walk.valid() && walk.place != Place::End,
            ForegroundPlace::Ended(_) => true,
        }
    }

    open spec fn pending(self) -> Option<Call> {
        match self.place {
            ForegroundPlace::Search(search) => search.pending(),
            ForegroundPlace::Walk(walk) => walk.pending(),
            ForegroundPlace::Ended(_) => None,
        }
    }

    open spec fn after(self, reply: Reply) -> ForegroundScan {
        let place = match self.place {
            ForegroundPlace::Search(search) => match search.after(reply) {
                ForegroundPid::Found(pid) => if pid == 0 {
                    ForegroundPlace::Ended(None)
                } else {
                    ForegroundPlace::Walk(Self::walk(self.purpose, pid))
                },
                other => ForegroundPlace::Search(other),
            },
            ForegroundPlace::Walk(walk) => if walk.after(reply).place == Place::End {
                ForegroundPlace::Ended(walk.after(reply).found)
            } else {
                ForegroundPlace::Walk(walk.after(reply))
            },
            ended => ended,
        };
        ForegroundScan { place, ..self }
    }

    open spec fn rank(self) -> nat {
        match self.place {
            ForegroundPlace::Search(search) => search.rank() + 6 * i32::MAX as nat + 4,
            ForegroundPlace::Walk(walk) => walk.rank() + 1,
            ForegroundPlace::Ended(_) => 0,
        }
    }

    proof fn progress(self, reply: Reply) {
        match self.place {
            ForegroundPlace::Search(search) => {
                search.progress(reply);
            },
            ForegroundPlace::Walk(walk) => {
                walk.progress(reply);
            },
            ForegroundPlace::Ended(_) => {},
        }
    }

    fn call(&self) -> (call: Option<Call>) {
        match self.place {
            ForegroundPlace::Search(search) => search.call(),
            ForegroundPlace::Walk(walk) => walk.call(),
            ForegroundPlace::Ended(_) => None,
        }
    }

    fn advance(self, reply: Reply) -> (next: ForegroundScan) {
        proof {
            self.progress(reply);
        }
        let place: ForegroundPlace = match self.place {
            ForegroundPlace::Search(search) => match search.advance(reply) {
                ForegroundPid::Found(pid) => if pid == 0 {
                    ForegroundPlace::Ended(None)
                } else {
                    ForegroundPlace::Walk(
                        match self.purpose {
                            Purpose::Find => Scan::find(pid),
                            Purpose::Shift(delta) => Scan::shift(pid, delta),
                        },
                    )
                },
                other => ForegroundPlace::Search(other),
            },
            ForegroundPlace::Walk(walk) => {
                let walk: Scan = walk.advance(reply);
                if walk.ended() {
                    ForegroundPlace::Ended(walk.found)
                } else {
                    ForegroundPlace::Walk(walk)
                }
            },
            ForegroundPlace::Ended(level) => ForegroundPlace::Ended(level),
        };
        ForegroundScan { purpose: self.purpose, place }
    }
}

} // verus!
