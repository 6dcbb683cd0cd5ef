//! Walks through the audio sessions of the endpoint.
use crate::exchange::{process_of, process_or_none, Call, Machine, Reply, ANYWHERE};
use crate::platform::clsctx_all;
use crate::volume::Volume;
use vstd::prelude::*;

verus! {

/// What a walk is for.
#[derive(Clone, Copy, Debug, PartialEq, Eq, Structural)]
pub enum Purpose {
    /// Read the level of the first session of the process that has one.
    Find,
    /// Move the level of every session of the process by this much.
    Shift(Volume),
}

/// Where a walk stands. `i` is the session at hand, `n` the number of sessions.
#[derive(Clone, Copy, Debug, PartialEq, Eq, Structural)]
pub enum Place {
    Activate,
    List,
    Count,
    Open { i: i32, n: i32 },
    Control { i: i32, n: i32 },
    Process { i: i32, n: i32 },
    Volume { i: i32, n: i32 },
    Read { i: i32, n: i32 },
    Write { i: i32, n: i32, level: Volume },
    End,
}

/// A walk through the sessions in search of those of one process.
#[derive(Clone, Copy, Debug, PartialEq, Eq, Structural)]
pub struct Scan {
    /// The process whose sessions are sought.
    pub pid: u32,
    pub purpose: Purpose,
    pub place: Place,
    /// The level found, or the last one set.
    pub found: Option<Volume>,
}

/// The session after session `i`, or the end of the walk.
pub open spec fn following(i: i32, n: i32) -> Place {
    if i + 1 < n {
        Place::Open { i: (i + 1) as i32, n }
    } else {
        Place::End
    }
}

fn next_session(i: i32, n: i32) -> (place: Place)
    requires
        0 <= i < n,
    ensures
        place == following(i, n),
{
    if i + 1 < n {
        Place::Open { i: i + 1, n }
    } else {
        Place::End
    }
}

impl Scan {
    /// A walk that reads the level of a process.
    pub open spec fn finding(pid: u32) -> Scan {
        Scan { pid, purpose: Purpose::Find, place: Place::Activate, found: None }
    }

    /// A walk that moves the level of a process.
    pub open spec fn shifting(pid: u32, delta: Volume) -> Scan {
        Scan { pid, purpose: Purpose::Shift(delta), place: Place::Activate, found: None }
    }

    /// Begins a walk that reads the level of a process.
    pub fn find(pid: u32) -> (scan: Scan)
        ensures
            scan == Scan::finding(pid),
            scan.valid(),
    {
        Scan { pid, purpose: Purpose::Find, place: Place::Activate, found: None }
    }

    /// Begins a walk that moves the level of a process.
    pub fn shift(pid: u32, delta: Volume) -> (scan: Scan)
        ensures
            scan == Scan::shifting(pid, delta),
            scan.valid(),
    {
        Scan { pid, purpose: Purpose::Shift(delta), place: Place::Activate, found: None }
    }

    /// The walk at another place.
    pub open spec fn at(self, place: Place) -> Scan {
        Scan { place, ..self }
    }

    /// Tells whether the walk has ended.
    pub fn ended(&self) -> (ended: bool)
        ensures
            ended == (self.place == Place::End),
    {
        matches!(self.place, Place::End)
    }
}

impl Machine for Scan {
    open spec fn valid(self) -> bool {
        match self.place {
            Place::Open { i, n }
            | Place::Control { i, n }
            | Place::Process { i, n }
            | Place::Volume { i, n }
            | Place::Read { i, n } => 0 <= i < n,
            Place::Write { i, n, .. } => 0 <= i < n,
            _ => true,
        }
    }

    open spec fn pending(self) -> Option<Call> {
        match self.place {
            Place::Activate => Some(Call::ActivateManager(ANYWHERE)),
            Place::List => Some(Call::ListSessions),
            Place::Count => Some(Call::CountSessions),
            Place::Open { i, n } => Some(Call::OpenSession(i)),
            Place::Control { i, n } => Some(Call::OpenControl(i)),
            Place::Process { i, n } => Some(Call::SessionProcess(i)),
            Place::Volume { i, n } => Some(Call::OpenVolume(i)),
            Place::Read { i, n } => Some(Call::ReadVolume(i)),
            Place::Write { i, n, level } => Some(Call::WriteVolume(i, level, None)),
            Place::End => None,
        }
    }

    open spec fn after(self, reply: Reply) -> Scan {
        match self.place {
            Place::Activate => self.at(
                if reply is Done {
                    Place::List
                } else {
                    Place::End
                },
            ),
            Place::List => self.at(
                if reply is Done {
                    Place::Count
                } else {
                    Place::End
                },
            ),
            Place::Count => self.at(
                match reply {
                    Reply::Count(n) => if n > 0 {
                        Place::Open { i: 0, n }
                    } else {
                        Place::End
                    },
                    _ => Place::End,
                },
            ),
            Place::Open { i, n } => self.at(
                if reply is Done {
                    Place::Control { i, n }
                } else {
                    following(i, n)
                },
            ),
            Place::Control { i, n } => self.at(
                if reply is Done {
                    Place::Process { i, n }
                } else {
                    following(i, n)
                },
            ),
            Place::Process { i, n } => self.at(
                if process_or_none(reply) == self.pid {
                    Place::Volume { i, n }
                } else {
                    following(i, n)
                },
            ),
            Place::Volume { i, n } => self.at(
                if reply is Done {
                    Place::Read { i, n }
                } else {
                    following(i, n)
                },
            ),
            Place::Read { i, n } => match (reply, self.purpose) {
                (Reply::Level(level), Purpose::Find) => Scan {
                    place: Place::End,
                    found: Some(level),
                    ..self
                },
                (Reply::Level(level), Purpose::Shift(delta)) => self.at(
                    Place::Write { i, n, level: level.sum(delta).clamped() },
                ),
                _ => self.at(following(i, n)),
            },
            Place::Write { i, n, level } => Scan {
                place: following(i, n),
                found: if reply is Done {
                    Some(level)
                } else {
                    self.found
                },
                ..self
            },
            Place::End => self,
        }
    }

    open spec fn rank(self) -> nat {
        match self.place {
            Place::Activate => (6 * i32::MAX + 3) as nat,
            Place::List => (6 * i32::MAX + 2) as nat,
            Place::Count => (6 * i32::MAX + 1) as nat,
            Place::Open { i, n } => (6 * (n - i)) as nat,
            Place::Control { i, n } => (6 * (n - i) - 1) as nat,
            Place::Process { i, n } => (6 * (n - i) - 2) as nat,
            Place::Volume { i, n } => (6 * (n - i) - 3) as nat,
            Place::Read { i, n } => (6 * (n - i) - 4) as nat,
            Place::Write { i, n, .. } => (6 * (n - i) - 5) as nat,
            Place::End => 0,
        }
    }

    proof fn progress(self, reply: Reply) {
    }

    fn call(&self) -> (call: Option<Call>) {
        match self.place {
            Place::Activate => Some(Call::ActivateManager(clsctx_all())),
            Place::List => Some(Call::ListSessions),
            Place::Count => Some(Call::CountSessions),
            Place::Open { i, .. } => Some(Call::OpenSession(i)),
            Place::Control { i, .. } => Some(Call::OpenControl(i)),
            Place::Process { i, .. } => Some(Call::SessionProcess(i)),
            Place::Volume { i, .. } => Some(Call::OpenVolume(i)),
            Place::Read { i, .. } => Some(Call::ReadVolume(i)),
            Place::Write { i, level, .. } => Some(Call::WriteVolume(i, level, None)),
            Place::End => None,
        }
    }

    fn advance(self, reply: Reply) -> (next: Scan) {
        let mut next: Scan = self;
        match (self.place, reply) {
            (Place::Activate, Reply::Done) => {
                next.place = Place::List;
            },
            (Place::List, Reply::Done) => {
                next.place = Place::Count;
            },
            (Place::Count, Reply::Count(n)) if n > 0 => {
                next.place = Place::Open { i: 0, n };
            },
            (Place::Activate, _) | (Place::List, _) | (Place::Count, _) => {
                next.place = Place::End;
            },
            (Place::Open { i, n }, Reply::Done) => {
                next.place = Place::Control { i, n };
            },
            (Place::Control { i, n }, Reply::Done) => {
                next.place = Place::Process { i, n };
            },
            (Place::Process { i, n }, _) => {
                next.place = if process_of(reply) == self.pid {
                    Place::Volume { i, n }
                } else {
                    next_session(i, n)
                };
            },
            (Place::Volume { i, n }, Reply::Done) => {
                next.place = Place::Read { i, n };
            },
            (Place::Read { i, n }, Reply::Level(level)) => {
                match self.purpose {
                    Purpose::Find => {
                        next.place = Place::End;
                        next.found = Some(level);
                    },
                    Purpose::Shift(delta) => {
                        next.place = Place::Write { i, n, level: level.plus(delta).clamp() };
                    },
                }
            },
            (Place::Write { i, n, level }, _) => {
                if matches!(reply, Reply::Done) {
                    next.found = Some(level);
                }
                next.place = next_session(i, n);
            },
            (Place::Open { i, n }, _)
            | (Place::Control { i, n }, _)
            | (Place::Volume { i, n }, _)
            | (Place::Read { i, n }, _) => {
                next.place = next_session(i, n);
            },
            (Place::End, _) => {},
        }
        next
    }
}

} // verus!
