//! What each reply leads the handlers and their walks to.
//!
//! The statements hold of every state and of every reply that can come, so they also hold
//! where the audio system changes between two calls.
use crate::context::{lemma_own_mark, ContextId};
use crate::exchange::{answers, process_or_none, Call, Machine, Reply};
use crate::foreground::{ForegroundPid, ForegroundPlace, ForegroundScan};
use crate::handlers::{
    AppChange, AppPlace, ProxyChange, ProxyPlace, WindowChange, WindowPlace,
};
use crate::scan::{Place, Purpose, Scan};
use crate::volume::Volume;
use vstd::prelude::*;

verus! {

/// A handler takes whatever its calls can reply.
pub proof fn lemma_every_reply_is_awaited(
    call: Call,
    found: bool,
    pid: u32,
    count: i32,
    level: Volume,
)
    ensures
        match call {
            Call::ForegroundWindow => answers(call, Reply::Window(found)),
            Call::WindowProcess => answers(call, Reply::Process(pid)),
            Call::SourceProcess | Call::SessionProcess(_) => answers(call, Reply::Process(pid))
                && answers(call, Reply::Failed),
            Call::CountSessions => answers(call, Reply::Count(count)) && answers(
                call,
                Reply::Failed,
            ),
            Call::ReadVolume(_) => answers(call, Reply::Level(level)) && answers(
                call,
                Reply::Failed,
            ),
            Call::LoadLevel => answers(call, Reply::Level(level)),
            Call::StoreLevel(_) => answers(call, Reply::Done),
            _ => answers(call, Reply::Done) && answers(call, Reply::Failed),
        },
        process_or_none(Reply::Process(pid)) == pid,
        process_or_none(Reply::Failed) == 0,
{
}

/// The process in the foreground is that of the foreground window; without a window it is 0.
pub proof fn lemma_foreground_search(found: bool, pid: u32)
    ensures
        ForegroundPid::Window.pending() == Some(Call::ForegroundWindow),
        ForegroundPid::Window.after(Reply::Window(found)) == (if found {
            ForegroundPid::Process
        } else {
            ForegroundPid::Found(0)
        }),
        ForegroundPid::Process.pending() == Some(Call::WindowProcess),
        ForegroundPid::Process.after(Reply::Process(pid)) == ForegroundPid::Found(pid),
        ForegroundPid::Found(pid).pending() is None,
{
}

/// A walk asks for the manager, the list and the count, and goes no further where one of
/// them fails or the list is empty.
pub proof fn lemma_walk_begins(pid: u32, purpose: Purpose, found: Option<Volume>, reply: Reply)
    ensures
        Scan::finding(pid) == (Scan {
            pid,
            purpose: Purpose::Find,
            place: Place::Activate,
            found: None,
        }),
        purpose matches Purpose::Shift(delta) ==> Scan::shifting(pid, delta) == (Scan {
            pid,
            purpose,
            place: Place::Activate,
            found: None,
        }),
        ({
            let activate = Scan { pid, purpose, place: Place::Activate, found };
            let list = Scan { pid, purpose, place: Place::List, found };
            let count = Scan { pid, purpose, place: Place::Count, found };
            let end = Scan { pid, purpose, place: Place::End, found };
            &&& activate.pending() == Some(Call::ActivateManager(23))
            &&& activate.after(Reply::Done) == list
            &&& activate.after(Reply::Failed) == end
            &&& list.pending() == Some(Call::ListSessions)
            &&& list.after(Reply::Done) == count
            &&& list.after(Reply::Failed) == end
            &&& count.pending() == Some(Call::CountSessions)
            &&& count.after(Reply::Failed) == end
            &&& reply matches Reply::Count(n) ==> count.after(reply) == (Scan {
                pid,
                purpose,
                place: if n > 0 {
                    Place::Open { i: 0, n }
                } else {
                    Place::End
                },
                found,
            })
            &&& end.pending() is None
        }),
{
}

/// A walk tries the sessions from the first to the last. A session is opened, asked for its
/// control and its process, and, where the process is the one sought, for its volume and its
/// level. What fails, and every other process, passes on to the next session.
pub proof fn lemma_walk_tries_each_session(
    pid: u32,
    purpose: Purpose,
    found: Option<Volume>,
    i: i32,
    n: i32,
    other: u32,
)
    requires
        0 <= i < n,
    ensures
        ({
            let open = Scan { pid, purpose, place: Place::Open { i, n }, found };
            let control = Scan { pid, purpose, place: Place::Control { i, n }, found };
            let process = Scan { pid, purpose, place: Place::Process { i, n }, found };
            let volume = Scan { pid, purpose, place: Place::Volume { i, n }, found };
            let read = Scan { pid, purpose, place: Place::Read { i, n }, found };
            let next = Scan {
                pid,
                purpose,
                place: if i < n - 1 {
                    Place::Open { i: (i + 1) as i32, n }
                } else {
                    Place::End
                },
                found,
            };
            &&& open.pending() == Some(Call::OpenSession(i))
            &&& open.after(Reply::Done) == control
            &&& open.after(Reply::Failed) == next
            &&& control.pending() == Some(Call::OpenControl(i))
            &&& control.after(Reply::Done) == process
            &&& control.after(Reply::Failed) == next
            &&& process.pending() == Some(Call::SessionProcess(i))
            &&& process.after(Reply::Process(pid)) == volume
            &&& other != pid ==> process.after(Reply::Process(other)) == next
            &&& pid != 0 ==> process.after(Reply::Failed) == next
            &&& pid == 0 ==> process.after(Reply::Failed) == volume
            &&& volume.pending() == Some(Call::OpenVolume(i))
            &&& volume.after(Reply::Done) == read
            &&& volume.after(Reply::Failed) == next
            &&& read.pending() == Some(Call::ReadVolume(i))
            &&& read.after(Reply::Failed) == next
        }),
{
}

/// A walk that reads ends with the first level that it is told. A walk that shifts sets the
/// session to what it was told plus the shift, kept between silence and 1, with no author
/// named; where that succeeds it remembers the new level, and it goes on in any case.
pub proof fn lemma_walk_uses_each_level(
    pid: u32,
    delta: Volume,
    found: Option<Volume>,
    i: i32,
    n: i32,
    level: Volume,
)
    requires
        0 <= i < n,
    ensures
        ({
            let find = Scan { pid, purpose: Purpose::Find, place: Place::Read { i, n }, found };
            find.after(Reply::Level(level)) == Scan {
                pid,
                purpose: Purpose::Find,
                place: Place::End,
                found: Some(level),
            }
        }),
        ({
            let purpose = Purpose::Shift(delta);
            let target = level.sum(delta).clamped();
            let read = Scan { pid, purpose, place: Place::Read { i, n }, found };
            let write = Scan {
                pid,
                purpose,
                place: Place::Write { i, n, level: target },
                found,
            };
            let place = if i < n - 1 {
                Place::Open { i: (i + 1) as i32, n }
            } else {
                Place::End
            };
            &&& read.after(Reply::Level(level)) == write
            &&& write.pending() == Some(Call::WriteVolume(i, target, None))
            &&& write.after(Reply::Done) == (Scan { pid, purpose, place, found: Some(target) })
            &&& write.after(Reply::Failed) == (Scan { pid, purpose, place, found })
        }),
{
}

/// A walk of the foreground looks for the window, then for its process, and then walks the
/// sessions of that process. It ends with what that walk found; without a process, with
/// nothing.
pub proof fn lemma_foreground_walk_steps(purpose: Purpose, pid: u32, walk: Scan, reply: Reply)
    ensures
        ({
            let fresh = ForegroundScan::fresh(purpose);
            let search = ForegroundScan {
                purpose,
                place: ForegroundPlace::Search(ForegroundPid::Process),
            };
            let nothing = ForegroundScan { purpose, place: ForegroundPlace::Ended(None) };
            &&& fresh.pending() == Some(Call::ForegroundWindow)
            &&& fresh.after(Reply::Window(true)) == search
            &&& fresh.after(Reply::Window(false)) == nothing
            &&& search.pending() == Some(Call::WindowProcess)
            &&& search.after(Reply::Process(0)) == nothing
            &&& pid != 0 ==> search.after(Reply::Process(pid)) == (ForegroundScan {
                purpose,
                place: ForegroundPlace::Walk(
                    Scan { pid, purpose, place: Place::Activate, found: None },
                ),
            })
            &&& nothing.pending() is None
        }),
        ({
            let walking = ForegroundScan { purpose, place: ForegroundPlace::Walk(walk) };
            let next = walk.after(reply);
            &&& walking.pending() == walk.pending()
            &&& walking.after(reply) == (ForegroundScan {
                purpose,
                place: if next.place == Place::End {
                    ForegroundPlace::Ended(next.found)
                } else {
                    ForegroundPlace::Walk(next)
                },
            })
        }),
{
}

/// A change of the proxy's level that another program made starts with the last known
/// level. What it differs by, unless that is less than 0.001, is passed on to the
/// foreground. The proxy is then set to the level found there, or to the level that it was
/// given where none was found, and that level is remembered whether or not the write
/// succeeded.
pub proof fn lemma_proxy_change_steps(
    author: Option<ContextId>,
    level: Volume,
    last: Volume,
    walk: ForegroundScan,
    reply: Reply,
    taken: Volume,
)
    ensures
        ProxyChange::of(author, level).level == level,
        ({
            let mark = ContextId::of_own();
            let change = ProxyChange::of(author, level);
            if author matches Some(id) && id.data1 == mark.data1 && id.data2 == mark.data2
                && id.data3 == mark.data3 && id.data4@ == mark.data4@ {
                change.pending() is None
            } else {
                change.pending() == Some(Call::LoadLevel) && change.place == ProxyPlace::Load
            }
        }),
        ({
            let load = ProxyChange { level, place: ProxyPlace::Load };
            let delta = level.difference(last);
            let next = load.after(Reply::Level(last));
            if delta.bits % 0x8000_0000 < 0x3a83_126f {
                next.pending() is None
            } else {
                next == ProxyChange {
                    level,
                    place: ProxyPlace::Walk(
                        ForegroundScan {
                            purpose: Purpose::Shift(delta),
                            place: ForegroundPlace::Search(ForegroundPid::Window),
                        },
                    ),
                }
            }
        }),
        ({
            let walking = ProxyChange { level, place: ProxyPlace::Walk(walk) };
            let next = walk.after(reply);
            &&& walking.pending() == walk.pending()
            &&& walking.after(reply) == (ProxyChange {
                level,
                place: match next.place {
                    ForegroundPlace::Ended(Some(found)) => ProxyPlace::Write(found),
                    ForegroundPlace::Ended(None) => ProxyPlace::Write(level),
                    _ => ProxyPlace::Walk(next),
                },
            })
        }),
        ({
            let write = ProxyChange { level, place: ProxyPlace::Write(taken) };
            let store = ProxyChange { level, place: ProxyPlace::Store(taken) };
            &&& write.pending() == Some(Call::WriteOwn(taken, ContextId::of_own()))
            &&& write.after(Reply::Done) == store
            &&& write.after(Reply::Failed) == store
            &&& store.pending() == Some(Call::StoreLevel(taken))
            &&& store.after(Reply::Done).pending() is None
        }),
{
    lemma_own_mark();
}

/// A change of an application's level that another program made is followed where the
/// session tells its process, that process is the one in the foreground, the proxy can be
/// reached, and the level differs from the last known one by 0.001 or more. The proxy is set
/// to that level, which is remembered where the write succeeded.
pub proof fn lemma_app_change_steps(
    author: Option<ContextId>,
    level: Volume,
    last: Volume,
    pid: u32,
    other: u32,
    found: bool,
)
    ensures
        AppChange::of(author, level).level == level,
        ({
            let mark = ContextId::of_own();
            let change = AppChange::of(author, level);
            if author matches Some(id) && id.data1 == mark.data1 && id.data2 == mark.data2
                && id.data3 == mark.data3 && id.data4@ == mark.data4@ {
                change.pending() is None
            } else {
                change.pending() == Some(Call::SourceProcess) && change.place == AppPlace::Source
            }
        }),
        ({
            let source = AppChange { level, place: AppPlace::Source };
            &&& source.after(Reply::Failed).pending() is None
            &&& source.after(Reply::Process(0)).pending() is None
            &&& pid != 0 ==> source.after(Reply::Process(pid)) == (AppChange {
                level,
                place: AppPlace::Search { pid, search: ForegroundPid::Window },
            })
        }),
        ({
            let window = AppChange {
                level,
                place: AppPlace::Search { pid, search: ForegroundPid::Window },
            };
            let process = AppChange {
                level,
                place: AppPlace::Search { pid, search: ForegroundPid::Process },
            };
            let acquire = AppChange { level, place: AppPlace::Acquire };
            let load = AppChange { level, place: AppPlace::Load };
            &&& window.pending() == Some(Call::ForegroundWindow)
            &&& window.after(Reply::Window(true)) == process
            &&& pid != 0 ==> window.after(Reply::Window(false)).pending() is None
            &&& process.pending() == Some(Call::WindowProcess)
            &&& process.after(Reply::Process(pid)) == acquire
            &&& other != pid ==> process.after(Reply::Process(other)).pending() is None
            &&& acquire.pending() == Some(Call::AcquireProxy)
            &&& acquire.after(Reply::Done) == load
            &&& acquire.after(Reply::Failed).pending() is None
        }),
        ({
            let load = AppChange { level, place: AppPlace::Load };
            let write = AppChange { level, place: AppPlace::Write };
            let store = AppChange { level, place: AppPlace::Store };
            let size = level.difference(last).bits % 0x8000_0000;
            &&& load.pending() == Some(Call::LoadLevel)
            &&& if 0x3a83_126f <= size <= 0x7f80_0000 {
                load.after(Reply::Level(last)) == write
            } else {
                load.after(Reply::Level(last)).pending() is None
            }
            &&& write.pending() == Some(Call::WriteOwn(level, ContextId::of_own()))
            &&& write.after(Reply::Done) == store
            &&& write.after(Reply::Failed).pending() is None
            &&& store.pending() == Some(Call::StoreLevel(level))
            &&& store.after(Reply::Done).pending() is None
        }),
{
    lemma_own_mark();
}

/// An event is handled where it is the one of a new foreground window and names a window.
/// The process of that window is walked for its level, with the proxy at hand. A level that
/// differs from the last known one by 0.001 or more is taken over, and remembered where the
/// write succeeded.
pub proof fn lemma_window_change_steps(
    event: u32,
    window: bool,
    pid: u32,
    walk: Scan,
    reply: Reply,
    level: Volume,
    last: Volume,
)
    ensures
        WindowChange::of(event, window) == (WindowChange {
            place: if event == 3 && window {
                WindowPlace::Process
            } else {
                WindowPlace::End
            },
        }),
        ({
            let process = WindowChange { place: WindowPlace::Process };
            let acquire = WindowChange { place: WindowPlace::Acquire(pid) };
            let end = WindowChange { place: WindowPlace::End };
            &&& process.pending() == Some(Call::WindowProcess)
            &&& process.after(Reply::Process(0)) == end
            &&& pid != 0 ==> process.after(Reply::Process(pid)) == acquire
            &&& acquire.pending() == Some(Call::AcquireProxy)
            &&& acquire.after(Reply::Failed) == end
            &&& acquire.after(Reply::Done) == (WindowChange {
                place: WindowPlace::Walk(
                    Scan { pid, purpose: Purpose::Find, place: Place::Activate, found: None },
                ),
            })
            &&& end.pending() is None
        }),
        ({
            let walking = WindowChange { place: WindowPlace::Walk(walk) };
            let next = walk.after(reply);
            &&& walking.pending() == walk.pending()
            &&& walking.after(reply) == (WindowChange {
                place: if next.place != Place::End {
                    WindowPlace::Walk(next)
                } else {
                    match next.found {
                        Some(found) => WindowPlace::Load(found),
                        None => WindowPlace::End,
                    }
                },
            })
        }),
        ({
            let load = WindowChange { place: WindowPlace::Load(level) };
            let write = WindowChange { place: WindowPlace::Write(level) };
            let store = WindowChange { place: WindowPlace::Store(level) };
            let size = level.difference(last).bits % 0x8000_0000;
            &&& load.pending() == Some(Call::LoadLevel)
            &&& if 0x3a83_126f <= size <= 0x7f80_0000 {
                load.after(Reply::Level(last)) == write
            } else {
                load.after(Reply::Level(last)).pending() is None
            }
            &&& write.pending() == Some(Call::WriteOwn(level, ContextId::of_own()))
            &&& write.after(Reply::Done) == store
            &&& write.after(Reply::Failed).pending() is None
            &&& store.pending() == Some(Call::StoreLevel(level))
            &&& store.after(Reply::Done).pending() is None
        }),
{
}

} // verus!
