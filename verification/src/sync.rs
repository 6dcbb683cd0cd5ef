//! What whole runs of the handlers do to the audio system.
use crate::context::{lemma_own_mark, made_by_proxy, ContextId};
use crate::exchange::{Call, Machine};
use crate::foreground::{ForegroundPlace, ForegroundScan};
use crate::handlers::{
    AppChange, ProxyChange, ProxyPlace, WindowChange, WindowPlace, FOREGROUND_EVENT,
};
use crate::rounding::{distance, lemma_scaled_increases, scaled};
use crate::scan::{following, Place, Purpose, Scan};
use crate::volume::{
    bounded, close, lemma_clamped_bounds, lemma_clamped_value, lemma_difference_value,
    lemma_kinds_of_encodings, lemma_negligible_is_close, lemma_no_difference,
    lemma_rounded_value_exact, lemma_rounded_value_monotone, lemma_rounding_error,
    lemma_sum_is_defined, lemma_sum_value, lemma_thresholds, lemma_twice_loudest, nearby,
    rounded_value, Volume, LOUDEST, THRESHOLD,
};
use crate::world::{finish, Session, World};
use vstd::arithmetic::power2::pow2;
use vstd::prelude::*;

verus! {

impl Session {
    /// The session belongs to process `pid` and shows its level.
    pub open spec fn belongs(self, pid: u32) -> bool {
        &&& self.opens
        &&& self.controllable
        &&& pid == (match self.process {
            Some(owner) => owner,
            None => 0,
        })
        &&& self.adjustable
        &&& self.level is Some
    }

    /// The level that a move by `delta` asks for.
    pub open spec fn target(self, delta: Volume) -> Volume {
        self.level->0.sum(delta).clamped()
    }

    /// The session belongs to process `pid` and takes part in a move by `delta`.
    pub open spec fn moves(self, pid: u32, delta: Volume) -> bool {
        self.belongs(pid) && self.accepts.contains(self.target(delta))
    }

    /// The session after the move.
    pub open spec fn moved(self, pid: u32, delta: Volume) -> Session {
        if self.moves(pid, delta) {
            Session { level: Some(self.target(delta)), ..self }
        } else {
            self
        }
    }
}

/// The level of the first session of process `pid` from `i` on.
pub open spec fn level_from(sessions: Seq<Session>, pid: u32, i: int, n: int) -> Option<Volume>
    decreases n - i,
{
    if i >= n {
        None
    } else if sessions[i].belongs(pid) {
        sessions[i].level
    } else {
        level_from(sessions, pid, i + 1, n)
    }
}

/// The new level of the last session from `i` on that takes part in a move.
pub open spec fn target_from(
    sessions: Seq<Session>,
    pid: u32,
    delta: Volume,
    i: int,
    n: int,
) -> Option<Volume>
    decreases n - i,
{
    if i >= n {
        None
    } else {
        match target_from(sessions, pid, delta, i + 1, n) {
            Some(level) => Some(level),
            None => if sessions[i].moves(pid, delta) {
                Some(sessions[i].target(delta))
            } else {
                None
            },
        }
    }
}

/// The sessions after a move that visits those from `i` on.
pub open spec fn moved_from(
    sessions: Seq<Session>,
    pid: u32,
    delta: Volume,
    i: int,
    n: int,
) -> Seq<Session> {
    Seq::new(
        sessions.len(),
        |k: int|
            if i <= k < n {
                sessions[k].moved(pid, delta)
            } else {
                sessions[k]
            },
    )
}

impl World {
    /// The process of the window at hand, which is that in the foreground unless a window
    /// event names another; 0 stands for none.
    pub open spec fn foreground(self) -> u32 {
        match self.window {
            Some(pid) => pid,
            None => 0,
        }
    }

    /// The level of process `pid`: that of its first session that shows one.
    pub open spec fn level_of(self, pid: u32) -> Option<Volume> {
        level_from(self.sessions, pid, 0, self.reach())
    }

    /// The level that the last session of process `pid` takes in a move by `delta`.
    pub open spec fn target_of(self, pid: u32, delta: Volume) -> Option<Volume> {
        target_from(self.sessions, pid, delta, 0, self.reach())
    }

    /// The world after a move of process `pid` by `delta`.
    pub open spec fn moved(self, pid: u32, delta: Volume) -> World {
        World {
            sessions: moved_from(self.sessions, pid, delta, 0, self.reach()),
            ..self
        }
    }

    /// The world after the proxy's level and the last known level have become `level`.
    pub open spec fn following(self, level: Volume) -> World {
        World { own: level, last: level, ..self }
    }
}

proof fn lemma_find_from(scan: Scan, world: World, i: i32, n: i32)
    requires
        0 <= i < n <= world.sessions.len(),
        scan.purpose == Purpose::Find,
        scan.found is None,
        scan.place == (Place::Open { i, n }),
    ensures
        finish(scan, world) == (
            Scan {
                place: Place::End,
                found: level_from(world.sessions, scan.pid, i as int, n as int),
                ..scan
            },
            world,
        ),
    decreases n - i,
{
    reveal_with_fuel(finish, 8);
    let session = world.sessions[i as int];
    if !session.belongs(scan.pid) {
        let next = scan.at(following(i, n));
        assert(finish(scan, world) == finish(next, world));
        if i + 1 < n {
            lemma_find_from(next, world, (i + 1) as i32, n);
        } else {
            assert(level_from(world.sessions, scan.pid, i + 1, n as int) is None);
        }
    }
}

proof fn lemma_target_ignores_earlier(
    a: Seq<Session>,
    b: Seq<Session>,
    pid: u32,
    delta: Volume,
    i: int,
    n: int,
)
    requires
        forall|k: int| i <= k < n ==> #[trigger] a[k] == b[k],
    ensures
        target_from(a, pid, delta, i, n) == target_from(b, pid, delta, i, n),
    decreases n - i,
{
    if i < n {
        lemma_target_ignores_earlier(a, b, pid, delta, i + 1, n);
    }
}

proof fn lemma_shift_from(scan: Scan, world: World, delta: Volume, i: i32, n: i32)
    requires
        0 <= i < n <= world.sessions.len(),
        scan.purpose == Purpose::Shift(delta),
        scan.place == (Place::Open { i, n }),
    ensures
        finish(scan, world) == (
            Scan {
                place: Place::End,
                found: match target_from(world.sessions, scan.pid, delta, i as int, n as int) {
                    Some(level) => Some(level),
                    None => scan.found,
                },
                ..scan
            },
            World {
                sessions: moved_from(world.sessions, scan.pid, delta, i as int, n as int),
                ..world
            },
        ),
    decreases n - i,
{
    reveal_with_fuel(finish, 8);
    let session = world.sessions[i as int];
    let moves = session.moves(scan.pid, delta);
    let sessions = world.sessions.update(i as int, session.moved(scan.pid, delta));
    let left = World { sessions, ..world };
    let next = Scan {
        place: following(i, n),
        found: if moves {
            Some(session.target(delta))
        } else {
            scan.found
        },
        ..scan
    };
    assert(sessions =~= world.sessions || moves);
    assert(finish(scan, world) == finish(next, left));
    let end = moved_from(world.sessions, scan.pid, delta, i as int, n as int);
    if i + 1 < n {
        lemma_shift_from(next, left, delta, (i + 1) as i32, n);
        lemma_target_ignores_earlier(
            world.sessions,
            sessions,
            scan.pid,
            delta,
            i + 1,
            n as int,
        );
        assert(moved_from(sessions, scan.pid, delta, i + 1, n as int) =~= end);
    } else {
        assert(target_from(world.sessions, scan.pid, delta, i + 1, n as int) is None);
        assert(sessions =~= end);
    }
}

/// Reading the level of a process finds that of its first session that shows one, and
/// changes nothing.
pub proof fn lemma_find(pid: u32, world: World)
    requires
        world.honest(),
    ensures
        finish(Scan::finding(pid), world).0.found == world.level_of(pid),
        finish(Scan::finding(pid), world).1 == world,
        finish(Scan::finding(pid), world).0.place == Place::End,
{
    reveal_with_fuel(finish, 5);
    if world.reach() > 0 {
        let n = world.count->0;
        let scan = Scan::finding(pid).at(Place::Open { i: 0, n });
        assert(finish(Scan::finding(pid), world) == finish(scan, world));
        lemma_find_from(scan, world, 0, n);
    }
}

/// Moving the level of a process moves every session of it that accepts its new level,
/// reports the last of these levels, and changes nothing else.
pub proof fn lemma_shift(pid: u32, delta: Volume, world: World)
    requires
        world.honest(),
    ensures
        finish(Scan::shifting(pid, delta), world).0.found == world.target_of(pid, delta),
        finish(Scan::shifting(pid, delta), world).1 == world.moved(pid, delta),
        finish(Scan::shifting(pid, delta), world).0.place == Place::End,
{
    reveal_with_fuel(finish, 5);
    if world.reach() > 0 {
        let n = world.count->0;
        let scan = Scan::shifting(pid, delta).at(Place::Open { i: 0, n });
        assert(finish(Scan::shifting(pid, delta), world) == finish(scan, world));
        lemma_shift_from(scan, world, delta, 0, n);
    } else {
        assert(world.moved(pid, delta).sessions =~= world.sessions);
    }
}

/// The walk within a walk of the foreground process runs as it does alone.
proof fn lemma_inner_walk(walk: ForegroundScan, scan: Scan, world: World)
    requires
        walk.valid(),
        walk.place == ForegroundPlace::Walk(scan),
    ensures
        finish(walk, world) == (
            ForegroundScan {
                place: ForegroundPlace::Ended(finish(scan, world).0.found),
                ..walk
            },
            finish(scan, world).1,
        ),
    decreases scan.rank(),
{
    let call = scan.pending()->0;
    let reply = world.reply(call);
    scan.progress(reply);
    let next = scan.after(reply);
    if next.place == Place::End {
        reveal_with_fuel(finish, 3);
    } else {
        lemma_inner_walk(walk.after(reply), next, world.effect(call));
    }
}

/// A walk of the foreground process.
pub proof fn lemma_foreground_walk(purpose: Purpose, world: World)
    requires
        world.honest(),
    ensures
        finish(ForegroundScan::fresh(purpose), world).1 == (match purpose {
            Purpose::Shift(delta) if world.foreground() != 0 => world.moved(
                world.foreground(),
                delta,
            ),
            _ => world,
        }),
        finish(ForegroundScan::fresh(purpose), world).0.place == ForegroundPlace::Ended(
            if world.foreground() == 0 {
                None
            } else {
                match purpose {
                    Purpose::Find => world.level_of(world.foreground()),
                    Purpose::Shift(delta) => world.target_of(world.foreground(), delta),
                }
            },
        ),
{
    reveal_with_fuel(finish, 4);
    let pid = world.foreground();
    if pid != 0 {
        let scan = ForegroundScan::walk(purpose, pid);
        let walk = ForegroundScan { purpose, place: ForegroundPlace::Walk(scan) };
        assert(finish(ForegroundScan::fresh(purpose), world) == finish(walk, world));
        lemma_inner_walk(walk, scan, world);
        match purpose {
            Purpose::Find => lemma_find(pid, world),
            Purpose::Shift(delta) => lemma_shift(pid, delta, world),
        }
    }
}

proof fn lemma_proxy_walk(change: ProxyChange, walk: ForegroundScan, world: World)
    requires
        change.valid(),
        change.place == ProxyPlace::Walk(walk),
    ensures
        finish(walk, world).0.place is Ended,
        finish(change, world) == finish(
            ProxyChange {
                place: ProxyPlace::Write(
                    change.settled(finish(walk, world).0.place->Ended_0),
                ),
                ..change
            },
            finish(walk, world).1,
        ),
    decreases walk.rank(),
{
    let call = walk.pending()->0;
    let reply = world.reply(call);
    walk.progress(reply);
    let next = walk.after(reply);
    if next.place is Ended {
        reveal_with_fuel(finish, 3);
    } else {
        lemma_proxy_walk(change.after(reply), next, world.effect(call));
    }
}

proof fn lemma_window_walk(change: WindowChange, scan: Scan, world: World)
    requires
        change.valid(),
        change.place == WindowPlace::Walk(scan),
    ensures
        finish(change, world) == finish(
            WindowChange {
                place: match finish(scan, world).0.found {
                    Some(level) => WindowPlace::Load(level),
                    None => WindowPlace::End,
                },
            },
            finish(scan, world).1,
        ),
    decreases scan.rank(),
{
    let call = scan.pending()->0;
    let reply = world.reply(call);
    scan.progress(reply);
    let next = scan.after(reply);
    if next.place == Place::End {
        reveal_with_fuel(finish, 3);
    } else {
        lemma_window_walk(change.after(reply), next, world.effect(call));
    }
}

impl World {
    /// The level that the proxy settles at after a change to `level` has been passed on:
    /// the one that the foreground process took, or `level` where none took part.
    pub open spec fn settled(self, level: Volume, delta: Volume) -> Volume {
        if self.foreground() == 0 {
            level
        } else {
            match self.target_of(self.foreground(), delta) {
                Some(taken) => taken,
                None => level,
            }
        }
    }

    /// The world after a change of the proxy's level by `delta` to `level` has been
    /// passed on to the foreground process.
    pub open spec fn passed_on(self, level: Volume, delta: Volume) -> World {
        let moved = if self.foreground() == 0 {
            self
        } else {
            self.moved(self.foreground(), delta)
        };
        let settled = self.settled(level, delta);
        World {
            own: if self.own_accepts.contains(settled) {
                settled
            } else {
                self.own
            },
            last: settled,
            ..moved
        }
    }

    /// The proxy follows a change to `level`: it can be reached, `level` is far enough
    /// from the last known level, and the proxy's session accepts it.
    pub open spec fn follows(self, level: Volume) -> bool {
        &&& self.proxy
        &&& level.difference(self.last).is_notable()
        &&& self.own_accepts.contains(level)
    }
}

/// A change of the proxy's level by another program is passed on to the process in the
/// foreground unless it is negligible; the proxy's own writes are left alone.
pub proof fn lemma_proxy_change(author: Option<ContextId>, level: Volume, world: World)
    requires
        world.honest(),
    ensures
        finish(ProxyChange::of(author, level), world).1 == (if made_by_proxy(author)
            || level.difference(world.last).is_negligible() {
            world
        } else {
            world.passed_on(level, level.difference(world.last))
        }),
{
    reveal_with_fuel(finish, 4);
    let delta = level.difference(world.last);
    if !made_by_proxy(author) && !delta.is_negligible() {
        let walk = ForegroundScan::fresh(Purpose::Shift(delta));
        let change = ProxyChange { level, place: ProxyPlace::Walk(walk) };
        assert(finish(ProxyChange::of(author, level), world) == finish(change, world));
        lemma_proxy_walk(change, walk, world);
        lemma_foreground_walk(Purpose::Shift(delta), world);
    }
}

/// A change of an application's level moves the proxy's level along exactly where the
/// application is the one in the foreground, the change is not the proxy's own write, and
/// the proxy follows it. Nothing else changes.
pub proof fn lemma_app_change(author: Option<ContextId>, level: Volume, world: World)
    ensures
        finish(AppChange::of(author, level), world).1 == (if !made_by_proxy(author)
            && world.foreground() != 0 && world.source == Some(world.foreground())
            && world.follows(level) {
            world.following(level)
        } else {
            world
        }),
{
    reveal_with_fuel(finish, 8);
}

/// When an event tells that a window has come to the foreground, the proxy takes the level
/// of that window's process where the process has one and the proxy follows it. Nothing
/// else changes.
pub proof fn lemma_window_change(event: u32, window: bool, world: World)
    requires
        world.honest(),
    ensures
        finish(WindowChange::of(event, window), world).1 == (match world.level_of(
            world.foreground(),
        ) {
            Some(level) if event == FOREGROUND_EVENT && window && world.foreground() != 0
                && world.follows(level) => world.following(level),
            _ => world,
        }),
{
    reveal_with_fuel(finish, 5);
    let pid = world.foreground();
    if event == FOREGROUND_EVENT && window && pid != 0 && world.proxy {
        let scan = Scan::finding(pid);
        let change = WindowChange { place: WindowPlace::Walk(scan) };
        assert(finish(WindowChange::of(event, window), world) == finish(change, world));
        lemma_window_walk(change, scan, world);
        lemma_find(pid, world);
    }
}

/// What the proxy writes itself starts nothing, whoever reports it.
pub proof fn lemma_own_writes_start_nothing(author: Option<ContextId>, level: Volume)
    requires
        made_by_proxy(author),
    ensures
        ProxyChange::of(author, level).pending() is None,
        AppChange::of(author, level).pending() is None,
{
}

/// Passing a change on touches no session but those of the process in the foreground.
pub proof fn lemma_only_foreground_moves(
    author: Option<ContextId>,
    level: Volume,
    world: World,
    i: int,
)
    requires
        world.honest(),
        0 <= i < world.sessions.len(),
        world.sessions[i].process != Some(world.foreground()) || world.foreground() == 0,
    ensures
        finish(ProxyChange::of(author, level), world).1.sessions[i] == world.sessions[i],
{
    lemma_proxy_change(author, level, world);
}

/// A change that is not negligible moves every session of the foreground process that
/// takes part by as much as the proxy's level was moved, kept between silence and the
/// loudest level.
pub proof fn lemma_foreground_moves_by_delta(
    author: Option<ContextId>,
    level: Volume,
    world: World,
    i: int,
)
    requires
        world.honest(),
        !made_by_proxy(author),
        !level.difference(world.last).is_negligible(),
        world.foreground() != 0,
        0 <= i < world.reach(),
        world.sessions[i].moves(world.foreground(), level.difference(world.last)),
    ensures
        finish(ProxyChange::of(author, level), world).1.sessions[i].level == Some(
            world.sessions[i].level->0.sum(level.difference(world.last)).clamped(),
        ),
{
    lemma_proxy_change(author, level, world);
}

proof fn lemma_target_is_taken(
    sessions: Seq<Session>,
    pid: u32,
    delta: Volume,
    i: int,
    n: int,
) -> (k: int)
    requires
        target_from(sessions, pid, delta, i, n) is Some,
    ensures
        i <= k < n,
        sessions[k].moves(pid, delta),
        target_from(sessions, pid, delta, i, n) == Some(sessions[k].target(delta)),
        forall|j: int| k < j < n ==> !(#[trigger] sessions[j]).moves(pid, delta),
    decreases n - i,
{
    if target_from(sessions, pid, delta, i + 1, n) is Some {
        lemma_target_is_taken(sessions, pid, delta, i + 1, n)
    } else {
        lemma_no_target(sessions, pid, delta, i + 1, n);
        i
    }
}

proof fn lemma_no_target(sessions: Seq<Session>, pid: u32, delta: Volume, i: int, n: int)
    requires
        target_from(sessions, pid, delta, i, n) is None,
    ensures
        forall|j: int| i <= j < n ==> !(#[trigger] sessions[j]).moves(pid, delta),
    decreases n - i,
{
    if i < n {
        lemma_no_target(sessions, pid, delta, i + 1, n);
    }
}

/// After a change has been passed on, the proxy shows a level that a session of the
/// foreground process really has; where no session took part, it shows the level that it
/// was set to.
pub proof fn lemma_proxy_shows_reality(author: Option<ContextId>, level: Volume, world: World)
    requires
        world.honest(),
        !made_by_proxy(author),
        !level.difference(world.last).is_negligible(),
        world.own_accepts.contains(world.settled(level, level.difference(world.last))),
    ensures
        ({
            let delta = level.difference(world.last);
            let pid = world.foreground();
            let end = finish(ProxyChange::of(author, level), world).1;
            &&& end.own == end.last
            &&& if pid != 0 && exists|k: int|
                0 <= k < world.reach() && (#[trigger] world.sessions[k]).moves(pid, delta) {
                exists|k: int|
                    0 <= k < world.reach() && (#[trigger] end.sessions[k]).process == Some(pid)
                        && end.sessions[k].level == Some(end.own)
            } else {
                end.own == level
            }
        }),
{
    let delta = level.difference(world.last);
    let pid = world.foreground();
    let end = finish(ProxyChange::of(author, level), world).1;
    lemma_proxy_change(author, level, world);
    if pid != 0 {
        if world.target_of(pid, delta) is Some {
            let k = lemma_target_is_taken(world.sessions, pid, delta, 0, world.reach());
            assert(end.sessions[k].level == Some(end.own));
        } else {
            lemma_no_target(world.sessions, pid, delta, 0, world.reach());
        }
    }
}

/// Where the process in the foreground has one session, and that session takes part, the
/// proxy shows the very level that the process has once a change has been passed on.
pub proof fn lemma_proxy_shows_the_level(
    author: Option<ContextId>,
    level: Volume,
    world: World,
    k: int,
)
    requires
        world.honest(),
        !made_by_proxy(author),
        !level.difference(world.last).is_negligible(),
        world.foreground() != 0,
        0 <= k < world.reach(),
        world.sessions[k].moves(world.foreground(), level.difference(world.last)),
        forall|j: int|
            0 <= j < world.reach() && j != k ==> !(#[trigger] world.sessions[j]).belongs(
                world.foreground(),
            ),
        world.own_accepts.contains(world.sessions[k].target(level.difference(world.last))),
    ensures
        ({
            let end = finish(ProxyChange::of(author, level), world).1;
            &&& end.level_of(world.foreground()) == Some(end.own)
            &&& end.own == end.last
        }),
{
    let delta = level.difference(world.last);
    let pid = world.foreground();
    let end = finish(ProxyChange::of(author, level), world).1;
    lemma_proxy_change(author, level, world);
    if world.target_of(pid, delta) is None {
        lemma_no_target(world.sessions, pid, delta, 0, world.reach());
    }
    let taken = lemma_target_is_taken(world.sessions, pid, delta, 0, world.reach());
    assert(taken == k);
    assert(end.reach() == world.reach());
    assert(end.sessions[k].belongs(pid));
    assert forall|j: int| 0 <= j < end.reach() && j != k implies !(
    #[trigger] end.sessions[j]).belongs(pid) by {
        assert(!world.sessions[j].belongs(pid));
    }
    lemma_level_of_first_session(pid, end);
}

/// A level differs notably from the last known one, or is close to it.
proof fn lemma_far_or_close(level: Volume, last: Volume)
    requires
        level.is_finite(),
        !last.is_nan(),
    ensures
        level.difference(last).is_notable() || close(level, last),
{
    if last.is_finite() {
        lemma_negligible_is_close(level, last);
    }
}

/// Once a window of a process with a level has come to the foreground, the last known
/// level is less than the threshold away from that level. Where the proxy's level was in
/// step before, it still is, and is less than twice the threshold away from that level.
pub proof fn lemma_window_change_syncs(world: World)
    requires
        world.honest(),
        world.foreground() != 0,
        world.level_of(world.foreground()) matches Some(level) && level.is_finite()
            && world.own_accepts.contains(level),
        world.proxy,
        !world.last.is_nan(),
    ensures
        ({
            let level = world.level_of(world.foreground())->0;
            let end = finish(WindowChange::of(FOREGROUND_EVENT, true), world).1;
            &&& close(level, end.last)
            &&& close(world.own, world.last) ==> close(end.own, end.last) && nearby(
                end.own,
                level,
            )
            &&& world.own == world.last ==> end.own == end.last
        }),
{
    let level = world.level_of(world.foreground())->0;
    lemma_window_change(FOREGROUND_EVENT, true, world);
    lemma_far_or_close(level, world.last);
    lemma_no_difference(level);
}

/// Once the process in the foreground has changed its own level, the last known level is
/// less than the threshold away from that level. Where the proxy's level was in step
/// before, it still is, and is less than twice the threshold away from that level.
pub proof fn lemma_app_change_syncs(author: Option<ContextId>, level: Volume, world: World)
    requires
        !made_by_proxy(author),
        world.foreground() != 0,
        world.source == Some(world.foreground()),
        level.is_finite(),
        world.own_accepts.contains(level),
        world.proxy,
        !world.last.is_nan(),
    ensures
        ({
            let end = finish(AppChange::of(author, level), world).1;
            &&& close(level, end.last)
            &&& close(world.own, world.last) ==> close(end.own, end.last) && nearby(
                end.own,
                level,
            )
            &&& world.own == world.last ==> end.own == end.last
        }),
{
    lemma_app_change(author, level, world);
    lemma_far_or_close(level, world.last);
    lemma_no_difference(level);
}

impl World {
    /// Every level that a session shows is a number.
    pub open spec fn shows_numbers(self) -> bool {
        forall|k: int|
            0 <= k < self.sessions.len() && (#[trigger] self.sessions[k]).level is Some
                ==> self.sessions[k].level->0.is_finite()
    }
}

/// However the proxy's level was changed, once the change has been handled the last known
/// level is the proxy's level, or less than the threshold away from it: small changes are
/// ignored but never add up.
pub proof fn lemma_proxy_never_drifts(author: Option<ContextId>, level: Volume, world: World)
    requires
        world.honest(),
        world.shows_numbers(),
        !made_by_proxy(author),
        world.own == level,
        level.is_finite(),
        world.last.is_finite(),
        world.own_accepts.contains(world.settled(level, level.difference(world.last))),
    ensures
        ({
            let end = finish(ProxyChange::of(author, level), world).1;
            close(end.own, end.last)
        }),
{
    let delta = level.difference(world.last);
    let pid = world.foreground();
    lemma_proxy_change(author, level, world);
    lemma_negligible_is_close(level, world.last);
    lemma_sum_is_defined(level, world.last.negated());
    if pid != 0 && world.target_of(pid, delta) is Some {
        let k = lemma_target_is_taken(world.sessions, pid, delta, 0, world.reach());
        lemma_sum_is_defined(world.sessions[k].level->0, delta);
        lemma_clamped_bounds(world.sessions[k].level->0.sum(delta));
    }
    lemma_no_difference(world.settled(level, delta));
}

proof fn lemma_level_is_shown(sessions: Seq<Session>, pid: u32, i: int, n: int) -> (k: int)
    requires
        level_from(sessions, pid, i, n) is Some,
    ensures
        i <= k < n,
        sessions[k].belongs(pid),
        level_from(sessions, pid, i, n) == sessions[k].level,
        forall|j: int| i <= j < k ==> !(#[trigger] sessions[j]).belongs(pid),
    decreases n - i,
{
    if sessions[i].belongs(pid) {
        i
    } else {
        lemma_level_is_shown(sessions, pid, i + 1, n)
    }
}

/// The level of a process is that of its first session that shows one; it has none only
/// where no session shows one.
pub proof fn lemma_level_of_first_session(pid: u32, world: World)
    ensures
        match world.level_of(pid) {
            Some(level) => exists|k: int|
                0 <= k < world.reach() && (#[trigger] world.sessions[k]).belongs(pid)
                    && world.sessions[k].level == Some(level) && forall|j: int|
                    0 <= j < k ==> !(#[trigger] world.sessions[j]).belongs(pid),
            None => forall|k: int|
                0 <= k < world.reach() ==> !(#[trigger] world.sessions[k]).belongs(pid),
        },
{
    if world.level_of(pid) is Some {
        let k = lemma_level_is_shown(world.sessions, pid, 0, world.reach());
        assert(world.sessions[k].belongs(pid));
    } else {
        lemma_no_level(world.sessions, pid, 0, world.reach());
    }
}

proof fn lemma_no_level(sessions: Seq<Session>, pid: u32, i: int, n: int)
    requires
        level_from(sessions, pid, i, n) is None,
    ensures
        forall|j: int| i <= j < n ==> !(#[trigger] sessions[j]).belongs(pid),
    decreases n - i,
{
    if i < n {
        lemma_no_level(sessions, pid, i + 1, n);
    }
}

/// No change of an application's level and no window event takes the proxy's level out of
/// step with the last known one.
pub proof fn lemma_followers_keep_step(
    author: Option<ContextId>,
    level: Volume,
    event: u32,
    window: bool,
    world: World,
)
    requires
        world.honest(),
        world.shows_numbers(),
        level.is_finite(),
        close(world.own, world.last),
    ensures
        ({
            let end = finish(AppChange::of(author, level), world).1;
            close(end.own, end.last)
        }),
        ({
            let end = finish(WindowChange::of(event, window), world).1;
            close(end.own, end.last)
        }),
{
    lemma_app_change(author, level, world);
    lemma_window_change(event, window, world);
    lemma_no_difference(level);
    let pid = world.foreground();
    if world.level_of(pid) is Some {
        let k = lemma_level_is_shown(world.sessions, pid, 0, world.reach());
        assert(world.sessions[k].level->0.is_finite());
        lemma_no_difference(world.level_of(pid)->0);
    }
}

/// The levels that the sessions of the foreground process are moved to lie between
/// silence and the loudest level.
pub proof fn lemma_moves_stay_in_range(session: Session, level: Volume, last: Volume)
    requires
        session.level is Some,
        session.level->0.is_finite(),
        level.is_finite(),
        last.is_finite(),
    ensures
        session.target(level.difference(last)).is_finite(),
        0 <= session.target(level.difference(last)).value() <= scaled(LOUDEST as int),
{
    lemma_sum_is_defined(level, last.negated());
    lemma_sum_is_defined(session.level->0, level.difference(last));
    lemma_clamped_bounds(session.level->0.sum(level.difference(last)));
}

/// The foreground process reports the level that the proxy has just given it. That
/// report changes nothing more.
pub proof fn lemma_echo_is_absorbed(author: Option<ContextId>, world: World)
    requires
        world.last.is_finite(),
    ensures
        finish(AppChange::of(author, world.last), world).1 == world,
{
    lemma_app_change(author, world.last, world);
    lemma_negligible_is_close(world.last, world.last);
    lemma_no_difference(world.last);
}

/// A report that the proxy was set to the last known level changes nothing.
pub proof fn lemma_repeated_change_is_absorbed(
    author: Option<ContextId>,
    level: Volume,
    world: World,
)
    requires
        world.honest(),
        level.is_finite(),
        world.last == level,
    ensures
        finish(ProxyChange::of(author, level), world).1 == world,
{
    lemma_proxy_change(author, level, world);
    lemma_no_difference(level);
}

/// Something that the handlers are told of.
pub ghost enum Event {
    /// The proxy's level was set.
    ProxySet { author: Option<ContextId>, level: Volume },
    /// The level of a session was set.
    AppSet { author: Option<ContextId>, level: Volume },
    /// The window manager reports an event.
    WindowEvent { event: u32, window: bool },
}

/// An event, and the world around it. Between two events anything may change but the
/// proxy's level and the last known level.
pub ghost struct Moment {
    pub event: Event,
    pub around: World,
}

/// The level can be set: it is a number between silence and the loudest level.
pub open spec fn in_range(level: Volume) -> bool {
    level.is_finite() && level.clamped() == level
}

impl Moment {
    /// The world in which the event is handled, given the proxy's level and the last known
    /// level before it. A program that sets the proxy's level has set it by then.
    pub open spec fn world(self, own: Volume, last: Volume) -> World {
        match self.event {
            Event::ProxySet { author, level } if !made_by_proxy(author) => World {
                own: level,
                last,
                ..self.around
            },
            _ => World { own, last, ..self.around },
        }
    }

    /// The world that the handling of the event leaves.
    pub open spec fn end(self, own: Volume, last: Volume) -> World {
        match self.event {
            Event::ProxySet { author, level } => finish(
                ProxyChange::of(author, level),
                self.world(own, last),
            ).1,
            Event::AppSet { author, level } => finish(
                AppChange::of(author, level),
                self.world(own, last),
            ).1,
            Event::WindowEvent { event, window } => finish(
                WindowChange::of(event, window),
                self.world(own, last),
            ).1,
        }
    }

    /// The levels of the event and of the sessions are numbers, the proxy was set to a
    /// level in range, and its session accepts every such level.
    pub open spec fn orderly(self) -> bool {
        &&& self.around.honest()
        &&& self.around.shows_numbers()
        &&& forall|level: Volume| in_range(level) ==> self.around.own_accepts.contains(level)
        &&& match self.event {
            Event::ProxySet { level, .. } => in_range(level),
            Event::AppSet { level, .. } => level.is_finite(),
            Event::WindowEvent { .. } => true,
        }
    }
}

/// The world after these events.
pub open spec fn world_after(moments: Seq<Moment>, start: World) -> World
    decreases moments.len(),
{
    if moments.len() == 0 {
        start
    } else {
        let before = world_after(moments.drop_last(), start);
        moments.last().end(before.own, before.last)
    }
}

proof fn lemma_settled_in_range(level: Volume, world: World)
    requires
        world.honest(),
        world.shows_numbers(),
        in_range(level),
        world.last.is_finite(),
    ensures
        in_range(world.settled(level, level.difference(world.last))),
{
    let delta = level.difference(world.last);
    let pid = world.foreground();
    lemma_sum_is_defined(level, world.last.negated());
    if pid != 0 && world.target_of(pid, delta) is Some {
        let k = lemma_target_is_taken(world.sessions, pid, delta, 0, world.reach());
        lemma_sum_is_defined(world.sessions[k].level->0, delta);
        lemma_clamped_bounds(world.sessions[k].level->0.sum(delta));
    }
}

/// Whatever happens, and in whatever order, the proxy's level is in step with the last
/// known level after each event has been handled.
pub proof fn lemma_always_in_step(moments: Seq<Moment>, start: World)
    requires
        close(start.own, start.last),
        forall|k: int| 0 <= k < moments.len() ==> (#[trigger] moments[k]).orderly(),
    ensures
        ({
            let end = world_after(moments, start);
            close(end.own, end.last)
        }),
    decreases moments.len(),
{
    if moments.len() > 0 {
        let earlier = moments.drop_last();
        assert forall|k: int| 0 <= k < earlier.len() implies (#[trigger] earlier[k]).orderly() by {
            assert(earlier[k] == moments[k]);
        }
        lemma_always_in_step(earlier, start);
        let before = world_after(earlier, start);
        let moment = moments.last();
        assert(moments[moments.len() - 1].orderly());
        let world = moment.world(before.own, before.last);
        assert(world.sessions == moment.around.sessions);
        match moment.event {
            Event::ProxySet { author, level } => {
                lemma_proxy_change(author, level, world);
                if !made_by_proxy(author) {
                    lemma_settled_in_range(level, world);
                    lemma_proxy_never_drifts(author, level, world);
                }
            },
            Event::AppSet { author, level } => {
                lemma_followers_keep_step(author, level, 0, false, world);
            },
            Event::WindowEvent { event, window } => {
                lemma_followers_keep_step(None, world.last, event, window, world);
            },
        }
    }
}

impl World {
    /// The level of the process in the foreground, where it has one.
    pub open spec fn heard(self) -> Option<Volume> {
        if self.foreground() == 0 {
            None
        } else {
            self.level_of(self.foreground())
        }
    }

    /// The last known level is close to the level of the process in the foreground, where
    /// that process has one.
    pub open spec fn in_touch(self) -> bool {
        self.heard() matches Some(level) ==> close(level, self.last)
    }

    /// The proxy can be reached, the levels of the sessions lie in range, and the process in
    /// the foreground has at most one session, which accepts every level in range.
    pub open spec fn responsive(self) -> bool {
        &&& self.proxy
        &&& forall|k: int|
            0 <= k < self.sessions.len() && (#[trigger] self.sessions[k]).level is Some
                ==> in_range(self.sessions[k].level->0)
        &&& forall|j: int, k: int|
            0 <= j < self.reach() && 0 <= k < self.reach() && (
            #[trigger] self.sessions[j]).belongs(self.foreground()) && (
            #[trigger] self.sessions[k]).belongs(self.foreground()) ==> j == k
        &&& forall|k: int, level: Volume|
            0 <= k < self.reach() && self.sessions[k].belongs(self.foreground()) && in_range(level)
                ==> #[trigger] self.sessions[k].accepts.contains(level)
    }
}

impl Moment {
    /// What has changed since `before` about the window at hand and the level of its
    /// process is what the event reports.
    pub open spec fn reported(self, before: World) -> bool {
        let world = self.world(before.own, before.last);
        let quiet = world.foreground() == before.foreground() && world.heard() == before.heard();
        match self.event {
            Event::ProxySet { .. } => quiet,
            Event::AppSet { author, level } => if world.foreground() != 0 && world.source == Some(
                world.foreground(),
            ) {
                &&& world.foreground() == before.foreground()
                &&& world.heard() == Some(level)
                &&& !made_by_proxy(author)
            } else {
                quiet
            },
            Event::WindowEvent { event, window } => quiet || (event == FOREGROUND_EVENT
                && window),
        }
    }
}

proof fn lemma_passed_on_in_touch(author: Option<ContextId>, level: Volume, world: World)
    requires
        world.honest(),
        world.shows_numbers(),
        world.responsive(),
        world.in_touch(),
        world.last.is_finite(),
        in_range(level),
        forall|level: Volume| in_range(level) ==> world.own_accepts.contains(level),
    ensures
        finish(ProxyChange::of(author, level), world).1.in_touch(),
{
    let delta = level.difference(world.last);
    let pid = world.foreground();
    let end = finish(ProxyChange::of(author, level), world).1;
    lemma_proxy_change(author, level, world);
    let unchanged = made_by_proxy(author) || delta.is_negligible() || pid == 0;
    lemma_level_of_first_session(pid, world);
    if !unchanged && world.level_of(pid) is Some {
        let k = lemma_level_is_shown(world.sessions, pid, 0, world.reach());
        lemma_sum_is_defined(level, world.last.negated());
        lemma_sum_is_defined(world.sessions[k].level->0, delta);
        lemma_clamped_bounds(world.sessions[k].level->0.sum(delta));
        assert(in_range(world.sessions[k].target(delta)));
        assert(world.sessions[k].moves(pid, delta));
        lemma_proxy_shows_the_level(author, level, world, k);
        lemma_target_of_only_session(pid, delta, world, k);
        lemma_no_difference(world.sessions[k].target(delta));
    } else if !unchanged {
        assert forall|j: int| 0 <= j < end.reach() implies !(#[trigger] end.sessions[j]).belongs(
            pid,
        ) by {
            assert(!world.sessions[j].belongs(pid));
        }
        lemma_level_of_first_session(pid, end);
    }
}

proof fn lemma_target_of_only_session(pid: u32, delta: Volume, world: World, k: int)
    requires
        0 <= k < world.reach(),
        world.sessions[k].moves(pid, delta),
        forall|j: int|
            0 <= j < world.reach() && j != k ==> !(#[trigger] world.sessions[j]).belongs(pid),
    ensures
        world.target_of(pid, delta) == Some(world.sessions[k].target(delta)),
{
    if world.target_of(pid, delta) is None {
        lemma_no_target(world.sessions, pid, delta, 0, world.reach());
    }
    let taken = lemma_target_is_taken(world.sessions, pid, delta, 0, world.reach());
    assert(taken == k);
}

/// Where every change about the foreground is reported and the process in the foreground
/// has at most one session, the last known level is close to the level of that process
/// after each event, and the proxy shows that level to within twice the threshold.
pub proof fn lemma_always_shows_the_foreground(moments: Seq<Moment>, start: World)
    requires
        close(start.own, start.last),
        start.in_touch(),
        forall|k: int|
            0 <= k < moments.len() ==> {
                let moment = #[trigger] moments[k];
                let before = world_after(moments.take(k), start);
                &&& moment.orderly()
                &&& moment.reported(before)
                &&& moment.world(before.own, before.last).responsive()
            },
    ensures
        ({
            let end = world_after(moments, start);
            &&& end.in_touch()
            &&& end.heard() matches Some(level) ==> nearby(end.own, level)
        }),
    decreases moments.len(),
{
    lemma_always_in_step(moments, start);
    if moments.len() > 0 {
        let earlier = moments.drop_last();
        let last = moments.len() - 1;
        assert forall|k: int| 0 <= k < earlier.len() implies {
            let moment = #[trigger] earlier[k];
            let before = world_after(earlier.take(k), start);
            &&& moment.orderly()
            &&& moment.reported(before)
            &&& moment.world(before.own, before.last).responsive()
        } by {
            assert(earlier[k] == moments[k]);
            assert(earlier.take(k) =~= moments.take(k));
        }
        lemma_always_shows_the_foreground(earlier, start);
        lemma_always_in_step(earlier, start);
        assert(moments.take(last) =~= earlier);
        let before = world_after(earlier, start);
        let moment = moments[last];
        assert(moment == moments.last());
        let world = moment.world(before.own, before.last);
        assert(world.sessions == moment.around.sessions);
        let pid = world.foreground();
        if world.level_of(pid) is Some {
            let k = lemma_level_is_shown(world.sessions, pid, 0, world.reach());
            assert(in_range(world.sessions[k].level->0));
        }
        match moment.event {
            Event::ProxySet { author, level } => {
                lemma_passed_on_in_touch(author, level, world);
            },
            Event::AppSet { author, level } => {
                lemma_app_change(author, level, world);
                if pid != 0 && world.source == Some(pid) {
                    lemma_app_change_syncs(author, level, world);
                }
            },
            Event::WindowEvent { event, window } => {
                lemma_window_change(event, window, world);
                if event == FOREGROUND_EVENT && window && world.heard() is Some {
                    lemma_window_change_syncs(world);
                }
            },
        }
    }
}

/// Every write to the proxy's session carries the proxy's mark, so that a report of it
/// starts nothing. A write to the session of an application names no author.
pub proof fn lemma_writes_are_marked(
    proxy: ProxyChange,
    app: AppChange,
    window: WindowChange,
    call: Call,
)
    requires
        proxy.pending() == Some(call) || app.pending() == Some(call) || window.pending() == Some(
            call,
        ),
    ensures
        match call {
            Call::WriteOwn(level, author) => author.is_own() && ProxyChange::of(
                Some(author),
                level,
            ).pending() is None,
            Call::WriteVolume(_, _, author) => author is None && !made_by_proxy(author),
            _ => true,
        },
{
    lemma_own_mark();
}

/// A session at a lower level is never moved above one at a higher level, and a larger move
/// never leads to a lower level.
pub proof fn lemma_moves_keep_order(low: Session, high: Session, less: Volume, more: Volume)
    requires
        low.level is Some,
        high.level is Some,
        low.level->0.is_finite(),
        high.level->0.is_finite(),
        less.is_finite(),
        more.is_finite(),
        low.level->0.value() <= high.level->0.value(),
        less.value() <= more.value(),
    ensures
        low.target(less).value() <= high.target(more).value(),
{
    let a = low.level->0;
    let b = high.level->0;
    lemma_sum_value(a, less);
    lemma_sum_value(b, more);
    lemma_clamped_value(a.sum(less));
    lemma_clamped_value(b.sum(more));
    lemma_rounded_value_monotone(a.value() + less.value(), b.value() + more.value());
    lemma_scaled_increases(0, LOUDEST as int);
}

/// The level that two moves, one after the other, lead to.
pub open spec fn moved_twice(level: Volume, first: Volume, second: Volume) -> Volume {
    level.sum(first).clamped().sum(second).clamped()
}

proof fn lemma_two_moves(level: Volume, first: Volume, second: Volume)
    requires
        in_range(level),
        first.is_finite(),
        second.is_finite(),
        0 <= level.value() + first.value() <= scaled(LOUDEST as int),
        0 <= level.value() + first.value() + second.value() <= scaled(LOUDEST as int),
    ensures
        moved_twice(level, first, second).is_finite(),
        distance(
            moved_twice(level, first, second).value(),
            level.value() + first.value() + second.value(),
        ) < 2 * pow2(126),
        8 * pow2(126) < scaled(THRESHOLD as int),
{
    let x = level.value() + first.value();
    lemma_scaled_increases(0, LOUDEST as int);
    lemma_sum_value(level, first);
    lemma_rounding_error(x);
    lemma_clamped_value(level.sum(first));
    lemma_clamped_bounds(level.sum(first));
    let middle = level.sum(first).clamped();
    let y = middle.value() + second.value();
    lemma_sum_value(middle, second);
    lemma_rounding_error(y);
    lemma_clamped_value(middle.sum(second));
    lemma_clamped_bounds(middle.sum(second));
}

/// Two moves that stay in range add up: they lead to within the threshold of the exact sum.
pub proof fn lemma_moves_add_up(level: Volume, first: Volume, second: Volume)
    requires
        in_range(level),
        first.is_finite(),
        second.is_finite(),
        0 <= level.value() + first.value() <= scaled(LOUDEST as int),
        0 <= level.value() + first.value() + second.value() <= scaled(LOUDEST as int),
    ensures
        distance(
            moved_twice(level, first, second).value(),
            level.value() + first.value() + second.value(),
        ) < scaled(THRESHOLD as int),
{
    lemma_two_moves(level, first, second);
}

/// The order of two moves that stay in range does not matter beyond the threshold.
pub proof fn lemma_order_of_moves(level: Volume, first: Volume, second: Volume)
    requires
        in_range(level),
        first.is_finite(),
        second.is_finite(),
        0 <= level.value() + first.value() <= scaled(LOUDEST as int),
        0 <= level.value() + second.value() <= scaled(LOUDEST as int),
        0 <= level.value() + first.value() + second.value() <= scaled(LOUDEST as int),
    ensures
        close(moved_twice(level, first, second), moved_twice(level, second, first)),
{
    lemma_two_moves(level, first, second);
    lemma_two_moves(level, second, first);
}

/// A move that stays in range and the same move back lead to a level close to the first
/// one. Where the level between the two can be encoded, they lead to the very value.
pub proof fn lemma_move_is_undone(level: Volume, delta: Volume)
    requires
        in_range(level),
        delta.is_finite(),
        0 <= level.value() + delta.value() <= scaled(LOUDEST as int),
    ensures
        close(moved_twice(level, delta, delta.negated()), level),
        forall|between: Volume|
            between.is_finite() && #[trigger] between.value() == level.value() + delta.value()
                ==> moved_twice(level, delta, delta.negated()).value() == level.value(),
{
    assert(delta.negated().value() == -delta.value());
    lemma_clamped_bounds(level);
    lemma_two_moves(level, delta, delta.negated());
    assert forall|between: Volume|
        between.is_finite() && #[trigger] between.value() == level.value()
            + delta.value() implies moved_twice(level, delta, delta.negated()).value()
        == level.value() by {
        lemma_rounded_value_exact(between);
        lemma_sum_value(level, delta);
        lemma_clamped_value(level.sum(delta));
        lemma_clamped_bounds(level.sum(delta));
        let middle = level.sum(delta).clamped();
        assert(middle.value() == between.value());
        lemma_rounded_value_exact(level);
        lemma_sum_value(middle, delta.negated());
        lemma_clamped_value(middle.sum(delta.negated()));
    }
}

/// Moves of different processes do not get in each other's way.
pub proof fn lemma_moves_of_others_commute(
    world: World,
    one: u32,
    delta: Volume,
    other: u32,
    another: Volume,
)
    requires
        one != other,
    ensures
        world.moved(one, delta).moved(other, another) == world.moved(other, another).moved(
            one,
            delta,
        ),
{
    let a = world.moved(one, delta).moved(other, another);
    let b = world.moved(other, another).moved(one, delta);
    assert(a.sessions =~= b.sessions);
}

/// The session can be opened, offers the control, belongs to process `pid`, can be adjusted
/// and read, and accepts its level moved by `delta`.
pub open spec fn takes_part(session: Session, pid: u32, delta: Volume) -> bool {
    &&& session.opens
    &&& session.controllable
    &&& session.process == Some(pid)
    &&& session.adjustable
    &&& session.level is Some
    &&& session.accepts.contains(session.level->0.sum(delta).clamped())
}

/// All that a change of the proxy's level does. The proxy's own writes and changes of less
/// than 0.001 do nothing. Any other change moves the sessions of the process of the
/// foreground window that take part, and no other session, by what the level differs from
/// the last known one. The last of them, in the order of the list, decides the last known
/// level; without one, the level that was set does. The proxy's session follows where it
/// accepts that level.
pub proof fn lemma_all_of_a_proxy_change(author: Option<ContextId>, level: Volume, world: World)
    requires
        world.honest(),
    ensures
        ({
            let delta = level.difference(world.last);
            let end = finish(ProxyChange::of(author, level), world).1;
            let n = if world.manager && world.listing && world.count is Some {
                world.count->0 as int
            } else {
                0
            };
            let pid = match world.window {
                Some(pid) => pid,
                None => 0,
            };
            if made_by_proxy(author) || delta.bits % 0x8000_0000 < 0x3a83_126f {
                end == world
            } else {
                &&& end.sessions.len() == world.sessions.len()
                &&& forall|k: int|
                    0 <= k < world.sessions.len() ==> #[trigger] end.sessions[k] == (
                    if pid != 0 && k < n && takes_part(
                        world.sessions[k],
                        pid,
                        delta,
                    ) {
                        Session {
                            level: Some(world.sessions[k].level->0.sum(delta).clamped()),
                            ..world.sessions[k]
                        }
                    } else {
                        world.sessions[k]
                    })
                &&& pid != 0 ==> forall|k: int|
                    0 <= k < n && takes_part(#[trigger] world.sessions[k], pid, delta) && (
                    forall|j: int|
                        k < j < n ==> !takes_part(#[trigger] world.sessions[j], pid, delta))
                        ==> end.last == world.sessions[k].level->0.sum(delta).clamped()
                &&& pid == 0 || (forall|k: int|
                    0 <= k < n ==> !takes_part(#[trigger] world.sessions[k], pid, delta))
                    ==> end.last == level
                &&& end.own == (if world.own_accepts.contains(end.last) {
                    end.last
                } else {
                    world.own
                })
                &&& end == (World {
                    sessions: end.sessions,
                    own: end.own,
                    last: end.last,
                    ..world
                })
            }
        }),
{
    let delta = level.difference(world.last);
    let end = finish(ProxyChange::of(author, level), world).1;
    let pid = world.foreground();
    lemma_proxy_change(author, level, world);
    assert forall|k: int| 0 <= k < world.sessions.len() && pid != 0 implies #[trigger] takes_part(
        world.sessions[k],
        pid,
        delta,
    ) == world.sessions[k].moves(pid, delta) by {}
    if pid != 0 {
        if world.target_of(pid, delta) is Some {
            let k = lemma_target_is_taken(world.sessions, pid, delta, 0, world.reach());
            assert(takes_part(world.sessions[k], pid, delta));
        } else {
            lemma_no_target(world.sessions, pid, delta, 0, world.reach());
        }
    }
}

/// All that a change of an application's level does: where another program made it, the
/// session's process is that of the foreground window, the proxy can be reached and accepts
/// the level, and the level differs from the last known one by 0.001 or more, the proxy's
/// level and the last known level become that level. Otherwise nothing changes.
pub proof fn lemma_all_of_an_app_change(author: Option<ContextId>, level: Volume, world: World)
    ensures
        ({
            let size = level.difference(world.last).bits % 0x8000_0000;
            let end = finish(AppChange::of(author, level), world).1;
            if !made_by_proxy(author) && world.window is Some && world.window != Some(0u32)
                && world.source == world.window && world.proxy && 0x3a83_126f <= size
                <= 0x7f80_0000 && world.own_accepts.contains(level) {
                end == World { own: level, last: level, ..world }
            } else {
                end == world
            }
        }),
{
    lemma_app_change(author, level, world);
}

/// The session can be opened, offers the control, belongs to process `pid`, and its level
/// can be read.
pub open spec fn shows_level(session: Session, pid: u32) -> bool {
    &&& session.opens
    &&& session.controllable
    &&& session.process == Some(pid)
    &&& session.adjustable
    &&& session.level is Some
}

/// All that a window event does: where it tells of a new foreground window and names one,
/// the window has a process, the proxy can be reached, and a session of that process shows a
/// level, the first such level in the order of the list becomes the proxy's level and the
/// last known one, if the proxy accepts it and it differs from the last known one by 0.001
/// or more. Otherwise nothing changes.
pub proof fn lemma_all_of_a_window_event(event: u32, window: bool, world: World)
    requires
        world.honest(),
    ensures
        ({
            let end = finish(WindowChange::of(event, window), world).1;
            let n = if world.manager && world.listing && world.count is Some {
                world.count->0 as int
            } else {
                0
            };
            let pid = match world.window {
                Some(pid) => pid,
                None => 0,
            };
            if event != 3 || !window || pid == 0 || !world.proxy {
                end == world
            } else {
                &&& (forall|k: int| 0 <= k < n ==> !shows_level(#[trigger] world.sessions[k], pid))
                    ==> end == world
                &&& forall|k: int|
                    0 <= k < n && shows_level(#[trigger] world.sessions[k], pid) && (forall|j: int|
                        0 <= j < k ==> !shows_level(#[trigger] world.sessions[j], pid)) ==> {
                        let level = world.sessions[k].level->0;
                        let size = level.difference(world.last).bits % 0x8000_0000;
                        if 0x3a83_126f <= size <= 0x7f80_0000 && world.own_accepts.contains(
                            level,
                        ) {
                            end == World { own: level, last: level, ..world }
                        } else {
                            end == world
                        }
                    }
            }
        }),
{
    let pid = world.foreground();
    lemma_window_change(event, window, world);
    lemma_level_of_first_session(pid, world);
    assert forall|k: int| 0 <= k < world.sessions.len() && pid != 0 implies #[trigger] shows_level(
        world.sessions[k],
        pid,
    ) == world.sessions[k].belongs(pid) by {}
    if pid != 0 && world.level_of(pid) is Some {
        let k = lemma_level_is_shown(world.sessions, pid, 0, world.reach());
        assert(shows_level(world.sessions[k], pid));
    }
}

/// Turning the proxy up turns the foreground up, and turning it down turns it down: a
/// session that takes part in a change from the last known level to `level` ends where its
/// own level plus the exact change lies, kept between silence and 1, to within two
/// roundings.
pub proof fn lemma_session_follows_the_knob(
    author: Option<ContextId>,
    level: Volume,
    world: World,
    k: int,
    pid: u32,
)
    requires
        world.honest(),
        !made_by_proxy(author),
        in_range(level),
        in_range(world.last),
        !(-scaled(THRESHOLD as int) < rounded_value(level.value() - world.last.value()) < scaled(
            THRESHOLD as int,
        )),
        world.window == Some(pid),
        pid != 0,
        world.manager,
        world.listing,
        world.count is Some,
        0 <= k < world.count->0,
        shows_level(world.sessions[k], pid),
        in_range(world.sessions[k].level->0),
        forall|level: Volume|
            in_range(level) ==> #[trigger] world.sessions[k].accepts.contains(level),
    ensures
        ({
            let before = world.sessions[k].level->0.value();
            let change = level.value() - world.last.value();
            let end = finish(ProxyChange::of(author, level), world).1;
            let after = end.sessions[k].level->0.value();
            &&& end.sessions[k].level is Some
            &&& distance(after, bounded(before + change)) < 2 * pow2(126)
            &&& change > 0 ==> after >= before
            &&& change < 0 ==> after <= before
        }),
{
    let delta = level.difference(world.last);
    let v = world.sessions[k].level->0;
    let before = v.value();
    let change = level.value() - world.last.value();
    lemma_difference_value(level, world.last);
    lemma_thresholds(delta);
    lemma_kinds_of_encodings(delta);
    lemma_clamped_bounds(level);
    lemma_clamped_bounds(world.last);
    lemma_clamped_bounds(v);
    lemma_scaled_increases(0, LOUDEST as int);
    lemma_rounding_error(change);
    assert(delta.is_finite()) by {
        if delta.magnitude() == 0x7f80_0000 {
            lemma_scaled_increases(0x4000_0000, 0x7f80_0000);
            lemma_twice_loudest();
        }
    }
    lemma_sum_value(v, delta);
    lemma_clamped_value(v.sum(delta));
    lemma_clamped_bounds(v.sum(delta));
    let moved = v.value() + delta.value();
    assert(in_range(v.sum(delta).clamped()));
    assert(takes_part(world.sessions[k], pid, delta));
    lemma_all_of_a_proxy_change(author, level, world);
    let loudest = Volume { bits: LOUDEST };
    lemma_rounded_value_exact(loudest);
    lemma_rounded_value_exact(loudest.negated());
    lemma_rounded_value_monotone(change, loudest.value());
    lemma_rounded_value_monotone(loudest.negated().value(), change);
    if moved < 2 * scaled(LOUDEST as int) {
        lemma_rounding_error(moved);
    } else {
        lemma_rounded_value_monotone(loudest.value(), moved);
    }
    lemma_rounded_value_exact(v);
    if change > 0 {
        lemma_rounded_value_monotone(before, moved);
    } else {
        lemma_rounded_value_monotone(moved, before);
    }
}

} // verus!
