use volume_proxy::context::{is_own_write, ContextId};
use volume_proxy::exchange::{Call, Machine, Reply};
use volume_proxy::foreground::{ForegroundPid, ForegroundPlace, ForegroundScan};
use volume_proxy::handlers::{AppChange, ProxyChange, WindowChange, FOREGROUND_EVENT};
use volume_proxy::scan::{Purpose, Scan};
use volume_proxy::volume::Volume;

fn level(x: f32) -> Volume {
    Volume { bits: x.to_bits() }
}

fn number(v: Volume) -> f32 {
    f32::from_bits(v.bits)
}

/// One session of the simulated endpoint.
#[derive(Clone, Debug, PartialEq)]
struct Session {
    opens: bool,
    controllable: bool,
    process: Option<u32>,
    adjustable: bool,
    level: Option<f32>,
    accepts: bool,
}

fn session(pid: u32, x: f32) -> Session {
    Session {
        opens: true,
        controllable: true,
        process: Some(pid),
        adjustable: true,
        level: Some(x),
        accepts: true,
    }
}

/// A simulated audio system.
#[derive(Clone, Debug, PartialEq)]
struct Endpoint {
    window: Option<u32>,
    source: Option<u32>,
    manager: bool,
    listing: bool,
    count: Option<i32>,
    sessions: Vec<Session>,
    proxy: bool,
    own: f32,
    own_accepts: bool,
    last: f32,
}

fn endpoint(window: Option<u32>, sessions: Vec<Session>, x: f32) -> Endpoint {
    Endpoint {
        window,
        source: window,
        manager: true,
        listing: true,
        count: Some(sessions.len() as i32),
        sessions,
        proxy: true,
        own: x,
        own_accepts: true,
        last: x,
    }
}

fn success(ok: bool) -> Reply {
    if ok {
        Reply::Done
    } else {
        Reply::Failed
    }
}

impl Endpoint {
    fn answer(&mut self, call: Call) -> Reply {
        match call {
            Call::ForegroundWindow => Reply::Window(self.window.is_some()),
            Call::WindowProcess => Reply::Process(self.window.unwrap_or(0)),
            Call::SourceProcess => match self.source {
                Some(pid) => Reply::Process(pid),
                None => Reply::Failed,
            },
            Call::ActivateManager(context) => {
                assert_eq!(context, 23);
                success(self.manager)
            }
            Call::ListSessions => success(self.listing),
            Call::CountSessions => match self.count {
                Some(n) => Reply::Count(n),
                None => Reply::Failed,
            },
            Call::OpenSession(i) => success(self.sessions[i as usize].opens),
            Call::OpenControl(i) => success(self.sessions[i as usize].controllable),
            Call::SessionProcess(i) => match self.sessions[i as usize].process {
                Some(pid) => Reply::Process(pid),
                None => Reply::Failed,
            },
            Call::OpenVolume(i) => success(self.sessions[i as usize].adjustable),
            Call::ReadVolume(i) => match self.sessions[i as usize].level {
                Some(x) => Reply::Level(level(x)),
                None => Reply::Failed,
            },
            Call::WriteVolume(i, v, author) => {
                assert_eq!(author, None);
                let s = &mut self.sessions[i as usize];
                if s.accepts {
                    s.level = Some(number(v));
                }
                success(s.accepts)
            }
            Call::AcquireProxy => success(self.proxy),
            Call::LoadLevel => Reply::Level(level(self.last)),
            Call::WriteOwn(v, author) => {
                assert!(is_own_write(&Some(author)));
                if self.own_accepts {
                    self.own = number(v);
                }
                success(self.own_accepts)
            }
            Call::StoreLevel(v) => {
                self.last = number(v);
                Reply::Done
            }
        }
    }
}

fn run<M: Machine>(machine: M, world: &mut Endpoint) -> (M, Vec<Call>) {
    let mut machine = machine;
    let mut calls: Vec<Call> = Vec::new();
    while let Some(call) = machine.call() {
        calls.push(call);
        let reply = world.answer(call);
        machine = machine.advance(reply);
    }
    (machine, calls)
}

fn stranger() -> Option<ContextId> {
    let mut id = ContextId::own();
    id.data4[7] = 0;
    Some(id)
}

#[test]
fn own_writes_are_recognised() {
    assert!(is_own_write(&Some(ContextId::own())));
    assert!(!is_own_write(&None));
    assert!(!is_own_write(&stranger()));
    assert!(!is_own_write(&Some(ContextId::session())));
    for field in 0..4 {
        let mut id = ContextId::own();
        match field {
            0 => id.data1 += 1,
            1 => id.data2 += 1,
            2 => id.data3 += 1,
            _ => id.data4[0] += 1,
        }
        assert!(!is_own_write(&Some(id)));
    }
}

#[test]
fn identifiers_have_their_values() {
    let own = ContextId::own();
    assert_eq!(own.data1, 0x7A3B_5C1D);
    assert_eq!(own.data2, 0xE2F4);
    assert_eq!(own.data3, 0x4A6B);
    assert_eq!(own.data4, [0x8C, 0x9D, 0xAE, 0xBF, 0xC0, 0xD1, 0xE2, 0xF3]);
    let session = ContextId::session();
    assert_eq!(session.data1, 0xA1B2_C3D4);
    assert_eq!(session.data2, 0xE5F6);
    assert_eq!(session.data3, 0x7890);
    assert_eq!(session.data4, [0xAB, 0xCD, 0xEF, 0x01, 0x23, 0x45, 0x67, 0x89]);
}

#[test]
fn foreground_process_is_found() {
    let mut world = endpoint(Some(7), vec![], 0.5);
    assert_eq!(run(ForegroundPid::start(), &mut world).0, ForegroundPid::Found(7));
    world.window = None;
    let (end, calls) = run(ForegroundPid::start(), &mut world);
    assert_eq!(end, ForegroundPid::Found(0));
    assert_eq!(calls, vec![Call::ForegroundWindow]);
}

#[test]
fn first_level_of_a_process_is_found() {
    let mut blind = session(7, 0.1);
    blind.level = None;
    let mut shut = session(7, 0.2);
    shut.opens = false;
    let mut plain = session(7, 0.3);
    plain.controllable = false;
    let mut mute = session(7, 0.4);
    mute.adjustable = false;
    let mut secret = session(7, 0.45);
    secret.process = None;
    let sessions = vec![
        session(3, 0.9), blind, shut, plain, mute, secret, session(7, 0.6), session(7, 0.7),
    ];
    let mut world = endpoint(Some(7), sessions, 0.5);
    let before = world.clone();
    let (end, calls) = run(Scan::find(7), &mut world);
    assert_eq!(end.found, Some(level(0.6)));
    assert_eq!(world, before);
    assert_eq!(*calls.last().unwrap(), Call::ReadVolume(6));
    assert_eq!(run(Scan::find(8), &mut world).0.found, None);
}

#[test]
fn unreadable_lists_have_no_level() {
    let base = endpoint(Some(7), vec![session(7, 0.6)], 0.5);
    for case in 0..5 {
        let mut world = base.clone();
        match case {
            0 => world.manager = false,
            1 => world.listing = false,
            2 => world.count = None,
            3 => world.count = Some(0),
            _ => world.count = Some(-1),
        }
        assert_eq!(run(Scan::find(7), &mut world).0.found, None);
    }
}

#[test]
fn all_sessions_of_a_process_are_shifted() {
    let mut stubborn = session(7, 0.5);
    stubborn.accepts = false;
    let sessions = vec![session(7, 0.5), session(3, 0.5), session(7, 0.9), stubborn];
    let mut world = endpoint(Some(7), sessions, 0.5);
    let (end, _) = run(Scan::shift(7, level(0.25)), &mut world);
    assert_eq!(end.found, Some(level(1.0)));
    assert_eq!(world.sessions[0].level, Some(0.75));
    assert_eq!(world.sessions[1].level, Some(0.5));
    assert_eq!(world.sessions[2].level, Some(1.0));
    assert_eq!(world.sessions[3].level, Some(0.5));
    let (end, _) = run(Scan::shift(7, level(-0.875)), &mut world);
    assert_eq!(end.found, Some(level(0.125)));
    assert_eq!(world.sessions[0].level, Some(0.0));
}

#[test]
fn foreground_walks_need_a_process() {
    let mut world = endpoint(Some(7), vec![session(7, 0.6)], 0.5);
    let (end, _) = run(ForegroundScan::start(Purpose::Find), &mut world);
    assert_eq!(end.place, ForegroundPlace::Ended(Some(level(0.6))));
    for window in vec![None, Some(0)] {
        world.window = window;
        let (end, calls) = run(ForegroundScan::start(Purpose::Find), &mut world);
        assert_eq!(end.outcome(), Some(None));
        assert!(!calls.contains(&Call::ActivateManager(23)));
    }
}

#[test]
fn proxy_change_is_passed_on() {
    let mut world = endpoint(Some(7), vec![session(3, 0.2), session(7, 0.25)], 0.5);
    world.own = 0.75;
    run(ProxyChange::start(None, level(0.75)), &mut world);
    assert_eq!(world.sessions[0].level, Some(0.2));
    assert_eq!(world.sessions[1].level, Some(0.5));
    assert_eq!(world.own, 0.5);
    assert_eq!(world.last, 0.5);
}

#[test]
fn proxy_keeps_its_level_without_a_foreground_session() {
    for window in vec![None, Some(0), Some(9)] {
        let mut world = endpoint(window, vec![session(7, 0.25)], 0.5);
        world.own = 0.75;
        let (_, calls) = run(ProxyChange::start(stranger(), level(0.75)), &mut world);
        assert_eq!(world.own, 0.75);
        assert_eq!(world.last, 0.75);
        assert_eq!(world.sessions[0].level, Some(0.25));
        assert!(calls.contains(&Call::WriteOwn(level(0.75), ContextId::own())));
    }
}

#[test]
fn proxy_change_is_remembered_where_the_write_is_refused() {
    let mut world = endpoint(Some(7), vec![session(7, 0.25)], 0.5);
    world.own = 0.75;
    world.own_accepts = false;
    run(ProxyChange::start(None, level(0.75)), &mut world);
    assert_eq!(world.own, 0.75);
    assert_eq!(world.last, 0.5);
}

#[test]
fn small_proxy_changes_are_ignored_but_do_not_add_up() {
    let mut world = endpoint(Some(7), vec![session(7, 0.25)], 0.5);
    let before = world.clone();
    run(ProxyChange::start(None, level(0.5005)), &mut world);
    assert_eq!(world, before);
    run(ProxyChange::start(None, level(0.502)), &mut world);
    assert_eq!(world.sessions[0].level, Some(0.25 + (0.502 - 0.5)));
}

#[test]
fn own_writes_start_nothing() {
    let author = Some(ContextId::own());
    assert_eq!(ProxyChange::start(author, level(0.9)).call(), None);
    assert_eq!(AppChange::start(author, level(0.9)).call(), None);
}

#[test]
fn changes_that_are_no_number_differ_by_handler() {
    // The proxy passes them on; an application's are not followed.
    let mut world = endpoint(Some(7), vec![session(7, 0.25)], 0.5);
    let (_, calls) = run(ProxyChange::start(None, level(f32::NAN)), &mut world);
    assert!(calls.contains(&Call::OpenVolume(0)));
    assert!(world.last.is_nan());
    let mut world = endpoint(Some(7), vec![session(7, 0.25)], 0.5);
    run(AppChange::start(None, level(f32::NAN)), &mut world);
    assert_eq!(world.last, 0.5);
}

#[test]
fn proxy_follows_the_foreground_application() {
    let mut world = endpoint(Some(7), vec![], 0.5);
    run(AppChange::start(None, level(0.8)), &mut world);
    assert_eq!(world.own, 0.8);
    assert_eq!(world.last, 0.8);
}

#[test]
fn proxy_ignores_other_application_changes() {
    for case in 0..7 {
        let mut world = endpoint(Some(7), vec![], 0.5);
        let mut x = 0.8;
        match case {
            0 => world.source = Some(8),
            1 => world.source = None,
            2 => world.source = Some(0),
            3 => world.window = None,
            4 => world.proxy = false,
            5 => world.own_accepts = false,
            _ => x = 0.5009,
        }
        let before = world.clone();
        run(AppChange::start(stranger(), level(x)), &mut world);
        assert_eq!(world, before);
    }
}

#[test]
fn echo_is_absorbed() {
    let mut world = endpoint(Some(7), vec![session(7, 0.25)], 0.5);
    world.own = 0.75;
    run(ProxyChange::start(None, level(0.75)), &mut world);
    let before = world.clone();
    run(AppChange::start(None, level(world.last)), &mut world);
    assert_eq!(world, before);
    run(ProxyChange::start(None, level(world.last)), &mut world);
    assert_eq!(world, before);
}

#[test]
fn proxy_follows_the_foreground_window() {
    let mut world = endpoint(Some(7), vec![session(3, 0.1), session(7, 0.3)], 0.5);
    run(WindowChange::start(FOREGROUND_EVENT, true), &mut world);
    assert_eq!(world.own, 0.3);
    assert_eq!(world.last, 0.3);
    world.window = Some(3);
    run(WindowChange::start(FOREGROUND_EVENT, true), &mut world);
    assert_eq!(world.own, 0.1);
}

#[test]
fn other_window_events_are_ignored() {
    assert_eq!(FOREGROUND_EVENT, windows::Win32::UI::WindowsAndMessaging::EVENT_SYSTEM_FOREGROUND);
    assert_eq!(WindowChange::start(FOREGROUND_EVENT + 1, true).call(), None);
    assert_eq!(WindowChange::start(0, true).call(), None);
    assert_eq!(WindowChange::start(FOREGROUND_EVENT, false).call(), None);
    for case in 0..5 {
        let mut world = endpoint(Some(7), vec![session(7, 0.3)], 0.5);
        match case {
            0 => world.window = Some(0),
            1 => world.window = Some(8),
            2 => world.proxy = false,
            3 => world.own_accepts = false,
            _ => world.sessions[0].level = Some(0.5004),
        }
        let before = world.clone();
        run(WindowChange::start(FOREGROUND_EVENT, true), &mut world);
        assert_eq!(world, before);
    }
}

#[test]
fn proxy_stays_in_step_over_many_events() {
    let sessions = vec![session(7, 0.5), session(9, 0.25), session(7, 0.875)];
    let mut world = endpoint(Some(7), sessions, 0.5);
    for step in 0..400u32 {
        let x = ((step * 37) % 101) as f32 / 100.0;
        world.window = match step % 3 {
            0 => Some(7),
            1 => Some(9),
            _ => None,
        };
        world.source = if step % 5 == 0 { Some(9) } else { Some(7) };
        match (step / 3) % 3 {
            0 => {
                world.own = x;
                run(ProxyChange::start(stranger(), level(x)), &mut world);
            }
            1 => {
                run(AppChange::start(stranger(), level(x)), &mut world);
            }
            _ => {
                run(WindowChange::start(FOREGROUND_EVENT, true), &mut world);
            }
        }
        assert!((world.own - world.last).abs() < 0.001);
        assert!(world.own >= 0.0 && world.own <= 1.0);
    }
}

#[test]
fn foreground_stays_in_touch_over_reported_events() {
    let mut world = endpoint(Some(7), vec![session(7, 0.5), session(9, 0.25)], 0.5);
    for step in 0..400u32 {
        let x = ((step * 37) % 101) as f32 / 100.0;
        let k = (step / 4 % 2) as usize;
        match step % 4 {
            0 => {
                world.own = x;
                run(ProxyChange::start(stranger(), level(x)), &mut world);
            }
            1 => {
                world.sessions[k].level = Some(x);
                world.source = world.sessions[k].process;
                run(AppChange::start(None, level(x)), &mut world);
            }
            2 => {
                world.window = world.sessions[k].process;
                run(WindowChange::start(FOREGROUND_EVENT, true), &mut world);
            }
            _ => {
                run(WindowChange::start(FOREGROUND_EVENT + 1, true), &mut world);
            }
        }
        let heard = world.sessions.iter().find(|s| s.process == world.window).unwrap();
        assert!((heard.level.unwrap() - world.last).abs() < 0.001);
        assert!((heard.level.unwrap() - world.own).abs() < 0.002);
    }
}

fn shifted(x: f32, delta: f32) -> f32 {
    let mut world = endpoint(Some(7), vec![session(7, x)], 0.5);
    run(Scan::shift(7, level(delta)), &mut world);
    world.sessions[0].level.unwrap()
}

#[test]
fn shifts_are_undone_and_keep_order() {
    assert_eq!(shifted(shifted(0.5, 0.25), -0.25), 0.5);
    for a in 0..20u32 {
        for b in 0..20u32 {
            let (x, delta) = (a as f32 / 20.0, b as f32 / 20.0 - 0.5);
            if x + delta >= 0.0 && x + delta <= 1.0 {
                assert!((shifted(shifted(x, delta), -delta) - x).abs() < 0.001);
            }
            if x + delta >= 0.0 && x + delta + 0.125 <= 1.0 {
                let one = shifted(shifted(x, delta), 0.125);
                let other = shifted(shifted(x, 0.125), delta);
                assert!(x + 0.125 > 1.0 || (one - other).abs() < 0.001);
            }
            assert!(shifted(x, delta) <= shifted(x + 0.05, delta));
            assert!(shifted(x, delta) <= shifted(x, delta + 0.05));
        }
    }
    assert_eq!(shifted(shifted(0.875, 0.5), -0.5), 0.5);
}
