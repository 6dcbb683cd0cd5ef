use volume_proxy::context::ContextId;
use volume_proxy::exchange::{Call, Reply};
use volume_proxy::run::{
    Outcome, RunCall, RunReply, SessionRun, Stage, StreamRequest, WaitRequest, BUSY_DELAY,
    DEVICE_IN_USE, MESSAGES_READY, STREAM_DELAY, STREAM_READY, WAIT_FAILED,
};
use volume_proxy::volume::{Volume, HALF};

const WAKE: usize = 0x44;

const CREATE_WAKE: RunCall = RunCall::CreateWake { manual: false, signalled: false };

const ENDPOINT: RunCall = RunCall::DefaultEndpoint { flow: 0, role: 0 };

const TAKE_MESSAGE: RunCall = RunCall::TakeMessage { first: 0, last: 0, removal: 1 };

fn level(x: f32) -> Volume {
    Volume { bits: x.to_bits() }
}

/// The call that opens the stream.
fn opening() -> RunCall {
    RunCall::Initialize(StreamRequest {
        mode: 0,
        flags: 0x0004_0000,
        duration: 100_000,
        period: 0,
        session: ContextId::session(),
    })
}

/// The call that waits for the stream or for messages.
fn rest() -> RunCall {
    RunCall::Wait(WaitRequest { event: WAKE, all: false, timeout: u32::MAX, input: 0x04FF })
}

/// What the calls of the set-up reply when all goes well.
fn smooth(call: RunCall) -> RunReply {
    match call {
        RunCall::IsLost => RunReply::Flag(false),
        RunCall::MixFormat => RunReply::FrameSize(8),
        RunCall::DevicePeriod => RunReply::Period(100_000),
        RunCall::CreateWake { .. } => RunReply::Handle(WAKE),
        RunCall::Audio(Call::ForegroundWindow) => RunReply::Audio(Reply::Window(false)),
        RunCall::CountSessions => RunReply::Count(2),
        RunCall::BufferSize => RunReply::Frames(480),
        _ => RunReply::Done,
    }
}

/// Runs up to the first call that `stop` names, and returns the calls before it.
fn up_to(run: SessionRun, stop: RunCall) -> (SessionRun, Vec<RunCall>) {
    let mut run = run;
    let mut calls: Vec<RunCall> = Vec::new();
    loop {
        let call = run.call().unwrap();
        if call == stop {
            return (run, calls);
        }
        calls.push(call);
        run = run.advance(smooth(call));
    }
}

/// Runs to the end, as long as every call just succeeds.
fn wind_down(run: SessionRun) -> (Outcome, Vec<RunCall>) {
    let mut run = run;
    let mut calls: Vec<RunCall> = Vec::new();
    while let Some(call) = run.call() {
        calls.push(call);
        run = run.advance(RunReply::Done);
    }
    match run.stage {
        Stage::Finished(outcome) => (outcome, calls),
        _ => panic!("the run has not ended"),
    }
}

fn waiting() -> SessionRun {
    up_to(SessionRun::start(), rest()).0
}

#[test]
fn setup_makes_its_calls_in_order() {
    let (_, calls) = up_to(SessionRun::start(), rest());
    let half = Volume { bits: HALF };
    assert_eq!(
        calls,
        vec![
            RunCall::ForgetLoss,
            RunCall::DropSessions,
            RunCall::WithdrawProxy,
            RunCall::CreateEnumerator(23),
            ENDPOINT,
            RunCall::ActivateClient(23),
            RunCall::MixFormat,
            RunCall::DevicePeriod,
            opening(),
            RunCall::FreeFormat,
            CREATE_WAKE,
            RunCall::PublishWake(WAKE),
            RunCall::VolumeService,
            RunCall::ControlService,
            RunCall::AttachWake(WAKE),
            RunCall::Audio(Call::ForegroundWindow),
            RunCall::SetOwn(half, ContextId::own()),
            RunCall::PublishProxy(half),
            RunCall::ActivateManager(23),
            RunCall::RegisterArrivals,
            RunCall::ListSessions,
            RunCall::CountSessions,
            RunCall::OpenSession(0),
            RunCall::OpenControl(0),
            RunCall::Watch(0),
            RunCall::OpenSession(1),
            RunCall::OpenControl(1),
            RunCall::Watch(1),
            RunCall::PublishSessions,
            RunCall::RegisterProxy,
            RunCall::Start,
            RunCall::RenderService,
            RunCall::BufferSize,
            RunCall::GetBuffer(480),
            RunCall::Silence(3840),
            RunCall::ReleaseBuffer { frames: 480, flags: 0 },
        ]
    );
}

#[test]
fn begins_with_the_foreground_level() {
    let (mut run, _) = up_to(SessionRun::start(), RunCall::Audio(Call::ForegroundWindow));
    let replies = vec![
        Reply::Window(true),
        Reply::Process(7),
        Reply::Done,
        Reply::Done,
        Reply::Count(1),
        Reply::Done,
        Reply::Done,
        Reply::Process(7),
        Reply::Done,
        Reply::Level(level(0.3)),
    ];
    for reply in replies {
        run = run.advance(RunReply::Audio(reply));
    }
    assert_eq!(run.call(), Some(RunCall::SetOwn(level(0.3), ContextId::own())));
    run = run.advance(RunReply::Done);
    assert_eq!(run.call(), Some(RunCall::PublishProxy(level(0.3))));
}

#[test]
fn vital_failures_undo_what_was_done() {
    let event = vec![RunCall::ClearWake, RunCall::CloseWake(WAKE)];
    let mut arrivals = vec![RunCall::UnregisterArrivals];
    arrivals.extend(event.clone());
    let mut proxy = vec![RunCall::UnregisterProxy];
    proxy.extend(arrivals.clone());
    let cases = vec![
        (RunCall::CreateEnumerator(23), vec![]),
        (ENDPOINT, vec![]),
        (RunCall::ActivateClient(23), vec![]),
        (RunCall::MixFormat, vec![]),
        (RunCall::DevicePeriod, vec![]),
        (opening(), vec![]),
        (CREATE_WAKE, vec![]),
        (RunCall::VolumeService, event.clone()),
        (RunCall::ControlService, event.clone()),
        (RunCall::AttachWake(WAKE), event.clone()),
        (RunCall::SetOwn(Volume { bits: HALF }, ContextId::own()), event.clone()),
        (RunCall::ActivateManager(23), event.clone()),
        (RunCall::RegisterArrivals, event.clone()),
        (RunCall::RegisterProxy, arrivals.clone()),
        (RunCall::Start, proxy.clone()),
        (RunCall::RenderService, proxy.clone()),
        (RunCall::BufferSize, proxy.clone()),
        (RunCall::GetBuffer(480), proxy.clone()),
        (RunCall::ReleaseBuffer { frames: 480, flags: 0 }, proxy.clone()),
    ];
    for (call, undone) in cases {
        let (run, _) = up_to(SessionRun::start(), call);
        let (outcome, calls) = wind_down(run.advance(RunReply::Failed(-5)));
        assert_eq!(outcome, Outcome::Failed(-5));
        assert_eq!(calls, undone);
    }
}

#[test]
fn no_event_needs_no_closing() {
    let (run, _) = up_to(SessionRun::start(), CREATE_WAKE);
    let run = run.advance(RunReply::Handle(0)).advance(RunReply::Done);
    let (outcome, calls) = wind_down(run.advance(RunReply::Failed(-9)));
    assert_eq!(outcome, Outcome::Failed(-9));
    assert_eq!(calls, vec![RunCall::ClearWake]);
}

#[test]
fn busy_device_is_awaited() {
    assert_eq!(DEVICE_IN_USE, 0x8889_000A_u32 as i32);
    assert_eq!(BUSY_DELAY, 30_000);
    let (run, _) = up_to(SessionRun::start(), opening());
    let busy = run.advance(RunReply::Failed(DEVICE_IN_USE));
    assert_eq!(busy.call(), Some(RunCall::Sleep(BUSY_DELAY)));
    let rested = busy.advance(RunReply::Done);
    assert_eq!(rested.call(), Some(RunCall::IsLost));
    assert_eq!(rested.advance(RunReply::Flag(false)), run);
    assert_eq!(
        rested.advance(RunReply::Flag(true)).stage,
        Stage::Finished(Outcome::Lost)
    );
    let (run, _) = up_to(SessionRun::start(), RunCall::Start);
    let failed = run.advance(RunReply::Failed(DEVICE_IN_USE));
    assert_eq!(wind_down(failed).0, Outcome::Failed(DEVICE_IN_USE));
}

#[test]
fn unwatchable_sessions_are_skipped() {
    let (run, _) = up_to(SessionRun::start(), RunCall::OpenSession(0));
    assert_eq!(run.advance(RunReply::Failed(-1)).call(), Some(RunCall::OpenSession(1)));
    let (run, _) = up_to(SessionRun::start(), RunCall::OpenControl(0));
    assert_eq!(run.advance(RunReply::Failed(-1)).call(), Some(RunCall::OpenSession(1)));
    let (run, _) = up_to(SessionRun::start(), RunCall::Watch(1));
    assert_eq!(run.advance(RunReply::Failed(-1)).call(), Some(RunCall::PublishSessions));
    let (run, _) = up_to(SessionRun::start(), RunCall::ListSessions);
    assert_eq!(run.advance(RunReply::Failed(-1)).call(), Some(RunCall::PublishSessions));
    let (run, _) = up_to(SessionRun::start(), RunCall::CountSessions);
    assert_eq!(run.advance(RunReply::Failed(-1)).call(), Some(RunCall::PublishSessions));
    assert_eq!(run.advance(RunReply::Count(0)).call(), Some(RunCall::PublishSessions));
    assert_eq!(run.advance(RunReply::Count(-3)).call(), Some(RunCall::PublishSessions));
}

#[test]
fn loss_without_an_event_ends_sooner() {
    let (run, _) = up_to(SessionRun::start(), CREATE_WAKE);
    let mut run = run.advance(RunReply::Handle(0));
    while !matches!(run.stage, Stage::Wait) {
        run = run.advance(smooth(run.call().unwrap()));
    }
    let (outcome, calls) =
        wind_down(run.advance(RunReply::Signal(STREAM_READY)).advance(RunReply::Flag(true)));
    assert_eq!(outcome, Outcome::Lost);
    assert_eq!(calls.len(), 5);
    assert_eq!(calls[4], RunCall::ClearWake);
}

#[test]
fn failed_waits_end_the_run() {
    assert_eq!(WAIT_FAILED, u32::MAX);
    let run = waiting().advance(RunReply::Signal(WAIT_FAILED));
    assert_eq!(run.call(), Some(RunCall::LastError));
    let (outcome, calls) = wind_down(run.advance(RunReply::Failed(-6)));
    assert_eq!(outcome, Outcome::Failed(-6));
    assert_eq!(calls.len(), 4);
}

#[test]
fn loss_ends_the_run() {
    for signal in vec![STREAM_READY, MESSAGES_READY, 0x102] {
        let run = waiting().advance(RunReply::Signal(signal));
        assert_eq!(run.call(), Some(RunCall::IsLost));
        let (outcome, calls) = wind_down(run.advance(RunReply::Flag(true)));
        assert_eq!(outcome, Outcome::Lost);
        assert_eq!(
            calls,
            vec![
                RunCall::WithdrawProxy,
                RunCall::DropSessions,
                RunCall::UnregisterProxy,
                RunCall::UnregisterArrivals,
                RunCall::ClearWake,
                RunCall::CloseWake(WAKE),
            ]
        );
    }
}

#[test]
fn free_room_is_filled_with_silence() {
    let run = waiting().advance(RunReply::Signal(STREAM_READY)).advance(RunReply::Flag(false));
    assert_eq!(run.call(), Some(RunCall::Padding));
    assert_eq!(run.advance(RunReply::Frames(480)).call(), Some(rest()));
    let room = run.advance(RunReply::Frames(100));
    assert_eq!(room.call(), Some(RunCall::GetBuffer(380)));
    let fill = room.advance(RunReply::Done);
    assert_eq!(fill.call(), Some(RunCall::Silence(380 * 8)));
    let hand = fill.advance(RunReply::Done);
    assert_eq!(hand.call(), Some(RunCall::ReleaseBuffer { frames: 380, flags: 0 }));
    assert_eq!(hand.advance(RunReply::Done).call(), Some(rest()));
    for stuck in vec![run, room, hand] {
        let pause = stuck.advance(RunReply::Failed(-1));
        assert_eq!(pause.call(), Some(RunCall::Sleep(STREAM_DELAY)));
        assert_eq!(pause.advance(RunReply::Done).call(), Some(rest()));
    }
    assert_eq!(STREAM_DELAY, 500);
}

#[test]
fn largest_buffer_is_filled() {
    let (run, _) = up_to(SessionRun::start(), RunCall::MixFormat);
    let (run, _) = up_to(run.advance(RunReply::FrameSize(u16::MAX)), RunCall::BufferSize);
    let run = run.advance(RunReply::Frames(u32::MAX)).advance(RunReply::Done);
    assert_eq!(run.call(), Some(RunCall::Silence(u32::MAX as u64 * u16::MAX as u64)));
}

#[test]
fn messages_are_dispatched() {
    let run = waiting().advance(RunReply::Signal(MESSAGES_READY)).advance(RunReply::Flag(false));
    assert_eq!(run.call(), Some(TAKE_MESSAGE));
    let message = run.advance(RunReply::Flag(true));
    assert_eq!(message.call(), Some(RunCall::DispatchMessage));
    assert_eq!(message.advance(RunReply::Done), run);
    assert_eq!(run.advance(RunReply::Flag(false)), waiting());
}

#[test]
fn other_signals_are_ignored() {
    let run = waiting().advance(RunReply::Signal(0x80)).advance(RunReply::Flag(false));
    assert_eq!(run, waiting());
}

/// Runs the set-up with these replies to the calls on the list of sessions, and returns the
/// sessions that agreed to be watched.
fn watched(answer: fn(RunCall) -> Option<RunReply>) -> Vec<i32> {
    let mut run = SessionRun::start();
    let mut agreed: Vec<i32> = Vec::new();
    loop {
        let call = run.call().unwrap();
        if call == RunCall::PublishSessions {
            return agreed;
        }
        let reply = answer(call).unwrap_or(smooth(call));
        if let (RunCall::Watch(i), RunReply::Done) = (call, reply) {
            agreed.push(i);
        }
        run = run.advance(reply);
    }
}

#[test]
fn willing_sessions_are_watched_in_order() {
    assert_eq!(watched(|_| None), vec![0, 1]);
    let picky = |call| match call {
        RunCall::CountSessions => Some(RunReply::Count(6)),
        RunCall::OpenSession(1) | RunCall::OpenControl(2) | RunCall::Watch(4) => {
            Some(RunReply::Failed(-1))
        }
        _ => None,
    };
    assert_eq!(watched(picky), vec![0, 3, 5]);
    let none: Vec<i32> = vec![];
    let no_list = |call| match call {
        RunCall::ListSessions => Some(RunReply::Failed(-1)),
        _ => None,
    };
    assert_eq!(watched(no_list), none);
    let no_count = |call| match call {
        RunCall::CountSessions => Some(RunReply::Failed(-1)),
        _ => None,
    };
    assert_eq!(watched(no_count), none);
}

#[test]
fn stream_is_touched_only_on_request() {
    let mut run = waiting();
    let mut signal = STREAM_READY;
    let mut refills = 0;
    for step in 0..600u32 {
        let call = run.call().unwrap();
        let reply = match call {
            RunCall::Wait(_) => {
                assert_eq!(call, rest());
                refills = 0;
                signal = vec![STREAM_READY, MESSAGES_READY, 0x80][step as usize % 3];
                RunReply::Signal(signal)
            }
            RunCall::IsLost => RunReply::Flag(false),
            RunCall::Padding => {
                assert_eq!(signal, STREAM_READY);
                RunReply::Frames(step % 481)
            }
            RunCall::GetBuffer(_) => {
                assert_eq!(signal, STREAM_READY);
                refills += 1;
                assert_eq!(refills, 1);
                if step % 7 == 0 { RunReply::Failed(-1) } else { RunReply::Done }
            }
            RunCall::TakeMessage { .. } => {
                assert_eq!(signal, MESSAGES_READY);
                RunReply::Flag(step % 4 == 0)
            }
            _ => RunReply::Done,
        };
        let failed = matches!(reply, RunReply::Failed(_));
        run = run.advance(reply);
        assert_eq!(matches!(run.call(), Some(RunCall::Sleep(_))), failed);
    }
}
