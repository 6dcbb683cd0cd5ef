//! What each reply leads a run of the proxy's session to.
//!
//! The stages are told by the calls that belong to them: which call stands at each stage,
//! where a run goes on when it succeeds, and where when it fails.
use crate::context::ContextId;
use crate::exchange::{answers, Call, Machine};
use crate::foreground::{ForegroundPid, ForegroundPlace, ForegroundScan};
use crate::run::{Outcome, RunCall, RunReply, SessionRun, Stage, StreamRequest, WaitRequest};
use crate::scan::Purpose;
use crate::volume::Volume;
use vstd::prelude::*;

verus! {

/// Every stage has its call, with the arguments that the run was told before. Nothing is
/// called once the run has finished.
pub proof fn lemma_call_of_each_stage(run: SessionRun)
    ensures
        match run.stage {
            Stage::ForgetLoss => run.pending() == Some(RunCall::ForgetLoss),
            Stage::DropSessions => run.pending() == Some(RunCall::DropSessions),
            Stage::EndSessions => run.pending() == Some(RunCall::DropSessions),
            Stage::WithdrawProxy => run.pending() == Some(RunCall::WithdrawProxy),
            Stage::EndProxy => run.pending() == Some(RunCall::WithdrawProxy),
            Stage::CreateEnumerator => run.pending() == Some(RunCall::CreateEnumerator(23)),
            Stage::DefaultEndpoint => run.pending() == Some(RunCall::DefaultEndpoint { flow: 0, role: 0 }),
            Stage::ActivateClient => run.pending() == Some(RunCall::ActivateClient(23)),
            Stage::MixFormat => run.pending() == Some(RunCall::MixFormat),
            Stage::DevicePeriod => run.pending() == Some(RunCall::DevicePeriod),
            Stage::AwaitDevice => run.pending() == Some(RunCall::Sleep(30_000)),
            Stage::BusyLost => run.pending() == Some(RunCall::IsLost),
            Stage::CheckLost(_) => run.pending() == Some(RunCall::IsLost),
            Stage::FreeFormat => run.pending() == Some(RunCall::FreeFormat),
            Stage::CreateWake => run.pending() == Some(RunCall::CreateWake { manual: false, signalled: false }),
            Stage::PublishWake => run.pending() == Some(RunCall::PublishWake(run.wake)),
            Stage::VolumeService => run.pending() == Some(RunCall::VolumeService),
            Stage::ControlService => run.pending() == Some(RunCall::ControlService),
            Stage::AttachWake => run.pending() == Some(RunCall::AttachWake(run.wake)),
            Stage::PublishProxy => run.pending() == Some(RunCall::PublishProxy(run.initial)),
            Stage::SetOwn => run.pending() == Some(RunCall::SetOwn(run.initial, ContextId::of_own())),
            Stage::ActivateManager => run.pending() == Some(RunCall::ActivateManager(23)),
            Stage::RegisterArrivals => run.pending() == Some(RunCall::RegisterArrivals),
            Stage::ListSessions => run.pending() == Some(RunCall::ListSessions),
            Stage::CountSessions => run.pending() == Some(RunCall::CountSessions),
            Stage::OpenSession { i, .. } => run.pending() == Some(RunCall::OpenSession(i)),
            Stage::OpenControl { i, .. } => run.pending() == Some(RunCall::OpenControl(i)),
            Stage::Watch { i, .. } => run.pending() == Some(RunCall::Watch(i)),
            Stage::PublishSessions => run.pending() == Some(RunCall::PublishSessions),
            Stage::RegisterProxy => run.pending() == Some(RunCall::RegisterProxy),
            Stage::Start => run.pending() == Some(RunCall::Start),
            Stage::RenderService => run.pending() == Some(RunCall::RenderService),
            Stage::BufferSize => run.pending() == Some(RunCall::BufferSize),
            Stage::FirstBuffer => run.pending() == Some(RunCall::GetBuffer(run.frames)),
            Stage::FirstSilence => run.pending() == Some(RunCall::Silence((run.frames * run.frame_size) as u64)),
            Stage::FirstRelease => run.pending() == Some(RunCall::ReleaseBuffer { frames: run.frames, flags: 0 }),
            Stage::LastError => run.pending() == Some(RunCall::LastError),
            Stage::Padding => run.pending() == Some(RunCall::Padding),
            Stage::Buffer(frames) => run.pending() == Some(RunCall::GetBuffer(frames)),
            Stage::Silence(frames) => run.pending() == Some(RunCall::Silence((frames * run.frame_size) as u64)),
            Stage::Release(frames) => run.pending() == Some(RunCall::ReleaseBuffer { frames, flags: 0 }),
            Stage::Pause => run.pending() == Some(RunCall::Sleep(500)),
            Stage::TakeMessage => run.pending() == Some(RunCall::TakeMessage { first: 0, last: 0, removal: 1 }),
            Stage::DispatchMessage => run.pending() == Some(RunCall::DispatchMessage),
            Stage::UnregisterProxy(_) => run.pending() == Some(RunCall::UnregisterProxy),
            Stage::UnregisterArrivals(_) => run.pending() == Some(RunCall::UnregisterArrivals),
            Stage::ClearWake(_) => run.pending() == Some(RunCall::ClearWake),
            Stage::CloseWake(_) => run.pending() == Some(RunCall::CloseWake(run.wake)),
            Stage::Initialize => run.pending() == Some(
                RunCall::Initialize(
                    StreamRequest {
                        mode: 0,
                        flags: 0x40000,
                        duration: run.period,
                        period: 0,
                        session: ContextId::of_session(),
                    },
                ),
            ),
            Stage::Wait => run.pending() == Some(
                RunCall::Wait(
                    WaitRequest {
                        event: run.wake,
                        all: false,
                        timeout: 0xFFFF_FFFF,
                        input: 0x4FF,
                    },
                ),
            ),
            Stage::Initial(walk) => walk.pending() is Some ==> run.pending() == Some(
                RunCall::Audio(walk.pending()->0),
            ),
            Stage::Finished(_) => run.pending() is None,
        },
        SessionRun::fresh().stage == Stage::ForgetLoss,
{
}

/// The run goes on at a stage and has forgotten nothing.
pub open spec fn moves_on(run: SessionRun, next: SessionRun, stage: Stage) -> bool {
    &&& next.stage == stage
    &&& next.frame_size == run.frame_size
    &&& next.period == run.period
    &&& next.wake == run.wake
    &&& next.initial == run.initial
    &&& next.frames == run.frames
}

/// A call of the set-up that succeeds is followed by the next call of the set-up, down to
/// the first wait. What the run is told on the way is kept.
pub proof fn lemma_setup_goes_on(run: SessionRun, size: u16, period: i64, wake: usize, frames: u32)
    ensures
        ({
            let next = run.after(RunReply::Done);
            match run.stage {
                Stage::ForgetLoss => moves_on(run, next, Stage::DropSessions),
                Stage::DropSessions => moves_on(run, next, Stage::WithdrawProxy),
                Stage::WithdrawProxy => moves_on(run, next, Stage::CreateEnumerator),
                Stage::CreateEnumerator => moves_on(run, next, Stage::DefaultEndpoint),
                Stage::DefaultEndpoint => moves_on(run, next, Stage::ActivateClient),
                Stage::ActivateClient => moves_on(run, next, Stage::MixFormat),
                Stage::MixFormat => {
                    let next = run.after(RunReply::FrameSize(size));
                    next.frame_size == size && moves_on(
                        SessionRun { frame_size: size, ..run },
                        next,
                        Stage::DevicePeriod,
                    )
                },
                Stage::DevicePeriod => {
                    let next = run.after(RunReply::Period(period));
                    next.period == period && moves_on(
                        SessionRun { period, ..run },
                        next,
                        Stage::Initialize,
                    )
                },
                Stage::Initialize => moves_on(run, next, Stage::FreeFormat),
                Stage::FreeFormat => moves_on(run, next, Stage::CreateWake),
                Stage::CreateWake => {
                    let next = run.after(RunReply::Handle(wake));
                    next.wake == wake && moves_on(
                        SessionRun { wake, ..run },
                        next,
                        Stage::PublishWake,
                    )
                },
                Stage::PublishWake => moves_on(run, next, Stage::VolumeService),
                Stage::VolumeService => moves_on(run, next, Stage::ControlService),
                Stage::ControlService => moves_on(run, next, Stage::AttachWake),
                Stage::AttachWake => moves_on(
                    run,
                    next,
                    Stage::Initial(
                        ForegroundScan {
                            purpose: Purpose::Find,
                            place: ForegroundPlace::Search(ForegroundPid::Window),
                        },
                    ),
                ) && next.pending() == Some(RunCall::Audio(Call::ForegroundWindow)),
                Stage::SetOwn => moves_on(run, next, Stage::PublishProxy),
                Stage::PublishProxy => moves_on(run, next, Stage::ActivateManager),
                Stage::ActivateManager => moves_on(run, next, Stage::RegisterArrivals),
                Stage::RegisterArrivals => moves_on(run, next, Stage::ListSessions),
                Stage::ListSessions => moves_on(run, next, Stage::CountSessions),
                Stage::PublishSessions => moves_on(run, next, Stage::RegisterProxy),
                Stage::RegisterProxy => moves_on(run, next, Stage::Start),
                Stage::Start => moves_on(run, next, Stage::RenderService),
                Stage::RenderService => moves_on(run, next, Stage::BufferSize),
                Stage::BufferSize => {
                    let next = run.after(RunReply::Frames(frames));
                    next.frames == frames && moves_on(
                        SessionRun { frames, ..run },
                        next,
                        Stage::FirstBuffer,
                    )
                },
                Stage::FirstBuffer => moves_on(run, next, Stage::FirstSilence),
                Stage::FirstSilence => moves_on(run, next, Stage::FirstRelease),
                Stage::FirstRelease => moves_on(run, next, Stage::Wait),
                _ => true,
            }
        }),
{
}

/// The level to begin with is what the walk of the foreground finds, or 0.5 where it finds
/// none; until the walk has ended, its calls are made one after the other.
pub proof fn lemma_begins_with_what_is_found(run: SessionRun, walk: ForegroundScan, reply: RunReply)
    requires
        run.stage == Stage::Initial(walk),
        run.takes(reply),
    ensures
        reply is Audio,
        ({
            let next = run.after(reply);
            let left = walk.after(reply->Audio_0);
            match left.place {
                ForegroundPlace::Ended(Some(level)) => moves_on(
                    SessionRun { initial: level, ..run },
                    next,
                    Stage::SetOwn,
                ),
                ForegroundPlace::Ended(None) => moves_on(
                    SessionRun { initial: Volume { bits: 0x3f00_0000 }, ..run },
                    next,
                    Stage::SetOwn,
                ),
                _ => moves_on(run, next, Stage::Initial(left)),
            }
        }),
{
}

/// The sessions of the list are counted and then tried one by one, from the first to the
/// last: opened, asked for the extended control, asked to report. A failure passes on to
/// the next session. A list that cannot be had or counted, or is empty, ends the search.
pub proof fn lemma_list_is_gone_through(run: SessionRun, n: i32, code: i32)
    requires
        run.valid(),
    ensures
        ({
            let good = run.after(RunReply::Done);
            let bad = run.after(RunReply::Failed(code));
            match run.stage {
                Stage::ListSessions => moves_on(run, good, Stage::CountSessions) && moves_on(
                    run,
                    bad,
                    Stage::PublishSessions,
                ),
                Stage::CountSessions => {
                    &&& moves_on(run, bad, Stage::PublishSessions)
                    &&& n > 0 ==> moves_on(
                        run,
                        run.after(RunReply::Count(n)),
                        Stage::OpenSession { i: 0, n },
                    )
                    &&& n <= 0 ==> moves_on(
                        run,
                        run.after(RunReply::Count(n)),
                        Stage::PublishSessions,
                    )
                },
                Stage::OpenSession { i, n: all } => {
                    &&& moves_on(run, good, Stage::OpenControl { i, n: all })
                    &&& i + 1 < all ==> moves_on(
                        run,
                        bad,
                        Stage::OpenSession { i: (i + 1) as i32, n: all },
                    )
                    &&& i + 1 >= all ==> moves_on(run, bad, Stage::PublishSessions)
                },
                Stage::OpenControl { i, n: all } => {
                    &&& moves_on(run, good, Stage::Watch { i, n: all })
                    &&& i + 1 < all ==> moves_on(
                        run,
                        bad,
                        Stage::OpenSession { i: (i + 1) as i32, n: all },
                    )
                    &&& i + 1 >= all ==> moves_on(run, bad, Stage::PublishSessions)
                },
                Stage::Watch { i, n: all } => {
                    &&& good == bad
                    &&& i + 1 < all ==> moves_on(
                        run,
                        good,
                        Stage::OpenSession { i: (i + 1) as i32, n: all },
                    )
                    &&& i + 1 >= all ==> moves_on(run, good, Stage::PublishSessions)
                },
                _ => true,
            }
        }),
{
}

/// Every wake is attended to: after each wait the run asks whether the session was lost;
/// where it was not, a stream that wants data is asked for its free room, exactly that room
/// is obtained, silenced and handed over, and waiting messages are taken and dispatched
/// until there are none. Then the run waits again. What cannot be done is given half a
/// second.
pub proof fn lemma_every_wake_is_attended_to(
    run: SessionRun,
    returned: u32,
    lost: bool,
    queued: u32,
    code: i32,
)
    ensures
        ({
            let good = run.after(RunReply::Done);
            let bad = run.after(RunReply::Failed(code));
            let told = run.after(RunReply::Flag(lost));
            match run.stage {
                Stage::Wait => moves_on(
                    run,
                    run.after(RunReply::Signal(returned)),
                    if returned == 0xFFFF_FFFF {
                        Stage::LastError
                    } else {
                        Stage::CheckLost(returned)
                    },
                ),
                Stage::CheckLost(signal) => moves_on(
                    run,
                    told,
                    if lost {
                        Stage::EndProxy
                    } else if signal == 0 {
                        Stage::Padding
                    } else if signal == 1 {
                        Stage::TakeMessage
                    } else {
                        Stage::Wait
                    },
                ),
                Stage::Padding => {
                    &&& moves_on(run, bad, Stage::Pause)
                    &&& queued < run.frames ==> moves_on(
                        run,
                        run.after(RunReply::Frames(queued)),
                        Stage::Buffer((run.frames - queued) as u32),
                    )
                    &&& queued == run.frames ==> moves_on(
                        run,
                        run.after(RunReply::Frames(queued)),
                        Stage::Wait,
                    )
                },
                Stage::Buffer(frames) => moves_on(run, good, Stage::Silence(frames)) && moves_on(
                    run,
                    bad,
                    Stage::Pause,
                ),
                Stage::Silence(frames) => moves_on(run, good, Stage::Release(frames)),
                Stage::Release(_) => moves_on(run, good, Stage::Wait) && moves_on(
                    run,
                    bad,
                    Stage::Pause,
                ),
                Stage::Pause => moves_on(run, good, Stage::Wait),
                Stage::TakeMessage => moves_on(
                    run,
                    told,
                    if lost {
                        Stage::DispatchMessage
                    } else {
                        Stage::Wait
                    },
                ),
                Stage::DispatchMessage => moves_on(run, good, Stage::TakeMessage),
                _ => true,
            }
        }),
{
}

/// Where a busy device leads: to a rest, and from there back to the attempt, or to the end
/// where the session was lost in the meantime.
pub proof fn lemma_busy_device(run: SessionRun, code: i32)
    ensures
        run.stage == Stage::Initialize && code == -2004287478 ==> moves_on(
            run,
            run.after(RunReply::Failed(code)),
            Stage::AwaitDevice,
        ),
        run.stage == Stage::AwaitDevice ==> moves_on(
            run,
            run.after(RunReply::Done),
            Stage::BusyLost,
        ),
        run.stage == Stage::BusyLost ==> moves_on(
            run,
            run.after(RunReply::Flag(false)),
            Stage::Initialize,
        ) && moves_on(run, run.after(RunReply::Flag(true)), Stage::Finished(Outcome::Lost)),
{
}

/// A failure of the set-up, or of the wait, ends the run with its error. Before there is an
/// event, the run is over at once; then the event is withdrawn first; then the registration
/// for new sessions is undone before that; and with the proxy registered, that registration
/// before all else.
pub proof fn lemma_failures_end_the_run(run: SessionRun, code: i32)
    ensures
        ({
            let bad = run.after(RunReply::Failed(code));
            let failed = Outcome::Failed(code);
            match run.stage {
                Stage::CreateEnumerator
                | Stage::DefaultEndpoint
                | Stage::ActivateClient
                | Stage::MixFormat
                | Stage::DevicePeriod
                | Stage::CreateWake => moves_on(run, bad, Stage::Finished(failed)),
                Stage::Initialize => code != -2004287478 ==> moves_on(
                    run,
                    bad,
                    Stage::Finished(failed),
                ),
                Stage::VolumeService
                | Stage::ControlService
                | Stage::AttachWake
                | Stage::SetOwn
                | Stage::ActivateManager
                | Stage::RegisterArrivals => moves_on(run, bad, Stage::ClearWake(failed)),
                Stage::RegisterProxy => moves_on(run, bad, Stage::UnregisterArrivals(failed)),
                Stage::Start
                | Stage::RenderService
                | Stage::BufferSize
                | Stage::FirstBuffer
                | Stage::FirstRelease
                | Stage::LastError => moves_on(run, bad, Stage::UnregisterProxy(failed)),
                _ => true,
            }
        }),
{
}

/// The way out: the proxy is withdrawn and the watched sessions are dropped where the
/// session was lost; then the registrations are undone, the event is withdrawn and, where
/// there is one, closed. The outcome stays what it was.
pub proof fn lemma_way_out(run: SessionRun)
    ensures
        ({
            let next = run.after(RunReply::Done);
            match run.stage {
                Stage::EndProxy => moves_on(run, next, Stage::EndSessions),
                Stage::EndSessions => moves_on(run, next, Stage::UnregisterProxy(Outcome::Lost)),
                Stage::UnregisterProxy(outcome) => moves_on(
                    run,
                    next,
                    Stage::UnregisterArrivals(outcome),
                ),
                Stage::UnregisterArrivals(outcome) => moves_on(
                    run,
                    next,
                    Stage::ClearWake(outcome),
                ),
                Stage::ClearWake(outcome) => moves_on(
                    run,
                    next,
                    if run.wake != 0 {
                        Stage::CloseWake(outcome)
                    } else {
                        Stage::Finished(outcome)
                    },
                ),
                Stage::CloseWake(outcome) => moves_on(run, next, Stage::Finished(outcome)),
                _ => true,
            }
        }),
{
}

/// A run takes whatever its calls can reply, and asks no more of a state than that its
/// counters fit.
pub proof fn lemma_every_reply_is_taken(
    run: SessionRun,
    code: i32,
    flag: bool,
    number: u32,
    count: i32,
    period: i64,
    wake: usize,
    size: u16,
)
    requires
        run.valid(),
    ensures
        match run.pending() {
            None => true,
            Some(call) => match call {
                RunCall::ForgetLoss
                | RunCall::DropSessions
                | RunCall::WithdrawProxy
                | RunCall::Sleep(_)
                | RunCall::FreeFormat
                | RunCall::PublishWake(_)
                | RunCall::PublishProxy(_)
                | RunCall::PublishSessions
                | RunCall::Silence(_)
                | RunCall::DispatchMessage
                | RunCall::UnregisterProxy
                | RunCall::UnregisterArrivals
                | RunCall::ClearWake
                | RunCall::CloseWake(_) => run.takes(RunReply::Done),
                RunCall::IsLost | RunCall::TakeMessage { .. } => run.takes(RunReply::Flag(flag)),
                RunCall::MixFormat => run.takes(RunReply::FrameSize(size)) && run.takes(
                    RunReply::Failed(code),
                ),
                RunCall::DevicePeriod => run.takes(RunReply::Period(period)) && run.takes(
                    RunReply::Failed(code),
                ),
                RunCall::CreateWake { .. } => run.takes(RunReply::Handle(wake)) && run.takes(
                    RunReply::Failed(code),
                ),
                RunCall::CountSessions => run.takes(RunReply::Count(count)) && run.takes(
                    RunReply::Failed(code),
                ),
                RunCall::BufferSize => run.takes(RunReply::Frames(number)) && run.takes(
                    RunReply::Failed(code),
                ),
                RunCall::Padding => {
                    &&& run.takes(RunReply::Failed(code))
                    &&& number <= run.frames ==> run.takes(RunReply::Frames(number))
                },
                RunCall::Wait(_) => run.takes(RunReply::Signal(number)),
                RunCall::LastError => run.takes(RunReply::Failed(code)),
                RunCall::Audio(inner) => forall|answer: crate::exchange::Reply| #[trigger]
                    answers(inner, answer) ==> run.takes(RunReply::Audio(answer)),
                _ => run.takes(RunReply::Done) && run.takes(RunReply::Failed(code)),
            },
        },
        SessionRun::fresh().valid(),
{
}

} // verus!
