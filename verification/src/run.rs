//! The life of the proxy's audio session, from the first call to the last.
//!
//! A run opens a silent stream on the default endpoint, keeps it alive and ends when the
//! session is lost or a call fails. It names one call at a time; whoever drives it makes
//! the call and hands the reply back.
use crate::context::ContextId;
use crate::exchange::{answers, Call, Machine, Reply, ANYWHERE};
use crate::foreground::{ForegroundPlace, ForegroundScan};
use crate::platform::{
    all_input, clsctx_all, console_role, device_in_use, infinite, pm_remove, render_flow,
    sharemode_shared, streamflags_eventcallback, wait_failed, wait_object_0,
};
use crate::scan::Purpose;
use crate::volume::{Volume, HALF};
use vstd::prelude::*;

verus! {

/// The error of an audio device that another program holds for itself.
pub const DEVICE_IN_USE: i32 = -0x7776_FFF6;

/// What a wait returns when it fails.
pub const WAIT_FAILED: u32 = 0xFFFF_FFFF;

/// What a wait returns when the stream asks for data.
pub const STREAM_READY: u32 = 0;

/// What a wait returns when window messages are waiting.
pub const MESSAGES_READY: u32 = 1;

/// The mode of a stream that shares the device with other programs.
pub const SHARED: i32 = 0;

/// The flag of a stream that signals an event when it wants data.
pub const EVENT_DRIVEN: u32 = 0x40000;

/// The timeout of a wait that never times out.
pub const NO_TIMEOUT: u32 = 0xFFFF_FFFF;

/// The mask of all kinds of window messages.
pub const ALL_INPUT: u32 = 0x4FF;

/// The direction of an endpoint that plays sound.
pub const PLAYBACK: i32 = 0;

/// The role of the endpoint for ordinary sounds.
pub const ORDINARY: i32 = 0;

/// Asks that a window message is taken off the queue.
pub const REMOVE: u32 = 1;

/// Milliseconds to wait while another program holds the device for itself.
pub const BUSY_DELAY: u64 = 30_000;

/// Milliseconds to wait after the stream could not be fed.
pub const STREAM_DELAY: u64 = 500;

/// How a run ends.
#[derive(Clone, Copy, Debug, PartialEq, Eq, Structural)]
pub enum Outcome {
    /// The session was lost and has to be set up anew.
    Lost,
    /// A call failed with this error.
    Failed(i32),
}

/// The stream that a run asks for.
#[derive(Clone, Copy, Debug, PartialEq, Eq)]
pub struct StreamRequest {
    /// Whether the device is shared with other programs.
    pub mode: i32,
    /// How the stream asks for data.
    pub flags: u32,
    /// The duration of the buffer.
    pub duration: i64,
    /// The period of the device, for a stream that does not share it.
    pub period: i64,
    /// The audio session that the stream belongs to.
    pub session: ContextId,
}

/// What a run waits for.
#[derive(Clone, Copy, Debug, PartialEq, Eq)]
pub struct WaitRequest {
    /// The event whose signal ends the wait.
    pub event: usize,
    /// The event and the messages are both waited for, in place of either.
    pub all: bool,
    /// Milliseconds after which the wait ends in any case.
    pub timeout: u32,
    /// The window messages whose arrival ends the wait.
    pub input: u32,
}

/// A call that a run makes.
#[derive(Clone, Copy, Debug, PartialEq, Eq)]
pub enum RunCall {
    /// Forget that the session was lost.
    ForgetLoss,
    /// Drop the watched sessions.
    DropSessions,
    /// Withdraw the proxy's session from the handlers.
    WithdrawProxy,
    /// Create the device enumerator, in one of these places.
    CreateEnumerator(u32),
    /// Ask for the default endpoint of this direction and role.
    DefaultEndpoint { flow: i32, role: i32 },
    /// Activate the audio client of the endpoint, in one of these places.
    ActivateClient(u32),
    /// Ask for the mix format, of which the size of a frame matters.
    MixFormat,
    DevicePeriod,
    /// Open the stream in the format at hand.
    Initialize(StreamRequest),
    /// Sleep for so many milliseconds.
    Sleep(u64),
    /// Ask whether the session was lost.
    IsLost,
    FreeFormat,
    /// Create the event that wakes the run. It stays signalled until it is reset by hand,
    /// or begins signalled, where so asked.
    CreateWake { manual: bool, signalled: bool },
    /// Let the handlers know the event.
    PublishWake(usize),
    VolumeService,
    ControlService,
    /// Have the stream signal the event.
    AttachWake(usize),
    /// A call of the walk that finds the level to begin with.
    Audio(Call),
    /// Set the level of the proxy's session, marked with this author.
    SetOwn(Volume, ContextId),
    /// Hand the proxy's session and the last known level to the handlers.
    PublishProxy(Volume),
    /// Activate the session manager of the endpoint, in one of these places.
    ActivateManager(u32),
    /// Ask to be told of new sessions.
    RegisterArrivals,
    ListSessions,
    CountSessions,
    OpenSession(i32),
    OpenControl(i32),
    /// Ask to be told of changes to the session, and watch it.
    Watch(i32),
    /// Hand the watched sessions over.
    PublishSessions,
    /// Ask to be told of changes to the proxy's session.
    RegisterProxy,
    Start,
    RenderService,
    BufferSize,
    /// Obtain room for so many frames.
    GetBuffer(u32),
    /// Fill so many bytes of it with silence.
    Silence(u64),
    /// Hand so many frames over to the stream, with these flags.
    ReleaseBuffer { frames: u32, flags: u32 },
    /// Wait for the event or for window messages.
    Wait(WaitRequest),
    /// Ask why the wait failed.
    LastError,
    /// Ask how many frames are still queued.
    Padding,
    /// Take the next window message of any kind, or of those from `first` to `last` where
    /// these are not 0, if there is one.
    TakeMessage { first: u32, last: u32, removal: u32 },
    /// Translate and dispatch the message.
    DispatchMessage,
    UnregisterProxy,
    UnregisterArrivals,
    /// Withdraw the event from the handlers.
    ClearWake,
    /// Close the event.
    CloseWake(usize),
}

/// What came of a call.
#[derive(Clone, Copy, Debug, PartialEq, Eq, Structural)]
pub enum RunReply {
    Done,
    Failed(i32),
    Flag(bool),
    /// The bytes of a frame.
    FrameSize(u16),
    Period(i64),
    Handle(usize),
    Count(i32),
    Frames(u32),
    Signal(u32),
    Audio(Reply),
}

/// Where a run stands.
#[derive(Clone, Copy, Debug, PartialEq, Eq, Structural)]
pub enum Stage {
    ForgetLoss,
    DropSessions,
    WithdrawProxy,
    CreateEnumerator,
    DefaultEndpoint,
    ActivateClient,
    MixFormat,
    DevicePeriod,
    Initialize,
    AwaitDevice,
    BusyLost,
    FreeFormat,
    CreateWake,
    PublishWake,
    VolumeService,
    ControlService,
    AttachWake,
    Initial(ForegroundScan),
    SetOwn,
    PublishProxy,
    ActivateManager,
    RegisterArrivals,
    ListSessions,
    CountSessions,
    OpenSession { i: i32, n: i32 },
    OpenControl { i: i32, n: i32 },
    Watch { i: i32, n: i32 },
    PublishSessions,
    RegisterProxy,
    Start,
    RenderService,
    BufferSize,
    FirstBuffer,
    FirstSilence,
    FirstRelease,
    Wait,
    LastError,
    CheckLost(u32),
    EndProxy,
    EndSessions,
    Padding,
    Buffer(u32),
    Silence(u32),
    Release(u32),
    Pause,
    TakeMessage,
    DispatchMessage,
    UnregisterProxy(Outcome),
    UnregisterArrivals(Outcome),
    ClearWake(Outcome),
    CloseWake(Outcome),
    Finished(Outcome),
}

/// A run.
#[derive(Clone, Copy, Debug, PartialEq, Eq, Structural)]
pub struct SessionRun {
    pub stage: Stage,
    /// The bytes of a frame.
    pub frame_size: u16,
    /// The default period of the device.
    pub period: i64,
    /// The event that wakes the run.
    pub wake: usize,
    /// The level to begin with.
    pub initial: Volume,
    /// The frames that the stream's buffer holds.
    pub frames: u32,
}

impl Stage {
    /// A failure of the call made here ends the run.
    pub open spec fn is_vital(self) -> bool {
        match self {
            Stage::CreateEnumerator
            | Stage::DefaultEndpoint
            | Stage::ActivateClient
            | Stage::MixFormat
            | Stage::DevicePeriod
            | Stage::Initialize
            | Stage::CreateWake
            | Stage::VolumeService
            | Stage::ControlService
            | Stage::AttachWake
            | Stage::SetOwn
            | Stage::ActivateManager
            | Stage::RegisterArrivals
            | Stage::RegisterProxy
            | Stage::Start
            | Stage::RenderService
            | Stage::BufferSize
            | Stage::FirstBuffer
            | Stage::FirstRelease
            | Stage::LastError => true,
            _ => false,
        }
    }

    /// How much a run that ends here has to undo: 1, the event; 2, the event and the
    /// registration for new sessions; 3, these and the registration for the proxy's
    /// session.
    pub open spec fn debts(self) -> int {
        match self {
            Stage::PublishWake
            | Stage::VolumeService
            | Stage::ControlService
            | Stage::AttachWake
            | Stage::Initial(_)
            | Stage::SetOwn
            | Stage::PublishProxy
            | Stage::ActivateManager
            | Stage::RegisterArrivals
            | Stage::ClearWake(_) => 1,
            Stage::ListSessions
            | Stage::CountSessions
            | Stage::OpenSession { .. }
            | Stage::OpenControl { .. }
            | Stage::Watch { .. }
            | Stage::PublishSessions
            | Stage::RegisterProxy
            | Stage::UnregisterArrivals(_) => 2,
            Stage::Start
            | Stage::RenderService
            | Stage::BufferSize
            | Stage::FirstBuffer
            | Stage::FirstSilence
            | Stage::FirstRelease
            | Stage::Wait
            | Stage::LastError
            | Stage::CheckLost(_)
            | Stage::EndProxy
            | Stage::EndSessions
            | Stage::Padding
            | Stage::Buffer(_)
            | Stage::Silence(_)
            | Stage::Release(_)
            | Stage::Pause
            | Stage::TakeMessage
            | Stage::DispatchMessage
            | Stage::UnregisterProxy(_) => 3,
            _ => 0,
        }
    }
}

/// Where a run that has `debts` to undo goes to end.
pub open spec fn way_out(debts: int, outcome: Outcome) -> Stage {
    if debts == 3 {
        Stage::UnregisterProxy(outcome)
    } else if debts == 2 {
        Stage::UnregisterArrivals(outcome)
    } else if debts == 1 {
        Stage::ClearWake(outcome)
    } else {
        Stage::Finished(outcome)
    }
}

/// The session to look at after session `i`, or the end of the list.
pub open spec fn next_watch(i: i32, n: i32) -> Stage {
    if i + 1 < n {
        Stage::OpenSession { i: (i + 1) as i32, n }
    } else {
        Stage::PublishSessions
    }
}

fn next_session(i: i32, n: i32) -> (stage: Stage)
    requires
        0 <= i < n,
    ensures
        stage == next_watch(i, n),
{
    if i + 1 < n {
        Stage::OpenSession { i: i + 1, n }
    } else {
        Stage::PublishSessions
    }
}

impl SessionRun {
    /// A run that has not made its first call.
    pub open spec fn fresh() -> SessionRun {
        SessionRun {
            stage: Stage::ForgetLoss,
            frame_size: 0,
            period: 0,
            wake: 0,
            initial: Volume { bits: HALF },
            frames: 0,
        }
    }

    /// The state is one that a run can be in.
    pub open spec fn valid(self) -> bool {
        match self.stage {
            Stage::Initial(walk) => walk.valid() && !(walk.place is Ended),
            Stage::OpenSession { i, n }
            | Stage::OpenControl { i, n }
            | Stage::Watch { i, n } => 0 <= i < n,
            Stage::Buffer(frames) | Stage::Silence(frames) | Stage::Release(frames) => 0 < frames
                <= self.frames,
            _ => true,
        }
    }

    /// The call to make next; none once the run has ended.
    pub open spec fn pending(self) -> Option<RunCall> {
        match self.stage {
            Stage::ForgetLoss => Some(RunCall::ForgetLoss),
            Stage::DropSessions | Stage::EndSessions => Some(RunCall::DropSessions),
            Stage::WithdrawProxy | Stage::EndProxy => Some(RunCall::WithdrawProxy),
            Stage::CreateEnumerator => Some(RunCall::CreateEnumerator(ANYWHERE)),
            Stage::DefaultEndpoint => Some(
                RunCall::DefaultEndpoint { flow: PLAYBACK, role: ORDINARY },
            ),
            Stage::ActivateClient => Some(RunCall::ActivateClient(ANYWHERE)),
            Stage::MixFormat => Some(RunCall::MixFormat),
            Stage::DevicePeriod => Some(RunCall::DevicePeriod),
            Stage::Initialize => Some(RunCall::Initialize(self.stream())),
            Stage::AwaitDevice => Some(RunCall::Sleep(BUSY_DELAY)),
            Stage::BusyLost | Stage::CheckLost(_) => Some(RunCall::IsLost),
            Stage::FreeFormat => Some(RunCall::FreeFormat),
            Stage::CreateWake => Some(RunCall::CreateWake { manual: false, signalled: false }),
            Stage::PublishWake => Some(RunCall::PublishWake(self.wake)),
            Stage::VolumeService => Some(RunCall::VolumeService),
            Stage::ControlService => Some(RunCall::ControlService),
            Stage::AttachWake => Some(RunCall::AttachWake(self.wake)),
            Stage::Initial(walk) => Some(RunCall::Audio(walk.pending()->0)),
            Stage::SetOwn => Some(RunCall::SetOwn(self.initial, ContextId::of_own())),
            Stage::PublishProxy => Some(RunCall::PublishProxy(self.initial)),
            Stage::ActivateManager => Some(RunCall::ActivateManager(ANYWHERE)),
            Stage::RegisterArrivals => Some(RunCall::RegisterArrivals),
            Stage::ListSessions => Some(RunCall::ListSessions),
            Stage::CountSessions => Some(RunCall::CountSessions),
            Stage::OpenSession { i, .. } => Some(RunCall::OpenSession(i)),
            Stage::OpenControl { i, .. } => Some(RunCall::OpenControl(i)),
            Stage::Watch { i, .. } => Some(RunCall::Watch(i)),
            Stage::PublishSessions => Some(RunCall::PublishSessions),
            Stage::RegisterProxy => Some(RunCall::RegisterProxy),
            Stage::Start => Some(RunCall::Start),
            Stage::RenderService => Some(RunCall::RenderService),
            Stage::BufferSize => Some(RunCall::BufferSize),
            Stage::FirstBuffer => Some(RunCall::GetBuffer(self.frames)),
            Stage::FirstSilence => Some(RunCall::Silence(self.silence(self.frames))),
            Stage::FirstRelease => Some(
                RunCall::ReleaseBuffer { frames: self.frames, flags: 0 },
            ),
            Stage::Wait => Some(RunCall::Wait(self.rest())),
            Stage::LastError => Some(RunCall::LastError),
            Stage::Padding => Some(RunCall::Padding),
            Stage::Buffer(frames) => Some(RunCall::GetBuffer(frames)),
            Stage::Silence(frames) => Some(RunCall::Silence(self.silence(frames))),
            Stage::Release(frames) => Some(RunCall::ReleaseBuffer { frames, flags: 0 }),
            Stage::Pause => Some(RunCall::Sleep(STREAM_DELAY)),
            Stage::TakeMessage => Some(
                RunCall::TakeMessage { first: 0, last: 0, removal: REMOVE },
            ),
            Stage::DispatchMessage => Some(RunCall::DispatchMessage),
            Stage::UnregisterProxy(_) => Some(RunCall::UnregisterProxy),
            Stage::UnregisterArrivals(_) => Some(RunCall::UnregisterArrivals),
            Stage::ClearWake(_) => Some(RunCall::ClearWake),
            Stage::CloseWake(_) => Some(RunCall::CloseWake(self.wake)),
            Stage::Finished(_) => None,
        }
    }

    /// The stream of a run: it shares the device, signals an event when it wants data, and
    /// belongs to the proxy's session.
    pub open spec fn stream(self) -> StreamRequest {
        StreamRequest {
            mode: SHARED,
            flags: EVENT_DRIVEN,
            duration: self.period,
            period: 0,
            session: ContextId::of_session(),
        }
    }

    /// What a run waits for: its event or any window message, for as long as it takes.
    pub open spec fn rest(self) -> WaitRequest {
        WaitRequest { event: self.wake, all: false, timeout: NO_TIMEOUT, input: ALL_INPUT }
    }

    /// The bytes of so many frames.
    pub open spec fn silence(self, frames: u32) -> u64 {
        (frames * self.frame_size) as u64
    }

    /// `reply` is of the kind that the pending call gives. No more frames can be queued
    /// than the buffer holds.
    pub open spec fn takes(self, reply: RunReply) -> bool {
        match self.pending() {
            None => false,
            Some(call) => match call {
                RunCall::ForgetLoss
                | RunCall::DropSessions
                | RunCall::WithdrawProxy
                | RunCall::Sleep(_)
                | RunCall::FreeFormat
                | RunCall::PublishWake(_)
                | RunCall::PublishProxy(_)
                | RunCall::PublishSessions
                | RunCall::Silence(_)
                | RunCall::DispatchMessage
                | RunCall::UnregisterProxy
                | RunCall::UnregisterArrivals
                | RunCall::ClearWake
                | RunCall::CloseWake(_) => reply is Done,
                RunCall::IsLost | RunCall::TakeMessage { .. } => reply is Flag,
                RunCall::MixFormat => reply is FrameSize || reply is Failed,
                RunCall::DevicePeriod => reply is Period || reply is Failed,
                RunCall::CreateWake { .. } => reply is Handle || reply is Failed,
                RunCall::Audio(inner) => reply matches RunReply::Audio(answer) && answers(
                    inner,
                    answer,
                ),
                RunCall::CountSessions => reply is Count || reply is Failed,
                RunCall::BufferSize => reply is Frames || reply is Failed,
                RunCall::Padding => (reply matches RunReply::Frames(queued) && queued
                    <= self.frames) || reply is Failed,
                RunCall::Wait(_) => reply is Signal,
                RunCall::LastError => reply is Failed,
                _ => reply is Done || reply is Failed,
            },
        }
    }

    /// The run at another stage.
    pub open spec fn at(self, stage: Stage) -> SessionRun {
        SessionRun { stage, ..self }
    }

    /// The run on its way out.
    pub open spec fn leaving(self, outcome: Outcome) -> SessionRun {
        self.at(way_out(self.stage.debts(), outcome))
    }

    /// The state that a reply leads to.
    pub open spec fn after(self, reply: RunReply) -> SessionRun {
        match reply {
            RunReply::Failed(code) => if self.stage == Stage::Initialize && code
                == DEVICE_IN_USE {
                self.at(Stage::AwaitDevice)
            } else if self.stage.is_vital() {
                self.leaving(Outcome::Failed(code))
            } else {
                self.at(self.stage_after_failure())
            },
            _ => self.after_success(reply),
        }
    }

    /// Where a run goes on after a failure that does not end it.
    pub open spec fn stage_after_failure(self) -> Stage {
        match self.stage {
            Stage::ListSessions | Stage::CountSessions => Stage::PublishSessions,
            Stage::OpenSession { i, n }
            | Stage::OpenControl { i, n }
            | Stage::Watch { i, n } => next_watch(i, n),
            _ => Stage::Pause,
        }
    }

    /// The state that the reply of a call that succeeded leads to.
    pub open spec fn after_success(self, reply: RunReply) -> SessionRun {
        match self.stage {
            Stage::ForgetLoss => self.at(Stage::DropSessions),
            Stage::DropSessions => self.at(Stage::WithdrawProxy),
            Stage::WithdrawProxy => self.at(Stage::CreateEnumerator),
            Stage::CreateEnumerator => self.at(Stage::DefaultEndpoint),
            Stage::DefaultEndpoint => self.at(Stage::ActivateClient),
            Stage::ActivateClient => self.at(Stage::MixFormat),
            Stage::MixFormat => SessionRun {
                stage: Stage::DevicePeriod,
                frame_size: reply->FrameSize_0,
                ..self
            },
            Stage::DevicePeriod => SessionRun {
                stage: Stage::Initialize,
                period: reply->Period_0,
                ..self
            },
            Stage::Initialize => self.at(Stage::FreeFormat),
            Stage::AwaitDevice => self.at(Stage::BusyLost),
            Stage::BusyLost => if reply == RunReply::Flag(true) {
                self.leaving(Outcome::Lost)
            } else {
                self.at(Stage::Initialize)
            },
            Stage::FreeFormat => self.at(Stage::CreateWake),
            Stage::CreateWake => SessionRun {
                stage: Stage::PublishWake,
                wake: reply->Handle_0,
                ..self
            },
            Stage::PublishWake => self.at(Stage::VolumeService),
            Stage::VolumeService => self.at(Stage::ControlService),
            Stage::ControlService => self.at(Stage::AttachWake),
            Stage::AttachWake => self.at(Stage::Initial(ForegroundScan::fresh(Purpose::Find))),
            Stage::Initial(walk) => {
                let next = walk.after(reply->Audio_0);
                match next.place {
                    ForegroundPlace::Ended(found) => SessionRun {
                        stage: Stage::SetOwn,
                        initial: match found {
                            Some(level) => level,
                            None => Volume { bits: HALF },
                        },
                        ..self
                    },
                    _ => self.at(Stage::Initial(next)),
                }
            },
            Stage::SetOwn => self.at(Stage::PublishProxy),
            Stage::PublishProxy => self.at(Stage::ActivateManager),
            Stage::ActivateManager => self.at(Stage::RegisterArrivals),
            Stage::RegisterArrivals => self.at(Stage::ListSessions),
            Stage::ListSessions => self.at(Stage::CountSessions),
            Stage::CountSessions => if reply->Count_0 > 0 {
                self.at(Stage::OpenSession { i: 0, n: reply->Count_0 })
            } else {
                self.at(Stage::PublishSessions)
            },
            Stage::OpenSession { i, n } => self.at(Stage::OpenControl { i, n }),
            Stage::OpenControl { i, n } => self.at(Stage::Watch { i, n }),
            Stage::Watch { i, n } => self.at(next_watch(i, n)),
            Stage::PublishSessions => self.at(Stage::RegisterProxy),
            Stage::RegisterProxy => self.at(Stage::Start),
            Stage::Start => self.at(Stage::RenderService),
            Stage::RenderService => self.at(Stage::BufferSize),
            Stage::BufferSize => SessionRun {
                stage: Stage::FirstBuffer,
                frames: reply->Frames_0,
                ..self
            },
            Stage::FirstBuffer => self.at(Stage::FirstSilence),
            Stage::FirstSilence => self.at(Stage::FirstRelease),
            Stage::FirstRelease => self.at(Stage::Wait),
            Stage::Wait => if reply == RunReply::Signal(WAIT_FAILED) {
                self.at(Stage::LastError)
            } else {
                self.at(Stage::CheckLost(reply->Signal_0))
            },
            Stage::LastError => self,
            Stage::CheckLost(signal) => if reply == RunReply::Flag(true) {
                self.at(Stage::EndProxy)
            } else if signal == STREAM_READY {
                self.at(Stage::Padding)
            } else if signal == MESSAGES_READY {
                self.at(Stage::TakeMessage)
            } else {
                self.at(Stage::Wait)
            },
            Stage::EndProxy => self.at(Stage::EndSessions),
            Stage::EndSessions => self.leaving(Outcome::Lost),
            Stage::Padding => if reply->Frames_0 < self.frames {
                self.at(Stage::Buffer((self.frames - reply->Frames_0) as u32))
            } else {
                self.at(Stage::Wait)
            },
            Stage::Buffer(frames) => self.at(Stage::Silence(frames)),
            Stage::Silence(frames) => self.at(Stage::Release(frames)),
            Stage::Release(_) => self.at(Stage::Wait),
            Stage::Pause => self.at(Stage::Wait),
            Stage::TakeMessage => if reply == RunReply::Flag(true) {
                self.at(Stage::DispatchMessage)
            } else {
                self.at(Stage::Wait)
            },
            Stage::DispatchMessage => self.at(Stage::TakeMessage),
            Stage::UnregisterProxy(outcome) => self.at(Stage::UnregisterArrivals(outcome)),
            Stage::UnregisterArrivals(outcome) => self.at(Stage::ClearWake(outcome)),
            Stage::ClearWake(outcome) => if self.wake != 0 {
                self.at(Stage::CloseWake(outcome))
            } else {
                self.at(Stage::Finished(outcome))
            },
            Stage::CloseWake(outcome) => self.at(Stage::Finished(outcome)),
            Stage::Finished(_) => self,
        }
    }
}

impl Stage {
    fn vital(self) -> (vital: bool)
        ensures
            vital == self.is_vital(),
    {
        matches!(
            self,
            Stage::CreateEnumerator | Stage::DefaultEndpoint | Stage::ActivateClient
            | Stage::MixFormat | Stage::DevicePeriod | Stage::Initialize | Stage::CreateWake
            | Stage::VolumeService | Stage::ControlService | Stage::AttachWake | Stage::SetOwn
            | Stage::ActivateManager | Stage::RegisterArrivals | Stage::RegisterProxy
            | Stage::Start | Stage::RenderService | Stage::BufferSize | Stage::FirstBuffer
            | Stage::FirstRelease | Stage::LastError
        )
    }

    /// The first stage of the way out.
    fn exit(self, outcome: Outcome) -> (stage: Stage)
        ensures
            stage == way_out(self.debts(), outcome),
    {
        match self {
            Stage::ForgetLoss
            | Stage::DropSessions
            | Stage::WithdrawProxy
            | Stage::CreateEnumerator
            | Stage::DefaultEndpoint
            | Stage::ActivateClient
            | Stage::MixFormat
            | Stage::DevicePeriod
            | Stage::Initialize
            | Stage::AwaitDevice
            | Stage::BusyLost
            | Stage::FreeFormat
            | Stage::CreateWake
            | Stage::CloseWake(_)
            | Stage::Finished(_) => Stage::Finished(outcome),
            Stage::PublishWake
            | Stage::VolumeService
            | Stage::ControlService
            | Stage::AttachWake
            | Stage::Initial(_)
            | Stage::SetOwn
            | Stage::PublishProxy
            | Stage::ActivateManager
            | Stage::RegisterArrivals
            | Stage::ClearWake(_) => Stage::ClearWake(outcome),
            Stage::ListSessions
            | Stage::CountSessions
            | Stage::OpenSession { .. }
            | Stage::OpenControl { .. }
            | Stage::Watch { .. }
            | Stage::PublishSessions
            | Stage::RegisterProxy
            | Stage::UnregisterArrivals(_) => Stage::UnregisterArrivals(outcome),
            _ => Stage::UnregisterProxy(outcome),
        }
    }
}

impl SessionRun {
    /// Begins a run.
    pub fn start() -> (run: SessionRun)
        ensures
            run == SessionRun::fresh(),
            run.valid(),
    {
        SessionRun {
            stage: Stage::ForgetLoss,
            frame_size: 0,
            period: 0,
            wake: 0,
            initial: Volume { bits: HALF },
            frames: 0,
        }
    }

    /// How the run ended, once it has.
    pub open spec fn ending(self) -> Option<Outcome> {
        match self.stage {
            Stage::Finished(outcome) => Some(outcome),
            _ => None,
        }
    }

    /// Tells how the run ended, once it has.
    pub fn outcome(&self) -> (outcome: Option<Outcome>)
        ensures
            outcome == self.ending(),
            outcome == (match self.stage {
                Stage::Finished(outcome) => Some(outcome),
                _ => None,
            }),
    {
        match self.stage {
            Stage::Finished(outcome) => Some(outcome),
            _ => None,
        }
    }

    /// Computes the bytes of so many frames.
    fn bytes(&self, frames: u32) -> (bytes: u64)
        ensures
            bytes == frames * self.frame_size,
            bytes == self.silence(frames),
    {
        proof {
            assert(0 <= frames * self.frame_size <= 0xFFFF_FFFF * 0xFFFF) by (nonlinear_arith)
                requires
                    0 <= frames <= 0xFFFF_FFFF,
                    0 <= self.frame_size <= 0xFFFF,
            ;
        }
        frames as u64 * self.frame_size as u64
    }

    /// Describes the stream.
    fn stream_request(&self) -> (request: StreamRequest)
        ensures
            request == self.stream(),
    {
        StreamRequest {
            mode: sharemode_shared(),
            flags: streamflags_eventcallback(),
            duration: self.period,
            period: 0,
            session: ContextId::session(),
        }
    }

    /// Describes the wait.
    fn wait_request(&self) -> (request: WaitRequest)
        ensures
            request == self.rest(),
    {
        WaitRequest { event: self.wake, all: false, timeout: infinite(), input: all_input() }
    }

    /// Names the call to make next.
    pub fn call(&self) -> (call: Option<RunCall>)
        requires
            self.valid(),
        ensures
            call == self.pending(),
    {
        let call: RunCall = match self.stage {
            Stage::ForgetLoss => RunCall::ForgetLoss,
            Stage::DropSessions | Stage::EndSessions => RunCall::DropSessions,
            Stage::WithdrawProxy | Stage::EndProxy => RunCall::WithdrawProxy,
            Stage::CreateEnumerator => RunCall::CreateEnumerator(clsctx_all()),
            Stage::DefaultEndpoint => RunCall::DefaultEndpoint {
                flow: render_flow(),
                role: console_role(),
            },
            Stage::ActivateClient => RunCall::ActivateClient(clsctx_all()),
            Stage::MixFormat => RunCall::MixFormat,
            Stage::DevicePeriod => RunCall::DevicePeriod,
            Stage::Initialize => RunCall::Initialize(self.stream_request()),
            Stage::AwaitDevice => RunCall::Sleep(BUSY_DELAY),
            Stage::BusyLost | Stage::CheckLost(_) => RunCall::IsLost,
            Stage::FreeFormat => RunCall::FreeFormat,
            Stage::CreateWake => RunCall::CreateWake { manual: false, signalled: false },
            Stage::PublishWake => RunCall::PublishWake(self.wake),
            Stage::VolumeService => RunCall::VolumeService,
            Stage::ControlService => RunCall::ControlService,
            Stage::AttachWake => RunCall::AttachWake(self.wake),
            Stage::Initial(walk) => match walk.call() {
                Some(inner) => RunCall::Audio(inner),
                None => {
                    return None;
                },
            },
            Stage::SetOwn => RunCall::SetOwn(self.initial, ContextId::own()),
            Stage::PublishProxy => RunCall::PublishProxy(self.initial),
            Stage::ActivateManager => RunCall::ActivateManager(clsctx_all()),
            Stage::RegisterArrivals => RunCall::RegisterArrivals,
            Stage::ListSessions => RunCall::ListSessions,
            Stage::CountSessions => RunCall::CountSessions,
            Stage::OpenSession { i, .. } => RunCall::OpenSession(i),
            Stage::OpenControl { i, .. } => RunCall::OpenControl(i),
            Stage::Watch { i, .. } => RunCall::Watch(i),
            Stage::PublishSessions => RunCall::PublishSessions,
            Stage::RegisterProxy => RunCall::RegisterProxy,
            Stage::Start => RunCall::Start,
            Stage::RenderService => RunCall::RenderService,
            Stage::BufferSize => RunCall::BufferSize,
            Stage::FirstBuffer => RunCall::GetBuffer(self.frames),
            Stage::FirstSilence => RunCall::Silence(self.bytes(self.frames)),
            Stage::FirstRelease => RunCall::ReleaseBuffer { frames: self.frames, flags: 0 },
            Stage::Wait => RunCall::Wait(self.wait_request()),
            Stage::LastError => RunCall::LastError,
            Stage::Padding => RunCall::Padding,
            Stage::Buffer(frames) => RunCall::GetBuffer(frames),
            Stage::Silence(frames) => RunCall::Silence(self.bytes(frames)),
            Stage::Release(frames) => RunCall::ReleaseBuffer { frames, flags: 0 },
            Stage::Pause => RunCall::Sleep(STREAM_DELAY),
            Stage::TakeMessage => RunCall::TakeMessage { first: 0, last: 0, removal: pm_remove() },
            Stage::DispatchMessage => RunCall::DispatchMessage,
            Stage::UnregisterProxy(_) => RunCall::UnregisterProxy,
            Stage::UnregisterArrivals(_) => RunCall::UnregisterArrivals,
            Stage::ClearWake(_) => RunCall::ClearWake,
            Stage::CloseWake(_) => RunCall::CloseWake(self.wake),
            Stage::Finished(_) => {
                return None;
            },
        };
        Some(call)
    }

    /// Takes the reply to the pending call.
    pub fn advance(self, reply: RunReply) -> (next: SessionRun)
        requires
            self.valid(),
            self.takes(reply),
        ensures
            next == self.after(reply),
            next.valid(),
    {
        let mut next: SessionRun = self;
        next.stage = match (self.stage, reply) {
            (stage, RunReply::Failed(code)) => {
                if matches!(stage, Stage::Initialize) && code == device_in_use() {
                    Stage::AwaitDevice
                } else if stage.vital() {
                    stage.exit(Outcome::Failed(code))
                } else {
                    match stage {
                        Stage::ListSessions | Stage::CountSessions => Stage::PublishSessions,
                        Stage::OpenSession { i, n }
                        | Stage::OpenControl { i, n }
                        | Stage::Watch { i, n } => next_session(i, n),
                        _ => Stage::Pause,
                    }
                }
            },
            (Stage::ForgetLoss, _) => Stage::DropSessions,
            (Stage::DropSessions, _) => Stage::WithdrawProxy,
            (Stage::WithdrawProxy, _) => Stage::CreateEnumerator,
            (Stage::CreateEnumerator, _) => Stage::DefaultEndpoint,
            (Stage::DefaultEndpoint, _) => Stage::ActivateClient,
            (Stage::ActivateClient, _) => Stage::MixFormat,
            (Stage::MixFormat, RunReply::FrameSize(size)) => {
                next.frame_size = size;
                Stage::DevicePeriod
            },
            (Stage::DevicePeriod, RunReply::Period(period)) => {
                next.period = period;
                Stage::Initialize
            },
            (Stage::Initialize, _) => Stage::FreeFormat,
            (Stage::AwaitDevice, _) => Stage::BusyLost,
            (Stage::BusyLost, RunReply::Flag(true)) => self.stage.exit(Outcome::Lost),
            (Stage::BusyLost, _) => Stage::Initialize,
            (Stage::FreeFormat, _) => Stage::CreateWake,
            (Stage::CreateWake, RunReply::Handle(wake)) => {
                next.wake = wake;
                Stage::PublishWake
            },
            (Stage::PublishWake, _) => Stage::VolumeService,
            (Stage::VolumeService, _) => Stage::ControlService,
            (Stage::ControlService, _) => Stage::AttachWake,
            (Stage::AttachWake, _) => Stage::Initial(ForegroundScan::start(Purpose::Find)),
            (Stage::Initial(walk), RunReply::Audio(answer)) => {
                let walk: ForegroundScan = walk.advance(answer);
                match walk.outcome() {
                    None => Stage::Initial(walk),
                    Some(found) => {
                        next.initial = match found {
                            Some(level) => level,
                            None => Volume { bits: HALF },
                        };
                        Stage::SetOwn
                    },
                }
            },
            (Stage::SetOwn, _) => Stage::PublishProxy,
            (Stage::PublishProxy, _) => Stage::ActivateManager,
            (Stage::ActivateManager, _) => Stage::RegisterArrivals,
            (Stage::RegisterArrivals, _) => Stage::ListSessions,
            (Stage::ListSessions, _) => Stage::CountSessions,
            (Stage::CountSessions, RunReply::Count(n)) => if n > 0 {
                Stage::OpenSession { i: 0, n }
            } else {
                Stage::PublishSessions
            },
            (Stage::OpenSession { i, n }, _) => Stage::OpenControl { i, n },
            (Stage::OpenControl { i, n }, _) => Stage::Watch { i, n },
            (Stage::Watch { i, n }, _) => next_session(i, n),
            (Stage::PublishSessions, _) => Stage::RegisterProxy,
            (Stage::RegisterProxy, _) => Stage::Start,
            (Stage::Start, _) => Stage::RenderService,
            (Stage::RenderService, _) => Stage::BufferSize,
            (Stage::BufferSize, RunReply::Frames(frames)) => {
                next.frames = frames;
                Stage::FirstBuffer
            },
            (Stage::FirstBuffer, _) => Stage::FirstSilence,
            (Stage::FirstSilence, _) => Stage::FirstRelease,
            (Stage::FirstRelease, _) => Stage::Wait,
            (Stage::Wait, RunReply::Signal(signal)) => if signal == wait_failed() {
                Stage::LastError
            } else {
                Stage::CheckLost(signal)
            },
            (Stage::CheckLost(_), RunReply::Flag(true)) => Stage::EndProxy,
            (Stage::CheckLost(signal), _) => if signal == wait_object_0() {
                Stage::Padding
            } else if signal == wait_object_0() + 1 {
                Stage::TakeMessage
            } else {
                Stage::Wait
            },
            (Stage::EndProxy, _) => Stage::EndSessions,
            (Stage::EndSessions, _) => self.stage.exit(Outcome::Lost),
            (Stage::Padding, RunReply::Frames(queued)) => {
                let free: u32 = self.frames - queued;
                if free > 0 {
                    Stage::Buffer(free)
                } else {
                    Stage::Wait
                }
            },
            (Stage::Buffer(frames), _) => Stage::Silence(frames),
            (Stage::Silence(frames), _) => Stage::Release(frames),
            (Stage::Release(_), _) => Stage::Wait,
            (Stage::Pause, _) => Stage::Wait,
            (Stage::TakeMessage, RunReply::Flag(true)) => Stage::DispatchMessage,
            (Stage::TakeMessage, _) => Stage::Wait,
            (Stage::DispatchMessage, _) => Stage::TakeMessage,
            (Stage::UnregisterProxy(outcome), _) => Stage::UnregisterArrivals(outcome),
            (Stage::UnregisterArrivals(outcome), _) => Stage::ClearWake(outcome),
            (Stage::ClearWake(outcome), _) => if self.wake != 0 {
                Stage::CloseWake(outcome)
            } else {
                Stage::Finished(outcome)
            },
            (Stage::CloseWake(outcome), _) => Stage::Finished(outcome),
            (stage, _) => stage,
        };
        proof {
            if let Stage::Initial(walk) = self.stage {
                walk.progress(reply->Audio_0);
            }
        }
        next
    }
}

} // verus!
