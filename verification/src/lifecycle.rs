//! What holds of every run of the proxy's session, whatever the audio system replies.
use crate::context::{lemma_own_mark, ContextId};
use crate::exchange::Machine;
use crate::handlers::ProxyChange;
use crate::run::{
    Outcome, RunCall, RunReply, SessionRun, Stage, StreamRequest, WaitRequest, ALL_INPUT,
    BUSY_DELAY, DEVICE_IN_USE, EVENT_DRIVEN, MESSAGES_READY, NO_TIMEOUT, SHARED, STREAM_DELAY,
    STREAM_READY,
};
use crate::scan::Purpose;
use crate::sync::lemma_foreground_walk;
use crate::volume::{Volume, HALF};
use crate::world::{finish, World};
use vstd::prelude::*;

verus! {

/// The state of a run that got these replies, one after the other.
pub open spec fn reached(replies: Seq<RunReply>) -> SessionRun
    decreases replies.len(),
{
    if replies.len() == 0 {
        SessionRun::fresh()
    } else {
        reached(replies.drop_last()).after(replies.last())
    }
}

/// A run can get these replies, one after the other.
pub open spec fn possible(replies: Seq<RunReply>) -> bool
    decreases replies.len(),
{
    replies.len() == 0 || (possible(replies.drop_last()) && reached(replies.drop_last()).takes(
        replies.last(),
    ))
}

/// The event and the registrations that a run holds and has to give back.
pub ghost struct Holdings {
    /// The event that wakes the run.
    pub event: bool,
    /// The handlers know the event.
    pub published: bool,
    /// The registration for new sessions.
    pub arrivals: bool,
    /// The registration for the proxy's session.
    pub proxy: bool,
}

impl Holdings {
    pub open spec fn nothing() -> Holdings {
        Holdings { event: false, published: false, arrivals: false, proxy: false }
    }

    /// What is held after a call and its reply.
    pub open spec fn after(self, call: RunCall, reply: RunReply) -> Holdings {
        match (call, reply) {
            (RunCall::CreateWake { .. }, RunReply::Handle(wake)) => Holdings {
                event: wake != 0,
                ..self
            },
            (RunCall::CloseWake(_), _) => Holdings { event: false, ..self },
            (RunCall::PublishWake(_), _) => Holdings { published: true, ..self },
            (RunCall::ClearWake, _) => Holdings { published: false, ..self },
            (RunCall::RegisterArrivals, RunReply::Done) => Holdings { arrivals: true, ..self },
            (RunCall::UnregisterArrivals, _) => Holdings { arrivals: false, ..self },
            (RunCall::RegisterProxy, RunReply::Done) => Holdings { proxy: true, ..self },
            (RunCall::UnregisterProxy, _) => Holdings { proxy: false, ..self },
            _ => self,
        }
    }
}

/// What a run that got these replies holds, by the calls that it made.
pub open spec fn holdings(replies: Seq<RunReply>) -> Holdings
    decreases replies.len(),
{
    if replies.len() == 0 {
        Holdings::nothing()
    } else {
        holdings(replies.drop_last()).after(
            reached(replies.drop_last()).pending()->0,
            replies.last(),
        )
    }
}

/// What a run at this stage holds.
pub open spec fn due(run: SessionRun) -> Holdings {
    Holdings {
        event: run.wake != 0 && (run.stage.debts() >= 1 || run.stage is CloseWake),
        published: run.stage.debts() >= 1 && run.stage != Stage::PublishWake,
        arrivals: run.stage.debts() >= 2,
        proxy: run.stage.debts() >= 3,
    }
}

proof fn lemma_step_keeps_books(run: SessionRun, reply: RunReply)
    requires
        run.valid(),
        run.takes(reply),
    ensures
        due(run.after(reply)) == due(run).after(run.pending()->0, reply),
        run.after(reply).valid(),
{
    if let Stage::Initial(walk) = run.stage {
        walk.progress(reply->Audio_0);
    }
}

/// A run always holds what its stage says: nothing is taken twice, and nothing is given
/// back that is not held.
pub proof fn lemma_holdings(replies: Seq<RunReply>)
    requires
        possible(replies),
    ensures
        reached(replies).valid(),
        holdings(replies) == due(reached(replies)),
    decreases replies.len(),
{
    if replies.len() > 0 {
        lemma_holdings(replies.drop_last());
        lemma_step_keeps_books(reached(replies.drop_last()), replies.last());
    }
}

/// However a run ended, it has closed the event, withdrawn it from the handlers and undone
/// both registrations.
pub proof fn lemma_holdings_are_given_back(replies: Seq<RunReply>)
    requires
        possible(replies),
        reached(replies).stage is Finished,
    ensures
        holdings(replies) == Holdings::nothing(),
{
    lemma_holdings(replies);
}

/// The outcome that a run on its way out will have.
pub open spec fn coming(stage: Stage) -> Option<Outcome> {
    match stage {
        Stage::UnregisterProxy(outcome)
        | Stage::UnregisterArrivals(outcome)
        | Stage::ClearWake(outcome)
        | Stage::CloseWake(outcome)
        | Stage::Finished(outcome) => Some(outcome),
        Stage::EndProxy | Stage::EndSessions => Some(Outcome::Lost),
        _ => None,
    }
}

/// One of the replies accounts for the outcome.
pub open spec fn accounts(replies: Seq<RunReply>, outcome: Outcome) -> bool {
    match outcome {
        Outcome::Lost => exists|k: int|
            0 <= k < replies.len() && #[trigger] replies[k] == RunReply::Flag(true) && reached(
                replies.take(k),
            ).pending() == Some(RunCall::IsLost),
        Outcome::Failed(code) => exists|k: int|
            0 <= k < replies.len() && #[trigger] replies[k] == RunReply::Failed(code) && reached(
                replies.take(k),
            ).stage.is_vital(),
    }
}

/// A run ends as lost only after it was told so, and as failed only with the error of a
/// vital call that failed.
pub proof fn lemma_outcome_has_a_cause(replies: Seq<RunReply>)
    requires
        possible(replies),
        coming(reached(replies).stage) is Some,
    ensures
        accounts(replies, coming(reached(replies).stage)->0),
    decreases replies.len(),
{
    if replies.len() > 0 {
        let before = replies.drop_last();
        let outcome = coming(reached(replies).stage)->0;
        lemma_holdings(before);
        let last = replies.len() - 1;
        assert(replies.take(last) =~= before);
        if coming(reached(before).stage) is Some {
            lemma_outcome_has_a_cause(before);
            assert(coming(reached(before).stage) == Some(outcome));
            match outcome {
                Outcome::Lost => {
                    let k = choose|k: int|
                        0 <= k < before.len() && #[trigger] before[k] == RunReply::Flag(true)
                            && reached(before.take(k)).pending() == Some(RunCall::IsLost);
                    assert(before.take(k) =~= replies.take(k));
                    assert(replies[k] == RunReply::Flag(true));
                },
                Outcome::Failed(code) => {
                    let k = choose|k: int|
                        0 <= k < before.len() && #[trigger] before[k] == RunReply::Failed(code)
                            && reached(before.take(k)).stage.is_vital();
                    assert(before.take(k) =~= replies.take(k));
                    assert(replies[k] == RunReply::Failed(code));
                },
            }
        } else {
            assert(replies[last] == replies.last());
        }
    }
}

/// A run that makes no more calls tells how it ended: as lost where it was told so, and
/// otherwise with the error of the vital call that failed. A run that still makes calls has
/// not ended.
pub proof fn lemma_outcome_is_told(replies: Seq<RunReply>)
    requires
        possible(replies),
    ensures
        (reached(replies).ending() is Some) == (reached(replies).pending() is None),
        reached(replies).ending() matches Some(outcome) ==> accounts(replies, outcome),
{
    lemma_holdings(replies);
    if reached(replies).ending() is Some {
        lemma_outcome_has_a_cause(replies);
    }
}

/// Whatever room a run obtains in the stream's buffer, all of it is filled with silence
/// before it is handed over.
pub proof fn lemma_only_silence(run: SessionRun, frames: u32)
    requires
        run.valid(),
        run.pending() == Some(RunCall::GetBuffer(frames)),
    ensures
        frames <= run.frames,
        frames * run.frame_size <= u64::MAX,
        ({
            let filling = run.after(RunReply::Done);
            let handing = filling.after(RunReply::Done);
            &&& filling.pending() == Some(RunCall::Silence((frames * run.frame_size) as u64))
            &&& handing.pending() == Some(
                RunCall::ReleaseBuffer { frames, flags: 0 },
            )
            &&& handing.after(RunReply::Done).stage == Stage::Wait
        }),
{
    assert(frames * run.frame_size <= 0xFFFF_FFFF * 0xFFFF) by (nonlinear_arith)
        requires
            0 <= frames <= 0xFFFF_FFFF,
            0 <= run.frame_size <= 0xFFFF,
    ;
}

/// When the stream asks for data, a run asks for exactly the room that is free.
pub proof fn lemma_fills_what_is_free(run: SessionRun, queued: u32)
    requires
        run.valid(),
        run.pending() == Some(RunCall::Padding),
        run.takes(RunReply::Frames(queued)),
    ensures
        ({
            let next = run.after(RunReply::Frames(queued));
            &&& queued < run.frames ==> next.pending() == Some(
                RunCall::GetBuffer((run.frames - queued) as u32),
            )
            &&& queued == run.frames ==> next.stage == Stage::Wait
        }),
{
}

/// A stream that cannot be fed is left alone for a moment; it does not end the run.
pub proof fn lemma_stream_errors_are_survived(run: SessionRun, code: i32)
    requires
        run.valid(),
        run.stage == Stage::Padding || run.stage is Buffer || run.stage is Release,
    ensures
        run.after(RunReply::Failed(code)).stage == Stage::Pause,
        run.after(RunReply::Failed(code)).after(RunReply::Done).stage == Stage::Wait,
{
}

/// The run after `n` calls that succeeded with nothing to return.
pub open spec fn going_on(run: SessionRun, n: nat) -> SessionRun
    decreases n,
{
    if n == 0 {
        run
    } else {
        going_on(run, (n - 1) as nat).after(RunReply::Done)
    }
}

/// A run that learns of the loss of the session withdraws the proxy, drops the watched
/// sessions, undoes its registrations in reverse order, withdraws the event, closes it
/// where there is one, and ends.
pub proof fn lemma_loss_ends_the_run(run: SessionRun)
    requires
        run.stage is CheckLost,
    ensures
        ({
            let lost = run.after(RunReply::Flag(true));
            &&& lost.pending() == Some(RunCall::WithdrawProxy)
            &&& going_on(lost, 1).pending() == Some(RunCall::DropSessions)
            &&& going_on(lost, 2).pending() == Some(RunCall::UnregisterProxy)
            &&& going_on(lost, 3).pending() == Some(RunCall::UnregisterArrivals)
            &&& going_on(lost, 4).pending() == Some(RunCall::ClearWake)
            &&& run.wake != 0 ==> going_on(lost, 5).pending() == Some(
                RunCall::CloseWake(run.wake),
            )
            &&& run.wake != 0 ==> going_on(lost, 6).stage == Stage::Finished(Outcome::Lost)
            &&& run.wake == 0 ==> going_on(lost, 5).stage == Stage::Finished(Outcome::Lost)
        }),
{
    reveal_with_fuel(going_on, 7);
}

/// While another program holds the device for itself, a run waits and asks again, unless
/// the session is lost in the meantime.
pub proof fn lemma_busy_device_is_awaited(run: SessionRun)
    requires
        run.stage == Stage::Initialize,
    ensures
        ({
            let busy = run.after(RunReply::Failed(DEVICE_IN_USE));
            let rested = busy.after(RunReply::Done);
            &&& busy.pending() == Some(RunCall::Sleep(BUSY_DELAY))
            &&& rested.pending() == Some(RunCall::IsLost)
            &&& rested.after(RunReply::Flag(false)) == run
            &&& rested.after(RunReply::Flag(true)).stage == Stage::Finished(Outcome::Lost)
        }),
{
}

/// A run that has found the level to begin with, in a world that answers its walk.
pub open spec fn settled_in(run: SessionRun, world: World) -> SessionRun
    decreases run.stage->Initial_0.rank(),
    when run.valid() && run.stage is Initial
{
    let walk = run.stage->Initial_0;
    let call = walk.pending()->0;
    let next = run.after(RunReply::Audio(world.reply(call)));
    proof {
        walk.progress(world.reply(call));
    }
    if next.stage is Initial {
        settled_in(next, world.effect(call))
    } else {
        next
    }
}

proof fn lemma_settles_as_walk(run: SessionRun, world: World)
    requires
        run.valid(),
        run.stage is Initial,
    ensures
        ({
            let end = finish(run.stage->Initial_0, world).0.place;
            &&& end is Ended
            &&& settled_in(run, world) == SessionRun {
                stage: Stage::SetOwn,
                initial: match end->Ended_0 {
                    Some(level) => level,
                    None => Volume { bits: HALF },
                },
                ..run
            }
        }),
    decreases run.stage->Initial_0.rank(),
{
    let walk = run.stage->Initial_0;
    let call = walk.pending()->0;
    let reply = world.reply(call);
    walk.progress(reply);
    let next = run.after(RunReply::Audio(reply));
    if next.stage is Initial {
        lemma_settles_as_walk(next, world.effect(call));
    } else {
        reveal_with_fuel(finish, 3);
    }
}

/// A run begins with the level of the process in the foreground, or halfway where that
/// process has none. The proxy's session and the last known level both start there.
pub proof fn lemma_begins_in_step(run: SessionRun, world: World)
    requires
        run.valid(),
        run.stage == Stage::AttachWake,
        world.honest(),
    ensures
        ({
            let level = match world.level_of(world.foreground()) {
                Some(level) if world.foreground() != 0 => level,
                _ => Volume { bits: HALF },
            };
            let settled = settled_in(run.after(RunReply::Done), world);
            &&& settled.pending() == Some(
                RunCall::SetOwn(level, ContextId::of_own()),
            )
            &&& settled.after(RunReply::Done).pending() == Some(RunCall::PublishProxy(level))
        }),
{
    lemma_settles_as_walk(run.after(RunReply::Done), world);
    lemma_foreground_walk(Purpose::Find, world);
}

/// The proxy's session was published since it was last withdrawn.
pub open spec fn proxy_published(replies: Seq<RunReply>) -> bool
    decreases replies.len(),
{
    replies.len() > 0 && match reached(replies.drop_last()).pending() {
        Some(RunCall::PublishProxy(_)) => true,
        Some(RunCall::WithdrawProxy) => false,
        _ => proxy_published(replies.drop_last()),
    }
}

/// The stages at which the proxy's session is in the hands of the handlers.
pub open spec fn serving(stage: Stage) -> bool {
    match stage {
        Stage::ActivateManager
        | Stage::RegisterArrivals => true,
        Stage::EndSessions => false,
        _ => stage.debts() >= 2 && coming(stage) is None,
    }
}

/// The handlers hold the proxy's session from the moment on when they are registered
/// until the run ends or learns that the session was lost.
pub proof fn lemma_proxy_is_published_first(replies: Seq<RunReply>)
    requires
        possible(replies),
        serving(reached(replies).stage),
    ensures
        proxy_published(replies),
    decreases replies.len(),
{
    if replies.len() > 0 {
        let before = replies.drop_last();
        lemma_holdings(before);
        if serving(reached(before).stage) {
            lemma_proxy_is_published_first(before);
        }
    }
}

/// What a run was told when it last made this call.
pub open spec fn answered(replies: Seq<RunReply>, call: RunCall) -> Option<RunReply>
    decreases replies.len(),
{
    if replies.len() == 0 {
        None
    } else if reached(replies.drop_last()).pending() == Some(call) {
        Some(replies.last())
    } else {
        answered(replies.drop_last(), call)
    }
}

/// What the last wait of a run returned.
pub open spec fn last_signal(replies: Seq<RunReply>) -> Option<RunReply>
    decreases replies.len(),
{
    if replies.len() == 0 {
        None
    } else if reached(replies.drop_last()).pending() matches Some(RunCall::Wait(_)) {
        Some(replies.last())
    } else {
        last_signal(replies.drop_last())
    }
}

/// The stages at which a run that has been woken attends to the stream.
pub open spec fn feeding(stage: Stage) -> bool {
    match stage {
        Stage::Padding | Stage::Buffer(_) | Stage::Silence(_) | Stage::Release(_) => true,
        _ => false,
    }
}

/// A run asks the stream for its free room only where the wait just before returned that
/// the stream wants data, and the session was not lost.
pub proof fn lemma_stream_is_asked_on_request(replies: Seq<RunReply>)
    requires
        possible(replies),
        reached(replies).stage == Stage::Padding,
    ensures
        ({
            let n = replies.len() as int;
            &&& n >= 2
            &&& reached(replies.take(n - 2)).stage == Stage::Wait
            &&& replies[n - 2] == RunReply::Signal(STREAM_READY)
            &&& reached(replies.take(n - 1)).stage == Stage::CheckLost(STREAM_READY)
            &&& replies[n - 1] == RunReply::Flag(false)
        }),
{
    reveal_with_fuel(possible, 3);
    reveal_with_fuel(reached, 3);
    let n = replies.len() as int;
    let before = replies.drop_last();
    lemma_holdings(before);
    assert(before.len() > 0);
    let earlier = before.drop_last();
    lemma_holdings(earlier);
    assert(replies.take(n - 1) =~= before);
    assert(replies.take(n - 2) =~= earlier);
}

/// Every request is answered: where a wait returned that the stream wants data and the
/// session was not lost, the stream is asked for its free room next; where it returned that
/// there are window messages, they are taken.
pub proof fn lemma_requests_are_answered(replies: Seq<RunReply>, signal: u32, wait: WaitRequest)
    requires
        possible(replies),
        replies.len() >= 2,
        reached(replies.take(replies.len() - 2)).pending() == Some(RunCall::Wait(wait)),
        replies[replies.len() - 2] == RunReply::Signal(signal),
        replies.last() == RunReply::Flag(false),
    ensures
        signal == 0 ==> reached(replies).pending() == Some(RunCall::Padding),
        signal == 1 ==> reached(replies).pending() == Some(
            RunCall::TakeMessage { first: 0, last: 0, removal: 1 },
        ),
        signal > 1 ==> reached(replies).pending() matches Some(RunCall::Wait(_)),
{
    reveal_with_fuel(possible, 3);
    reveal_with_fuel(reached, 3);
    let n = replies.len() as int;
    let before = replies.drop_last();
    let earlier = before.drop_last();
    assert(replies.take(n - 2) =~= earlier);
    assert(before.last() == RunReply::Signal(signal));
    lemma_holdings(earlier);
    lemma_holdings(before);
}

/// Where so many frames are queued, the rest of the frames that the stream's buffer was said
/// to hold is obtained next, and where none is free the run waits.
pub proof fn lemma_free_room_is_obtained(replies: Seq<RunReply>, frames: u32, queued: u32)
    requires
        possible(replies),
        replies.len() > 0,
        answered(replies, RunCall::BufferSize) == Some(RunReply::Frames(frames)),
        reached(replies.drop_last()).pending() == Some(RunCall::Padding),
        replies.last() == RunReply::Frames(queued),
    ensures
        queued <= frames,
        queued < frames ==> reached(replies).pending() == Some(
            RunCall::GetBuffer((frames - queued) as u32),
        ),
        queued == frames ==> reached(replies).pending() matches Some(RunCall::Wait(_)),
{
    lemma_holdings(replies.drop_last());
    lemma_told(replies.drop_last());
    assert(answered(replies, RunCall::BufferSize) == answered(
        replies.drop_last(),
        RunCall::BufferSize,
    ));
}

/// After its start, a run touches the stream only where the last wait returned that the
/// stream wants data, and takes window messages only where it returned that there are some.
pub proof fn lemma_nothing_is_polled(replies: Seq<RunReply>)
    requires
        possible(replies),
    ensures
        ({
            let stage = reached(replies).stage;
            &&& feeding(stage) ==> last_signal(replies) == Some(RunReply::Signal(STREAM_READY))
            &&& stage == Stage::TakeMessage || stage == Stage::DispatchMessage ==> last_signal(
                replies,
            ) == Some(RunReply::Signal(MESSAGES_READY))
            &&& stage matches Stage::CheckLost(signal) ==> last_signal(replies) == Some(
                RunReply::Signal(signal),
            )
        }),
    decreases replies.len(),
{
    if replies.len() > 0 {
        lemma_nothing_is_polled(replies.drop_last());
        lemma_holdings(replies.drop_last());
    }
}

/// How often a run has asked for room in the stream's buffer since it last waited.
pub open spec fn refills(replies: Seq<RunReply>) -> nat
    decreases replies.len(),
{
    if replies.len() == 0 {
        0
    } else {
        match reached(replies.drop_last()).pending() {
            Some(RunCall::Wait(_)) => 0,
            Some(RunCall::GetBuffer(_)) => refills(replies.drop_last()) + 1,
            _ => refills(replies.drop_last()),
        }
    }
}

/// The stages at which a run may have refilled the stream since it last waited.
pub open spec fn refilled(stage: Stage) -> bool {
    match stage {
        Stage::FirstSilence
        | Stage::FirstRelease
        | Stage::Silence(_)
        | Stage::Release(_)
        | Stage::Pause
        | Stage::Wait => true,
        _ => coming(stage) is Some,
    }
}

/// The stream is filled at most once before the first wait, and at most once between two
/// waits.
pub proof fn lemma_one_refill_a_wait(replies: Seq<RunReply>)
    requires
        possible(replies),
    ensures
        refills(replies) <= 1,
        refills(replies) > 0 ==> refilled(reached(replies).stage),
    decreases replies.len(),
{
    if replies.len() > 0 {
        lemma_one_refill_a_wait(replies.drop_last());
        lemma_holdings(replies.drop_last());
    }
}

/// A run sleeps only right after a call has failed: for long where another program holds
/// the device for itself, and for a moment where the stream could not be fed.
pub proof fn lemma_sleeps_only_after_failures(replies: Seq<RunReply>, delay: u64)
    requires
        possible(replies),
        reached(replies).pending() == Some(RunCall::Sleep(delay)),
    ensures
        replies.len() > 0,
        ({
            let before = reached(replies.drop_last()).stage;
            if before == Stage::Initialize {
                delay == BUSY_DELAY && replies.last() == RunReply::Failed(DEVICE_IN_USE)
            } else {
                delay == STREAM_DELAY && replies.last() is Failed && feeding(before)
            }
        }),
{
    lemma_holdings(replies.drop_last());
}

/// The stages of a run whose stream has been opened and was told the event to signal.
pub open spec fn streaming(stage: Stage) -> bool {
    coming(stage) is None && match stage {
        Stage::PublishWake | Stage::VolumeService | Stage::ControlService | Stage::AttachWake => {
            false
        },
        _ => stage.debts() >= 1,
    }
}

/// The event that a run has created and attached so far.
spec fn event_known(replies: Seq<RunReply>) -> bool {
    let run = reached(replies);
    let opened = answered(replies, RunCall::Initialize(run.stream())) == Some(RunReply::Done);
    let created = answered(
        replies,
        (RunCall::CreateWake { manual: false, signalled: false }),
    ) == Some(RunReply::Handle(run.wake));
    &&& (run.stage == Stage::FreeFormat || run.stage == Stage::CreateWake) ==> opened
    &&& coming(run.stage) is None && run.stage.debts() >= 1 ==> opened
    &&& run.stage.debts() >= 1 || run.stage is CloseWake ==> created
    &&& streaming(run.stage) ==> answered(replies, RunCall::AttachWake(run.wake)) == Some(
        RunReply::Done,
    )
}

proof fn lemma_event_known(replies: Seq<RunReply>)
    requires
        possible(replies),
    ensures
        event_known(replies),
    decreases replies.len(),
{
    if replies.len() > 0 {
        let before = replies.drop_last();
        lemma_event_known(before);
        lemma_holdings(before);
        lemma_holdings(replies);
    }
}

/// A waiting run has opened a stream that shares the device, signals an event and belongs
/// to the proxy's session. The event that it waits for is the one that it created and that
/// the stream was told to signal. Only that event or a window message ends the wait.
pub proof fn lemma_waits_for_the_stream(replies: Seq<RunReply>)
    requires
        possible(replies),
        reached(replies).stage == Stage::Wait,
    ensures
        ({
            let run = reached(replies);
            let stream = StreamRequest {
                mode: SHARED,
                flags: EVENT_DRIVEN,
                duration: run.period,
                period: 0,
                session: ContextId::of_session(),
            };
            let wait = WaitRequest {
                event: run.wake,
                all: false,
                timeout: NO_TIMEOUT,
                input: ALL_INPUT,
            };
            &&& answered(replies, RunCall::Initialize(stream)) == Some(RunReply::Done)
            &&& answered(
                replies,
                (RunCall::CreateWake { manual: false, signalled: false }),
            ) == Some(RunReply::Handle(run.wake))
            &&& answered(replies, RunCall::AttachWake(run.wake)) == Some(RunReply::Done)
            &&& run.pending() == Some(RunCall::Wait(wait))
        }),
{
    lemma_event_known(replies);
}

/// The event that a run closes is the one that it created.
pub proof fn lemma_own_event_is_closed(replies: Seq<RunReply>, wake: usize)
    requires
        possible(replies),
        reached(replies).pending() == Some(RunCall::CloseWake(wake)),
    ensures
        answered(replies, (RunCall::CreateWake { manual: false, signalled: false })) == Some(
            RunReply::Handle(wake),
        ),
{
    lemma_event_known(replies);
}

/// What a run has been told of the device and the stream.
spec fn told(replies: Seq<RunReply>) -> bool {
    let run = reached(replies);
    let formatted = answered(replies, RunCall::MixFormat) == Some(
        RunReply::FrameSize(run.frame_size),
    );
    let timed = answered(replies, RunCall::DevicePeriod) == Some(RunReply::Period(run.period));
    let sized = answered(replies, RunCall::BufferSize) == Some(RunReply::Frames(run.frames));
    match run.stage {
        Stage::ForgetLoss
        | Stage::DropSessions
        | Stage::WithdrawProxy
        | Stage::CreateEnumerator
        | Stage::DefaultEndpoint
        | Stage::ActivateClient
        | Stage::MixFormat => true,
        Stage::DevicePeriod => formatted,
        Stage::Start | Stage::RenderService | Stage::BufferSize => formatted && timed,
        stage => coming(stage) is None ==> {
            &&& formatted
            &&& timed
            &&& stage.debts() == 3 ==> sized
        },
    }
}

proof fn lemma_told(replies: Seq<RunReply>)
    requires
        possible(replies),
    ensures
        told(replies),
    decreases replies.len(),
{
    if replies.len() > 0 {
        lemma_told(replies.drop_last());
        lemma_holdings(replies.drop_last());
    }
}

/// The stream is opened with the period that the device named. Its buffer is filled by the
/// frame size of the mix format and the number of frames that the stream named.
pub proof fn lemma_stream_is_as_told(replies: Seq<RunReply>)
    requires
        possible(replies),
    ensures
        match reached(replies).pending() {
            Some(RunCall::Initialize(stream)) => answered(replies, RunCall::DevicePeriod) == Some(
                RunReply::Period(stream.duration),
            ),
            Some(RunCall::GetBuffer(_))
            | Some(RunCall::Silence(_))
            | Some(RunCall::ReleaseBuffer { .. }) => {
                &&& answered(replies, RunCall::MixFormat) == Some(
                    RunReply::FrameSize(reached(replies).frame_size),
                )
                &&& answered(replies, RunCall::BufferSize) == Some(
                    RunReply::Frames(reached(replies).frames),
                )
            },
            _ => true,
        },
{
    lemma_told(replies);
}

/// The first write to the proxy's session carries the proxy's mark too, so that a report of
/// it starts nothing.
pub proof fn lemma_first_write_is_marked(run: SessionRun, level: Volume, author: ContextId)
    requires
        run.pending() == Some(RunCall::SetOwn(level, author)),
    ensures
        author.is_own(),
        ProxyChange::of(Some(author), level).pending() is None,
{
    lemma_own_mark();
}

/// The sessions that a run watches from its start, by their places in the list, in the
/// order in which they were asked to report their changes.
pub open spec fn watched(replies: Seq<RunReply>) -> Seq<i32>
    decreases replies.len(),
{
    if replies.len() == 0 {
        Seq::empty()
    } else {
        match (reached(replies.drop_last()).pending(), replies.last()) {
            (Some(RunCall::Watch(i)), RunReply::Done) => watched(replies.drop_last()).push(i),
            _ => watched(replies.drop_last()),
        }
    }
}

/// The session could be opened, offers the extended control, and agreed to report its
/// changes.
pub open spec fn agreed(replies: Seq<RunReply>, i: i32) -> bool {
    &&& answered(replies, RunCall::OpenSession(i)) == Some(RunReply::Done)
    &&& answered(replies, RunCall::OpenControl(i)) == Some(RunReply::Done)
    &&& answered(replies, RunCall::Watch(i)) == Some(RunReply::Done)
}

/// How many sessions the list holds; none where the list or its count failed.
pub open spec fn listed(replies: Seq<RunReply>) -> int {
    match (answered(replies, RunCall::ListSessions), answered(replies, RunCall::CountSessions)) {
        (Some(RunReply::Done), Some(RunReply::Count(n))) => n as int,
        _ => 0,
    }
}

/// The reply that the list holds `n` sessions.
pub open spec fn counted(n: i32) -> RunReply {
    RunReply::Count(n)
}

/// The stages before the list of sessions is at hand.
spec fn unlisted(stage: Stage) -> bool {
    coming(stage) is None && (stage.debts() < 2 || stage == Stage::ListSessions)
}

/// The sessions before `opened` were to be opened; no session from `tried` on was asked for
/// its control, and none from `asked` on to report its changes.
spec fn gone_through(replies: Seq<RunReply>, opened: int, tried: int, asked: int) -> bool {
    let chosen = watched(replies);
    &&& forall|j: i32|
        (#[trigger] answered(replies, RunCall::OpenSession(j)) is Some) == (0 <= j < opened)
    &&& forall|j: i32|
        (#[trigger] answered(replies, RunCall::OpenControl(j)) is Some) ==> 0 <= j < tried
    &&& forall|j: i32| (#[trigger] answered(replies, RunCall::Watch(j)) is Some) ==> 0 <= j < asked
    &&& forall|j: i32|
        #![trigger answered(replies, RunCall::OpenControl(j))]
        j < tried && answered(replies, RunCall::OpenSession(j)) == Some(RunReply::Done)
            ==> answered(replies, RunCall::OpenControl(j)) is Some
    &&& forall|j: i32|
        #![trigger answered(replies, RunCall::Watch(j))]
        j < asked && answered(replies, RunCall::OpenControl(j)) == Some(RunReply::Done)
            ==> answered(replies, RunCall::Watch(j)) is Some
    &&& forall|j: i32| #[trigger] chosen.contains(j) == agreed(replies, j)
    &&& forall|k: int| 0 <= k < chosen.len() ==> 0 <= #[trigger] chosen[k] < asked
    &&& forall|k: int, l: int| 0 <= k < l < chosen.len() ==> chosen[k] < chosen[l]
}

spec fn watching(replies: Seq<RunReply>) -> bool {
    let list = answered(replies, RunCall::ListSessions);
    let count = answered(replies, RunCall::CountSessions);
    match reached(replies).stage {
        Stage::CountSessions => {
            &&& gone_through(replies, 0, 0, 0)
            &&& list == Some(RunReply::Done)
            &&& count is None
        },
        Stage::OpenSession { i, n } => {
            &&& gone_through(replies, i as int, i as int, i as int)
            &&& list == Some(RunReply::Done)
            &&& count == Some(RunReply::Count(n))
        },
        Stage::OpenControl { i, n } => {
            &&& gone_through(replies, i + 1, i as int, i as int)
            &&& list == Some(RunReply::Done)
            &&& count == Some(RunReply::Count(n))
            &&& answered(replies, RunCall::OpenSession(i)) == Some(RunReply::Done)
        },
        Stage::Watch { i, n } => {
            &&& gone_through(replies, i + 1, i + 1, i as int)
            &&& list == Some(RunReply::Done)
            &&& count == Some(RunReply::Count(n))
            &&& answered(replies, RunCall::OpenSession(i)) == Some(RunReply::Done)
            &&& answered(replies, RunCall::OpenControl(i)) == Some(RunReply::Done)
        },
        Stage::PublishSessions => {
            let n = listed(replies);
            &&& gone_through(replies, n, n, n)
            &&& list is Some
            &&& list == Some(RunReply::Done) ==> count is Some
        },
        stage => unlisted(stage) ==> {
            &&& gone_through(replies, 0, 0, 0)
            &&& list is None
            &&& count is None
        },
    }
}

proof fn lemma_watching(replies: Seq<RunReply>)
    requires
        possible(replies),
    ensures
        watching(replies),
    decreases replies.len(),
{
    if replies.len() > 0 {
        let before = replies.drop_last();
        lemma_watching(before);
        lemma_holdings(before);
        lemma_holdings(replies);
        let earlier = watched(before);
        let chosen = watched(replies);
        assert forall|call: RunCall| #[trigger] answered(replies, call) == (if reached(
            before,
        ).pending() == Some(call) {
            Some(replies.last())
        } else {
            answered(before, call)
        }) by {}
        assert forall|j: i32| #[trigger]
            chosen.contains(j) == (earlier.contains(j) || (chosen != earlier && j
            == chosen.last())) by {
            if chosen != earlier {
                assert(chosen[earlier.len() as int] == chosen.last());
                if earlier.contains(j) {
                    let k = choose|k: int| 0 <= k < earlier.len() && earlier[k] == j;
                    assert(chosen[k] == j);
                }
            }
        }
    }
}

/// The sessions that a run watches from its start are those of the list that could be
/// opened, offer the extended control and agreed to report their changes: all of these,
/// each once and in the order of the list. A list that was had is counted, every session of
/// it is tried, and what the first steps yield is taken further. Where the list or its
/// count failed, none is watched.
pub proof fn lemma_who_is_watched(replies: Seq<RunReply>)
    requires
        possible(replies),
        reached(replies).stage == Stage::PublishSessions,
    ensures
        forall|i: i32| #[trigger]
            watched(replies).contains(i) == (0 <= i < listed(replies) && agreed(replies, i)),
        forall|k: int, l: int|
            0 <= k < l < watched(replies).len() ==> watched(replies)[k] < watched(replies)[l],
        answered(replies, RunCall::ListSessions) is Some,
        answered(replies, RunCall::ListSessions) == Some(RunReply::Done) ==> answered(
            replies,
            RunCall::CountSessions,
        ) is Some,
        forall|n: i32|
            answered(replies, RunCall::ListSessions) == Some(RunReply::Done) && answered(
                replies,
                RunCall::CountSessions,
            ) == Some(#[trigger] counted(n)) ==> {
                forall|i: i32| #[trigger]
                    watched(replies).contains(i) == (0 <= i < n && agreed(replies, i))
            },
        forall|i: i32|
            (#[trigger] answered(replies, RunCall::OpenSession(i)) is Some) == (0 <= i < listed(
                replies,
            )),
        forall|i: i32|
            #![trigger answered(replies, RunCall::OpenControl(i))]
            answered(replies, RunCall::OpenSession(i)) == Some(RunReply::Done) ==> answered(
                replies,
                RunCall::OpenControl(i),
            ) is Some,
        forall|i: i32|
            #![trigger answered(replies, RunCall::Watch(i))]
            answered(replies, RunCall::OpenControl(i)) == Some(RunReply::Done) ==> answered(
                replies,
                RunCall::Watch(i),
            ) is Some,
        answered(replies, RunCall::ListSessions) matches Some(RunReply::Failed(_)) ==> watched(
            replies,
        ).len() == 0,
        answered(replies, RunCall::CountSessions) matches Some(RunReply::Failed(_)) ==> watched(
            replies,
        ).len() == 0,
{
    lemma_watching(replies);
    let chosen = watched(replies);
    if chosen.len() > 0 {
        assert(0 <= chosen[0] < listed(replies));
    }
}

} // verus!
