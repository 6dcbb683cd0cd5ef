//! The thread that listens for changes of the foreground window.
use crate::handlers::FOREGROUND_EVENT;
use crate::platform::{
    event_system_foreground, winevent_outofcontext, winevent_skipownprocess,
};
use vstd::prelude::*;

verus! {

/// Milliseconds between two looks for the shell's window.
pub const SHELL_DELAY: u64 = 1_000;

/// Milliseconds between two attempts to install the hook.
pub const HOOK_DELAY: u64 = 2_000;

/// Milliseconds to wait after the message queue failed.
pub const QUEUE_DELAY: u64 = 500;

/// The flags of a hook that is called in its own process, but not for the events of that
/// process.
pub const FROM_OTHERS: u32 = 2;

/// The hook that the thread installs.
#[derive(Clone, Copy, Debug, PartialEq, Eq, Structural)]
pub struct HookRequest {
    /// The first and the last number of the events that are told.
    pub first: u32,
    pub last: u32,
    /// The process and the thread whose events are told; 0 stands for all.
    pub process: u32,
    pub thread: u32,
    pub flags: u32,
}

/// The hook that is told whenever a window of another process comes to the foreground.
pub open spec fn foreground_hook() -> HookRequest {
    HookRequest {
        first: FOREGROUND_EVENT,
        last: FOREGROUND_EVENT,
        process: 0,
        thread: 0,
        flags: FROM_OTHERS,
    }
}

/// Describes the hook.
fn hook_request() -> (request: HookRequest)
    ensures
        request == foreground_hook(),
{
    let outside: u32 = winevent_outofcontext();
    let others: u32 = winevent_skipownprocess();
    assert(0u32 | 2u32 == 2u32) by (bit_vector);
    HookRequest {
        first: event_system_foreground(),
        last: event_system_foreground(),
        process: 0,
        thread: 0,
        flags: outside | others,
    }
}

/// A call that the thread makes.
#[derive(Clone, Copy, Debug, PartialEq, Eq, Structural)]
pub enum HookCall {
    /// Ask whether the shell has its window.
    ShellWindow,
    /// Note that the thread waits for the shell.
    NoteWaiting,
    /// Sleep for so many milliseconds.
    Sleep(u64),
    /// Install the hook, and tell whether that worked.
    Install(HookRequest),
    /// Wait for a message of any kind, or of those from `first` to `last` where these are
    /// not 0: the result 0 asks to quit, -1 tells of an error.
    GetMessage { first: u32, last: u32 },
    /// Translate and dispatch the message.
    Dispatch,
}

/// What came of a call.
#[derive(Clone, Copy, Debug, PartialEq, Eq, Structural)]
pub enum HookReply {
    Done,
    Flag(bool),
    Message(i32),
}

/// Where the thread stands.
#[derive(Clone, Copy, Debug, PartialEq, Eq, Structural)]
pub enum Hook {
    /// The shell's window is looked for; `noted` tells whether the wait was noted.
    Shell { noted: bool },
    Note,
    ShellPause,
    Install,
    InstallPause,
    Listen,
    Dispatch,
    Recover,
    End,
}

impl Hook {
    /// The call to make next; none once the thread has ended.
    pub open spec fn pending(self) -> Option<HookCall> {
        match self {
            Hook::Shell { .. } => Some(HookCall::ShellWindow),
            Hook::Note => Some(HookCall::NoteWaiting),
            Hook::ShellPause => Some(HookCall::Sleep(SHELL_DELAY)),
            Hook::Install => Some(HookCall::Install(foreground_hook())),
            Hook::InstallPause => Some(HookCall::Sleep(HOOK_DELAY)),
            Hook::Listen => Some(HookCall::GetMessage { first: 0, last: 0 }),
            Hook::Dispatch => Some(HookCall::Dispatch),
            Hook::Recover => Some(HookCall::Sleep(QUEUE_DELAY)),
            Hook::End => None,
        }
    }

    /// `reply` is of the kind that the pending call gives.
    pub open spec fn takes(self, reply: HookReply) -> bool {
        match self {
            Hook::Shell { .. } | Hook::Install => reply is Flag,
            Hook::Listen => reply is Message,
            Hook::End => false,
            _ => reply is Done,
        }
    }

    /// The state that a reply leads to.
    pub open spec fn after(self, reply: HookReply) -> Hook {
        match self {
            Hook::Shell { noted } => if reply == HookReply::Flag(true) {
                Hook::Install
            } else if noted {
                Hook::ShellPause
            } else {
                Hook::Note
            },
            Hook::Note => Hook::ShellPause,
            Hook::ShellPause => Hook::Shell { noted: true },
            Hook::Install => if reply == HookReply::Flag(true) {
                Hook::Listen
            } else {
                Hook::InstallPause
            },
            Hook::InstallPause => Hook::Install,
            Hook::Listen => if reply == HookReply::Message(0) {
                Hook::End
            } else if reply matches HookReply::Message(result) && result == -1 {
                Hook::Recover
            } else {
                Hook::Dispatch
            },
            Hook::Dispatch | Hook::Recover => Hook::Listen,
            Hook::End => Hook::End,
        }
    }

    /// Begins the thread.
    pub fn start() -> (hook: Hook)
        ensures
            hook == (Hook::Shell { noted: false }),
            hook == reached(Seq::empty()),
    {
        Hook::Shell { noted: false }
    }

    /// Names the call to make next.
    pub fn call(&self) -> (call: Option<HookCall>)
        ensures
            call == self.pending(),
    {
        match self {
            Hook::Shell { .. } => Some(HookCall::ShellWindow),
            Hook::Note => Some(HookCall::NoteWaiting),
            Hook::ShellPause => Some(HookCall::Sleep(SHELL_DELAY)),
            Hook::Install => Some(HookCall::Install(hook_request())),
            Hook::InstallPause => Some(HookCall::Sleep(HOOK_DELAY)),
            Hook::Listen => Some(HookCall::GetMessage { first: 0, last: 0 }),
            Hook::Dispatch => Some(HookCall::Dispatch),
            Hook::Recover => Some(HookCall::Sleep(QUEUE_DELAY)),
            Hook::End => None,
        }
    }

    /// Takes the reply to the pending call.
    pub fn advance(self, reply: HookReply) -> (next: Hook)
        requires
            self.takes(reply),
        ensures
            next == self.after(reply),
    {
        match (self, reply) {
            (Hook::Shell { .. }, HookReply::Flag(true)) => Hook::Install,
            (Hook::Shell { noted: true }, _) => Hook::ShellPause,
            (Hook::Shell { noted: false }, _) => Hook::Note,
            (Hook::Note, _) => Hook::ShellPause,
            (Hook::ShellPause, _) => Hook::Shell { noted: true },
            (Hook::Install, HookReply::Flag(true)) => Hook::Listen,
            (Hook::Install, _) => Hook::InstallPause,
            (Hook::InstallPause, _) => Hook::Install,
            (Hook::Listen, HookReply::Message(0)) => Hook::End,
            (Hook::Listen, HookReply::Message(-1)) => Hook::Recover,
            (Hook::Listen, _) => Hook::Dispatch,
            (Hook::Dispatch, _) => Hook::Listen,
            (Hook::Recover, _) => Hook::Listen,
            (Hook::End, _) => Hook::End,
        }
    }
}

/// The state of a thread that got these replies, one after the other.
pub open spec fn reached(replies: Seq<HookReply>) -> Hook
    decreases replies.len(),
{
    if replies.len() == 0 {
        Hook::Shell { noted: false }
    } else {
        reached(replies.drop_last()).after(replies.last())
    }
}

/// A thread can get these replies, one after the other.
pub open spec fn possible(replies: Seq<HookReply>) -> bool
    decreases replies.len(),
{
    replies.len() == 0 || (possible(replies.drop_last()) && reached(replies.drop_last()).takes(
        replies.last(),
    ))
}

/// How often the thread has noted that it waits for the shell.
pub open spec fn notes(replies: Seq<HookReply>) -> nat
    decreases replies.len(),
{
    if replies.len() == 0 {
        0
    } else {
        notes(replies.drop_last()) + if reached(replies.drop_last()).pending() == Some(
            HookCall::NoteWaiting,
        ) {
            1nat
        } else {
            0nat
        }
    }
}

/// The thread notes at most once that it waits for the shell.
pub proof fn lemma_waiting_is_noted_once(replies: Seq<HookReply>)
    ensures
        notes(replies) <= 1,
        reached(replies) == (Hook::Shell { noted: false }) || reached(replies) == Hook::Note
            ==> notes(replies) == 0,
    decreases replies.len(),
{
    if replies.len() > 0 {
        lemma_waiting_is_noted_once(replies.drop_last());
    }
}

/// The shell's window was seen before.
pub open spec fn shell_seen(replies: Seq<HookReply>) -> bool {
    exists|k: int|
        0 <= k < replies.len() && #[trigger] replies[k] == HookReply::Flag(true) && reached(
            replies.take(k),
        ).pending() == Some(HookCall::ShellWindow)
}

/// The hook is installed only once the shell has its window.
pub proof fn lemma_shell_comes_first(replies: Seq<HookReply>)
    requires
        reached(replies).pending() == Some(HookCall::Install(foreground_hook())) || reached(replies)
            == Hook::InstallPause,
    ensures
        shell_seen(replies),
    decreases replies.len(),
{
    if replies.len() > 0 {
        let before = replies.drop_last();
        let last = replies.len() - 1;
        assert(replies.take(last) =~= before);
        if reached(before) is Shell {
            assert(replies[last] == HookReply::Flag(true));
        } else {
            lemma_shell_comes_first(before);
            let k = choose|k: int|
                0 <= k < before.len() && #[trigger] before[k] == HookReply::Flag(true) && reached(
                    before.take(k),
                ).pending() == Some(HookCall::ShellWindow);
            assert(before.take(k) =~= replies.take(k));
            assert(replies[k] == HookReply::Flag(true));
        }
    }
}

/// The thread begins with a look for the shell's window. Each reply leads to one call: the
/// window to the hook, no window to a rest of a second and another look, the hook to the
/// messages, no hook to a rest of two seconds and another attempt, a message to its
/// dispatch, an error of the queue to a rest of half a second, and both back to the queue.
pub proof fn lemma_every_reply_is_acted_upon(hook: Hook, reply: HookReply)
    requires
        hook.takes(reply),
    ensures
        reached(Seq::empty()).pending() == Some(HookCall::ShellWindow),
        ({
            let next = hook.after(reply);
            let then = next.after(HookReply::Done);
            let install = HookCall::Install(
                HookRequest { first: 3, last: 3, process: 0, thread: 0, flags: 2 },
            );
            let get = HookCall::GetMessage { first: 0, last: 0 };
            match (hook.pending(), reply) {
                (Some(HookCall::ShellWindow), HookReply::Flag(true)) => next.pending() == Some(
                    install,
                ),
                (Some(HookCall::ShellWindow), _) => {
                    ||| next.pending() == Some(HookCall::Sleep(1_000)) && then.pending() == Some(
                        HookCall::ShellWindow,
                    )
                    ||| next.pending() == Some(HookCall::NoteWaiting) && then.pending() == Some(
                        HookCall::Sleep(1_000),
                    ) && then.after(HookReply::Done).pending() == Some(HookCall::ShellWindow)
                },
                (Some(HookCall::NoteWaiting), _) => next.pending() == Some(
                    HookCall::Sleep(1_000),
                ) && then.pending() == Some(HookCall::ShellWindow),
                (Some(HookCall::Install(request)), HookReply::Flag(true)) => next.pending() == Some(
                    get,
                ) && HookCall::Install(request) == install,
                (Some(HookCall::Install(request)), _) => next.pending() == Some(
                    HookCall::Sleep(2_000),
                ) && then.pending() == Some(install) && HookCall::Install(request) == install,
                (Some(HookCall::GetMessage { first, last }), HookReply::Message(result)) => {
                    &&& first == 0 && last == 0
                    &&& if result == 0 {
                        next.pending() is None
                    } else if result == -1 {
                        next.pending() == Some(HookCall::Sleep(500)) && then.pending() == Some(get)
                    } else {
                        next.pending() == Some(HookCall::Dispatch) && then.pending() == Some(get)
                    }
                },
                (Some(HookCall::Dispatch), _) => next.pending() == Some(get),
                (Some(HookCall::Sleep(1_000)), _) => next.pending() == Some(HookCall::ShellWindow),
                (Some(HookCall::Sleep(2_000)), _) => next.pending() == Some(install),
                (Some(HookCall::Sleep(500)), _) => next.pending() == Some(get),
                _ => false,
            }
        }),
{
}

/// Every reply that a call can give is taken.
pub proof fn lemma_every_reply_is_taken(hook: Hook, flag: bool, result: i32)
    ensures
        match hook.pending() {
            Some(HookCall::ShellWindow) | Some(HookCall::Install(_)) => hook.takes(
                HookReply::Flag(flag),
            ),
            Some(HookCall::GetMessage { .. }) => hook.takes(HookReply::Message(result)),
            Some(_) => hook.takes(HookReply::Done),
            None => true,
        },
{
}

/// How often the shell's window was looked for in vain.
pub open spec fn misses(replies: Seq<HookReply>) -> nat
    decreases replies.len(),
{
    if replies.len() == 0 {
        0
    } else {
        misses(replies.drop_last()) + if reached(replies.drop_last()).pending() == Some(
            HookCall::ShellWindow,
        ) && replies.last() == HookReply::Flag(false) {
            1nat
        } else {
            0nat
        }
    }
}

/// The wait for the shell is noted right after the first look in vain, and never without
/// one.
pub proof fn lemma_waiting_is_noted(replies: Seq<HookReply>)
    requires
        possible(replies),
    ensures
        misses(replies) > 0 ==> notes(replies) == 1 || reached(replies).pending() == Some(
            HookCall::NoteWaiting,
        ),
        misses(replies) == 0 ==> notes(replies) == 0 && reached(replies).pending() != Some(
            HookCall::NoteWaiting,
        ),
        reached(replies) == (Hook::Shell { noted: false }) ==> misses(replies) == 0,
        reached(replies) == (Hook::Shell { noted: true }) || reached(replies) == Hook::ShellPause
            ==> notes(replies) == 1,
    decreases replies.len(),
{
    if replies.len() > 0 {
        lemma_waiting_is_noted(replies.drop_last());
        lemma_waiting_is_noted_once(replies.drop_last());
        lemma_waiting_is_noted_once(replies);
    }
}

/// The hook that is told of new foreground windows was installed before.
pub open spec fn installed(replies: Seq<HookReply>) -> bool {
    exists|k: int|
        0 <= k < replies.len() && #[trigger] replies[k] == HookReply::Flag(true) && reached(
            replies.take(k),
        ).pending() == Some(
            HookCall::Install(
                HookRequest { first: 3, last: 3, process: 0, thread: 0, flags: 2 },
            ),
        )
}

/// The thread gets and dispatches messages, rests after an error of the queue, and ends,
/// only with the hook installed.
pub proof fn lemma_listens_with_the_hook(replies: Seq<HookReply>)
    requires
        possible(replies),
        match reached(replies) {
            Hook::Listen | Hook::Dispatch | Hook::Recover | Hook::End => true,
            _ => false,
        },
    ensures
        installed(replies),
    decreases replies.len(),
{
    if replies.len() > 0 {
        let before = replies.drop_last();
        let last = replies.len() - 1;
        assert(replies.take(last) =~= before);
        if reached(before) == Hook::Install {
            assert(replies[last] == HookReply::Flag(true));
        } else {
            lemma_listens_with_the_hook(before);
            let k = choose|k: int|
                0 <= k < before.len() && #[trigger] before[k] == HookReply::Flag(true) && reached(
                    before.take(k),
                ).pending() == Some(
                    HookCall::Install(
                        HookRequest { first: 3, last: 3, process: 0, thread: 0, flags: 2 },
                    ),
                );
            assert(before.take(k) =~= replies.take(k));
            assert(replies[k] == HookReply::Flag(true));
        }
    }
}

/// The thread ends only when it is asked to quit; an error of the message queue does not
/// end it.
pub proof fn lemma_only_quitting_ends(hook: Hook, reply: HookReply)
    requires
        hook.takes(reply),
        hook.after(reply) == Hook::End,
    ensures
        hook == Hook::Listen,
        reply == HookReply::Message(0),
{
}

} // verus!
