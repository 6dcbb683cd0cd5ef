//! What happens when the proxy's session is lost.
use crate::lifecycle::{going_on, lemma_loss_ends_the_run};
use crate::run::{Outcome, RunCall, RunReply, SessionRun, Stage, WAIT_FAILED};
use vstd::prelude::*;

verus! {

/// Where the handling of the loss stands.
#[derive(Clone, Copy, Debug, PartialEq, Eq, Structural)]
pub enum Disconnect {
    /// The loss is noted, for the run to find.
    NoteLoss,
    /// The event that wakes the run is looked up; 0 stands for none.
    LoadWake,
    /// The event is signalled.
    Signal(usize),
    End,
}

impl Disconnect {
    /// Where the handling goes after the step at hand; `wake` is the event looked up.
    pub open spec fn after(self, wake: usize) -> Disconnect {
        match self {
            Disconnect::NoteLoss => Disconnect::LoadWake,
            Disconnect::LoadWake if wake != 0 => Disconnect::Signal(wake),
            _ => Disconnect::End,
        }
    }

    /// The handling of the loss, before its first step.
    pub open spec fn fresh() -> Disconnect {
        Disconnect::NoteLoss
    }

    /// Begins to handle the loss.
    pub fn start() -> (loss: Disconnect)
        ensures
            loss == Disconnect::fresh(),
            loss == Disconnect::NoteLoss,
    {
        Disconnect::NoteLoss
    }

    /// Goes on after the step at hand. Only the look for the event has a result.
    pub fn advance(self, wake: usize) -> (next: Disconnect)
        ensures
            next == self.after(wake),
    {
        match self {
            Disconnect::NoteLoss => Disconnect::LoadWake,
            Disconnect::LoadWake => if wake != 0 {
                Disconnect::Signal(wake)
            } else {
                Disconnect::End
            },
            _ => Disconnect::End,
        }
    }
}

/// The loss is noted before the run is woken, and the event that is signalled is the one
/// that was published. Where none is published, nothing is signalled.
pub proof fn lemma_loss_is_noted_first(unused: usize, wake: usize)
    ensures
        Disconnect::fresh() == Disconnect::NoteLoss,
        Disconnect::NoteLoss.after(unused) == Disconnect::LoadWake,
        Disconnect::LoadWake.after(wake) == (if wake == 0 {
            Disconnect::End
        } else {
            Disconnect::Signal(wake)
        }),
        Disconnect::Signal(wake).after(unused) == Disconnect::End,
        Disconnect::End.after(unused) == Disconnect::End,
{
}

/// Whatever a waiting run is woken by, other than a failure of the wait, it finds the
/// loss that was noted and ends.
pub proof fn lemma_woken_run_finds_the_loss(run: SessionRun, signal: u32)
    requires
        run.stage == Stage::Wait,
        signal != WAIT_FAILED,
    ensures
        ({
            let woken = run.after(RunReply::Signal(signal));
            &&& woken.pending() == Some(RunCall::IsLost)
            &&& going_on(
                woken.after(RunReply::Flag(true)),
                if run.wake != 0 {
                    6
                } else {
                    5
                },
            ).stage == Stage::Finished(Outcome::Lost)
        }),
{
    lemma_loss_ends_the_run(run.after(RunReply::Signal(signal)));
}

} // verus!
