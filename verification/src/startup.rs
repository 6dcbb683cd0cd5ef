//! Starting the program and restarting the proxy's session.
use crate::run::Outcome;
use vstd::prelude::*;

verus! {

/// Milliseconds until a session that was lost is set up anew.
pub const LOST_DELAY: u64 = 500;

/// Milliseconds until a session that failed is set up anew.
pub const FAILED_DELAY: u64 = 5_000;

/// One of the arguments asks for the log.
pub open spec fn asks_for_log(args: Seq<String>) -> bool {
    exists|i: int| 0 <= i < args.len() && (#[trigger] args[i])@ == "--verbose"@
}

/// The log is asked for exactly where some argument, at whatever place, is `--verbose`.
pub proof fn lemma_what_asks_for_the_log(args: Seq<String>)
    ensures
        forall|i: int|
            0 <= i < args.len() && (#[trigger] args[i])@ == seq![
                '-',
                '-',
                'v',
                'e',
                'r',
                'b',
                'o',
                's',
                'e',
            ] ==> asks_for_log(args),
        asks_for_log(args) ==> exists|i: int|
            0 <= i < args.len() && (#[trigger] args[i])@ == seq![
                '-',
                '-',
                'v',
                'e',
                'r',
                'b',
                'o',
                's',
                'e',
            ],
{
    reveal_strlit("--verbose");
    assert("--verbose"@ =~= seq!['-', '-', 'v', 'e', 'r', 'b', 'o', 's', 'e']);
}

/// Tells whether the arguments ask for the log.
pub fn wants_log(args: &Vec<String>) -> (wanted: bool)
    ensures
        wanted == asks_for_log(args@),
{
    let flag: String = "--verbose".to_owned();
    let mut i: usize = 0;
    while i < args.len()
        invariant
            i <= args@.len(),
            flag@ == "--verbose"@,
            forall|k: int| 0 <= k < i ==> (#[trigger] args@[k])@ != "--verbose"@,
        decreases args@.len() - i,
    {
        if args[i] == flag {
            return true;
        }
        i = i + 1;
    }
    false
}

/// How many milliseconds pass before the session is set up anew.
pub open spec fn delay_after(outcome: Outcome) -> u64 {
    match outcome {
        Outcome::Lost => LOST_DELAY,
        Outcome::Failed(_) => FAILED_DELAY,
    }
}

/// A session that was lost is set up anew after half a second, and one that failed after
/// five seconds, whatever the error.
pub proof fn lemma_restart_delays(code: i32)
    ensures
        delay_after(Outcome::Lost) == 500,
        delay_after(Outcome::Failed(code)) == 5_000,
{
}

/// Tells how many milliseconds to wait before the session is set up anew.
pub fn restart_delay(outcome: Outcome) -> (delay: u64)
    ensures
        delay == (match outcome {
            Outcome::Lost => LOST_DELAY,
            Outcome::Failed(_) => FAILED_DELAY,
        }),
        delay == delay_after(outcome),
{
    match outcome {
        Outcome::Lost => LOST_DELAY,
        Outcome::Failed(_) => FAILED_DELAY,
    }
}

} // verus!
