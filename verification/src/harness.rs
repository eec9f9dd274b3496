//! The test harness: when to trigger a switch of the desktop, and when to give up on ffmpeg.
//!
//! Times are nanoseconds since ffmpeg was started.
use vstd::prelude::*;

use crate::text::{decimal, texts, to_decimal};

verus! {

/// What a run looks like.
#[derive(Debug, Clone, Copy, PartialEq, Eq, Structural)]
pub struct RunPlan {
    pub duration_secs: u64,
    pub trigger_after_secs: u64,
    pub trigger_count: u32,
    pub trigger_interval_secs: u64,
}

/// The state of a run.
#[derive(Debug, Clone, Copy, PartialEq, Eq, Structural)]
pub struct Run {
    pub plan: RunPlan,
    pub triggered: u32,
    pub next_trigger_ns: u128,
}

/// How long the harness rests between two looks, in milliseconds.
pub const LOOK_INTERVAL_MS: u64 = 250;

/// What a look leads to.
#[derive(Debug, Clone, Copy, PartialEq, Eq, Structural)]
pub struct Look {
    /// Trigger a switch of the desktop now.
    pub trigger: bool,
    /// Ffmpeg should have ended long ago: kill it, and end the run.
    pub give_up: bool,
}

impl Run {
    /// A run that is about to start.
    pub fn new(plan: RunPlan) -> (run: Run)
        ensures
            run.plan == plan,
            run.triggered == 0,
            run.next_trigger_ns == plan.trigger_after_secs * 1_000_000_000,
    {
        Run {
            plan,
            triggered: 0,
            next_trigger_ns: plan.trigger_after_secs as u128 * 1_000_000_000,
        }
    }

    /// Not more switches than planned.
    pub open spec fn wf(self) -> bool {
        self.triggered <= self.plan.trigger_count
    }

    /// Whether a switch is due.
    pub open spec fn is_due(self, elapsed_ns: u64) -> bool {
        self.triggered < self.plan.trigger_count && elapsed_ns >= self.next_trigger_ns
    }

    /// The run after a look at the time `elapsed_ns`, and what it leads to.
    pub open spec fn looked(self, elapsed_ns: u64) -> (Run, Look) {
        (
            if self.is_due(elapsed_ns) {
                Run {
                    triggered: (self.triggered + 1) as u32,
                    next_trigger_ns: (elapsed_ns + self.plan.trigger_interval_secs
                        * 1_000_000_000) as u128,
                    ..self
                }
            } else {
                self
            },
            Look {
                trigger: self.is_due(elapsed_ns),
                give_up: elapsed_ns >= (self.plan.duration_secs + 10) * 1_000_000_000,
            },
        )
    }

    /// Looks at the time, while ffmpeg runs.
    pub fn look(&mut self, elapsed_ns: u64) -> (look: Look)
        requires
            old(self).plan.duration_secs + 10 <= u64::MAX,
        ensures
            (*final(self), look) == old(self).looked(elapsed_ns),
            old(self).wf() ==> final(self).wf(),
    {
        let due = self.triggered < self.plan.trigger_count && elapsed_ns as u128
            >= self.next_trigger_ns;
        if due {
            self.triggered = self.triggered + 1;
            self.next_trigger_ns = elapsed_ns as u128 + self.plan.trigger_interval_secs as u128
                * 1_000_000_000;
        }
        let limit: u128 = (self.plan.duration_secs + 10) as u128 * 1_000_000_000;
        Look { trigger: due, give_up: elapsed_ns as u128 >= limit }
    }
}

/// The arguments with which ffmpeg captures the desktop for so long and throws the result away.
pub open spec fn capture_args(duration_secs: nat) -> Seq<Seq<char>> {
    seq![
        "-hide_banner"@,
        "-f"@,
        "lavfi"@,
        "-i"@,
        "ddagrab"@,
        "-t"@,
        decimal(duration_secs),
        "-f"@,
        "null"@,
        "-"@,
    ]
}

/// Gives the arguments of ffmpeg.
pub fn ffmpeg_args(duration_secs: u64) -> (args: Vec<String>)
    ensures
        texts(args@) == capture_args(duration_secs as nat),
{
    let mut args: Vec<String> = Vec::new();
    args.push("-hide_banner".to_owned());
    args.push("-f".to_owned());
    args.push("lavfi".to_owned());
    args.push("-i".to_owned());
    args.push("ddagrab".to_owned());
    args.push("-t".to_owned());
    args.push(to_decimal(duration_secs as u128));
    args.push("-f".to_owned());
    args.push("null".to_owned());
    args.push("-".to_owned());
    assert(texts(args@) =~= capture_args(duration_secs as nat));
    args
}

/// Tells whether `ShellExecuteW` has failed, from what it returned.
pub fn shell_execute_failed(code: i64) -> (failed: bool)
    ensures
        failed == (code <= 32),
{
    code <= 32
}

/// A switch is never triggered too early: not before the first one is planned, and not sooner
/// after another than planned.
pub proof fn law_triggers_are_spaced(run: Run, first_ns: u64, second_ns: u64)
    requires
        run.looked(first_ns).1.trigger,
        run.looked(first_ns).0.looked(second_ns).1.trigger,
    ensures
        first_ns >= run.next_trigger_ns,
        second_ns >= first_ns + run.plan.trigger_interval_secs * 1_000_000_000,
{
}

/// Once all the switches are triggered, there is no other.
pub proof fn law_triggers_are_counted(run: Run, elapsed_ns: u64)
    requires
        run.triggered >= run.plan.trigger_count,
    ensures
        !run.looked(elapsed_ns).1.trigger,
        run.looked(elapsed_ns).0 == run,
{
}

/// A run starts with no switch triggered, and its first one is due after the planned time.
pub proof fn law_first_switch_is_planned(plan: RunPlan, run: Run)
    requires
        call_ensures(Run::new, (plan,), run),
    ensures
        run.plan == plan,
        run.triggered == 0,
        run.next_trigger_ns == plan.trigger_after_secs * 1_000_000_000,
{
}

/// A look triggers a switch exactly where one is left and due; it is counted, and the next one is
/// due the planned interval after this look. Ffmpeg is given up ten seconds after it should have
/// ended, and not before.
pub proof fn law_due_switch_is_triggered(run: &mut Run, elapsed_ns: u64, look: Look)
    requires
        old(run).plan.duration_secs + 10 <= u64::MAX,
        call_ensures(Run::look, (run, elapsed_ns), look),
    ensures
        look.trigger <==> old(run).triggered < old(run).plan.trigger_count && elapsed_ns >= old(
            run,
        ).next_trigger_ns,
        look.trigger ==> final(run).triggered == old(run).triggered + 1
            && final(run).next_trigger_ns == elapsed_ns + old(run).plan.trigger_interval_secs
            * 1_000_000_000,
        !look.trigger ==> *final(run) == *old(run),
        final(run).plan == old(run).plan,
        look.give_up <==> elapsed_ns >= (old(run).plan.duration_secs + 10) * 1_000_000_000,
{
    let interval = old(run).plan.trigger_interval_secs;
    assert(interval * 1_000_000_000 <= u64::MAX * 1_000_000_000);
}

/// The command line of ffmpeg: its only input is the captured desktop, for the planned time, and
/// its output goes nowhere.
pub proof fn law_ffmpeg_captures_the_desktop(duration_secs: u64, args: Vec<String>, time: String)
    requires
        call_ensures(ffmpeg_args, (duration_secs,), args),
        call_ensures(to_decimal, (duration_secs as u128,), time),
    ensures
        args@.len() == 10,
        args@[0]@ == "-hide_banner"@,
        args@[1]@ == "-f"@ && args@[2]@ == "lavfi"@,
        args@[3]@ == "-i"@ && args@[4]@ == "ddagrab"@,
        args@[5]@ == "-t"@ && args@[6]@ == time@,
        args@[7]@ == "-f"@ && args@[8]@ == "null"@,
        args@[9]@ == "-"@,
{
    let wanted = capture_args(duration_secs as nat);
    assert(texts(args@).len() == wanted.len());
    assert(forall|i: int| 0 <= i < 10 ==> #[trigger] args@[i]@ == wanted[i]) by {
        assert forall|i: int| 0 <= i < 10 implies #[trigger] args@[i]@ == wanted[i] by {
            assert(texts(args@)[i] == wanted[i]);
        }
    }
}

/// `ShellExecuteW` has failed where it returns no more than 32.
pub proof fn law_shell_execute_codes(code: i64, failed: bool)
    requires
        call_ensures(shell_execute_failed, (code,), failed),
    ensures
        failed <==> code < 33,
{
}

} // verus!
