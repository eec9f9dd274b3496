//! The duplication probe: its command line and its loop, which asks for frames and reacts to a
//! lost instance by one of several strategies.
use vstd::prelude::*;

use crate::clock::{elapsed, since};
use crate::desktop::{is_secure, is_secure_name, DesktopWatch};
use crate::dxgi::{ACCESS_DENIED, ACCESS_LOST, WAIT_TIMEOUT};
use crate::text::{
    decimal, law_number_of_decimal, number_value, parse_number, same_text, texts,
};

verus! {

/// What to do about a lost instance.
#[derive(Debug, Clone, Copy, PartialEq, Eq, Structural)]
pub enum Strategy {
    /// Nothing: go on asking the dead instance.
    DoNothing,
    /// Attach the thread to the input desktop again.
    Reattach,
    /// Attach, then duplicate the same output on the same device again.
    Reduplicate,
    /// Attach, then build everything anew, from the device on.
    FullRebuild,
}

impl Strategy {
    /// The name of a strategy on the command line.
    pub open spec fn name(self) -> Seq<char> {
        match self {
            Strategy::DoNothing => "none"@,
            Strategy::Reattach => "reattach"@,
            Strategy::Reduplicate => "reduplicate"@,
            Strategy::FullRebuild => "full-rebuild"@,
        }
    }

    /// The strategy with a name.
    pub open spec fn named(s: Seq<char>) -> Option<Strategy> {
        if s == Strategy::DoNothing.name() {
            Some(Strategy::DoNothing)
        } else if s == Strategy::Reattach.name() {
            Some(Strategy::Reattach)
        } else if s == Strategy::Reduplicate.name() {
            Some(Strategy::Reduplicate)
        } else if s == Strategy::FullRebuild.name() {
            Some(Strategy::FullRebuild)
        } else {
            None
        }
    }

    /// Finds the strategy with a name.
    pub fn parse(s: &str) -> (found: Option<Strategy>)
        ensures
            found == Strategy::named(s@),
    {
        if same_text(s, "none") {
            Some(Strategy::DoNothing)
        } else if same_text(s, "reattach") {
            Some(Strategy::Reattach)
        } else if same_text(s, "reduplicate") {
            Some(Strategy::Reduplicate)
        } else if same_text(s, "full-rebuild") {
            Some(Strategy::FullRebuild)
        } else {
            None
        }
    }
}

/// Every strategy is found by its name.
pub proof fn law_strategy_is_found_by_name(strategy: Strategy)
    ensures
        Strategy::named(strategy.name()) == Some(strategy),
{
    reveal_strlit("none");
    reveal_strlit("reattach");
    reveal_strlit("reduplicate");
    reveal_strlit("full-rebuild");
    assert("none"@.len() == 4);
    assert("reattach"@.len() == 8);
    assert("reduplicate"@.len() == 11);
    assert("full-rebuild"@.len() == 12);
}

/// What the probe was asked to do.
#[derive(Debug, Clone, Copy, PartialEq, Eq, Structural)]
pub struct ProbeArgs {
    pub strategy: Strategy,
    pub seconds: u64,
    pub skip_rebuild_while_secure: bool,
}

/// Something on the command line that was passed over.
#[derive(Debug)]
pub enum Remark {
    /// A strategy that does not exist; the full rebuild is taken.
    UnknownStrategy(String),
    /// An argument that means nothing.
    UnknownArgument(String),
}

/// A remark by its characters.
pub ghost enum RemarkView {
    UnknownStrategy(Seq<char>),
    UnknownArgument(Seq<char>),
}

impl Remark {
    pub open spec fn view(self) -> RemarkView {
        match self {
            Remark::UnknownStrategy(s) => RemarkView::UnknownStrategy(s@),
            Remark::UnknownArgument(s) => RemarkView::UnknownArgument(s@),
        }
    }
}

/// Remarks by their characters.
pub open spec fn remark_views(remarks: Seq<Remark>) -> Seq<RemarkView> {
    Seq::new(remarks.len(), |i: int| remarks[i].view())
}

impl ProbeArgs {
    /// What holds where nothing is said: a full rebuild, half a minute, and no rebuild while the
    /// desktop is secure.
    pub open spec fn standard() -> ProbeArgs {
        ProbeArgs { strategy: Strategy::FullRebuild, seconds: 30, skip_rebuild_while_secure: true }
    }

    /// The arguments after the rest of the command line, and the remarks on it. An option without
    /// its value at the end is passed over; a value that means nothing gives the standard one.
    pub open spec fn after(self, args: Seq<Seq<char>>) -> (ProbeArgs, Seq<RemarkView>)
        decreases args.len(),
    {
        if args.len() == 0 {
            (self, Seq::empty())
        } else if args[0] == "--strategy"@ && args.len() > 1 {
            match Strategy::named(args[1]) {
                Some(strategy) => ProbeArgs { strategy, ..self }.after(args.skip(2)),
                None => {
                    let (end, remarks) = ProbeArgs {
                        strategy: Strategy::FullRebuild,
                        ..self
                    }.after(args.skip(2));
                    (end, seq![RemarkView::UnknownStrategy(args[1])] + remarks)
                },
            }
        } else if args[0] == "--seconds"@ && args.len() > 1 {
            let seconds = match number_value(args[1], u64::MAX as nat) {
                Ok(n) => n as u64,
                Err(_) => 30,
            };
            ProbeArgs { seconds, ..self }.after(args.skip(2))
        } else if args[0] == "--strategy"@ || args[0] == "--seconds"@ {
            self.after(args.skip(1))
        } else if args[0] == "--allow-rebuild-while-secure"@ {
            ProbeArgs { skip_rebuild_while_secure: false, ..self }.after(args.skip(1))
        } else {
            let (end, remarks) = self.after(args.skip(1));
            (end, seq![RemarkView::UnknownArgument(args[0])] + remarks)
        }
    }
}

/// Reads the command line, without the name of the program.
pub fn parse_args(args: &Vec<String>) -> (parsed: (ProbeArgs, Vec<Remark>))
    ensures
        (parsed.0, remark_views(parsed.1@)) == ProbeArgs::standard().after(texts(args@)),
{
    let ghost all = texts(args@);
    let mut out = ProbeArgs {
        strategy: Strategy::FullRebuild,
        seconds: 30,
        skip_rebuild_while_secure: true,
    };
    let mut remarks: Vec<Remark> = Vec::new();
    let mut i: usize = 0;
    let n: usize = args.len();
    assert(all.skip(0) =~= all);
    assert(remark_views(remarks@) + out.after(all).1 =~= out.after(all).1);
    while i < n
        invariant
            i <= n,
            n == args@.len(),
            all == texts(args@),
            ProbeArgs::standard().after(all) == (
                out.after(all.skip(i as int)).0,
                remark_views(remarks@) + out.after(all.skip(i as int)).1,
            ),
        decreases n - i,
    {
        let ghost rest = all.skip(i as int);
        let ghost noted = remarks@;
        let ghost end = out.after(rest);
        assert(rest[0] == args@[i as int]@);
        assert(rest.skip(1) =~= all.skip(i + 1));
        if n - i > 1 {
            assert(rest[1] == args@[i + 1]@);
            assert(rest.skip(2) =~= all.skip(i + 2));
        }
        let arg = args[i].as_str();
        let is_strategy = same_text(arg, "--strategy");
        let is_seconds = same_text(arg, "--seconds");
        if is_strategy && n - i > 1 {
            let value = args[i + 1].as_str();
            match Strategy::parse(value) {
                Some(strategy) => {
                    out.strategy = strategy;
                },
                None => {
                    out.strategy = Strategy::FullRebuild;
                    remarks.push(Remark::UnknownStrategy(value.to_owned()));
                },
            }
            i += 2;
        } else if is_seconds && n - i > 1 {
            out.seconds = match parse_number(args[i + 1].as_str(), u64::MAX) {
                Ok(seconds) => seconds,
                Err(_) => 30,
            };
            i += 2;
        } else if is_strategy || is_seconds {
            i += 1;
        } else if same_text(arg, "--allow-rebuild-while-secure") {
            out.skip_rebuild_while_secure = false;
            i += 1;
        } else {
            remarks.push(Remark::UnknownArgument(arg.to_owned()));
            i += 1;
        }
        assert(remark_views(remarks@) + out.after(all.skip(i as int)).1 =~= remark_views(noted)
            + end.1);
    }
    assert(all.skip(i as int) =~= Seq::empty());
    assert(remark_views(remarks@) + Seq::empty() =~= remark_views(remarks@));
    (out, remarks)
}

/// What the probe has to do next.
#[derive(Debug, Clone, Copy, PartialEq, Eq, Structural)]
pub enum ProbeStep {
    /// Release the frame.
    Release,
    /// Nothing this time.
    Idle,
    /// Report the failure, and nothing else.
    ReportLoss,
    /// Report the failure, attach the thread to the input desktop, and hand over its name.
    Attach,
    /// Report that a rebuild was skipped because the desktop is secure.
    SkipSecure,
    /// Duplicate the same output on the same device again.
    Reduplicate,
    /// Build everything anew.
    Rebuild,
    /// Report a failure that has nothing to do with the desktop.
    ReportUnexpected,
}

/// The state of the probe.
#[derive(Debug)]
pub struct Probe {
    pub args: ProbeArgs,
    pub frame_count: u64,
    pub fail_count: u64,
    pub desktop: DesktopWatch,
    /// When the last report was made, in nanoseconds since the start.
    pub last_report_ns: u64,
}

/// How long the probe goes without a report.
pub const REPORT_INTERVAL_NS: u64 = 2_000_000_000;

/// How long one call of `AcquireNextFrame` may wait for a frame, in milliseconds.
pub const ACQUIRE_TIMEOUT_MS: u32 = 200;

/// How long the probe rests between two calls, in milliseconds.
pub const REST_MS: u64 = 16;

impl Probe {
    /// A probe that is about to start, on this desktop.
    pub fn new(args: ProbeArgs, desktop: String) -> (probe: Probe)
        ensures
            probe.args == args,
            probe.frame_count == 0,
            probe.fail_count == 0,
            probe.desktop.last@ == desktop@,
            probe.last_report_ns == 0,
    {
        Probe {
            args,
            frame_count: 0,
            fail_count: 0,
            desktop: DesktopWatch { last: desktop },
            last_report_ns: 0,
        }
    }

    /// Tells whether the probe has time left.
    pub fn goes_on(&self, elapsed_ns: u128) -> (more: bool)
        ensures
            more == (elapsed_ns < self.args.seconds * 1_000_000_000),
    {
        elapsed_ns < self.args.seconds as u128 * 1_000_000_000
    }

    /// The probe after asking for a frame, and what follows.
    pub open spec fn asked(self, outcome: Result<(), i32>) -> (Probe, ProbeStep) {
        match outcome {
            Ok(_) => (
                Probe { frame_count: (self.frame_count + 1) as u64, ..self },
                ProbeStep::Release,
            ),
            Err(code) => if code == WAIT_TIMEOUT {
                (self, ProbeStep::Idle)
            } else if code == ACCESS_LOST || code == ACCESS_DENIED {
                (
                    Probe { fail_count: (self.fail_count + 1) as u64, ..self },
                    if self.args.strategy is DoNothing {
                        ProbeStep::ReportLoss
                    } else {
                        ProbeStep::Attach
                    },
                )
            } else {
                (self, ProbeStep::ReportUnexpected)
            },
        }
    }

    /// Takes the outcome of asking for a frame.
    pub fn acquired(&mut self, outcome: Result<(), i32>) -> (step: ProbeStep)
        requires
            old(self).frame_count < u64::MAX,
            old(self).fail_count < u64::MAX,
        ensures
            (*final(self), step) == old(self).asked(outcome),
    {
        match outcome {
            Ok(_) => {
                self.frame_count = self.frame_count + 1;
                ProbeStep::Release
            },
            Err(code) => {
                if code == WAIT_TIMEOUT {
                    ProbeStep::Idle
                } else if code == ACCESS_LOST || code == ACCESS_DENIED {
                    self.fail_count = self.fail_count + 1;
                    match self.args.strategy {
                        Strategy::DoNothing => ProbeStep::ReportLoss,
                        _ => ProbeStep::Attach,
                    }
                } else {
                    ProbeStep::ReportUnexpected
                }
            },
        }
    }

    /// What follows an attachment to the desktop `name`; an attachment that failed counts as one
    /// to a desktop without a name.
    pub open spec fn reaction(self, name: Option<Seq<char>>) -> ProbeStep {
        let secure = is_secure_name(
            match name {
                Some(name) => name,
                None => Seq::empty(),
            },
        );
        match self.args.strategy {
            Strategy::DoNothing => ProbeStep::Idle,
            Strategy::Reattach => ProbeStep::Idle,
            Strategy::Reduplicate => if self.args.skip_rebuild_while_secure && secure {
                ProbeStep::SkipSecure
            } else {
                ProbeStep::Reduplicate
            },
            Strategy::FullRebuild => if self.args.skip_rebuild_while_secure && secure {
                ProbeStep::SkipSecure
            } else {
                ProbeStep::Rebuild
            },
        }
    }

    /// Takes the outcome of attaching to the input desktop. Only a probe that does no more than
    /// that watches the desktop; tells whether it has changed.
    pub fn attached(&mut self, name: Option<String>) -> (step: (ProbeStep, bool))
        ensures
            ({
                let seen = match name {
                    Some(name) => Some(name@),
                    None => None,
                };
                &&& step.0 == old(self).reaction(seen)
                &&& (final(self).desktop.last@, step.1) == if old(self).args.strategy is Reattach {
                    DesktopWatch::seen(old(self).desktop.last@, seen)
                } else {
                    (old(self).desktop.last@, false)
                }
                &&& final(self).args == old(self).args
                &&& final(self).frame_count == old(self).frame_count
                &&& final(self).fail_count == old(self).fail_count
                &&& final(self).last_report_ns == old(self).last_report_ns
            }),
    {
        let secure = match &name {
            Some(name) => is_secure(name.as_str()),
            None => {
                let nameless = String::new();
                is_secure(nameless.as_str())
            },
        };
        let skip = self.args.skip_rebuild_while_secure && secure;
        match self.args.strategy {
            Strategy::DoNothing => (ProbeStep::Idle, false),
            Strategy::Reattach => {
                let changed = self.desktop.look(name);
                (ProbeStep::Idle, changed)
            },
            Strategy::Reduplicate => (
                if skip {
                    ProbeStep::SkipSecure
                } else {
                    ProbeStep::Reduplicate
                },
                false,
            ),
            Strategy::FullRebuild => (
                if skip {
                    ProbeStep::SkipSecure
                } else {
                    ProbeStep::Rebuild
                },
                false,
            ),
        }
    }

    /// Tells whether a report is due at the time `now_ns`; the time of the next is then counted
    /// from `restart_ns`.
    pub fn report_due(&mut self, now_ns: u64, restart_ns: u64) -> (due: bool)
        ensures
            due == (since(now_ns, old(self).last_report_ns) >= REPORT_INTERVAL_NS),
            *final(self) == (Probe {
                last_report_ns: if due {
                    restart_ns
                } else {
                    old(self).last_report_ns
                },
                ..*old(self)
            }),
    {
        if elapsed(now_ns, self.last_report_ns) >= REPORT_INTERVAL_NS {
            self.last_report_ns = restart_ns;
            true
        } else {
            false
        }
    }
}

/// The probe that does nothing never replaces or attaches anything, whatever happens.
pub proof fn law_none_does_nothing(p: Probe, outcome: Result<(), i32>)
    requires
        p.args.strategy is DoNothing,
    ensures
        p.asked(outcome).1 !is Attach,
        p.asked(outcome).1 !is Reduplicate,
        p.asked(outcome).1 !is Rebuild,
{
}

/// While the desktop is secure nothing is duplicated or rebuilt, unless that was allowed.
pub proof fn law_secure_desktop_is_left_alone(p: Probe, name: Seq<char>)
    requires
        p.args.skip_rebuild_while_secure,
        is_secure_name(name),
    ensures
        p.reaction(Some(name)) !is Reduplicate,
        p.reaction(Some(name)) !is Rebuild,
{
}

/// The four strategies and their names; no other text names one.
pub proof fn law_names_of_the_strategies(s: &str, found: Option<Strategy>)
    requires
        call_ensures(Strategy::parse, (s,), found),
    ensures
        s@ == "none"@ <==> found == Some(Strategy::DoNothing),
        s@ == "reattach"@ <==> found == Some(Strategy::Reattach),
        s@ == "reduplicate"@ <==> found == Some(Strategy::Reduplicate),
        s@ == "full-rebuild"@ <==> found == Some(Strategy::FullRebuild),
        s@ != "none"@ && s@ != "reattach"@ && s@ != "reduplicate"@ && s@ != "full-rebuild"@ <==> (
        found is None),
{
    lemma_strategy_names();
}

proof fn lemma_strategy_names()
    ensures
        "none"@.len() == 4,
        "reattach"@.len() == 8,
        "reduplicate"@.len() == 11,
        "full-rebuild"@.len() == 12,
{
    reveal_strlit("none");
    reveal_strlit("reattach");
    reveal_strlit("reduplicate");
    reveal_strlit("full-rebuild");
}

proof fn lemma_option_names()
    ensures
        "--strategy"@ != "--seconds"@,
        "--strategy"@ != "--allow-rebuild-while-secure"@,
        "--seconds"@ != "--allow-rebuild-while-secure"@,
{
    reveal_strlit("--strategy");
    reveal_strlit("--seconds");
    reveal_strlit("--allow-rebuild-while-secure");
    assert("--strategy"@.len() == 10);
    assert("--seconds"@.len() == 9);
    assert("--allow-rebuild-while-secure"@.len() == 28);
}

/// Each option sets its own field and leaves the others; reading then goes on behind it.
pub proof fn law_each_option_sets_its_field(args: ProbeArgs, n: u64, rest: Seq<Seq<char>>)
    ensures
        args.after(seq!["--strategy"@, "none"@] + rest) == (ProbeArgs {
            strategy: Strategy::DoNothing,
            ..args
        }).after(rest),
        args.after(seq!["--strategy"@, "reattach"@] + rest) == (ProbeArgs {
            strategy: Strategy::Reattach,
            ..args
        }).after(rest),
        args.after(seq!["--strategy"@, "reduplicate"@] + rest) == (ProbeArgs {
            strategy: Strategy::Reduplicate,
            ..args
        }).after(rest),
        args.after(seq!["--strategy"@, "full-rebuild"@] + rest) == (ProbeArgs {
            strategy: Strategy::FullRebuild,
            ..args
        }).after(rest),
        args.after(seq!["--seconds"@, decimal(n as nat)] + rest) == (ProbeArgs {
            seconds: n,
            ..args
        }).after(rest),
        args.after(seq!["--allow-rebuild-while-secure"@] + rest) == (ProbeArgs {
            skip_rebuild_while_secure: false,
            ..args
        }).after(rest),
{
    lemma_strategy_names();
    lemma_option_names();
    law_number_of_decimal(n as nat, u64::MAX as nat);
    assert((seq!["--strategy"@, "none"@] + rest).skip(2) =~= rest);
    assert((seq!["--strategy"@, "reattach"@] + rest).skip(2) =~= rest);
    assert((seq!["--strategy"@, "reduplicate"@] + rest).skip(2) =~= rest);
    assert((seq!["--strategy"@, "full-rebuild"@] + rest).skip(2) =~= rest);
    assert((seq!["--seconds"@, decimal(n as nat)] + rest).skip(2) =~= rest);
    assert((seq!["--allow-rebuild-while-secure"@] + rest).skip(1) =~= rest);
}

/// What is not understood is passed over: an unknown strategy means a full rebuild and is remarked
/// on, as is an unknown argument; a time that is no number means half a minute; an option without
/// its value changes nothing.
pub proof fn law_what_is_not_understood(args: ProbeArgs, text: Seq<char>, rest: Seq<Seq<char>>)
    ensures
        text != "none"@ && text != "reattach"@ && text != "reduplicate"@ && text
            != "full-rebuild"@ ==> {
            let read = (ProbeArgs { strategy: Strategy::FullRebuild, ..args }).after(rest);
            args.after(seq!["--strategy"@, text] + rest) == (
                read.0,
                seq![RemarkView::UnknownStrategy(text)] + read.1,
            )
        },
        number_value(text, u64::MAX as nat) is Err ==> args.after(seq!["--seconds"@, text] + rest)
            == (ProbeArgs { seconds: 30, ..args }).after(rest),
        text != "--strategy"@ && text != "--seconds"@ && text != "--allow-rebuild-while-secure"@
            ==> args.after(seq![text] + rest) == (
            args.after(rest).0,
            seq![RemarkView::UnknownArgument(text)] + args.after(rest).1,
        ),
        args.after(seq!["--strategy"@]) == (args, Seq::<RemarkView>::empty()),
        args.after(seq!["--seconds"@]) == (args, Seq::<RemarkView>::empty()),
        args.after(Seq::empty()) == (args, Seq::<RemarkView>::empty()),
{
    lemma_strategy_names();
    lemma_option_names();
    reveal_with_fuel(ProbeArgs::after, 2);
    assert((seq!["--strategy"@, text] + rest).skip(2) =~= rest);
    assert((seq!["--seconds"@, text] + rest).skip(2) =~= rest);
    assert((seq![text] + rest).skip(1) =~= rest);
    assert(seq!["--strategy"@].skip(1) =~= Seq::empty());
    assert(seq!["--seconds"@].skip(1) =~= Seq::empty());
}

/// The command line is read from the standard: a full rebuild, half a minute, and no rebuild while
/// the desktop is secure.
pub proof fn law_arguments_start_from_the_standard(
    args: &Vec<String>,
    parsed: (ProbeArgs, Vec<Remark>),
    read: (ProbeArgs, Seq<RemarkView>),
)
    requires
        call_ensures(parse_args, (args,), parsed),
        (ProbeArgs {
            strategy: Strategy::FullRebuild,
            seconds: 30,
            skip_rebuild_while_secure: true,
        }).after(texts(args@)) == read,
    ensures
        parsed.0 == read.0,
        parsed.1@.len() == read.1.len(),
        forall|i: int|
            0 <= i < read.1.len() ==> (match #[trigger] parsed.1@[i] {
                Remark::UnknownStrategy(s) => read.1[i] == RemarkView::UnknownStrategy(s@),
                Remark::UnknownArgument(s) => read.1[i] == RemarkView::UnknownArgument(s@),
            }),
{
    assert(remark_views(parsed.1@) == read.1);
    assert(remark_views(parsed.1@).len() == parsed.1@.len());
    assert forall|i: int| 0 <= i < read.1.len() implies (match #[trigger] parsed.1@[i] {
        Remark::UnknownStrategy(s) => read.1[i] == RemarkView::UnknownStrategy(s@),
        Remark::UnknownArgument(s) => read.1[i] == RemarkView::UnknownArgument(s@),
    }) by {
        assert(remark_views(parsed.1@)[i] == parsed.1@[i].view());
    }
}

/// A probe starts with nothing counted and runs for its seconds.
pub proof fn law_probe_runs_for_its_seconds(
    args: ProbeArgs,
    desktop: String,
    probe: Probe,
    elapsed_ns: u128,
    more: bool,
)
    requires
        call_ensures(Probe::new, (args, desktop), probe),
        call_ensures(Probe::goes_on, (&probe, elapsed_ns), more),
    ensures
        probe.args == args,
        probe.frame_count == 0 && probe.fail_count == 0 && probe.last_report_ns == 0,
        probe.desktop.last@ == desktop@,
        more <==> elapsed_ns < args.seconds * 1_000_000_000,
{
}

/// A frame is counted and released, a loss or a denial of access is counted as a failure and met
/// by the strategy, a time-out is nothing, and any other code is only reported.
pub proof fn law_answers_are_counted(probe: &mut Probe, outcome: Result<(), i32>, step: ProbeStep)
    requires
        old(probe).frame_count < u64::MAX,
        old(probe).fail_count < u64::MAX,
        call_ensures(Probe::acquired, (probe, outcome), step),
    ensures
        outcome is Ok ==> step == ProbeStep::Release,
        final(probe).frame_count - old(probe).frame_count == (if outcome is Ok {
            1int
        } else {
            0
        }),
        outcome matches Err(code) ==> {
            let unsigned = code + 0x1_0000_0000;
            let lost = unsigned == 0x887a_0026 || unsigned == 0x887a_002b;
            &&& unsigned == 0x887a_0027 ==> step == ProbeStep::Idle
            &&& lost ==> step == (if old(probe).args.strategy == Strategy::DoNothing {
                ProbeStep::ReportLoss
            } else {
                ProbeStep::Attach
            })
            &&& unsigned != 0x887a_0027 && !lost ==> step == ProbeStep::ReportUnexpected
            &&& final(probe).fail_count - old(probe).fail_count == (if lost {
                1int
            } else {
                0
            })
        },
        outcome is Ok ==> final(probe).fail_count == old(probe).fail_count,
        final(probe).args == old(probe).args,
        final(probe).desktop == old(probe).desktop,
        final(probe).last_report_ns == old(probe).last_report_ns,
{
}

/// After an attachment the strategy decides: the ones that replace something do so unless the
/// desktop is secure and that was not allowed, and a desktop that could not be attached to is not
/// secure. Only the strategy that just attaches watches for a change of the desktop.
pub proof fn law_strategy_decides(
    probe: &mut Probe,
    name: Option<String>,
    step: (ProbeStep, bool),
    text: &str,
    secure: bool,
)
    requires
        call_ensures(Probe::attached, (probe, name), step),
        name matches Some(seen) && seen@ == text@ || name is None && text@ == Seq::<char>::empty(),
        call_ensures(is_secure, (text,), secure),
    ensures
        ({
            let strategy = old(probe).args.strategy;
            let skip = old(probe).args.skip_rebuild_while_secure && secure;
            &&& strategy is DoNothing || strategy is Reattach ==> step.0 == ProbeStep::Idle
            &&& (strategy is Reduplicate || strategy is FullRebuild) && skip ==> step.0
                == ProbeStep::SkipSecure
            &&& strategy is Reduplicate && !skip ==> step.0 == ProbeStep::Reduplicate
            &&& strategy is FullRebuild && !skip ==> step.0 == ProbeStep::Rebuild
            &&& strategy is Reattach && name is Some ==> final(probe).desktop.last@ == text@ && (
            step.1 <==> text@ != old(probe).desktop.last@)
            &&& strategy !is Reattach || name is None ==> !step.1 && final(probe).desktop.last@
                == old(probe).desktop.last@
        }),
        name is None ==> !secure,
        final(probe).args == old(probe).args,
        final(probe).frame_count == old(probe).frame_count,
        final(probe).fail_count == old(probe).fail_count,
        final(probe).last_report_ns == old(probe).last_report_ns,
{
    reveal_strlit("Winlogon");
    reveal_strlit("Screen-saver");
}

/// A report is due two seconds after the last one; the next two seconds then start anew.
pub proof fn law_report_every_two_seconds(
    probe: &mut Probe,
    now_ns: u64,
    restart_ns: u64,
    due: bool,
)
    requires
        call_ensures(Probe::report_due, (probe, now_ns, restart_ns), due),
    ensures
        due <==> now_ns - old(probe).last_report_ns >= 2_000_000_000,
        due ==> final(probe).last_report_ns == restart_ns,
        !due ==> final(probe).last_report_ns == old(probe).last_report_ns,
        final(probe).args == old(probe).args,
        final(probe).frame_count == old(probe).frame_count,
        final(probe).fail_count == old(probe).fail_count,
        final(probe).desktop == old(probe).desktop,
{
}

} // verus!
