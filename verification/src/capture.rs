//! The capture helper: its command line, the choice of a display, and its loop.
//!
//! The loop is a dialogue. Each outcome of a call on the system goes to the method for it, which
//! says what to do next. Times are nanoseconds since the loop started.
use vstd::prelude::*;

use crate::clock::{elapsed, since};
use crate::cursor::{cursor_drawn, draw_cursor_bgra, CursorSighting, CursorState};
use crate::desktop::DesktopWatch;
use crate::i420::{bgra_to_i420, i420};
use crate::text::{
    contains, decimal, law_number_of_decimal, number_value, parse_number, same_text, texts,
    NumberError,
};

verus! {

/// What the capture helper was asked to do.
#[derive(Debug)]
pub struct Args {
    pub display_index: usize,
    pub width: u32,
    pub height: u32,
    pub fps: u32,
    pub ffmpeg_path: String,
    pub ffmpeg_args: Vec<String>,
}

/// A command line that is not read to the end yet.
pub ghost struct Draft {
    pub display_index: Option<nat>,
    pub width: Option<nat>,
    pub height: Option<nat>,
    pub fps: Option<nat>,
    pub ffmpeg_path: Option<Seq<char>>,
    pub ffmpeg_args: Seq<Seq<char>>,
}

/// An option of the command line.
#[derive(Debug, Clone, Copy, PartialEq, Eq, Structural)]
pub enum Opt {
    DisplayIndex,
    Width,
    Height,
    Fps,
    FfmpegPath,
    FfmpegArg,
}

/// The option that an argument names.
pub open spec fn option_named(arg: Seq<char>) -> Option<Opt> {
    if arg == "--display-index"@ {
        Some(Opt::DisplayIndex)
    } else if arg == "--width"@ {
        Some(Opt::Width)
    } else if arg == "--height"@ {
        Some(Opt::Height)
    } else if arg == "--fps"@ {
        Some(Opt::Fps)
    } else if arg == "--ffmpeg-path"@ {
        Some(Opt::FfmpegPath)
    } else if arg == "--ffmpeg-arg"@ {
        Some(Opt::FfmpegArg)
    } else {
        None
    }
}

fn find_option(arg: &str) -> (found: Option<Opt>)
    ensures
        found == option_named(arg@),
{
    if same_text(arg, "--display-index") {
        Some(Opt::DisplayIndex)
    } else if same_text(arg, "--width") {
        Some(Opt::Width)
    } else if same_text(arg, "--height") {
        Some(Opt::Height)
    } else if same_text(arg, "--fps") {
        Some(Opt::Fps)
    } else if same_text(arg, "--ffmpeg-path") {
        Some(Opt::FfmpegPath)
    } else if same_text(arg, "--ffmpeg-arg") {
        Some(Opt::FfmpegArg)
    } else {
        None
    }
}

/// The number that a value spells, or the words for what is wrong with it.
pub open spec fn number(value: Seq<char>, max: nat) -> Result<nat, Seq<char>> {
    match number_value(value, max) {
        Ok(n) => Ok(n),
        Err(e) => Err(e.words()),
    }
}

impl Draft {
    /// Nothing is known yet.
    pub open spec fn empty() -> Draft {
        Draft {
            display_index: None,
            width: None,
            height: None,
            fps: None,
            ffmpeg_path: None,
            ffmpeg_args: Seq::empty(),
        }
    }

    /// With one more option and its value; a later value of the same option counts, but for the
    /// arguments of ffmpeg, which add up.
    pub open spec fn with(self, opt: Opt, value: Seq<char>) -> Result<Draft, Seq<char>> {
        match opt {
            Opt::DisplayIndex => match number(value, usize::MAX as nat) {
                Ok(n) => Ok(Draft { display_index: Some(n), ..self }),
                Err(words) => Err(words),
            },
            Opt::Width => match number(value, u32::MAX as nat) {
                Ok(n) => Ok(Draft { width: Some(n), ..self }),
                Err(words) => Err(words),
            },
            Opt::Height => match number(value, u32::MAX as nat) {
                Ok(n) => Ok(Draft { height: Some(n), ..self }),
                Err(words) => Err(words),
            },
            Opt::Fps => match number(value, u32::MAX as nat) {
                Ok(n) => Ok(Draft { fps: Some(n), ..self }),
                Err(words) => Err(words),
            },
            Opt::FfmpegPath => Ok(Draft { ffmpeg_path: Some(value), ..self }),
            Opt::FfmpegArg => Ok(Draft { ffmpeg_args: self.ffmpeg_args.push(value), ..self }),
        }
    }

    /// After the rest of the command line, or the words for the first thing wrong with it.
    pub open spec fn after(self, args: Seq<Seq<char>>) -> Result<Draft, Seq<char>>
        decreases args.len(),
    {
        if args.len() == 0 {
            Ok(self)
        } else {
            match option_named(args[0]) {
                None => Err("unknown argument: "@ + args[0]),
                Some(opt) => if args.len() == 1 {
                    Err("missing value for "@ + args[0])
                } else {
                    match self.with(opt, args[1]) {
                        Err(words) => Err(words),
                        Ok(next) => next.after(args.skip(2)),
                    }
                },
            }
        }
    }

    /// The first option that is required and missing.
    pub open spec fn missing(self) -> Option<Seq<char>> {
        if self.display_index is None {
            Some("--display-index is required"@)
        } else if self.width is None {
            Some("--width is required"@)
        } else if self.height is None {
            Some("--height is required"@)
        } else if self.fps is None {
            Some("--fps is required"@)
        } else if self.ffmpeg_path is None {
            Some("--ffmpeg-path is required"@)
        } else {
            None
        }
    }
}

impl Args {
    /// Whether these are the arguments of a draft.
    pub open spec fn are(self, draft: Draft) -> bool {
        &&& draft.display_index == Some(self.display_index as nat)
        &&& draft.width == Some(self.width as nat)
        &&& draft.height == Some(self.height as nat)
        &&& draft.fps == Some(self.fps as nat)
        &&& draft.ffmpeg_path == Some(self.ffmpeg_path@)
        &&& draft.ffmpeg_args == texts(self.ffmpeg_args@)
    }
}

/// What a command line amounts to: a complete draft, or the words for what is wrong with it.
pub open spec fn command_line(args: Seq<Seq<char>>) -> Result<Draft, Seq<char>> {
    match Draft::empty().after(args) {
        Err(words) => Err(words),
        Ok(draft) => match draft.missing() {
            Some(words) => Err(words),
            None => Ok(draft),
        },
    }
}

fn parse_value(value: &str, max: u64) -> (res: Result<u64, String>)
    ensures
        match number(value@, max as nat) {
            Ok(n) => res == Ok::<u64, String>(n as u64) && n <= max,
            Err(words) => res matches Err(text) && text@ == words,
        },
{
    match parse_number(value, max) {
        Ok(n) => Ok(n),
        Err(e) => Err(e.message()),
    }
}

/// Reads the command line, without the name of the program.
pub fn parse_args(args: &Vec<String>) -> (res: Result<Args, String>)
    ensures
        match (res, command_line(texts(args@))) {
            (Ok(args), Ok(draft)) => args.are(draft),
            (Err(text), Err(words)) => text@ == words,
            _ => false,
        },
{
    let ghost all = texts(args@);
    let ghost mut draft = Draft::empty();
    let mut display_index: Option<usize> = None;
    let mut width: Option<u32> = None;
    let mut height: Option<u32> = None;
    let mut fps: Option<u32> = None;
    let mut ffmpeg_path: Option<String> = None;
    let mut ffmpeg_args: Vec<String> = Vec::new();
    let mut i: usize = 0;
    let n: usize = args.len();
    assert(all.skip(0) =~= all);
    assert(texts(ffmpeg_args@) =~= Seq::empty());
    while i < n
        invariant
            i <= n,
            n == args@.len(),
            all == texts(args@),
            Draft::empty().after(all) == draft.after(all.skip(i as int)),
            draft.display_index == match display_index {
                Some(v) => Some(v as nat),
                None => None,
            },
            draft.width == match width {
                Some(v) => Some(v as nat),
                None => None,
            },
            draft.height == match height {
                Some(v) => Some(v as nat),
                None => None,
            },
            draft.fps == match fps {
                Some(v) => Some(v as nat),
                None => None,
            },
            draft.ffmpeg_path == match ffmpeg_path {
                Some(v) => Some(v@),
                None => None,
            },
            draft.ffmpeg_args == texts(ffmpeg_args@),
        decreases n - i,
    {
        let ghost rest = all.skip(i as int);
        let ghost before = draft;
        assert(rest[0] == args@[i as int]@);
        let opt = match find_option(args[i].as_str()) {
            Some(opt) => opt,
            None => {
                return Err("unknown argument: ".to_owned().concat(args[i].as_str()));
            },
        };
        if n - i == 1 {
            return Err("missing value for ".to_owned().concat(args[i].as_str()));
        }
        assert(rest[1] == args@[i + 1]@);
        assert(rest.skip(2) =~= all.skip(i + 2));
        let value = args[i + 1].as_str();
        match opt {
            Opt::DisplayIndex => match parse_value(value, usize::MAX as u64) {
                Ok(v) => {
                    display_index = Some(v as usize);
                },
                Err(words) => {
                    return Err(words);
                },
            },
            Opt::Width => match parse_value(value, u32::MAX as u64) {
                Ok(v) => {
                    width = Some(v as u32);
                },
                Err(words) => {
                    return Err(words);
                },
            },
            Opt::Height => match parse_value(value, u32::MAX as u64) {
                Ok(v) => {
                    height = Some(v as u32);
                },
                Err(words) => {
                    return Err(words);
                },
            },
            Opt::Fps => match parse_value(value, u32::MAX as u64) {
                Ok(v) => {
                    fps = Some(v as u32);
                },
                Err(words) => {
                    return Err(words);
                },
            },
            Opt::FfmpegPath => {
                ffmpeg_path = Some(value.to_owned());
            },
            Opt::FfmpegArg => {
                let ghost earlier = ffmpeg_args@;
                ffmpeg_args.push(value.to_owned());
                assert(texts(ffmpeg_args@) =~= texts(earlier).push(value@));
            },
        }
        proof {
            draft = before.with(opt, value@)->Ok_0;
        }
        i += 2;
    }
    assert(all.skip(i as int) =~= Seq::empty());
    let display_index: usize = match display_index {
        Some(v) => v,
        None => {
            return Err("--display-index is required".to_owned());
        },
    };
    let width: u32 = match width {
        Some(v) => v,
        None => {
            return Err("--width is required".to_owned());
        },
    };
    let height: u32 = match height {
        Some(v) => v,
        None => {
            return Err("--height is required".to_owned());
        },
    };
    let fps: u32 = match fps {
        Some(v) => v,
        None => {
            return Err("--fps is required".to_owned());
        },
    };
    let ffmpeg_path = match ffmpeg_path {
        Some(v) => v,
        None => {
            return Err("--ffmpeg-path is required".to_owned());
        },
    };
    Ok(Args { display_index, width, height, fps, ffmpeg_path, ffmpeg_args })
}

/// The command line that states every option in full.
pub open spec fn full_command_line(
    display_index: nat,
    width: nat,
    height: nat,
    fps: nat,
    ffmpeg_path: Seq<char>,
) -> Seq<Seq<char>> {
    seq![
        "--display-index"@,
        decimal(display_index),
        "--width"@,
        decimal(width),
        "--height"@,
        decimal(height),
        "--fps"@,
        decimal(fps),
        "--ffmpeg-path"@,
        ffmpeg_path,
    ]
}

/// The names of the options differ.
proof fn lemma_option_names()
    ensures
        option_named("--display-index"@) == Some(Opt::DisplayIndex),
        option_named("--width"@) == Some(Opt::Width),
        option_named("--height"@) == Some(Opt::Height),
        option_named("--fps"@) == Some(Opt::Fps),
        option_named("--ffmpeg-path"@) == Some(Opt::FfmpegPath),
        option_named("--ffmpeg-arg"@) == Some(Opt::FfmpegArg),
{
    reveal_strlit("--display-index");
    reveal_strlit("--width");
    reveal_strlit("--height");
    reveal_strlit("--fps");
    reveal_strlit("--ffmpeg-path");
    reveal_strlit("--ffmpeg-arg");
    assert("--display-index"@[2] == 'd');
    assert("--width"@[2] == 'w');
    assert("--height"@[2] == 'h');
    assert("--fps"@.len() == 5);
    assert("--ffmpeg-path"@.len() == 13);
    assert("--ffmpeg-arg"@.len() == 12);
}

/// A command line that states every option in full is read as it was meant.
pub proof fn law_full_command_line(
    display_index: nat,
    width: nat,
    height: nat,
    fps: nat,
    ffmpeg_path: Seq<char>,
)
    requires
        display_index <= usize::MAX,
        width <= u32::MAX,
        height <= u32::MAX,
        fps <= u32::MAX,
    ensures
        command_line(full_command_line(display_index, width, height, fps, ffmpeg_path)) == Ok::<
            Draft,
            Seq<char>,
        >(
            Draft {
                display_index: Some(display_index),
                width: Some(width),
                height: Some(height),
                fps: Some(fps),
                ffmpeg_path: Some(ffmpeg_path),
                ffmpeg_args: Seq::empty(),
            },
        ),
{
    lemma_option_names();
    law_number_of_decimal(display_index, usize::MAX as nat);
    law_number_of_decimal(width, u32::MAX as nat);
    law_number_of_decimal(height, u32::MAX as nat);
    law_number_of_decimal(fps, u32::MAX as nat);
    let all = full_command_line(display_index, width, height, fps, ffmpeg_path);
    assert(all.skip(2).skip(2) =~= all.skip(4));
    assert(all.skip(4).skip(2) =~= all.skip(6));
    assert(all.skip(6).skip(2) =~= all.skip(8));
    assert(all.skip(8).skip(2) =~= Seq::empty());
    reveal_with_fuel(Draft::after, 6);
}

/// What follows an unknown argument is never looked at, and the argument is named.
pub proof fn law_unknown_argument_is_refused(args: Seq<Seq<char>>)
    requires
        args.len() > 0,
        option_named(args[0]) is None,
    ensures
        command_line(args) == Err::<Draft, Seq<char>>("unknown argument: "@ + args[0]),
{
}

/// The number of displays of the first adapters.
pub open spec fn displays_before(counts: Seq<usize>) -> nat
    decreases counts.len(),
{
    if counts.len() == 0 {
        0
    } else {
        displays_before(counts.drop_last()) + counts.last() as nat
    }
}

proof fn lemma_displays_grow(counts: Seq<usize>, i: int)
    requires
        0 <= i <= counts.len(),
    ensures
        displays_before(counts.take(i)) <= displays_before(counts),
    decreases counts.len() - i,
{
    if i < counts.len() {
        assert(counts.take(i + 1).drop_last() =~= counts.take(i));
        lemma_displays_grow(counts, i + 1);
    } else {
        assert(counts.take(i) =~= counts);
    }
}

/// Finds a display by its number. The displays are numbered through, adapter by adapter; `counts`
/// says how many each adapter has. The answer is the adapter and the place among its displays.
pub fn select_display(counts: &Vec<usize>, display_index: usize) -> (found: Option<(usize, usize)>)
    ensures
        match found {
            Some((adapter, display)) => {
                &&& adapter < counts@.len()
                &&& display < counts@[adapter as int]
                &&& displays_before(counts@.take(adapter as int)) + display == display_index
            },
            None => display_index >= displays_before(counts@),
        },
{
    let mut left: usize = display_index;
    let mut i: usize = 0;
    assert(counts@.take(0) =~= Seq::empty());
    while i < counts.len()
        invariant
            i <= counts@.len(),
            displays_before(counts@.take(i as int)) + left == display_index,
        decreases counts.len() - i,
    {
        assert(counts@.take(i as int + 1).drop_last() =~= counts@.take(i as int));
        if left < counts[i] {
            proof {
                lemma_displays_grow(counts@, i as int + 1);
            }
            return Some((i, left));
        }
        left = left - counts[i];
        i += 1;
    }
    assert(counts@.take(i as int) =~= counts@);
    None
}

/// There is a display for every number below the number of displays, and only one.
pub proof fn law_display_is_unique(counts: Seq<usize>, a: int, d: int, b: int, e: int)
    requires
        0 <= a < counts.len(),
        0 <= d < counts[a],
        0 <= b < counts.len(),
        0 <= e < counts[b],
        displays_before(counts.take(a)) + d == displays_before(counts.take(b)) + e,
    ensures
        a == b,
        d == e,
{
    if a < b {
        lemma_displays_grow(counts.take(b), a + 1);
        assert(counts.take(b).take(a + 1) =~= counts.take(a + 1));
        assert(counts.take(a + 1).drop_last() =~= counts.take(a));
    } else if b < a {
        lemma_displays_grow(counts.take(a), b + 1);
        assert(counts.take(a).take(b + 1) =~= counts.take(b + 1));
        assert(counts.take(b + 1).drop_last() =~= counts.take(b));
    }
}

/// `DM_POSITION`: the settings of a display hold its position.
pub const DM_POSITION: u32 = 0x20;

/// Where the named display lies on the desktop: at its position, where its settings could be had
/// and hold one, else at the origin. A name with a NUL in it names no display.
pub fn display_desktop_origin(device_name: &str, settings: Option<(u32, i32, i32)>) -> (origin: (
    i32,
    i32,
))
    ensures
        origin == match settings {
            Some((fields, x, y)) if !device_name@.contains('\0') && fields & DM_POSITION != 0 => (
                x,
                y,
            ),
            _ => (0i32, 0i32),
        },
{
    let named = !contains(device_name, "\0");
    proof {
        reveal_strlit("\0");
        let part = "\0"@;
        if device_name@.contains('\0') {
            let at = choose|at: int| 0 <= at < device_name@.len() && device_name@[at] == '\0';
            assert(device_name@.subrange(at, at + 1) =~= part);
            assert(crate::text::holds_at(device_name@, part, at));
        } else if exists|at: int| #[trigger] crate::text::holds_at(device_name@, part, at) {
            let at = choose|at: int| #[trigger] crate::text::holds_at(device_name@, part, at);
            assert(device_name@.subrange(at, at + 1)[0] == device_name@[at]);
            assert(device_name@.contains('\0'));
        }
    }
    match settings {
        Some((fields, x, y)) => {
            if named && fields & DM_POSITION != 0 {
                (x, y)
            } else {
                (0, 0)
            }
        },
        None => (0, 0),
    }
}

/// Makes what is sent of a frame: the cursor is drawn on it, and then it is converted to I420. The
/// upper left corner of the display is at (`left`, `top`) of the desktop.
pub fn frame_to_send(
    bgra: &mut [u8],
    width: u32,
    height: u32,
    left: i32,
    top: i32,
    state: &mut CursorState,
    sighting: CursorSighting,
) -> (yuv: Vec<u8>)
    requires
        width >= 2,
        width * height * 4 <= old(bgra)@.len(),
        old(state).wf(),
        sighting.wf(),
    ensures
        cursor_drawn(
            old(bgra)@,
            final(bgra)@,
            width,
            height,
            left,
            top,
            *old(state),
            *final(state),
            sighting,
        ),
        final(state).wf(),
        yuv@ == i420(final(bgra)@, width as int, height as int),
{
    draw_cursor_bgra(bgra, width, height, left, top, state, sighting);
    bgra_to_i420(bgra, width, height)
}

/// How asking for a frame ended.
#[derive(Debug, Clone, Copy, PartialEq, Eq, Structural)]
pub enum Grab {
    Frame,
    /// The desktop was switched; the instance was made anew.
    AccessLost,
    /// The desktop may not be seen; the instance was made anew.
    AccessDenied,
    /// The instance is broken.
    Unexpected,
    /// Anything else.
    Other,
}

/// What follows.
#[derive(Debug, Clone, Copy, PartialEq, Eq, Structural)]
pub enum CaptureStep {
    /// Read the frame, draw the cursor, convert and send it.
    Process,
    /// Report it, if `log` says so, wait, and ask again.
    Retry { log: bool, sleep_ms: u64 },
    /// Make a new instance, keep the old one where that fails, wait, and ask again.
    Rebuild { sleep_ms: u64 },
}

/// How long something took: in all and at most.
#[derive(Debug, Clone, Copy, PartialEq, Eq, Structural)]
pub struct Timing {
    pub total_ns: u128,
    pub max_ns: u64,
}

impl Timing {
    /// With one more.
    pub open spec fn plus(self, ns: u64) -> Timing {
        Timing {
            total_ns: (self.total_ns + ns) as u128,
            max_ns: if ns > self.max_ns {
                ns
            } else {
                self.max_ns
            },
        }
    }

    /// Whether the total is one of at most `count` times, none longer than the longest.
    pub open spec fn of(self, count: u64) -> bool {
        self.total_ns <= count * self.max_ns
    }

    /// Nothing yet.
    pub open spec fn zero() -> Timing {
        Timing { total_ns: 0, max_ns: 0 }
    }

    fn note(&mut self, ns: u64, count: u64)
        requires
            old(self).of(count),
            count < u64::MAX,
        ensures
            *final(self) == old(self).plus(ns),
            final(self).of((count + 1) as u64),
    {
        let ghost max = self.plus(ns).max_ns;
        assert((count + 1) * max == count * max + max) by (nonlinear_arith);
        assert(count * max >= count * self.max_ns) by (nonlinear_arith)
            requires
                max >= self.max_ns,
        ;
        assert((count + 1) * max <= u64::MAX * u64::MAX) by (nonlinear_arith)
            requires
                count < u64::MAX,
                max <= u64::MAX,
        ;
        self.total_ns = self.total_ns + ns as u128;
        if ns > self.max_ns {
            self.max_ns = ns;
        }
    }
}

/// What is reported every few seconds.
#[derive(Debug, Clone, Copy, PartialEq, Eq, Structural)]
pub struct Report {
    pub frame_count: u64,
    pub access_lost_count: u64,
    /// The frames since the last report.
    pub stat_frame_count: u64,
    pub acquire: Timing,
    pub convert: Timing,
    pub write: Timing,
}

/// The state of the loop.
#[derive(Debug)]
pub struct CaptureLoop {
    pub desktop: DesktopWatch,
    /// The time between two frames.
    pub frame_interval_ns: u64,
    /// When the next frame is due.
    pub next_frame_ns: u64,
    /// When the last report was made.
    pub last_stat_ns: u64,
    /// What happened since.
    pub stats: Report,
}

/// How long the loop goes without a report.
pub const STAT_INTERVAL_NS: u64 = 5_000_000_000;

impl CaptureLoop {
    /// The totals are made of as many times as there are frames: no average is above the longest
    /// time.
    pub open spec fn wf(self) -> bool {
        &&& self.stats.acquire.of(self.stats.stat_frame_count)
        &&& self.stats.convert.of(self.stats.stat_frame_count)
        &&& self.stats.write.of(self.stats.stat_frame_count)
    }

    /// A loop that is about to start, on this desktop, with so much time between two frames.
    pub fn new(desktop: String, frame_interval_ns: u64) -> (this: CaptureLoop)
        ensures
            this.wf(),
            this.desktop.last@ == desktop@,
            this.frame_interval_ns == frame_interval_ns,
            this.next_frame_ns == 0,
            this.last_stat_ns == 0,
            this.stats == (Report {
                frame_count: 0,
                access_lost_count: 0,
                stat_frame_count: 0,
                acquire: Timing::zero(),
                convert: Timing::zero(),
                write: Timing::zero(),
            }),
    {
        CaptureLoop {
            desktop: DesktopWatch { last: desktop },
            frame_interval_ns,
            next_frame_ns: 0,
            last_stat_ns: 0,
            stats: Report {
                frame_count: 0,
                access_lost_count: 0,
                stat_frame_count: 0,
                acquire: Timing { total_ns: 0, max_ns: 0 },
                convert: Timing { total_ns: 0, max_ns: 0 },
                write: Timing { total_ns: 0, max_ns: 0 },
            },
        }
    }

    /// The loop after asking for a frame, and what follows. Losses are all counted; the first
    /// three are reported, and then every hundredth.
    pub open spec fn asked(self, grab: Grab) -> (CaptureLoop, CaptureStep) {
        match grab {
            Grab::Frame => (self, CaptureStep::Process),
            Grab::AccessLost => {
                let count = (self.stats.access_lost_count + 1) as u64;
                (
                    CaptureLoop {
                        stats: Report { access_lost_count: count, ..self.stats },
                        ..self
                    },
                    CaptureStep::Retry { log: count <= 3 || count % 100 == 0, sleep_ms: 50 },
                )
            },
            Grab::AccessDenied => (self, CaptureStep::Retry { log: true, sleep_ms: 50 }),
            Grab::Unexpected => (self, CaptureStep::Rebuild { sleep_ms: 200 }),
            Grab::Other => (self, CaptureStep::Retry { log: true, sleep_ms: 50 }),
        }
    }

    /// Takes the outcome of asking for a frame.
    pub fn grabbed(&mut self, grab: Grab) -> (step: CaptureStep)
        requires
            old(self).stats.access_lost_count < u64::MAX,
        ensures
            (*final(self), step) == old(self).asked(grab),
            old(self).wf() ==> final(self).wf(),
    {
        match grab {
            Grab::Frame => CaptureStep::Process,
            Grab::AccessLost => {
                self.stats.access_lost_count = self.stats.access_lost_count + 1;
                let count: u64 = self.stats.access_lost_count;
                CaptureStep::Retry { log: count <= 3 || count % 100 == 0, sleep_ms: 50 }
            },
            Grab::AccessDenied => CaptureStep::Retry { log: true, sleep_ms: 50 },
            Grab::Unexpected => CaptureStep::Rebuild { sleep_ms: 200 },
            Grab::Other => CaptureStep::Retry { log: true, sleep_ms: 50 },
        }
    }

    /// The loop after a frame was converted and `written` says whether it was sent. A frame that
    /// could not be sent ends the loop.
    pub open spec fn sent(
        self,
        acquire_ns: u64,
        convert_ns: u64,
        written: bool,
        write_ns: u64,
    ) -> CaptureLoop {
        let converted = Report {
            acquire: self.stats.acquire.plus(acquire_ns),
            convert: self.stats.convert.plus(convert_ns),
            stat_frame_count: (self.stats.stat_frame_count + 1) as u64,
            ..self.stats
        };
        CaptureLoop {
            stats: if written {
                Report {
                    write: self.stats.write.plus(write_ns),
                    frame_count: (self.stats.frame_count + 1) as u64,
                    ..converted
                }
            } else {
                converted
            },
            ..self
        }
    }

    /// Takes the outcome of a frame: how long its parts took, and whether it was written. Tells
    /// whether the loop goes on, and whether to report the frame: the first five are.
    pub fn frame_sent(
        &mut self,
        acquire_ns: u64,
        convert_ns: u64,
        written: bool,
        write_ns: u64,
    ) -> (go_on: (bool, bool))
        requires
            old(self).wf(),
            old(self).stats.stat_frame_count < u64::MAX,
            old(self).stats.frame_count < u64::MAX,
        ensures
            final(self).wf(),
            *final(self) == old(self).sent(acquire_ns, convert_ns, written, write_ns),
            go_on.0 == written,
            go_on.1 == (written && final(self).stats.frame_count <= 5),
    {
        let count: u64 = self.stats.stat_frame_count;
        self.stats.acquire.note(acquire_ns, count);
        self.stats.convert.note(convert_ns, count);
        self.stats.stat_frame_count = count + 1;
        if !written {
            let ghost max = self.stats.write.max_ns;
            assert((count + 1) * max >= count * max) by (nonlinear_arith);
            return (false, false);
        }
        self.stats.write.note(write_ns, count);
        self.stats.frame_count = self.stats.frame_count + 1;
        (true, self.stats.frame_count <= 5)
    }

    /// The report that is due at the time `now_ns`, if any; a new period then starts at
    /// `restart_ns`, with all but the counts of frames and losses cleared.
    pub fn report_due(&mut self, now_ns: u64, restart_ns: u64) -> (report: Option<Report>)
        ensures
            since(now_ns, old(self).last_stat_ns) < STAT_INTERVAL_NS ==> report is None && *final(self)
                == *old(self),
            since(now_ns, old(self).last_stat_ns) >= STAT_INTERVAL_NS ==> {
                &&& report == Some(old(self).stats)
                &&& *final(self) == (CaptureLoop {
                    last_stat_ns: restart_ns,
                    stats: Report {
                        stat_frame_count: 0,
                        acquire: Timing::zero(),
                        convert: Timing::zero(),
                        write: Timing::zero(),
                        ..old(self).stats
                    },
                    ..*old(self)
                })
            },
            old(self).wf() ==> final(self).wf(),
    {
        if elapsed(now_ns, self.last_stat_ns) < STAT_INTERVAL_NS {
            return None;
        }
        let report = self.stats;
        self.last_stat_ns = restart_ns;
        self.stats.stat_frame_count = 0;
        self.stats.acquire = Timing { total_ns: 0, max_ns: 0 };
        self.stats.convert = Timing { total_ns: 0, max_ns: 0 };
        self.stats.write = Timing { total_ns: 0, max_ns: 0 };
        Some(report)
    }

    /// When the next frame is due after one that was done at the time `now_ns`: one interval
    /// after the last one was due, but not before now.
    pub open spec fn due_after(self, now_ns: u64) -> int {
        let next = self.next_frame_ns + self.frame_interval_ns;
        if now_ns < next {
            next
        } else {
            now_ns as int
        }
    }

    /// Tells how long to wait for the next frame.
    pub fn pace(&mut self, now_ns: u64) -> (sleep_ns: u64)
        requires
            old(self).next_frame_ns + old(self).frame_interval_ns <= u64::MAX,
        ensures
            sleep_ns == old(self).due_after(now_ns) - now_ns,
            *final(self) == (CaptureLoop {
                next_frame_ns: old(self).due_after(now_ns) as u64,
                ..*old(self)
            }),
    {
        let next: u64 = self.next_frame_ns + self.frame_interval_ns;
        if now_ns < next {
            self.next_frame_ns = next;
            next - now_ns
        } else {
            self.next_frame_ns = now_ns;
            0
        }
    }
}

/// The loop is never faster than asked: from one due time to the next at least one interval passes,
/// and no frame is due before the one before it was done.
pub proof fn law_pace_is_kept(this: CaptureLoop, now_ns: u64)
    ensures
        this.due_after(now_ns) >= this.next_frame_ns + this.frame_interval_ns,
        this.due_after(now_ns) >= now_ns,
{
}

/// No loss, denial or failure ends the loop: every outcome leads to another try.
pub proof fn law_capture_never_gives_up(this: CaptureLoop, grab: Grab)
    ensures
        grab !is Frame ==> this.asked(grab).1 is Retry || this.asked(grab).1 is Rebuild,
        grab is Frame ==> this.asked(grab).1 is Process,
{
}

/// A frame that is done in time makes the next one due exactly one interval after it was due
/// itself, and one that is late makes the next one due at once; the wait ends when it is due.
pub proof fn law_next_frame_is_due_one_interval_later(
    this: &mut CaptureLoop,
    now_ns: u64,
    sleep_ns: u64,
)
    requires
        old(this).next_frame_ns + old(this).frame_interval_ns <= u64::MAX,
        call_ensures(CaptureLoop::pace, (this, now_ns), sleep_ns),
    ensures
        now_ns < old(this).next_frame_ns + old(this).frame_interval_ns ==> final(this).next_frame_ns
            == old(this).next_frame_ns + old(this).frame_interval_ns,
        now_ns >= old(this).next_frame_ns + old(this).frame_interval_ns
            ==> final(this).next_frame_ns == now_ns,
        now_ns + sleep_ns == final(this).next_frame_ns,
        final(this).frame_interval_ns == old(this).frame_interval_ns,
        final(this).last_stat_ns == old(this).last_stat_ns,
        final(this).stats == old(this).stats,
        final(this).desktop == old(this).desktop,
{
}

/// When the next frame is due after some frames, done at these times.
pub open spec fn due_after_rounds(this: CaptureLoop, done: Seq<u64>) -> int
    decreases done.len(),
{
    if done.len() == 0 {
        this.next_frame_ns as int
    } else {
        (CaptureLoop {
            next_frame_ns: due_after_rounds(this, done.drop_last()) as u64,
            ..this
        }).due_after(done.last())
    }
}

/// The rate is kept over any number of frames: as long as each is done in time, the due times move
/// on by exactly one interval a frame and do not drift.
pub proof fn law_rate_does_not_drift(this: CaptureLoop, done: Seq<u64>)
    requires
        this.next_frame_ns + done.len() * this.frame_interval_ns <= u64::MAX,
        forall|i: int|
            0 <= i < done.len() ==> #[trigger] done[i] < this.next_frame_ns + (i + 1)
                * this.frame_interval_ns,
    ensures
        due_after_rounds(this, done) == this.next_frame_ns + done.len() * this.frame_interval_ns,
    decreases done.len(),
{
    if done.len() > 0 {
        let n = done.len() as int;
        let earlier = done.drop_last();
        let interval = this.frame_interval_ns as int;
        assert((n - 1) * interval + interval == n * interval) by (nonlinear_arith);
        assert((n - 1) * interval >= 0) by (nonlinear_arith)
            requires
                n >= 1,
                interval >= 0,
        ;
        assert forall|i: int| 0 <= i < earlier.len() implies #[trigger] earlier[i]
            < this.next_frame_ns + (i + 1) * interval by {
            assert(earlier[i] == done[i]);
        }
        law_rate_does_not_drift(this, earlier);
        assert(done[n - 1] < this.next_frame_ns + (n - 1 + 1) * interval);
    }
}

/// A late frame leaves no debt: the frame after the next one is due one interval after the late
/// one was done, not earlier.
pub proof fn law_lateness_is_forgiven(this: CaptureLoop, late_ns: u64, done_ns: u64)
    requires
        this.next_frame_ns + this.frame_interval_ns <= late_ns,
        late_ns + this.frame_interval_ns <= u64::MAX,
        done_ns < late_ns + this.frame_interval_ns,
    ensures
        due_after_rounds(this, seq![late_ns, done_ns]) == late_ns + this.frame_interval_ns,
{
    let rounds = seq![late_ns, done_ns];
    assert(rounds.drop_last() =~= seq![late_ns]);
    assert(seq![late_ns].drop_last() =~= Seq::empty());
    reveal_with_fuel(due_after_rounds, 3);
}

/// A loss of access is counted and reported the first three times and then every hundredth; every
/// failure is followed by a wait, of 50 milliseconds or, where the instance is made anew by the
/// loop, of 200. Nothing else changes.
pub proof fn law_losses_are_counted(this: &mut CaptureLoop, grab: Grab, step: CaptureStep)
    requires
        old(this).stats.access_lost_count < u64::MAX,
        call_ensures(CaptureLoop::grabbed, (this, grab), step),
    ensures
        grab is Frame ==> step == CaptureStep::Process,
        grab is AccessLost ==> step == (CaptureStep::Retry {
            log: old(this).stats.access_lost_count < 3 || (old(this).stats.access_lost_count + 1)
                % 100 == 0,
            sleep_ms: 50,
        }),
        grab is AccessDenied || grab is Other ==> step == (CaptureStep::Retry {
            log: true,
            sleep_ms: 50,
        }),
        grab is Unexpected ==> step == (CaptureStep::Rebuild { sleep_ms: 200 }),
        final(this).stats.access_lost_count - old(this).stats.access_lost_count == (
        if grab is AccessLost {
            1int
        } else {
            0
        }),
        final(this).stats.frame_count == old(this).stats.frame_count,
        final(this).stats.stat_frame_count == old(this).stats.stat_frame_count,
        final(this).stats.acquire == old(this).stats.acquire,
        final(this).stats.convert == old(this).stats.convert,
        final(this).stats.write == old(this).stats.write,
        final(this).next_frame_ns == old(this).next_frame_ns,
        final(this).frame_interval_ns == old(this).frame_interval_ns,
        final(this).last_stat_ns == old(this).last_stat_ns,
        final(this).desktop == old(this).desktop,
{
}

/// Every frame adds its times to the totals and raises the longest where it took longer; one that
/// could not be written is not counted as a frame and ends the loop. The first five are reported.
pub proof fn law_frames_are_counted(
    this: &mut CaptureLoop,
    acquire_ns: u64,
    convert_ns: u64,
    written: bool,
    write_ns: u64,
    go_on: (bool, bool),
)
    requires
        old(this).wf(),
        old(this).stats.stat_frame_count < u64::MAX,
        old(this).stats.frame_count < u64::MAX,
        call_ensures(
            CaptureLoop::frame_sent,
            (this, acquire_ns, convert_ns, written, write_ns),
            go_on,
        ),
    ensures
        go_on.0 == written,
        go_on.1 <==> written && old(this).stats.frame_count < 5,
        final(this).stats.frame_count - old(this).stats.frame_count == (if written {
            1int
        } else {
            0
        }),
        final(this).stats.stat_frame_count == old(this).stats.stat_frame_count + 1,
        final(this).stats.access_lost_count == old(this).stats.access_lost_count,
        final(this).stats.acquire.total_ns == old(this).stats.acquire.total_ns + acquire_ns,
        final(this).stats.convert.total_ns == old(this).stats.convert.total_ns + convert_ns,
        final(this).stats.write.total_ns - old(this).stats.write.total_ns == (if written {
            write_ns as int
        } else {
            0
        }),
        final(this).stats.acquire.max_ns == vstd::math::max(
            old(this).stats.acquire.max_ns as int,
            acquire_ns as int,
        ),
        final(this).stats.convert.max_ns == vstd::math::max(
            old(this).stats.convert.max_ns as int,
            convert_ns as int,
        ),
        final(this).stats.write.max_ns == (if written {
            vstd::math::max(old(this).stats.write.max_ns as int, write_ns as int)
        } else {
            old(this).stats.write.max_ns as int
        }),
        final(this).next_frame_ns == old(this).next_frame_ns,
        final(this).frame_interval_ns == old(this).frame_interval_ns,
        final(this).last_stat_ns == old(this).last_stat_ns,
        final(this).desktop == old(this).desktop,
{
    lemma_total_fits(old(this).stats.acquire, old(this).stats.stat_frame_count);
    lemma_total_fits(old(this).stats.convert, old(this).stats.stat_frame_count);
    lemma_total_fits(old(this).stats.write, old(this).stats.stat_frame_count);
}

proof fn lemma_total_fits(timing: Timing, count: u64)
    requires
        timing.of(count),
    ensures
        timing.total_ns + u64::MAX <= u128::MAX,
{
    assert(count * timing.max_ns <= u64::MAX * u64::MAX) by (nonlinear_arith)
        requires
            0 <= count <= u64::MAX,
            0 <= timing.max_ns <= u64::MAX,
    ;
}

/// A report is due five seconds after the last one and holds all that was counted; afterwards the
/// times start again and the counts of frames and losses go on. Without a report nothing changes.
pub proof fn law_report_every_five_seconds(
    this: &mut CaptureLoop,
    now_ns: u64,
    restart_ns: u64,
    report: Option<Report>,
)
    requires
        call_ensures(CaptureLoop::report_due, (this, now_ns, restart_ns), report),
    ensures
        report is Some <==> now_ns - old(this).last_stat_ns >= 5_000_000_000,
        report is None ==> *final(this) == *old(this),
        report matches Some(told) ==> {
            &&& told == old(this).stats
            &&& final(this).last_stat_ns == restart_ns
            &&& final(this).stats.stat_frame_count == 0
            &&& final(this).stats.acquire.total_ns == 0 && final(this).stats.acquire.max_ns == 0
            &&& final(this).stats.convert.total_ns == 0 && final(this).stats.convert.max_ns == 0
            &&& final(this).stats.write.total_ns == 0 && final(this).stats.write.max_ns == 0
        },
        final(this).stats.frame_count == old(this).stats.frame_count,
        final(this).stats.access_lost_count == old(this).stats.access_lost_count,
        final(this).next_frame_ns == old(this).next_frame_ns,
        final(this).frame_interval_ns == old(this).frame_interval_ns,
        final(this).desktop == old(this).desktop,
{
}

/// A loop starts with nothing counted, and its first frame is due at once.
pub proof fn law_first_frame_is_due_at_once(
    desktop: String,
    frame_interval_ns: u64,
    this: CaptureLoop,
)
    requires
        call_ensures(CaptureLoop::new, (desktop, frame_interval_ns), this),
    ensures
        this.next_frame_ns == 0,
        this.last_stat_ns == 0,
        this.frame_interval_ns == frame_interval_ns,
        this.desktop.last@ == desktop@,
        this.stats.frame_count == 0 && this.stats.access_lost_count == 0,
        this.stats.stat_frame_count == 0,
        this.stats.acquire.total_ns == 0 && this.stats.acquire.max_ns == 0,
        this.stats.convert.total_ns == 0 && this.stats.convert.max_ns == 0,
        this.stats.write.total_ns == 0 && this.stats.write.max_ns == 0,
{
}

/// What is sent shows the frame, and the cursor where it is opaque: the brightness that is sent for
/// a pixel under an opaque pixel of the cursor is that of the cursor's pixel, and without a cursor
/// it is that of the frame's own pixel.
pub proof fn law_sent_frame_shows_the_cursor(
    bgra: &mut [u8],
    width: u32,
    height: u32,
    left: i32,
    top: i32,
    state: &mut CursorState,
    sighting: CursorSighting,
    yuv: Vec<u8>,
    fx: int,
    fy: int,
)
    requires
        width >= 2,
        width * height * 4 <= old(bgra)@.len(),
        call_ensures(frame_to_send, (bgra, width, height, left, top, state, sighting), yuv),
        0 <= fx < width,
        0 <= fy < height,
    ensures
        ({
            let k = fy * width + fx;
            let y = yuv@[k];
            let frame = old(bgra)@;
            let pixels = final(state).pixels@;
            let px = fx - (sighting->x - left - final(state).hotspot_x);
            let py = fy - (sighting->y - top - final(state).hotspot_y);
            let from = 4 * (py * final(state).cursor_w + px);
            &&& sighting is Absent ==> 256 * y <= 77 * frame[4 * k + 2] + 150 * frame[4 * k + 1]
                + 29 * frame[4 * k] + 128 < 256 * y + 256
            &&& sighting is Shown && final(state).handle == sighting->handle && pixels.len()
                == final(state).cursor_w * final(state).cursor_h * 4 && 0 <= px < final(
                state
            ).cursor_w && 0 <= py < final(state).cursor_h && pixels[from + 3] == 255 ==> 256 * y
                <= 77 * pixels[from + 2] + 150 * pixels[from + 1] + 29 * pixels[from] + 128 < 256
                * y + 256
        }),
{
    let (w, h) = (width as int, height as int);
    let k = fy * w + fx;
    crate::i420::lemma_luma_sample(final(bgra)@, w, h, fy, fx);
    let pixels = final(state).pixels@;
    let px = fx - (sighting->x - left - final(state).hotspot_x);
    let py = fy - (sighting->y - top - final(state).hotspot_y);
    let from = 4 * (py * final(state).cursor_w + px);
    if sighting is Shown && final(state).handle == sighting->handle && pixels.len() == final(
        state
    ).cursor_w * final(state).cursor_h * 4 && 0 <= px < final(state).cursor_w && 0 <= py < final(
        state
    ).cursor_h && pixels[from + 3] == 255 {
        crate::cursor::lemma_bitmap_pixel(w, h, fx, fy);
        crate::cursor::lemma_pixel_of_the_cursor(
            old(bgra)@,
            final(bgra)@,
            width,
            height,
            left,
            top,
            *old(state),
            *final(state),
            sighting,
            px,
            py,
        );
        assert(final(bgra)@[4 * k + 0] == pixels[from + 0]);
        assert(final(bgra)@[4 * k + 1] == pixels[from + 1]);
        assert(final(bgra)@[4 * k + 2] == pixels[from + 2]);
    }
}

/// A display lies where its settings say, if they were found, hold a position (the sixth bit of
/// their fields says so) and the name was one; every other display lies at the origin.
pub proof fn law_display_lies_at_its_position(
    device_name: &str,
    settings: Option<(u32, i32, i32)>,
    origin: (i32, i32),
)
    requires
        call_ensures(display_desktop_origin, (device_name, settings), origin),
    ensures
        settings matches Some((fields, x, y)) ==> {
            &&& (fields / 32) % 2 == 1 && !device_name@.contains('\0') ==> origin == (x, y)
            &&& (fields / 32) % 2 == 0 ==> origin == (0i32, 0i32)
        },
        settings is None || device_name@.contains('\0') ==> origin == (0i32, 0i32),
{
    if let Some((fields, x, y)) = settings {
        assert((fields / 32) % 2 == 1 <==> fields & 0x20 != 0) by (bit_vector);
    }
}

proof fn lemma_displays_behind(counts: Seq<usize>)
    requires
        counts.len() > 0,
    ensures
        displays_before(counts) == counts[0] + displays_before(counts.skip(1)),
    decreases counts.len(),
{
    if counts.len() > 1 {
        lemma_displays_behind(counts.drop_last());
        assert(counts.drop_last().skip(1) =~= counts.skip(1).drop_last());
    } else {
        assert(counts.drop_last() =~= Seq::empty());
        assert(counts.skip(1) =~= Seq::empty());
    }
}

/// Displays are numbered through: the first numbers are those of the first adapter, in order, and
/// the next are those of the other adapters, numbered as if the first were not there. Without
/// adapters there is no display.
pub proof fn law_displays_are_numbered_through(
    counts: &Vec<usize>,
    index: usize,
    found: Option<(usize, usize)>,
    rest: &Vec<usize>,
    behind: usize,
    later: Option<(usize, usize)>,
)
    requires
        call_ensures(select_display, (counts, index), found),
        call_ensures(select_display, (rest, behind), later),
        counts@.len() > 0 ==> rest@ == counts@.skip(1),
    ensures
        counts@.len() == 0 ==> found is None,
        counts@.len() > 0 && index < counts@[0] ==> found == Some((0usize, index)),
        counts@.len() > 0 && index == counts@[0] + behind ==> (later matches Some((a, d)) ==> found
            == Some(((a + 1) as usize, d)) && a + 1 < counts@.len()) && (later is None ==> found
            is None),
{
    let all = counts@;
    if all.len() == 0 {
        assert(displays_before(all) == 0);
    } else {
        lemma_displays_behind(all);
        assert(all.take(0) =~= Seq::empty());
        if index < all[0] {
            if let Some((a, d)) = found {
                law_display_is_unique(all, a as int, d as int, 0, index as int);
            }
        } else if index == all[0] + behind {
            if let Some((a, d)) = later {
                assert(all.take(a + 1).skip(1) =~= rest@.take(a as int));
                lemma_displays_behind(all.take(a + 1));
                assert(all[a + 1] == rest@[a as int]);
                lemma_displays_grow(all, a + 2);
                assert(all.take(a + 2).drop_last() =~= all.take(a + 1));
                if let Some((b, e)) = found {
                    law_display_is_unique(all, a + 1, d as int, b as int, e as int);
                }
            } else if let Some((b, e)) = found {
                lemma_displays_grow(all, b + 1);
                assert(all.take(b + 1).drop_last() =~= all.take(b as int));
            }
        }
    }
}

/// Options are read in turn: a command line in two parts is read as the first part and then the
/// second, and what is wrong with the first part is what is wrong with the whole.
pub proof fn law_options_are_read_in_turn(
    draft: Draft,
    first: Seq<Seq<char>>,
    second: Seq<Seq<char>>,
)
    requires
        first.len() % 2 == 0,
    ensures
        draft.after(first + second) == (match draft.after(first) {
            Ok(next) => next.after(second),
            Err(words) => Err(words),
        }),
    decreases first.len(),
{
    if first.len() == 0 {
        assert(first + second =~= second);
    } else {
        assert((first + second).skip(2) =~= first.skip(2) + second);
        if let Some(opt) = option_named(first[0]) {
            if let Ok(next) = draft.with(opt, first[1]) {
                law_options_are_read_in_turn(next, first.skip(2), second);
            }
        }
    }
}

/// Each option sets its own field to the number or the text that follows it, in place of an earlier
/// one, and leaves the others; an argument for ffmpeg is added to the earlier ones.
pub proof fn law_each_option_sets_its_field(draft: Draft, index: nat, n: nat, text: Seq<char>)
    requires
        index <= usize::MAX,
        n <= u32::MAX,
    ensures
        draft.after(seq!["--display-index"@, decimal(index)]) == Ok::<Draft, Seq<char>>(
            Draft { display_index: Some(index), ..draft },
        ),
        draft.after(seq!["--width"@, decimal(n)]) == Ok::<Draft, Seq<char>>(
            Draft { width: Some(n), ..draft },
        ),
        draft.after(seq!["--height"@, decimal(n)]) == Ok::<Draft, Seq<char>>(
            Draft { height: Some(n), ..draft },
        ),
        draft.after(seq!["--fps"@, decimal(n)]) == Ok::<Draft, Seq<char>>(
            Draft { fps: Some(n), ..draft },
        ),
        draft.after(seq!["--ffmpeg-path"@, text]) == Ok::<Draft, Seq<char>>(
            Draft { ffmpeg_path: Some(text), ..draft },
        ),
        draft.after(seq!["--ffmpeg-arg"@, text]) == Ok::<Draft, Seq<char>>(
            Draft { ffmpeg_args: draft.ffmpeg_args.push(text), ..draft },
        ),
{
    lemma_option_names();
    law_number_of_decimal(index, usize::MAX as nat);
    law_number_of_decimal(n, u32::MAX as nat);
    reveal_with_fuel(Draft::after, 2);
    assert(seq!["--display-index"@, decimal(index)].skip(2) =~= Seq::empty());
    assert(seq!["--width"@, decimal(n)].skip(2) =~= Seq::empty());
    assert(seq!["--height"@, decimal(n)].skip(2) =~= Seq::empty());
    assert(seq!["--fps"@, decimal(n)].skip(2) =~= Seq::empty());
    assert(seq!["--ffmpeg-path"@, text].skip(2) =~= Seq::empty());
    assert(seq!["--ffmpeg-arg"@, text].skip(2) =~= Seq::empty());
}

/// A value that is no number of the wanted size is refused, in the words for what is wrong with it.
pub proof fn law_bad_numbers_are_refused(
    draft: Draft,
    value: Seq<char>,
    rest: Seq<Seq<char>>,
    e: NumberError,
)
    ensures
        ({
            let words = match e {
                NumberError::Empty => "cannot parse integer from empty string"@,
                NumberError::InvalidDigit => "invalid digit found in string"@,
                NumberError::TooLarge => "number too large to fit in target type"@,
            };
            &&& number_value(value, usize::MAX as nat) == Err::<nat, NumberError>(e)
                ==> draft.after(seq!["--display-index"@, value] + rest) == Err::<Draft, Seq<char>>(
                words,
            )
            &&& number_value(value, u32::MAX as nat) == Err::<nat, NumberError>(e) ==> {
                &&& draft.after(seq!["--width"@, value] + rest) == Err::<Draft, Seq<char>>(words)
                &&& draft.after(seq!["--height"@, value] + rest) == Err::<Draft, Seq<char>>(words)
                &&& draft.after(seq!["--fps"@, value] + rest) == Err::<Draft, Seq<char>>(words)
            }
        }),
{
    lemma_option_names();
}

/// Whether an argument is one of the six options.
pub open spec fn is_option(arg: Seq<char>) -> bool {
    arg == "--display-index"@ || arg == "--width"@ || arg == "--height"@ || arg == "--fps"@ || arg
        == "--ffmpeg-path"@ || arg == "--ffmpeg-arg"@
}

/// An option at the end of the command line is refused for want of a value, and an argument in the
/// place of an option that is none is refused as unknown, with or without a value.
pub proof fn law_stray_arguments_are_refused(draft: Draft, arg: Seq<char>, value: Seq<char>)
    ensures
        is_option(arg) ==> draft.after(seq![arg]) == Err::<Draft, Seq<char>>(
            "missing value for "@ + arg,
        ),
        !is_option(arg) ==> draft.after(seq![arg]) == Err::<Draft, Seq<char>>(
            "unknown argument: "@ + arg,
        ),
        !is_option(arg) ==> draft.after(seq![arg, value]) == Err::<Draft, Seq<char>>(
            "unknown argument: "@ + arg,
        ),
{
    lemma_option_names();
}

/// Where every argument could be read, the result holds what they say, provided that all five
/// options which are required were among them; else the first missing one is named.
pub proof fn law_required_options(args: &Vec<String>, res: Result<Args, String>, draft: Draft)
    requires
        Draft::empty().after(texts(args@)) == Ok::<Draft, Seq<char>>(draft),
        call_ensures(parse_args, (args,), res),
    ensures
        res is Ok <==> draft.display_index is Some && draft.width is Some && draft.height is Some
            && draft.fps is Some && draft.ffmpeg_path is Some,
        res matches Ok(read) ==> {
            &&& read.display_index == draft.display_index->0
            &&& read.width == draft.width->0
            &&& read.height == draft.height->0
            &&& read.fps == draft.fps->0
            &&& read.ffmpeg_path@ == draft.ffmpeg_path->0
            &&& read.ffmpeg_args@.len() == draft.ffmpeg_args.len()
            &&& forall|i: int|
                0 <= i < read.ffmpeg_args@.len() ==> (#[trigger] read.ffmpeg_args@[i])@
                    == draft.ffmpeg_args[i]
        },
        res matches Err(words) ==> words@ == (if draft.display_index is None {
            "--display-index is required"@
        } else if draft.width is None {
            "--width is required"@
        } else if draft.height is None {
            "--height is required"@
        } else if draft.fps is None {
            "--fps is required"@
        } else {
            "--ffmpeg-path is required"@
        }),
{
    if let Ok(read) = res {
        assert(texts(read.ffmpeg_args@) == draft.ffmpeg_args);
        assert(texts(read.ffmpeg_args@).len() == read.ffmpeg_args@.len());
        assert forall|i: int| 0 <= i < read.ffmpeg_args@.len() implies (
        #[trigger] read.ffmpeg_args@[i])@ == draft.ffmpeg_args[i] by {
            assert(texts(read.ffmpeg_args@)[i] == read.ffmpeg_args@[i]@);
        }
    }
}

/// What is wrong with a command line is what is reported, and nothing is read from it.
pub proof fn law_bad_command_line_is_reported(
    args: &Vec<String>,
    res: Result<Args, String>,
    words: Seq<char>,
)
    requires
        Draft::empty().after(texts(args@)) == Err::<Draft, Seq<char>>(words),
        call_ensures(parse_args, (args,), res),
    ensures
        res matches Err(text) && text@ == words,
{
}

} // verus!
