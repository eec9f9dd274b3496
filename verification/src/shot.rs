//! The screenshot tool: its command line, its loop, and the picture files it writes.
use png::{BitDepth, ColorType, Encoder};
use vstd::prelude::*;

use crate::capture::Grab;
use crate::desktop::{sanitize, sanitized, DesktopWatch};
use crate::text::{
    decimal, is_digit, law_decimal_is_digits, law_number_of_decimal, number_value, parse_number,
    push_decimal, same_text, texts,
};

verus! {

/// What the tool was asked to do.
#[derive(Debug)]
pub struct Args {
    pub display_index: usize,
    pub out_dir: String,
    pub interval_ms: u64,
    /// How long to run; without end where it is not said.
    pub seconds: Option<u64>,
}

/// The arguments by their values.
pub ghost struct ArgsView {
    pub display_index: nat,
    pub out_dir: Seq<char>,
    pub interval_ms: nat,
    pub seconds: Option<nat>,
}

impl Args {
    pub open spec fn view(self) -> ArgsView {
        ArgsView {
            display_index: self.display_index as nat,
            out_dir: self.out_dir@,
            interval_ms: self.interval_ms as nat,
            seconds: match self.seconds {
                Some(n) => Some(n as nat),
                None => None,
            },
        }
    }
}

/// The number that a value spells, or another where it spells none.
pub open spec fn number_or(value: Seq<char>, max: nat, otherwise: nat) -> nat {
    match number_value(value, max) {
        Ok(n) => n,
        Err(_) => otherwise,
    }
}

impl ArgsView {
    /// What holds where nothing is said.
    pub open spec fn standard() -> ArgsView {
        ArgsView {
            display_index: 0,
            out_dir: "desktop-shot/output"@,
            interval_ms: 1000,
            seconds: None,
        }
    }

    /// With one more option and its value; nothing where there is no such option.
    pub open spec fn with(self, option: Seq<char>, value: Seq<char>) -> Option<ArgsView> {
        if option == "--display-index"@ {
            Some(ArgsView { display_index: number_or(value, usize::MAX as nat, 0), ..self })
        } else if option == "--out-dir"@ {
            Some(ArgsView { out_dir: value, ..self })
        } else if option == "--interval-ms"@ {
            Some(ArgsView { interval_ms: number_or(value, u64::MAX as nat, 1000), ..self })
        } else if option == "--seconds"@ {
            Some(
                ArgsView {
                    seconds: match number_value(value, u64::MAX as nat) {
                        Ok(n) => Some(n),
                        Err(_) => None,
                    },
                    ..self
                },
            )
        } else {
            None
        }
    }

    /// The arguments after the rest of the command line, and what was passed over as unknown. An
    /// option without its value at the end is passed over in silence.
    pub open spec fn after(self, args: Seq<Seq<char>>) -> (ArgsView, Seq<Seq<char>>)
        decreases args.len(),
    {
        if args.len() == 0 {
            (self, Seq::empty())
        } else if !is_option(args[0]) {
            let (end, unknown) = self.after(args.skip(1));
            (end, seq![args[0]] + unknown)
        } else if args.len() == 1 {
            (self, Seq::empty())
        } else {
            self.with(args[0], args[1])->0.after(args.skip(2))
        }
    }
}

/// Whether an argument is one of the options.
pub open spec fn is_option(arg: Seq<char>) -> bool {
    arg == "--display-index"@ || arg == "--out-dir"@ || arg == "--interval-ms"@ || arg
        == "--seconds"@
}

/// Reads the command line, without the name of the program; gives the arguments that were passed
/// over as unknown.
pub fn parse_args(args: &Vec<String>) -> (parsed: (Args, Vec<String>))
    ensures
        (parsed.0.view(), texts(parsed.1@)) == ArgsView::standard().after(texts(args@)),
{
    let ghost all = texts(args@);
    let mut out = Args {
        display_index: 0,
        out_dir: "desktop-shot/output".to_owned(),
        interval_ms: 1000,
        seconds: None,
    };
    let mut unknown: Vec<String> = Vec::new();
    let mut i: usize = 0;
    let n: usize = args.len();
    assert(all.skip(0) =~= all);
    assert(texts(unknown@) + out.view().after(all).1 =~= out.view().after(all).1);
    while i < n
        invariant
            i <= n,
            n == args@.len(),
            all == texts(args@),
            ArgsView::standard().after(all) == (
                out.view().after(all.skip(i as int)).0,
                texts(unknown@) + out.view().after(all.skip(i as int)).1,
            ),
        decreases n - i,
    {
        let ghost rest = all.skip(i as int);
        let ghost noted = unknown@;
        let ghost end = out.view().after(rest);
        assert(rest[0] == args@[i as int]@);
        assert(rest.skip(1) =~= all.skip(i + 1));
        if n - i > 1 {
            assert(rest[1] == args@[i + 1]@);
            assert(rest.skip(2) =~= all.skip(i + 2));
        }
        let arg = args[i].as_str();
        let is_index = same_text(arg, "--display-index");
        let is_dir = same_text(arg, "--out-dir");
        let is_interval = same_text(arg, "--interval-ms");
        let is_seconds = same_text(arg, "--seconds");
        if !is_index && !is_dir && !is_interval && !is_seconds {
            unknown.push(arg.to_owned());
            i += 1;
        } else if n - i == 1 {
            assert(all.skip(i + 1) =~= Seq::empty());
            i += 1;
        } else {
            let value = args[i + 1].as_str();
            if is_index {
                out.display_index = match parse_number(value, usize::MAX as u64) {
                    Ok(v) => v as usize,
                    Err(_) => 0,
                };
            } else if is_dir {
                out.out_dir = value.to_owned();
            } else if is_interval {
                out.interval_ms = match parse_number(value, u64::MAX) {
                    Ok(v) => v,
                    Err(_) => 1000,
                };
            } else {
                out.seconds = match parse_number(value, u64::MAX) {
                    Ok(v) => Some(v),
                    Err(_) => None,
                };
            }
            i += 2;
        }
        assert(texts(unknown@) + out.view().after(all.skip(i as int)).1 =~= texts(noted) + end.1);
    }
    assert(all.skip(i as int) =~= Seq::empty());
    assert(texts(unknown@) + Seq::empty() =~= texts(unknown@));
    (out, unknown)
}

/// The name of the file for a picture of a desktop, taken at a time in milliseconds.
pub open spec fn shot_name(desktop: Seq<char>, time_ms: nat) -> Seq<char> {
    sanitized(desktop) + "_"@ + decimal(time_ms) + ".png"@
}

/// Gives the name of the file for a picture.
pub fn file_name(desktop: &str, time_ms: u128) -> (name: String)
    ensures
        name@ == shot_name(desktop@, time_ms as nat),
{
    let mut name = sanitize(desktop);
    name.append("_");
    push_decimal(&mut name, time_ms);
    name.append(".png");
    assert(name@ =~= shot_name(desktop@, time_ms as nat));
    name
}

/// A channel of a picture, from the channels of the frame: red and blue change places, and a
/// transparency of zero means none.
pub open spec fn picture_byte(bgra: Seq<u8>, k: int) -> u8 {
    if k / 4 >= bgra.len() / 4 {
        0
    } else if k % 4 == 0 {
        bgra[k + 2]
    } else if k % 4 == 1 {
        bgra[k]
    } else if k % 4 == 2 {
        bgra[k - 2]
    } else if bgra[k] == 0 {
        255
    } else {
        bgra[k]
    }
}

/// The picture of a frame, with nothing where the frame ends too early.
pub open spec fn picture(bgra: Seq<u8>, width: nat, height: nat) -> Seq<u8> {
    Seq::new(width * height * 4, |k: int| picture_byte(bgra, k))
}

/// Makes a picture of a frame.
pub fn bgra_to_rgba(bgra: &[u8], width: u32, height: u32) -> (rgba: Vec<u8>)
    requires
        width * height * 4 <= u32::MAX,
    ensures
        rgba@ == picture(bgra@, width as nat, height as nat),
{
    assert(width * height >= 0) by (nonlinear_arith);
    assert(width * height <= u32::MAX);
    let pixels: usize = (width * height) as usize;
    let given: usize = bgra.len() / 4;
    let ghost want = picture(bgra@, width as nat, height as nat);
    let mut rgba: Vec<u8> = Vec::new();
    let mut i: usize = 0;
    while i < pixels
        invariant
            i <= pixels,
            pixels == width * height,
            pixels * 4 <= u32::MAX,
            given == bgra@.len() / 4,
            want == picture(bgra@, width as nat, height as nat),
            rgba@ == want.take(4 * i),
        decreases pixels - i,
    {
        let ghost k = 4 * i;
        assert(k / 4 == i && (k + 1) / 4 == i && (k + 2) / 4 == i && (k + 3) / 4 == i);
        assert(k % 4 == 0 && (k + 1) % 4 == 1 && (k + 2) % 4 == 2 && (k + 3) % 4 == 3);
        if i < given {
            let at: usize = i * 4;
            rgba.push(bgra[at + 2]);
            rgba.push(bgra[at + 1]);
            rgba.push(bgra[at]);
            rgba.push(
                if bgra[at + 3] == 0 {
                    255
                } else {
                    bgra[at + 3]
                },
            );
        } else {
            rgba.push(0);
            rgba.push(0);
            rgba.push(0);
            rgba.push(0);
        }
        i += 1;
        assert(rgba@ =~= want.take(4 * i));
    }
    assert(want.take(4 * i) =~= want);
    rgba
}

/// The width, the height and the channels (red, green, blue, alpha; row by row) of the picture
/// that a decoder of PNG files finds in a file.
pub uninterp spec fn png_picture(file: Seq<u8>) -> Option<(u32, u32, Seq<u8>)>;

/// The words in which the header of a PNG file is refused: there are no empty pictures.
pub open spec fn header_refusal(width: u32, height: u32) -> Option<Seq<char>> {
    if width == 0 {
        Some("png header: Zero width not allowed"@)
    } else if height == 0 {
        Some("png header: Zero height not allowed"@)
    } else {
        None
    }
}

/// Writes a PNG file with the `png` crate: `Encoder::new` with the color type `Rgba` and a depth
/// of eight bits, `Encoder::write_header`, and `Writer::write_image_data`. The header is refused,
/// in these words, where the picture has no width or no height; nothing else can go wrong with so
/// many bytes and a writer that does not fail. PNG loses nothing: what is written is what a
/// decoder finds. Which bytes the file is made of is left open, since that depends on how the
/// data are packed.
#[verifier::external_body]
fn write_png(rgba: &Vec<u8>, width: u32, height: u32) -> (res: Result<Vec<u8>, String>)
    requires
        width * height * 4 <= u32::MAX,
        rgba@.len() == width * height * 4,
    ensures
        match (res, header_refusal(width, height)) {
            (Ok(file), None) => png_picture(file@) == Some((width, height, rgba@)),
            (Err(text), Some(words)) => text@ == words,
            _ => false,
        },
{
    let mut file = Vec::new();
    let mut encoder = Encoder::new(&mut file, width, height);
    encoder.set_color(ColorType::Rgba);
    encoder.set_depth(BitDepth::Eight);
    let mut writer = encoder.write_header().map_err(|e| format!("png header: {e}"))?;
    writer.write_image_data(rgba).map_err(|e| format!("png data: {e}"))?;
    drop(writer);
    Ok(file)
}

/// Makes a PNG file of a frame.
pub fn encode_frame(bgra: &[u8], width: u32, height: u32) -> (res: Result<Vec<u8>, String>)
    requires
        width * height * 4 <= u32::MAX,
    ensures
        match (res, header_refusal(width, height)) {
            (Ok(file), None) => png_picture(file@) == Some(
                (width, height, picture(bgra@, width as nat, height as nat)),
            ),
            (Err(text), Some(words)) => text@ == words,
            _ => false,
        },
{
    let rgba = bgra_to_rgba(bgra, width, height);
    write_png(&rgba, width, height)
}

/// What follows asking for a frame.
#[derive(Debug, Clone, Copy, PartialEq, Eq, Structural)]
pub enum ShotStep {
    /// Read the frame and save it.
    Save,
    /// Report it and wait.
    Retry { sleep_ms: u64 },
    /// Make a new instance, keep the old one where that fails, and wait.
    Rebuild { sleep_ms: u64 },
    /// Report it.
    Report,
}

/// The state of the loop.
#[derive(Debug)]
pub struct ShotLoop {
    pub desktop: DesktopWatch,
    pub interval_ms: u64,
    pub seconds: Option<u64>,
    pub shot_count: u64,
}

impl ShotLoop {
    /// A loop that is about to start, on this desktop.
    pub fn new(desktop: String, args: &Args) -> (this: ShotLoop)
        ensures
            this.desktop.last@ == desktop@,
            this.interval_ms == args.interval_ms,
            this.seconds == args.seconds,
            this.shot_count == 0,
    {
        ShotLoop {
            desktop: DesktopWatch { last: desktop },
            interval_ms: args.interval_ms,
            seconds: args.seconds,
            shot_count: 0,
        }
    }

    /// Tells whether the loop has time left.
    pub fn goes_on(&self, elapsed_ns: u128) -> (more: bool)
        ensures
            more == match self.seconds {
                Some(seconds) => elapsed_ns < seconds * 1_000_000_000,
                None => true,
            },
    {
        match self.seconds {
            Some(seconds) => elapsed_ns < seconds as u128 * 1_000_000_000,
            None => true,
        }
    }

    /// What follows asking for a frame.
    pub open spec fn step(grab: Grab) -> ShotStep {
        match grab {
            Grab::Frame => ShotStep::Save,
            Grab::AccessLost => ShotStep::Retry { sleep_ms: 50 },
            Grab::AccessDenied => ShotStep::Retry { sleep_ms: 50 },
            Grab::Unexpected => ShotStep::Rebuild { sleep_ms: 200 },
            Grab::Other => ShotStep::Report,
        }
    }

    /// Takes the outcome of asking for a frame.
    pub fn grabbed(&self, grab: Grab) -> (step: ShotStep)
        ensures
            step == Self::step(grab),
    {
        match grab {
            Grab::Frame => ShotStep::Save,
            Grab::AccessLost => ShotStep::Retry { sleep_ms: 50 },
            Grab::AccessDenied => ShotStep::Retry { sleep_ms: 50 },
            Grab::Unexpected => ShotStep::Rebuild { sleep_ms: 200 },
            Grab::Other => ShotStep::Report,
        }
    }

    /// Counts a picture that was saved; gives its number.
    pub fn saved(&mut self) -> (number: u64)
        requires
            old(self).shot_count < u64::MAX,
        ensures
            number == old(self).shot_count + 1,
            *final(self) == (ShotLoop { shot_count: number, ..*old(self) }),
    {
        self.shot_count = self.shot_count + 1;
        self.shot_count
    }

    /// Tells how long to wait at the end of a round that took so long.
    pub fn rest(&self, took_ns: u128) -> (sleep_ns: u128)
        ensures
            sleep_ns == if took_ns < self.interval_ms * 1_000_000 {
                self.interval_ms * 1_000_000 - took_ns
            } else {
                0
            },
    {
        let interval: u128 = self.interval_ms as u128 * 1_000_000;
        if took_ns < interval {
            interval - took_ns
        } else {
            0
        }
    }
}

/// Every pixel of a frame is in its picture, with the colors in their places and never invisible.
pub proof fn law_picture_shows_the_frame(bgra: Seq<u8>, width: nat, height: nat, i: int)
    requires
        0 <= i < width * height,
        i < bgra.len() / 4,
    ensures
        ({
            let rgba = picture(bgra, width, height);
            &&& rgba[4 * i] == bgra[4 * i + 2]
            &&& rgba[4 * i + 1] == bgra[4 * i + 1]
            &&& rgba[4 * i + 2] == bgra[4 * i]
            &&& rgba[4 * i + 3] != 0
        }),
{
    let k = 4 * i;
    assert(k / 4 == i && (k + 1) / 4 == i && (k + 2) / 4 == i && (k + 3) / 4 == i);
    assert(k % 4 == 0 && (k + 1) % 4 == 1 && (k + 2) % 4 == 2 && (k + 3) % 4 == 3);
}

/// Files with the same name hold pictures of the same time, and of desktops whose names are the
/// same once they are fit for a file name.
pub proof fn law_shot_names_differ(a: Seq<char>, s: nat, b: Seq<char>, t: nat)
    requires
        shot_name(a, s) == shot_name(b, t),
    ensures
        sanitized(a) == sanitized(b),
        s == t,
{
    reveal_strlit("_");
    reveal_strlit(".png");
    let u = shot_name(a, s);
    let p = sanitized(a).len() as int;
    let q = sanitized(b).len() as int;
    let ds = decimal(s);
    let dt = decimal(t);
    law_decimal_is_digits(s);
    law_decimal_is_digits(t);
    assert(u.len() == p + 1 + ds.len() + 4);
    assert(u.len() == q + 1 + dt.len() + 4);
    assert(u[p] == '_');
    assert(u[q] == '_') by {
        assert(shot_name(b, t)[q] == '_');
    }
    if p < q {
        assert(u[q] == ds[q - p - 1]);
        assert(is_digit(ds[q - p - 1]));
    }
    if q < p {
        assert(shot_name(b, t)[p] == dt[p - q - 1]);
        assert(is_digit(dt[p - q - 1]));
    }
    assert(sanitized(a) =~= u.take(p));
    assert(sanitized(b) =~= shot_name(b, t).take(q));
    assert(ds =~= u.subrange(p + 1, p + 1 + ds.len()));
    assert(dt =~= shot_name(b, t).subrange(q + 1, q + 1 + dt.len()));
    let max = if s > t {
        s
    } else {
        t
    };
    law_number_of_decimal(s, max);
    law_number_of_decimal(t, max);
}

/// Each option sets its own field to the number or the text that follows it and leaves the others;
/// reading then goes on behind the value.
pub proof fn law_each_option_sets_its_field(
    view: ArgsView,
    index: nat,
    n: nat,
    text: Seq<char>,
    rest: Seq<Seq<char>>,
)
    requires
        index <= usize::MAX,
        n <= u64::MAX,
    ensures
        view.after(seq!["--display-index"@, decimal(index)] + rest) == (ArgsView {
            display_index: index,
            ..view
        }).after(rest),
        view.after(seq!["--out-dir"@, text] + rest) == (ArgsView { out_dir: text, ..view }).after(
            rest,
        ),
        view.after(seq!["--interval-ms"@, decimal(n)] + rest) == (ArgsView {
            interval_ms: n,
            ..view
        }).after(rest),
        view.after(seq!["--seconds"@, decimal(n)] + rest) == (ArgsView {
            seconds: Some(n),
            ..view
        }).after(rest),
{
    lemma_option_names();
    law_number_of_decimal(index, usize::MAX as nat);
    law_number_of_decimal(n, u64::MAX as nat);
    assert((seq!["--display-index"@, decimal(index)] + rest).skip(2) =~= rest);
    assert((seq!["--out-dir"@, text] + rest).skip(2) =~= rest);
    assert((seq!["--interval-ms"@, decimal(n)] + rest).skip(2) =~= rest);
    assert((seq!["--seconds"@, decimal(n)] + rest).skip(2) =~= rest);
}

/// The names of the options differ.
proof fn lemma_option_names()
    ensures
        "--display-index"@ != "--out-dir"@,
        "--display-index"@ != "--interval-ms"@,
        "--display-index"@ != "--seconds"@,
        "--out-dir"@ != "--interval-ms"@,
        "--out-dir"@ != "--seconds"@,
        "--interval-ms"@ != "--seconds"@,
{
    reveal_strlit("--display-index");
    reveal_strlit("--out-dir");
    reveal_strlit("--interval-ms");
    reveal_strlit("--seconds");
    assert("--display-index"@[2] == 'd');
    assert("--out-dir"@[2] == 'o');
    assert("--interval-ms"@[2] == 'i');
    assert("--seconds"@[2] == 's');
}

/// A value that is no number stands for what holds where nothing is said: the first display, a
/// second between pictures, and no end.
pub proof fn law_bad_numbers_stand_for_the_standard(
    view: ArgsView,
    value: Seq<char>,
    rest: Seq<Seq<char>>,
)
    ensures
        number_value(value, usize::MAX as nat) is Err ==> view.after(
            seq!["--display-index"@, value] + rest,
        ) == (ArgsView { display_index: 0, ..view }).after(rest),
        number_value(value, u64::MAX as nat) is Err ==> view.after(
            seq!["--interval-ms"@, value] + rest,
        ) == (ArgsView { interval_ms: 1000, ..view }).after(rest),
        number_value(value, u64::MAX as nat) is Err ==> view.after(seq!["--seconds"@, value] + rest)
            == (ArgsView { seconds: None, ..view }).after(rest),
{
    lemma_option_names();
    assert((seq!["--display-index"@, value] + rest).skip(2) =~= rest);
    assert((seq!["--interval-ms"@, value] + rest).skip(2) =~= rest);
    assert((seq!["--seconds"@, value] + rest).skip(2) =~= rest);
}

/// An argument that is no option is passed over and noted, and reading goes on behind it; an option
/// at the very end is passed over in silence.
pub proof fn law_unknown_arguments_are_passed_over(
    view: ArgsView,
    arg: Seq<char>,
    rest: Seq<Seq<char>>,
)
    ensures
        arg != "--display-index"@ && arg != "--out-dir"@ && arg != "--interval-ms"@ && arg
            != "--seconds"@ ==> view.after(seq![arg] + rest) == (
            view.after(rest).0,
            seq![arg] + view.after(rest).1,
        ),
        arg == "--display-index"@ || arg == "--out-dir"@ || arg == "--interval-ms"@ || arg
            == "--seconds"@ ==> view.after(seq![arg]) == (view, Seq::<Seq<char>>::empty()),
        view.after(Seq::empty()) == (view, Seq::<Seq<char>>::empty()),
{
    assert((seq![arg] + rest).skip(1) =~= rest);
}

/// What the command line says is what the tool does, starting from the standard; nothing said means
/// the first display, a directory of its own, a second between pictures, and no end.
pub proof fn law_arguments_start_from_the_standard(
    args: &Vec<String>,
    parsed: (Args, Vec<String>),
    read: (ArgsView, Seq<Seq<char>>),
)
    requires
        call_ensures(parse_args, (args,), parsed),
        (ArgsView {
            display_index: 0,
            out_dir: "desktop-shot/output"@,
            interval_ms: 1000,
            seconds: None,
        }).after(texts(args@)) == read,
    ensures
        parsed.0.display_index == read.0.display_index,
        parsed.0.out_dir@ == read.0.out_dir,
        parsed.0.interval_ms == read.0.interval_ms,
        parsed.0.seconds is Some <==> read.0.seconds is Some,
        parsed.0.seconds matches Some(n) ==> n == read.0.seconds->0,
        parsed.1@.len() == read.1.len(),
        forall|i: int| 0 <= i < read.1.len() ==> (#[trigger] parsed.1@[i])@ == read.1[i],
{
    assert(texts(parsed.1@) == read.1);
    assert(texts(parsed.1@).len() == parsed.1@.len());
    assert forall|i: int| 0 <= i < read.1.len() implies (#[trigger] parsed.1@[i])@ == read.1[i] by {
        assert(texts(parsed.1@)[i] == parsed.1@[i]@);
    }
}

/// The name of a file is the name of the desktop fit for a file name, an underscore, the time in
/// decimal and the ending of PNG files.
pub proof fn law_parts_of_a_file_name(
    desktop: &str,
    time_ms: u128,
    name: String,
    fit: String,
    time: String,
)
    requires
        call_ensures(file_name, (desktop, time_ms), name),
        call_ensures(sanitize, (desktop,), fit),
        call_ensures(crate::text::to_decimal, (time_ms,), time),
    ensures
        name@ == fit@ + "_"@ + time@ + ".png"@,
{
}

/// Each pixel of a picture shows the pixel of the frame in its place: red and blue change places,
/// green stays, and a fully transparent pixel becomes opaque. Where the frame ends too early the
/// picture is empty.
pub proof fn law_picture_pixel_by_pixel(
    bgra: &[u8],
    width: u32,
    height: u32,
    rgba: Vec<u8>,
    i: int,
)
    requires
        width * height * 4 <= u32::MAX,
        call_ensures(bgra_to_rgba, (bgra, width, height), rgba),
        0 <= i < width * height,
    ensures
        rgba@.len() == width * height * 4,
        4 * i + 4 <= bgra@.len() ==> {
            &&& rgba@[4 * i] == bgra@[4 * i + 2]
            &&& rgba@[4 * i + 1] == bgra@[4 * i + 1]
            &&& rgba@[4 * i + 2] == bgra@[4 * i]
            &&& bgra@[4 * i + 3] != 0 ==> rgba@[4 * i + 3] == bgra@[4 * i + 3]
            &&& bgra@[4 * i + 3] == 0 ==> rgba@[4 * i + 3] == 255
        },
        4 * i + 4 > bgra@.len() ==> rgba@[4 * i] == 0 && rgba@[4 * i + 1] == 0 && rgba@[4 * i + 2]
            == 0 && rgba@[4 * i + 3] == 0,
{
    let k = 4 * i;
    assert(k / 4 == i && (k + 1) / 4 == i && (k + 2) / 4 == i && (k + 3) / 4 == i);
    assert(k % 4 == 0 && (k + 1) % 4 == 1 && (k + 2) % 4 == 2 && (k + 3) % 4 == 3);
}

/// A decoder finds in the file of a frame what the frame was: a picture of its size, with the same
/// channels as the picture made of the frame. Only frames without width or height have no file.
pub proof fn law_file_holds_the_picture(
    bgra: &[u8],
    width: u32,
    height: u32,
    res: Result<Vec<u8>, String>,
    rgba: Vec<u8>,
)
    requires
        width * height * 4 <= u32::MAX,
        call_ensures(encode_frame, (bgra, width, height), res),
        call_ensures(bgra_to_rgba, (bgra, width, height), rgba),
    ensures
        res is Ok <==> width > 0 && height > 0,
        res matches Ok(file) ==> png_picture(file@) == Some((width, height, rgba@)),
        res matches Err(words) ==> words@ == (if width == 0 {
            "png header: Zero width not allowed"@
        } else {
            "png header: Zero height not allowed"@
        }),
{
}

/// The loop ends when its seconds have passed, and never where none were given.
pub proof fn law_loop_ends_in_time(this: &ShotLoop, elapsed_ns: u128, more: bool)
    requires
        call_ensures(ShotLoop::goes_on, (this, elapsed_ns), more),
    ensures
        this.seconds is None ==> more,
        this.seconds matches Some(seconds) ==> (more <==> elapsed_ns < seconds * 1_000_000_000),
{
}

/// The loop starts on its desktop with what the arguments say and no picture saved; each picture
/// that is saved gets the next number and changes nothing else.
pub proof fn law_pictures_are_numbered(
    desktop: String,
    args: &Args,
    fresh: ShotLoop,
    this: &mut ShotLoop,
    number: u64,
)
    requires
        call_ensures(ShotLoop::new, (desktop, args), fresh),
        old(this).shot_count < u64::MAX,
        call_ensures(ShotLoop::saved, (this,), number),
    ensures
        fresh.desktop.last@ == desktop@,
        fresh.interval_ms == args.interval_ms,
        fresh.seconds == args.seconds,
        fresh.shot_count == 0,
        number == old(this).shot_count + 1,
        final(this).shot_count == number,
        final(this).interval_ms == old(this).interval_ms,
        final(this).seconds == old(this).seconds,
        final(this).desktop == old(this).desktop,
{
}

/// A frame is saved; a loss or a denial is waited out for 50 milliseconds, a broken instance is made
/// anew with a wait of 200, and any other failure is reported. No failure ends the loop.
pub proof fn law_failures_are_survived(this: &ShotLoop, grab: Grab, step: ShotStep)
    requires
        call_ensures(ShotLoop::grabbed, (this, grab), step),
    ensures
        step is Save <==> grab is Frame,
        grab is AccessLost || grab is AccessDenied ==> step == (ShotStep::Retry { sleep_ms: 50 }),
        grab is Unexpected ==> step == (ShotStep::Rebuild { sleep_ms: 200 }),
        grab is Other ==> step == ShotStep::Report,
{
}

/// A round and its rest together take the interval, or as long as the round took where that was
/// longer.
pub proof fn law_round_and_rest_fill_the_interval(this: &ShotLoop, took_ns: u128, sleep_ns: u128)
    requires
        call_ensures(ShotLoop::rest, (this, took_ns), sleep_ns),
    ensures
        took_ns + sleep_ns == vstd::math::max(took_ns as int, this.interval_ms * 1_000_000),
{
}

} // verus!
