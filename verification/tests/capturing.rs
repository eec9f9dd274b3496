use ddagrab_proxy::capture::{
    display_desktop_origin, frame_to_send, parse_args, select_display, CaptureLoop, CaptureStep,
    Grab, Timing,
};
use ddagrab_proxy::cursor::{CursorShape, CursorSighting, CursorState};
use ddagrab_proxy::i420::bgra_to_i420;

fn strings(args: &[&str]) -> Vec<String> {
    args.iter().map(|s| s.to_string()).collect()
}

const FULL: [&str; 10] = [
    "--display-index", "1", "--width", "1920", "--height", "1080", "--fps", "60", "--ffmpeg-path", "ffmpeg.exe",
];

#[test]
fn a_full_command_line() {
    let args = parse_args(&strings(&FULL)).unwrap();
    assert_eq!((args.display_index, args.width, args.height, args.fps), (1, 1920, 1080, 60));
    assert_eq!(args.ffmpeg_path, "ffmpeg.exe");
    assert!(args.ffmpeg_args.is_empty());
}

#[test]
fn arguments_of_ffmpeg_add_up_and_other_options_are_replaced() {
    let mut line = FULL.to_vec();
    line.extend(["--ffmpeg-arg", "-f", "--ffmpeg-arg", "--fps", "--fps", "+30"]);
    let args = parse_args(&strings(&line)).unwrap();
    assert_eq!(args.ffmpeg_args, vec!["-f", "--fps"]);
    assert_eq!(args.fps, 30);
}

#[test]
fn missing_options() {
    let wanted = [
        (0, "--display-index is required"),
        (2, "--width is required"),
        (4, "--height is required"),
        (6, "--fps is required"),
        (8, "--ffmpeg-path is required"),
    ];
    for (at, words) in wanted {
        let mut line = FULL.to_vec();
        line.drain(at..at + 2);
        assert_eq!(parse_args(&strings(&line)).unwrap_err(), words);
    }
    assert_eq!(parse_args(&Vec::new()).unwrap_err(), "--display-index is required");
}

#[test]
fn bad_command_lines() {
    assert_eq!(parse_args(&strings(&["--nope"])).unwrap_err(), "unknown argument: --nope");
    assert_eq!(parse_args(&strings(&["--fps"])).unwrap_err(), "missing value for --fps");
    assert_eq!(parse_args(&strings(&["--ffmpeg-arg"])).unwrap_err(), "missing value for --ffmpeg-arg");
    assert_eq!(
        parse_args(&strings(&["--width", ""])).unwrap_err(),
        "cannot parse integer from empty string"
    );
    assert_eq!(
        parse_args(&strings(&["--height", "10px", "--nope"])).unwrap_err(),
        "invalid digit found in string"
    );
    assert_eq!(
        parse_args(&strings(&["--fps", "4294967296"])).unwrap_err(),
        "number too large to fit in target type"
    );
}

#[test]
fn displays_are_numbered_through() {
    let counts = vec![2, 0, 3];
    let wanted = [(0, 0), (0, 1), (2, 0), (2, 1), (2, 2)];
    for (i, want) in wanted.iter().enumerate() {
        assert_eq!(select_display(&counts, i), Some(*want));
    }
    assert_eq!(select_display(&counts, 5), None);
    assert_eq!(select_display(&Vec::new(), 0), None);
}

#[test]
fn origins_of_displays() {
    assert_eq!(display_desktop_origin("\\\\.\\DISPLAY1", Some((0x20, -1920, 5))), (-1920, 5));
    assert_eq!(display_desktop_origin("\\\\.\\DISPLAY1", Some((0x5c0020, 1, 2))), (1, 2));
    assert_eq!(display_desktop_origin("\\\\.\\DISPLAY1", Some((0x1f, 1, 2))), (0, 0));
    assert_eq!(display_desktop_origin("\\\\.\\DISPLAY1", None), (0, 0));
    assert_eq!(display_desktop_origin("a\0b", Some((0x20, 1, 2))), (0, 0));
}

#[test]
fn losses_are_reported_sparsely() {
    let mut this = CaptureLoop::new("Default".to_string(), 16_666_667);
    let mut reported = Vec::new();
    for i in 1..=205u64 {
        match this.grabbed(Grab::AccessLost) {
            CaptureStep::Retry { log, sleep_ms } => {
                assert_eq!(sleep_ms, 50);
                if log {
                    reported.push(i);
                }
            }
            other => panic!("{other:?}"),
        }
    }
    assert_eq!(reported, vec![1, 2, 3, 100, 200]);
    assert_eq!(this.stats.access_lost_count, 205);
}

#[test]
fn other_outcomes() {
    let mut this = CaptureLoop::new("Default".to_string(), 1);
    assert_eq!(this.grabbed(Grab::Frame), CaptureStep::Process);
    assert_eq!(this.grabbed(Grab::AccessDenied), CaptureStep::Retry { log: true, sleep_ms: 50 });
    assert_eq!(this.grabbed(Grab::Other), CaptureStep::Retry { log: true, sleep_ms: 50 });
    assert_eq!(this.grabbed(Grab::Unexpected), CaptureStep::Rebuild { sleep_ms: 200 });
    assert_eq!(this.stats.access_lost_count, 0);
}

#[test]
fn frames_are_counted_and_timed() {
    let mut this = CaptureLoop::new("Default".to_string(), 1);
    for i in 1..=7u64 {
        assert_eq!(this.frame_sent(10 * i, i, true, 100), (true, i <= 5));
    }
    assert_eq!(this.stats.frame_count, 7);
    assert_eq!(this.stats.acquire, Timing { total_ns: 280, max_ns: 70 });
    assert_eq!(this.stats.convert, Timing { total_ns: 28, max_ns: 7 });
    assert_eq!(this.stats.write, Timing { total_ns: 700, max_ns: 100 });
    assert_eq!(this.frame_sent(1, 1, false, 9), (false, false));
    assert_eq!((this.stats.frame_count, this.stats.stat_frame_count), (7, 8));
    assert_eq!(this.stats.write.total_ns, 700);
}

#[test]
fn reports_come_every_five_seconds() {
    let mut this = CaptureLoop::new("Default".to_string(), 1);
    this.frame_sent(5, 6, true, 7);
    assert!(this.report_due(4_999_999_999, 0).is_none());
    let report = this.report_due(5_000_000_000, 5_000_000_100).unwrap();
    assert_eq!((report.frame_count, report.stat_frame_count), (1, 1));
    assert_eq!(report.write, Timing { total_ns: 7, max_ns: 7 });
    assert_eq!((this.stats.frame_count, this.stats.stat_frame_count), (1, 0));
    assert_eq!(this.stats.acquire, Timing { total_ns: 0, max_ns: 0 });
    assert!(this.report_due(10_000_000_000, 0).is_none());
    assert!(this.report_due(10_000_000_100, 10_000_000_100).is_some());
}

#[test]
fn frames_are_paced() {
    let mut this = CaptureLoop::new("Default".to_string(), 100);
    assert_eq!(this.pace(30), 70);
    assert_eq!(this.pace(150), 50);
    assert_eq!(this.pace(450), 0);
    assert_eq!(this.next_frame_ns, 450);
    assert_eq!(this.pace(500), 50);
    assert_eq!(this.next_frame_ns, 550);
}

#[test]
fn frames_are_converted_with_the_cursor_on_them() {
    let mut bgra = vec![0u8; 2 * 2 * 4];
    let mut state = CursorState::new();
    let shape = CursorShape { hotspot_x: 0, hotspot_y: 0, bitmap: Some((vec![255, 255, 255, 255], 1, 1)) };
    let sighting = CursorSighting::Shown { handle: 3, x: 101, y: 50, shape: Some(shape) };
    let yuv = frame_to_send(&mut bgra, 2, 2, 100, 50, &mut state, sighting);
    assert_eq!(bgra[4..8], [255, 255, 255, 0]);
    assert_eq!(yuv, vec![0, 255, 0, 0, 128, 128]);
    assert_eq!(yuv, bgra_to_i420(&bgra, 2, 2));
    assert_eq!(state.handle, 3);
}
