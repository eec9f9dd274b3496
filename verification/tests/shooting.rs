use ddagrab_proxy::capture::Grab;
use ddagrab_proxy::shot::{bgra_to_rgba, encode_frame, file_name, parse_args, ShotLoop, ShotStep};

fn strings(args: &[&str]) -> Vec<String> {
    args.iter().map(|s| s.to_string()).collect()
}

#[test]
fn the_standard_shot() {
    let (args, unknown) = parse_args(&Vec::new());
    assert_eq!((args.display_index, args.interval_ms, args.seconds), (0, 1000, None));
    assert_eq!(args.out_dir, "desktop-shot/output");
    assert!(unknown.is_empty());
}

#[test]
fn options_of_the_shot() {
    let (args, unknown) = parse_args(&strings(&[
        "--display-index", "2", "--out-dir", "d", "--interval-ms", "500", "--seconds", "9",
    ]));
    assert_eq!((args.display_index, args.interval_ms, args.seconds), (2, 500, Some(9)));
    assert_eq!(args.out_dir, "d");
    assert!(unknown.is_empty());
}

#[test]
fn strange_command_lines_of_the_shot() {
    let (args, unknown) = parse_args(&strings(&[
        "x", "--display-index", "-1", "--interval-ms", "fast", "--seconds", "9", "--seconds", "never", "y",
        "--out-dir",
    ]));
    assert_eq!((args.display_index, args.interval_ms, args.seconds), (0, 1000, None));
    assert_eq!(args.out_dir, "desktop-shot/output");
    assert_eq!(unknown, vec!["x", "y"]);
    let (args, unknown) = parse_args(&strings(&["--out-dir", "--seconds", "3"]));
    assert_eq!(args.out_dir, "--seconds");
    assert_eq!(unknown, vec!["3"]);
}

#[test]
fn names_of_pictures() {
    assert_eq!(file_name("Default", 1700000000123), "Default_1700000000123.png");
    assert_eq!(file_name("unknown-Error { }", 0), "unknown-Error_____0.png");
    assert_ne!(file_name("Default", 1), file_name("Default", 2));
    assert_ne!(file_name("Default", 1), file_name("Winlogon", 1));
}

#[test]
fn colors_change_places() {
    let rgba = bgra_to_rgba(&[1, 2, 3, 0, 4, 5, 6, 128, 9, 9], 3, 1);
    assert_eq!(rgba, vec![3, 2, 1, 255, 6, 5, 4, 128, 0, 0, 0, 0]);
    assert_eq!(bgra_to_rgba(&[1, 2, 3, 4, 5, 6, 7, 8], 1, 1), vec![3, 2, 1, 4]);
    assert!(bgra_to_rgba(&[1, 2, 3, 4], 0, 5).is_empty());
}

#[test]
fn pictures_are_png_files() {
    let (w, h) = (33u32, 17u32);
    let bgra: Vec<u8> = (0..w * h * 4).map(|i| (i * 7 % 251) as u8).collect();
    let file = encode_frame(&bgra, w, h).unwrap();
    let mut reader = png::Decoder::new(&file[..]).read_info().unwrap();
    assert_eq!(reader.info().color_type, png::ColorType::Rgba);
    assert_eq!(reader.info().bit_depth, png::BitDepth::Eight);
    let mut pixels = vec![0; reader.output_buffer_size()];
    let info = reader.next_frame(&mut pixels).unwrap();
    assert_eq!((info.width, info.height), (w, h));
    assert_eq!(pixels[..info.buffer_size()], bgra_to_rgba(&bgra, w, h)[..]);
}

#[test]
fn empty_pictures_are_refused() {
    assert_eq!(encode_frame(&[], 0, 4).unwrap_err(), "png header: Zero width not allowed");
    assert_eq!(encode_frame(&[], 4, 0).unwrap_err(), "png header: Zero height not allowed");
    assert_eq!(encode_frame(&[], 0, 0).unwrap_err(), "png header: Zero width not allowed");
}

#[test]
fn the_loop_of_the_shot() {
    let (args, _) = parse_args(&strings(&["--interval-ms", "500", "--seconds", "2"]));
    let mut this = ShotLoop::new("Default".to_string(), &args);
    assert!(this.goes_on(1_999_999_999));
    assert!(!this.goes_on(2_000_000_000));
    assert_eq!(this.grabbed(Grab::Frame), ShotStep::Save);
    assert_eq!(this.grabbed(Grab::AccessLost), ShotStep::Retry { sleep_ms: 50 });
    assert_eq!(this.grabbed(Grab::AccessDenied), ShotStep::Retry { sleep_ms: 50 });
    assert_eq!(this.grabbed(Grab::Unexpected), ShotStep::Rebuild { sleep_ms: 200 });
    assert_eq!(this.grabbed(Grab::Other), ShotStep::Report);
    assert_eq!(this.saved(), 1);
    assert_eq!(this.saved(), 2);
    assert_eq!(this.rest(100_000_000), 400_000_000);
    assert_eq!(this.rest(500_000_000), 0);
    assert_eq!(this.rest(u128::MAX), 0);
}

#[test]
fn a_shot_without_an_end() {
    let (args, _) = parse_args(&Vec::new());
    let this = ShotLoop::new("Default".to_string(), &args);
    assert!(this.goes_on(u128::MAX));
}
