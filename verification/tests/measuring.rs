use ddagrab_proxy::clock::elapsed;
use ddagrab_proxy::harness::{ffmpeg_args, shell_execute_failed, Look, Run, RunPlan};
use ddagrab_proxy::logging::{log_line, log_path, proxy_log_line, proxy_log_path};
use ddagrab_proxy::sink::{is_done, Meter, Sample};
use ddagrab_proxy::vdd::{
    display_size, ends_on, find_dxgi_output_index, ready_line, removed_line,
};

#[test]
fn samples_are_taken_at_intervals() {
    let mut m = Meter::new(500);
    assert_eq!(m.received(1000, 100_000_000), None);
    assert_eq!(m.received(24, 499_999_999), None);
    assert_eq!(
        m.received(1, 500_000_000),
        Some(Sample { elapsed_ms: 500, total_bytes: 1025, interval_bytes: 1025, interval_ns: 500_000_000 })
    );
    assert_eq!(m.received(5, 600_000_000), None);
    assert_eq!(
        m.received(0, 601_500_000),
        Some(Sample { elapsed_ms: 601, total_bytes: 1030, interval_bytes: 5, interval_ns: 101_500_000 })
    );
}

#[test]
fn no_byte_is_lost_between_samples() {
    let mut m = Meter::new(3);
    let mut sampled = 0;
    let mut brought = 0;
    for i in 1..500u64 {
        brought += i;
        if let Some(s) = m.received(i, i * 700_000) {
            sampled += s.interval_bytes;
            assert_eq!(s.total_bytes, brought);
        }
        assert_eq!(sampled + m.interval_bytes, brought);
    }
    let s = m.received(0, 1_000_000_000).unwrap();
    assert_eq!(sampled + s.interval_bytes, brought);
}

#[test]
fn connections_are_limited() {
    assert!(!is_done(0, 1));
    assert!(is_done(1, 1));
    assert!(!is_done(1_000_000, 0));
    assert!(is_done(3, 2));
}

fn run() -> Run {
    Run::new(RunPlan { duration_secs: 30, trigger_after_secs: 5, trigger_count: 2, trigger_interval_secs: 5 })
}

#[test]
fn switches_are_triggered_on_time() {
    let s = 1_000_000_000u64;
    let mut r = run();
    let nothing = Look { trigger: false, give_up: false };
    let trigger = Look { trigger: true, give_up: false };
    assert_eq!(r.look(0), nothing);
    assert_eq!(r.look(5 * s - 1), nothing);
    assert_eq!(r.look(6 * s), trigger);
    assert_eq!(r.look(10 * s), nothing);
    assert_eq!(r.look(11 * s), trigger);
    assert_eq!(r.triggered, 2);
    assert_eq!(r.look(39 * s), nothing);
    assert_eq!(r.look(40 * s), Look { trigger: false, give_up: true });
    let mut late = run();
    assert_eq!(late.look(40 * s), Look { trigger: true, give_up: true });
}

#[test]
fn arguments_of_the_capture() {
    assert_eq!(
        ffmpeg_args(30),
        vec!["-hide_banner", "-f", "lavfi", "-i", "ddagrab", "-t", "30", "-f", "null", "-"]
    );
}

#[test]
fn shell_codes() {
    assert!(shell_execute_failed(32));
    assert!(shell_execute_failed(-1));
    assert!(!shell_execute_failed(33));
}

fn wide(name: &str) -> Vec<u16> {
    let mut units: Vec<u16> = name.encode_utf16().collect();
    units.resize(32, 0);
    units
}

#[test]
fn the_output_of_a_display() {
    let descs = vec![wide("\\\\.\\DISPLAY1"), wide("\\\\.\\DISPLAY34"), wide("\\\\.\\display34")];
    assert_eq!(find_dxgi_output_index(&descs, "\\\\.\\Display34"), Some(1));
    assert_eq!(find_dxgi_output_index(&descs, "\\\\.\\DISPLAY3"), None);
    assert_eq!(find_dxgi_output_index(&Vec::new(), "x"), None);
}

#[test]
fn the_words_of_the_display_helper() {
    assert_eq!(display_size(Some((2560, 1440))), (2560, 1440));
    assert_eq!(display_size(None), (1920, 1080));
    assert_eq!(display_size(Some((-1, 0))), (u32::MAX, 0));
    assert_eq!(ready_line(0, 3, 1920, 1080), "monitor_id=0 output_idx=3 width=1920 height=1080");
    assert_eq!(ready_line(-2, 0, 0, 1), "monitor_id=-2 output_idx=0 width=0 height=1");
    assert_eq!(removed_line(7), "removed monitor_id=7");
}

#[test]
fn the_command_to_end() {
    for line in ["remove", "REMOVE", "  Remove\r", "\tremove \n"] {
        assert!(ends_on(Some(line)), "{line:?}");
    }
    for line in ["", "removed", "re move", "rm"] {
        assert!(!ends_on(Some(line)), "{line:?}");
    }
    assert!(ends_on(None));
}

#[test]
fn lines_of_the_log() {
    assert_eq!(log_line(0, "loaded"), "[dda_hook_core] [t=0ms] loaded\n");
    assert_eq!(log_line(123456, "a\nb"), "[dda_hook_core] [t=123456ms] a\nb\n");
    assert_eq!(proxy_log_line(7, "loaded"), "[ddagrab_proxy] [t=7ms] loaded\n");
}

#[test]
fn logs_are_kept_next_to_the_library() {
    assert_eq!(log_path(Some("C:\\ffmpeg\\bin"), "T"), "C:\\ffmpeg\\bin\\dda_hook_core.log");
    assert_eq!(log_path(Some("C:\\"), "T"), "C:\\dda_hook_core.log");
    assert_eq!(log_path(Some("C:/x/"), "T"), "C:/x/dda_hook_core.log");
    assert_eq!(log_path(Some("C:"), "T"), "C:dda_hook_core.log");
    assert_eq!(log_path(Some("1:"), "T"), "1:\\dda_hook_core.log");
    assert_eq!(log_path(Some(""), "T"), "dda_hook_core.log");
    assert_eq!(log_path(None, "C:\\Temp"), "C:\\Temp\\dda_hook_core.log");
    assert_eq!(log_path(None, "C:\\Temp\\"), "C:\\Temp\\dda_hook_core.log");
    assert_eq!(proxy_log_path(Some("D:\\b"), "T"), "D:\\b\\ddagrab_proxy.log");
    assert_eq!(proxy_log_path(None, "T"), "T\\ddagrab_proxy.log");
}

#[test]
fn a_clock_that_runs_backwards_stands_still() {
    assert_eq!(elapsed(5, 3), 2);
    assert_eq!(elapsed(3, 5), 0);
    let mut m = Meter::new(1);
    assert!(m.received(1, 2_000_000).is_some());
    assert_eq!(m.received(1, 1_000_000), None);
}
