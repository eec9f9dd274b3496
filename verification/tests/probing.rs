use ddagrab_proxy::dxgi::{ACCESS_DENIED, ACCESS_LOST, INVALID_CALL, WAIT_TIMEOUT};
use ddagrab_proxy::probe::{parse_args, Probe, ProbeArgs, ProbeStep, Remark, Strategy};

fn strings(args: &[&str]) -> Vec<String> {
    args.iter().map(|s| s.to_string()).collect()
}

fn probe(strategy: Strategy, skip: bool) -> Probe {
    Probe::new(
        ProbeArgs { strategy, seconds: 30, skip_rebuild_while_secure: skip },
        "Default".to_string(),
    )
}

#[test]
fn strategies_have_names() {
    assert_eq!(Strategy::parse("none"), Some(Strategy::DoNothing));
    assert_eq!(Strategy::parse("reattach"), Some(Strategy::Reattach));
    assert_eq!(Strategy::parse("reduplicate"), Some(Strategy::Reduplicate));
    assert_eq!(Strategy::parse("full-rebuild"), Some(Strategy::FullRebuild));
    assert_eq!(Strategy::parse("None"), None);
    assert_eq!(Strategy::parse(""), None);
}

#[test]
fn the_standard_probe() {
    let (args, remarks) = parse_args(&Vec::new());
    assert_eq!(args, ProbeArgs { strategy: Strategy::FullRebuild, seconds: 30, skip_rebuild_while_secure: true });
    assert!(remarks.is_empty());
}

#[test]
fn options_of_the_probe() {
    let (args, remarks) = parse_args(&strings(&[
        "--strategy", "reattach", "--allow-rebuild-while-secure", "--seconds", "5",
    ]));
    assert_eq!(args, ProbeArgs { strategy: Strategy::Reattach, seconds: 5, skip_rebuild_while_secure: false });
    assert!(remarks.is_empty());
}

#[test]
fn strange_command_lines_of_the_probe() {
    let (args, remarks) = parse_args(&strings(&[
        "--what", "--strategy", "magic", "--seconds", "soon", "--strategy",
    ]));
    assert_eq!(args, ProbeArgs { strategy: Strategy::FullRebuild, seconds: 30, skip_rebuild_while_secure: true });
    assert_eq!(remarks.len(), 2);
    assert!(matches!(&remarks[0], Remark::UnknownArgument(s) if s == "--what"));
    assert!(matches!(&remarks[1], Remark::UnknownStrategy(s) if s == "magic"));
    let (args, _) = parse_args(&strings(&["--strategy", "none", "--strategy", "magic"]));
    assert_eq!(args.strategy, Strategy::FullRebuild);
}

#[test]
fn the_probe_runs_for_its_time() {
    let p = probe(Strategy::DoNothing, true);
    assert!(p.goes_on(0));
    assert!(p.goes_on(29_999_999_999));
    assert!(!p.goes_on(30_000_000_000));
}

#[test]
fn frames_and_failures_are_counted() {
    let mut p = probe(Strategy::FullRebuild, true);
    assert_eq!(p.acquired(Ok(())), ProbeStep::Release);
    assert_eq!(p.acquired(Err(WAIT_TIMEOUT)), ProbeStep::Idle);
    assert_eq!(p.acquired(Err(ACCESS_LOST)), ProbeStep::Attach);
    assert_eq!(p.acquired(Err(ACCESS_DENIED)), ProbeStep::Attach);
    assert_eq!(p.acquired(Err(INVALID_CALL)), ProbeStep::ReportUnexpected);
    assert_eq!((p.frame_count, p.fail_count), (1, 2));
}

#[test]
fn the_passive_probe_does_nothing() {
    let mut p = probe(Strategy::DoNothing, true);
    assert_eq!(p.acquired(Err(ACCESS_LOST)), ProbeStep::ReportLoss);
    assert_eq!(p.fail_count, 1);
}

#[test]
fn reactions_to_a_loss() {
    let name = |s: &str| Some(s.to_string());
    let mut p = probe(Strategy::Reattach, true);
    assert_eq!(p.attached(name("Winlogon")), (ProbeStep::Idle, true));
    assert_eq!(p.attached(name("Winlogon")), (ProbeStep::Idle, false));
    assert_eq!(p.desktop.last, "Winlogon");
    let mut p = probe(Strategy::Reduplicate, true);
    assert_eq!(p.attached(name("winlogon")), (ProbeStep::SkipSecure, false));
    assert_eq!(p.attached(name("Default")), (ProbeStep::Reduplicate, false));
    assert_eq!(p.attached(None), (ProbeStep::Reduplicate, false));
    assert_eq!(p.desktop.last, "Default");
    let mut p = probe(Strategy::FullRebuild, true);
    assert_eq!(p.attached(name("Screen-saver")), (ProbeStep::SkipSecure, false));
    assert_eq!(p.attached(name("Other")), (ProbeStep::Rebuild, false));
    let mut p = probe(Strategy::FullRebuild, false);
    assert_eq!(p.attached(name("Winlogon")), (ProbeStep::Rebuild, false));
}

#[test]
fn the_probe_reports_every_two_seconds() {
    let mut p = probe(Strategy::DoNothing, true);
    assert!(!p.report_due(1_999_999_999, 1));
    assert!(p.report_due(2_000_000_000, 2_000_000_005));
    assert!(!p.report_due(4_000_000_004, 1));
    assert!(p.report_due(4_000_000_005, 4_000_000_005));
}
