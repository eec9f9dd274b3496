use ddagrab_proxy::duplication_proxy::{AcquireReply, AcquireStep, DuplicationProxy, Stats};
use ddagrab_proxy::dxgi::{
    is_access_loss, is_ok, ACCESS_DENIED, ACCESS_LOST, FAILED, INVALID_CALL, NOT_IMPLEMENTED,
    NULL_POINTER, WAIT_TIMEOUT,
};
use ddagrab_proxy::recovery::{
    attach_once_this_thread, reduplicate_same_device, renumerate_output_and_duplicate, Rebuilt,
};
use ddagrab_proxy::state::DuplicationSource;

fn source(output5: u64) -> DuplicationSource {
    DuplicationSource::V5 { output5, device: 7, flags: 1, supported_formats: vec![87, 10] }
}

fn rebuilt(duplication: u64, output5: u64) -> Rebuilt {
    Rebuilt { duplication, source: source(output5) }
}

fn output_of(last: &Option<DuplicationSource>) -> u64 {
    match last {
        Some(DuplicationSource::V5 { output5, .. }) => *output5,
        Some(DuplicationSource::V1 { output1, .. }) => *output1,
        None => 0,
    }
}

fn proxy(last: &mut Option<DuplicationSource>) -> DuplicationProxy {
    DuplicationProxy::wrap_duplication(100, source(1), last)
}

fn returned(step: AcquireStep) -> AcquireReply {
    match step {
        AcquireStep::Return(reply) => reply,
        other => panic!("{other:?}"),
    }
}

#[test]
fn result_codes() {
    assert_eq!(INVALID_CALL as u32, 0x887A0001);
    assert_eq!(ACCESS_LOST as u32, 0x887A0026);
    assert_eq!(WAIT_TIMEOUT as u32, 0x887A0027);
    assert_eq!(ACCESS_DENIED as u32, 0x887A002B);
    assert_eq!(NOT_IMPLEMENTED as u32, 0x80004001);
    assert_eq!(NULL_POINTER as u32, 0x80004003);
    assert_eq!(FAILED as u32, 0x80004005);
    assert!(is_ok(0) && is_ok(1) && !is_ok(FAILED));
    for code in [ACCESS_LOST, ACCESS_DENIED, INVALID_CALL] {
        assert!(is_access_loss(code));
    }
    for code in [0, WAIT_TIMEOUT, FAILED] {
        assert!(!is_access_loss(code));
    }
}

#[test]
fn a_frame_is_passed_through() {
    let mut last = None;
    let mut p = proxy(&mut last);
    assert_eq!(output_of(&last), 1);
    assert_eq!(p.begin_acquire(16), AcquireStep::Acquire { instance: 100 });
    assert_eq!(returned(p.acquired(Ok(true))), AcquireReply::Frame);
    assert_eq!(AcquireReply::Frame.result_code(), 0);
    assert_eq!(p.pointer_shape_owner(), Some(100));
    assert_eq!(p.release_frame(), Some(100));
    assert_eq!(p.release_frame(), None);
    assert_eq!(p.pointer_shape_owner(), None);
    assert_eq!((p.stats.calls, p.stats.hits, p.stats.timeouts, p.stats.last_timeout_ms), (1, 1, 0, 16));
}

#[test]
fn a_timeout_is_passed_through() {
    let mut last = None;
    let mut p = proxy(&mut last);
    p.begin_acquire(0);
    let reply = returned(p.acquired(Err(WAIT_TIMEOUT)));
    assert_eq!(reply.result_code(), WAIT_TIMEOUT);
    assert_eq!(p.real, Some(100));
    assert_eq!((p.stats.hits, p.stats.timeouts), (0, 1));
}

#[test]
fn a_loss_is_recovered_and_looks_like_a_timeout() {
    for code in [ACCESS_LOST, ACCESS_DENIED, INVALID_CALL] {
        let mut last = None;
        let mut p = proxy(&mut last);
        p.begin_acquire(0);
        assert_eq!(p.acquired(Err(code)), AcquireStep::Recover);
        assert_eq!(p.real, None);
        assert!(!p.is_live(100));
        let reply = returned(p.recovered_after_loss(Ok(rebuilt(200, 2)), &mut last));
        assert_eq!(reply.result_code(), WAIT_TIMEOUT);
        assert_eq!(p.real, Some(200));
        assert!(p.is_live(200));
        assert_eq!(output_of(&last), 2);
        assert_eq!((p.stats.recoveries, p.stats.recovery_failures, p.stats.timeouts), (1, 0, 0));
    }
}

#[test]
fn a_failed_recovery_is_retried_by_the_next_call() {
    let mut last = None;
    let mut p = proxy(&mut last);
    p.begin_acquire(0);
    assert_eq!(p.acquired(Err(ACCESS_LOST)), AcquireStep::Recover);
    assert_eq!(returned(p.recovered_after_loss(Err(FAILED), &mut last)).result_code(), WAIT_TIMEOUT);
    assert_eq!(output_of(&last), 1);
    assert_eq!(p.begin_acquire(0), AcquireStep::Recover);
    let reply = returned(p.recovered_before_acquire(Err(FAILED), &mut last));
    assert_eq!(reply.result_code(), WAIT_TIMEOUT);
    assert_eq!((p.stats.recovery_failures, p.stats.timeouts), (2, 1));
    assert_eq!(p.begin_acquire(0), AcquireStep::Recover);
    let step = p.recovered_before_acquire(Ok(rebuilt(300, 3)), &mut last);
    assert_eq!(step, AcquireStep::Acquire { instance: 300 });
    assert_eq!(returned(p.acquired(Ok(true))), AcquireReply::Frame);
    assert_eq!(p.release_frame(), Some(300));
    assert_eq!(output_of(&last), 3);
}

#[test]
fn a_frame_is_released_where_it_came_from() {
    let mut last = None;
    let mut p = proxy(&mut last);
    p.begin_acquire(0);
    p.acquired(Ok(true));
    for new in [201, 202, 203] {
        p.begin_acquire(0);
        p.acquired(Err(ACCESS_LOST));
        p.recovered_after_loss(Ok(rebuilt(new, 2)), &mut last);
        assert_eq!(p.pointer_shape_owner(), Some(100));
        assert!(p.is_live(100));
    }
    assert_eq!(p.release_frame(), Some(100));
    assert!(!p.is_live(100));
    assert_eq!(p.real, Some(203));
}

#[test]
fn a_frame_without_a_place_is_an_error() {
    let mut last = None;
    let mut p = proxy(&mut last);
    p.begin_acquire(0);
    let reply = returned(p.acquired(Ok(false)));
    assert_eq!(reply, AcquireReply::NoPlace);
    assert_eq!(reply.result_code(), NULL_POINTER);
    assert_eq!((p.stats.hits, p.locked_frame_owner), (0, None));
    assert!(p.finish_acquire(reply, 5000).is_none());
}

#[test]
fn other_errors_are_passed_through() {
    let mut last = None;
    let mut p = proxy(&mut last);
    p.begin_acquire(0);
    assert_eq!(returned(p.acquired(Err(FAILED))).result_code(), FAILED);
    assert_eq!(p.real, Some(100));
    assert_eq!((p.stats.hits, p.stats.timeouts), (0, 0));
}

#[test]
fn numbers_are_reported_every_second() {
    let mut last = None;
    let mut p = proxy(&mut last);
    p.begin_acquire(33);
    let reply = returned(p.acquired(Ok(true)));
    assert!(p.finish_acquire(reply, 999).is_none());
    let report = p.finish_acquire(reply, 1000).unwrap();
    assert_eq!(
        report,
        Stats { calls: 1, hits: 1, timeouts: 0, recoveries: 0, recovery_failures: 0, last_timeout_ms: 33 }
    );
    assert_eq!(
        p.stats,
        Stats { calls: 0, hits: 0, timeouts: 0, recoveries: 0, recovery_failures: 0, last_timeout_ms: 33 }
    );
}

#[test]
fn frames_and_timeouts_never_exceed_calls() {
    let mut last = None;
    let mut p = proxy(&mut last);
    for i in 0..200u64 {
        let mut step = p.begin_acquire(0);
        if step == AcquireStep::Recover {
            let outcome = if i % 3 == 0 { Err(FAILED) } else { Ok(rebuilt(1000 + i, i)) };
            step = p.recovered_before_acquire(outcome, &mut last);
        }
        if let AcquireStep::Acquire { .. } = step {
            let outcome = match i % 5 {
                0 => Ok(true),
                1 => Err(WAIT_TIMEOUT),
                2 => Err(ACCESS_LOST),
                3 => Err(FAILED),
                _ => Ok(false),
            };
            if p.acquired(outcome) == AcquireStep::Recover {
                p.recovered_after_loss(Err(FAILED), &mut last);
            }
        }
        assert!(p.stats.hits + p.stats.timeouts <= p.stats.calls);
        assert_eq!(p.stats.calls, i + 1);
    }
}

#[test]
fn recovery_on_the_same_output() {
    let last = Some(source(4));
    let r = reduplicate_same_device(&last, Ok(9)).unwrap();
    assert_eq!(r.duplication, 9);
    assert_eq!(r.source.device_of(), 7);
    assert_eq!(output_of(&Some(r.source)), 4);
    assert_eq!(reduplicate_same_device(&last, Err(ACCESS_DENIED)).unwrap_err(), ACCESS_DENIED);
    assert_eq!(reduplicate_same_device(&None, Ok(9)).unwrap_err(), FAILED);
}

#[test]
fn recovery_on_a_new_output() {
    let last = Some(DuplicationSource::V1 { output1: 4, device: 8 });
    let r = renumerate_output_and_duplicate(&last, Ok((5, 10))).unwrap();
    assert_eq!(r.duplication, 10);
    assert_eq!(r.source.device_of(), 8);
    assert!(matches!(r.source, DuplicationSource::V1 { output1: 5, device: 8 }));
    assert_eq!(renumerate_output_and_duplicate(&last, Err(-1)).unwrap_err(), -1);
    assert_eq!(renumerate_output_and_duplicate(&None, Ok((5, 10))).unwrap_err(), FAILED);
    match renumerate_output_and_duplicate(&Some(source(1)), Ok((6, 11))).unwrap().source {
        DuplicationSource::V5 { output5, device, flags, supported_formats } => {
            assert_eq!((output5, device, flags), (6, 7, 1));
            assert_eq!(supported_formats, vec![87, 10]);
        }
        other => panic!("{other:?}"),
    }
}

#[test]
fn a_thread_is_attached_once() {
    let mut mark = false;
    assert!(attach_once_this_thread(&mut mark));
    assert!(!attach_once_this_thread(&mut mark));
    assert!(!attach_once_this_thread(&mut mark));
    assert!(mark);
}

#[test]
fn sources_are_copied_whole() {
    match source(3).copy() {
        DuplicationSource::V5 { output5, device, flags, supported_formats } => {
            assert_eq!((output5, device, flags), (3, 7, 1));
            assert_eq!(supported_formats, vec![87, 10]);
        }
        other => panic!("{other:?}"),
    }
}

#[test]
fn sources_move_to_another_device() {
    match source(3).on_device(9) {
        DuplicationSource::V5 { output5, device, flags, supported_formats } => {
            assert_eq!((output5, device, flags), (3, 9, 1));
            assert_eq!(supported_formats, vec![87, 10]);
        }
        other => panic!("{other:?}"),
    }
    let moved = DuplicationSource::V1 { output1: 4, device: 8 }.on_device(9);
    assert!(matches!(moved, DuplicationSource::V1 { output1: 4, device: 9 }));
}
