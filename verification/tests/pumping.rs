use ddagrab_proxy::dxgi::{ACCESS_LOST, FAILED, INVALID_CALL, WAIT_TIMEOUT};
use ddagrab_proxy::pump::{
    clone_into_cache_texture, fetch_pointer_shape, DuplicationDesc, FrameCache, FrameInfo,
    PointerShapeInfo, Pump, PumpStep, ReusableTexture, TextureDesc,
};
use ddagrab_proxy::recovery::Rebuilt;
use ddagrab_proxy::state::DuplicationSource;

fn info(shape: u32) -> FrameInfo {
    FrameInfo {
        last_present_time: 1,
        last_mouse_update_time: 2,
        accumulated_frames: 3,
        rects_coalesced: false,
        protected_content_masked_out: false,
        pointer_x: 4,
        pointer_y: 5,
        pointer_visible: true,
        total_metadata_buffer_size: 6,
        pointer_shape_buffer_size: shape,
    }
}

fn shape_info() -> PointerShapeInfo {
    PointerShapeInfo { shape_type: 2, width: 32, height: 32, pitch: 128, hot_spot_x: 1, hot_spot_y: 2 }
}

fn texture(width: u32, height: u32) -> TextureDesc {
    TextureDesc {
        width,
        height,
        mip_levels: 1,
        array_size: 1,
        format: 87,
        sample_count: 1,
        sample_quality: 0,
        usage: 3,
        bind_flags: 32,
        cpu_access_flags: 0x20000,
        misc_flags: 2,
    }
}

fn cache() -> FrameCache {
    FrameCache::new(
        DuplicationDesc {
            width: 1920,
            height: 1080,
            refresh_numerator: 60,
            refresh_denominator: 1,
            format: 87,
            scanline_ordering: 0,
            scaling: 0,
            rotation: 1,
            desktop_image_in_system_memory: false,
        },
        77,
    )
}

fn source(output1: u64) -> DuplicationSource {
    DuplicationSource::V1 { output1, device: 77 }
}

fn pump() -> Pump {
    Pump::start(10, source(1), Some("Default".to_string()))
}

#[test]
fn textures_are_made_for_shaders_only() {
    let t = ReusableTexture::new();
    let desc = t.missing(&texture(1920, 1080)).unwrap();
    assert_eq!((desc.width, desc.height, desc.format), (1920, 1080, 87));
    assert_eq!((desc.usage, desc.bind_flags, desc.cpu_access_flags, desc.misc_flags), (0, 8, 0, 0));
}

#[test]
fn textures_are_reused_while_the_size_stays() {
    let mut t = ReusableTexture::new();
    assert_eq!(t.get_or_create(&texture(4, 3), Err(FAILED)), None);
    assert_eq!(t, ReusableTexture::new());
    assert_eq!(t.get_or_create(&texture(4, 3), Ok(Some(1))), Some(1));
    assert!(t.missing(&texture(4, 3)).is_none());
    assert_eq!(t.get_or_create(&texture(4, 3), Ok(Some(2))), Some(1));
    assert!(t.missing(&texture(4, 4)).is_some());
    assert_eq!(t.get_or_create(&texture(4, 4), Ok(Some(3))), Some(3));
    assert_eq!((t.width, t.height), (4, 4));
}

#[test]
fn frames_are_taken_once() {
    let mut c = cache();
    assert_eq!(c.unseen(0), None);
    assert_eq!(c.unseen(1), None);
    c.publish(5, info(0));
    assert_eq!(c.generation, 1);
    assert_eq!(c.unseen(0), Some(5));
    let taken = c.try_take_latest(0, &texture(2, 2), Ok(Some(6)), Some(60)).unwrap();
    assert_eq!(taken, (1, info(0), 60));
    assert_eq!(c.unseen(taken.0), None);
    assert_eq!(c.try_take_latest(taken.0, &texture(2, 2), Ok(None), Some(61)), None);
    c.publish(5, info(9));
    assert_eq!(c.try_take_latest(1, &texture(2, 2), Err(FAILED), Some(62)), Some((2, info(9), 62)));
}

#[test]
fn a_frame_that_cannot_be_copied_is_not_taken() {
    let mut c = cache();
    c.publish(5, info(0));
    assert_eq!(c.try_take_latest(0, &texture(2, 2), Err(FAILED), Some(60)), None);
    assert_eq!(c.try_take_latest(0, &texture(2, 2), Ok(Some(6)), None), None);
    assert_eq!(c.output_tex.tex, Some(6));
    assert_eq!(c.unseen(0), Some(5));
}

#[test]
fn only_newer_frames_are_taken() {
    let mut c = cache();
    c.publish(5, info(0));
    c.publish(6, info(0));
    assert_eq!(c.generation, 2);
    assert_eq!(c.unseen(0), Some(6));
    assert_eq!(c.unseen(1), Some(6));
    for seen in [2, 3, u64::MAX] {
        assert_eq!(c.unseen(seen), None);
        assert_eq!(c.try_take_latest(seen, &texture(2, 2), Ok(Some(7)), Some(70)), None);
    }
    assert_eq!(c.output_tex, ReusableTexture::new());
    assert_eq!(c.try_take_latest(1, &texture(2, 2), Ok(Some(7)), Some(70)), Some((2, info(0), 70)));
}

#[test]
fn generations_wrap() {
    let mut c = cache();
    c.generation = u64::MAX;
    c.publish(1, info(0));
    assert_eq!(c.generation, 0);
    assert_eq!(c.unseen(u64::MAX), None);
}

#[test]
fn pointer_shapes_are_taken_once() {
    let mut c = cache();
    assert_eq!(c.peek_pointer_shape_len(), None);
    assert!(c.take_pointer_shape().is_none());
    c.publish_pointer_shape(vec![1, 2, 3], shape_info());
    assert_eq!(c.peek_pointer_shape_len(), Some(3));
    assert_eq!(c.peek_pointer_shape_len(), Some(3));
    assert_eq!(c.take_pointer_shape(), Some((vec![1, 2, 3], shape_info())));
    assert!(c.take_pointer_shape().is_none());
}

#[test]
fn deliveries() {
    let mut c = cache();
    c.deliver(Some((vec![1], shape_info())), None, info(1));
    assert_eq!((c.generation, c.peek_pointer_shape_len()), (0, Some(1)));
    c.deliver(None, Some(8), info(0));
    assert_eq!((c.generation, c.peek_pointer_shape_len()), (1, Some(1)));
    assert_eq!(c.unseen(0), Some(8));
    assert_eq!(c.desc().width, 1920);
}

#[test]
fn copies_for_the_cache() {
    let mut t = ReusableTexture::new();
    assert_eq!(clone_into_cache_texture(&mut t, &texture(2, 2), Ok(Some(4)), false), None);
    assert_eq!(t.tex, Some(4));
    assert_eq!(clone_into_cache_texture(&mut t, &texture(2, 2), Err(FAILED), true), Some(4));
}

#[test]
fn shape_buffers_are_cut() {
    assert_eq!(fetch_pointer_shape(vec![1, 2, 3, 4], 2), vec![1, 2]);
    assert_eq!(fetch_pointer_shape(vec![1, 2], 9), vec![1, 2]);
    assert_eq!(fetch_pointer_shape(vec![1, 2], 0), Vec::<u8>::new());
}

#[test]
fn a_round_with_a_frame() {
    let mut p = pump();
    let (changed, step) = p.begin_round(Some("Default".to_string()));
    assert!(!changed);
    assert_eq!(step, PumpStep::Acquire { instance: 10, timeout_ms: 200 });
    assert_eq!(p.acquired(10, Ok(info(0))), PumpStep::Deliver { instance: 10, shape_size: None });
    assert_eq!(p.acquired(10, Ok(info(64))), PumpStep::Deliver { instance: 10, shape_size: Some(64) });
    assert_eq!(p.acquired(10, Err(WAIT_TIMEOUT)), PumpStep::Next);
    assert_eq!(p.acquired(10, Err(FAILED)), PumpStep::Sleep { ms: 100 });
    assert_eq!(p.real, Some(10));
}

#[test]
fn a_pump_without_a_desktop_starts_on_the_default_one() {
    let mut p = Pump::start(10, source(1), None);
    assert_eq!(p.desktop.last, "Default");
    assert!(p.begin_round(Some("Winlogon".to_string())).0);
    assert!(!p.begin_round(None).0);
    assert_eq!(p.desktop.last, "Winlogon");
}

#[test]
fn a_lost_instance_is_dropped_then_replaced() {
    for code in [ACCESS_LOST, INVALID_CALL] {
        let mut last = None;
        let mut p = pump();
        assert_eq!(p.acquired(10, Err(code)), PumpStep::Reduplicate);
        assert_eq!(p.real, None);
        p.begin_reduplicate(&mut last);
        assert!(matches!(last, Some(DuplicationSource::V1 { output1: 1, device: 77 })));
        let step = p.reduplicated(Ok(Rebuilt { duplication: 11, source: source(2) }), &mut last);
        assert_eq!(step, PumpStep::Sleep { ms: 50 });
        assert_eq!(p.real, Some(11));
        assert!(matches!(last, Some(DuplicationSource::V1 { output1: 2, device: 77 })));
    }
}

#[test]
fn a_failed_replacement_is_tried_from_scratch() {
    let mut last = None;
    let mut p = pump();
    p.acquired(10, Err(ACCESS_LOST));
    p.begin_reduplicate(&mut last);
    assert_eq!(p.reduplicated(Err(FAILED), &mut last), PumpStep::RebuildFromScratch);
    assert_eq!(p.rebuilt(Err(FAILED), &mut last), PumpStep::Sleep { ms: 200 });
    assert_eq!(p.real, None);
    assert_eq!(p.begin_round(None).1, PumpStep::Reduplicate);
    p.begin_reduplicate(&mut last);
    assert_eq!(p.reduplicated(Err(FAILED), &mut last), PumpStep::RebuildFromScratch);
    let step = p.rebuilt(Ok(Rebuilt { duplication: 12, source: source(3) }), &mut last);
    assert_eq!(step, PumpStep::Sleep { ms: 50 });
    assert_eq!(p.begin_round(None).1, PumpStep::Acquire { instance: 12, timeout_ms: 200 });
}
