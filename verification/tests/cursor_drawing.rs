use ddagrab_proxy::cursor::{bitmap_bytes, bitmap_size, draw_cursor_bgra, CursorShape, CursorSighting, CursorState};

fn shape(hot: (u32, u32), w: u32, h: u32, pixel: [u8; 4]) -> CursorShape {
    let pixels = pixel.iter().copied().cycle().take((w * h * 4) as usize).collect();
    CursorShape { hotspot_x: hot.0, hotspot_y: hot.1, bitmap: Some((pixels, w, h)) }
}

fn shown(handle: usize, x: i32, y: i32, shape: Option<CursorShape>) -> CursorSighting {
    CursorSighting::Shown { handle, x, y, shape }
}

#[test]
fn an_opaque_cursor_replaces_pixels() {
    let mut frame = vec![10u8; 3 * 3 * 4];
    let mut state = CursorState::new();
    assert!(state.needs_shape(5));
    draw_cursor_bgra(&mut frame, 3, 3, 0, 0, &mut state, shown(5, 1, 1, Some(shape((0, 0), 1, 1, [1, 2, 3, 255]))));
    for i in 0..9 {
        let want: &[u8] = if i == 4 { &[1, 2, 3, 10] } else { &[10, 10, 10, 10] };
        assert_eq!(&frame[i * 4..i * 4 + 4], want);
    }
    assert!(!state.needs_shape(5));
}

#[test]
fn a_translucent_cursor_is_blended() {
    let mut frame = vec![100u8; 4];
    let mut state = CursorState::new();
    draw_cursor_bgra(&mut frame, 1, 1, 0, 0, &mut state, shown(1, 0, 0, Some(shape((0, 0), 1, 1, [200, 0, 255, 128]))));
    assert_eq!(frame, vec![((200 * 128 + 100 * 127) / 255) as u8, (100 * 127 / 255) as u8, ((255 * 128 + 100 * 127) / 255) as u8, 100]);
}

#[test]
fn a_transparent_cursor_changes_nothing() {
    let mut frame: Vec<u8> = (0..64).collect();
    let before = frame.clone();
    let mut state = CursorState::new();
    draw_cursor_bgra(&mut frame, 4, 4, 0, 0, &mut state, shown(1, 1, 1, Some(shape((0, 0), 2, 2, [9, 9, 9, 0]))));
    assert_eq!(frame, before);
}

#[test]
fn the_cursor_is_clipped() {
    for (x, y, hit) in [(-1, -1, Some(0)), (3, 3, Some(15)), (-2, 0, None), (4, 0, None), (0, -2, None), (0, 4, None)] {
        let mut frame = vec![0u8; 64];
        let mut state = CursorState::new();
        draw_cursor_bgra(&mut frame, 4, 4, 0, 0, &mut state, shown(1, x, y, Some(shape((0, 0), 2, 2, [1, 1, 1, 255]))));
        let lit: Vec<usize> = (0..16).filter(|i| frame[i * 4] == 1).collect();
        match hit {
            Some(i) => assert_eq!(lit, vec![i]),
            None => assert!(lit.is_empty()),
        }
    }
}

#[test]
fn the_display_and_the_hot_spot_move_the_cursor() {
    let mut frame = vec![0u8; 64];
    let mut state = CursorState::new();
    draw_cursor_bgra(&mut frame, 4, 4, 1920, -10, &mut state, shown(1, 1923, -7, Some(shape((2, 1), 1, 1, [5, 5, 5, 255]))));
    assert_eq!((0..16).filter(|i| frame[i * 4] == 5).collect::<Vec<_>>(), vec![2 * 4 + 1]);
}

#[test]
fn far_placements_do_not_overflow() {
    let mut frame = vec![0u8; 16];
    let mut state = CursorState::new();
    draw_cursor_bgra(&mut frame, 2, 2, i32::MIN, i32::MAX, &mut state, shown(1, i32::MAX, i32::MIN, Some(shape((0, 0), 1, 1, [5, 5, 5, 255]))));
    assert_eq!(frame, vec![0u8; 16]);
}

#[test]
fn a_known_cursor_keeps_its_bitmap() {
    let mut state = CursorState::new();
    let mut frame = vec![0u8; 4];
    draw_cursor_bgra(&mut frame, 1, 1, 0, 0, &mut state, shown(1, 0, 0, Some(shape((0, 0), 1, 1, [1, 1, 1, 255]))));
    let mut frame = vec![0u8; 4];
    draw_cursor_bgra(&mut frame, 1, 1, 0, 0, &mut state, shown(1, 0, 0, None));
    assert_eq!(frame, vec![1, 1, 1, 0]);
}

#[test]
fn a_new_cursor_of_which_nothing_is_known_is_not_drawn() {
    let mut state = CursorState::new();
    let mut frame = vec![0u8; 4];
    draw_cursor_bgra(&mut frame, 1, 1, 0, 0, &mut state, shown(1, 0, 0, Some(shape((0, 0), 1, 1, [1, 1, 1, 255]))));
    let mut frame = vec![0u8; 4];
    draw_cursor_bgra(&mut frame, 1, 1, 0, 0, &mut state, shown(2, 0, 0, None));
    assert_eq!(frame, vec![0; 4]);
    assert_eq!(state.handle, 1);
    let unreadable = CursorShape { hotspot_x: 3, hotspot_y: 4, bitmap: None };
    draw_cursor_bgra(&mut frame, 1, 1, 0, 0, &mut state, shown(2, 0, 0, Some(unreadable)));
    assert_eq!(frame, vec![0; 4]);
    assert_eq!((state.handle, state.hotspot_x, state.hotspot_y), (2, 3, 4));
    assert!(state.pixels.is_empty());
}

#[test]
fn an_absent_cursor_changes_nothing() {
    let mut state = CursorState::new();
    let mut frame = vec![7u8; 4];
    draw_cursor_bgra(&mut frame, 1, 1, 0, 0, &mut state, CursorSighting::Absent);
    assert_eq!(frame, vec![7; 4]);
    assert_eq!(state.handle, 0);
}

#[test]
fn a_mask_holds_two_bitmaps() {
    assert_eq!(bitmap_size(32, 64, true), (32, 32));
    assert_eq!(bitmap_size(32, 64, false), (32, 64));
}

#[test]
fn short_frames_are_left_alone_past_their_end() {
    let mut state = CursorState::new();
    let mut frame = vec![0u8; 6];
    draw_cursor_bgra(&mut frame, 2, 2, 0, 0, &mut state, shown(1, 0, 0, Some(shape((0, 0), 2, 2, [1, 1, 1, 255]))));
    assert_eq!(frame, vec![1, 1, 1, 0, 0, 0]);
}

#[test]
fn bitmaps_have_four_bytes_a_pixel() {
    assert_eq!(bitmap_bytes(32, 48), 32 * 48 * 4);
    assert_eq!(bitmap_bytes(0, 5), 0);
    let mut state = CursorState::new();
    let (w, h) = bitmap_size(3, 8, true);
    let pixels = vec![0u8; bitmap_bytes(w, h)];
    let new = CursorShape { hotspot_x: 1, hotspot_y: 2, bitmap: Some((pixels, w, h)) };
    let mut frame = vec![0u8; 16];
    draw_cursor_bgra(&mut frame, 2, 2, 0, 0, &mut state, shown(9, 0, 0, Some(new)));
    assert_eq!((state.handle, state.cursor_w, state.cursor_h), (9, 3, 4));
    assert_eq!(state.pixels.len(), 4 * 3 * 4);
}
