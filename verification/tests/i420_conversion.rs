use ddagrab_proxy::i420::bgra_to_i420;

fn frame(width: usize, height: usize, pixel: impl Fn(usize, usize) -> [u8; 3]) -> Vec<u8> {
    let mut out = Vec::new();
    for row in 0..height {
        for col in 0..width {
            out.extend_from_slice(&pixel(row, col));
            out.push(255);
        }
    }
    out
}

fn plain(bgra: &[u8], w: usize, h: usize) -> Vec<u8> {
    let mut out = Vec::new();
    for p in bgra[..w * h * 4].chunks_exact(4) {
        let (b, g, r) = (p[0] as i32, p[1] as i32, p[2] as i32);
        out.push(((77 * r + 150 * g + 29 * b + 128) >> 8).clamp(0, 255) as u8);
    }
    for plane in 0..2 {
        for row in 0..h / 2 {
            for col in 0..w / 2 {
                let mut sum = 0i32;
                for dy in 0..2 {
                    for dx in 0..2 {
                        let i = ((row * 2 + dy) * w + col * 2 + dx) * 4;
                        let (b, g, r) = (bgra[i] as i32, bgra[i + 1] as i32, bgra[i + 2] as i32);
                        sum += if plane == 0 {
                            (-43 * r - 85 * g + 128 * b) >> 8
                        } else {
                            (128 * r - 107 * g - 21 * b) >> 8
                        };
                    }
                }
                out.push(((sum / 4) + 128).clamp(0, 255) as u8);
            }
        }
    }
    out
}

#[test]
fn single_colors() {
    let black = bgra_to_i420(&frame(2, 2, |_, _| [0, 0, 0]), 2, 2);
    assert_eq!(black, vec![0, 0, 0, 0, 128, 128]);
    let white = bgra_to_i420(&frame(2, 2, |_, _| [255, 255, 255]), 2, 2);
    assert_eq!(white, vec![255, 255, 255, 255, 128, 128]);
    let blue = bgra_to_i420(&frame(2, 2, |_, _| [255, 0, 0]), 2, 2);
    assert_eq!(blue, vec![29, 29, 29, 29, 255, 107]);
    let red = bgra_to_i420(&frame(2, 2, |_, _| [0, 0, 255]), 2, 2);
    assert_eq!(red, vec![77, 77, 77, 77, 85, 255]);
}

#[test]
fn grey_frames_have_no_color() {
    let grey = bgra_to_i420(&frame(6, 4, |r, c| [(r * 40 + c) as u8; 3]), 6, 4);
    assert_eq!(grey.len(), 24 + 12);
    for r in 0..4 {
        for c in 0..6 {
            assert_eq!(grey[r * 6 + c], (r * 40 + c) as u8);
        }
    }
    assert!(grey[24..].iter().all(|&s| s == 128));
}

#[test]
fn varied_frames() {
    for (w, h) in [(2, 2), (3, 3), (7, 5), (16, 9), (2, 1), (2, 0), (64, 33)] {
        let bgra = frame(w, h, |r, c| {
            [(r * 37 + c * 11) as u8, (r * 91 + c * 53) as u8, (r * 17 + c * 211) as u8]
        });
        let yuv = bgra_to_i420(&bgra, w as u32, h as u32);
        assert_eq!(yuv, plain(&bgra, w, h), "{w}x{h}");
        assert_eq!(yuv.len(), w * h + 2 * (w / 2) * (h / 2));
    }
}

#[test]
fn bytes_after_the_frame_do_not_matter() {
    let mut bgra = frame(4, 2, |r, c| [(r + c) as u8, 9, 200]);
    let exact = bgra_to_i420(&bgra, 4, 2);
    bgra.extend_from_slice(&[7; 5]);
    assert_eq!(bgra_to_i420(&bgra, 4, 2), exact);
}
