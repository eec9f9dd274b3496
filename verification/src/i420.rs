//! Conversion of BGRA frames to planar I420.
//!
//! BT.601 full range: the luma plane holds one sample per pixel, each chroma plane one per two by
//! two pixels, centred at 128.
use rayon::iter::IndexedParallelIterator;
use rayon::iter::ParallelIterator;
use rayon::slice::ParallelSliceMut;
use vstd::arithmetic::div_mod::*;
use vstd::arithmetic::mul::*;
use vstd::prelude::*;

verus! {

/// One of the three planes of an I420 image.
#[derive(Debug, Clone, Copy, PartialEq, Eq, Structural)]
pub enum Plane {
    /// Brightness.
    Y,
    /// Blue difference.
    U,
    /// Red difference.
    V,
}

/// Where the pixel at (`row`, `col`) begins in a frame that is `w` pixels wide.
pub open spec fn pixel_at(w: int, row: int, col: int) -> int {
    (row * w + col) * 4
}

/// The brightness of a pixel.
pub open spec fn luma(b: u8, g: u8, r: u8) -> int {
    (77 * r + 150 * g + 29 * b + 128) / 256
}

/// The blue difference of a pixel.
pub open spec fn blue_difference(b: u8, g: u8, r: u8) -> int {
    (128 * b - 43 * r - 85 * g) / 256
}

/// The red difference of a pixel.
pub open spec fn red_difference(b: u8, g: u8, r: u8) -> int {
    (128 * r - 107 * g - 21 * b) / 256
}

/// What a pixel adds to its sample in `plane`.
pub open spec fn contribution(plane: Plane, bgra: Seq<u8>, w: int, row: int, col: int) -> int {
    let at = pixel_at(w, row, col);
    match plane {
        Plane::Y => luma(bgra[at], bgra[at + 1], bgra[at + 2]),
        Plane::U => blue_difference(bgra[at], bgra[at + 1], bgra[at + 2]),
        Plane::V => red_difference(bgra[at], bgra[at + 1], bgra[at + 2]),
    }
}

/// A quarter of `sum`, rounded towards zero.
pub open spec fn quarter(sum: int) -> int {
    if sum >= 0 {
        sum / 4
    } else {
        -((-sum) / 4)
    }
}

/// The sample of `plane` at (`row`, `col`) of that plane.
pub open spec fn sample(plane: Plane, bgra: Seq<u8>, w: int, row: int, col: int) -> u8 {
    if plane is Y {
        contribution(plane, bgra, w, row, col) as u8
    } else {
        (quarter(
            contribution(plane, bgra, w, row * 2, col * 2) + contribution(
                plane,
                bgra,
                w,
                row * 2,
                col * 2 + 1,
            ) + contribution(plane, bgra, w, row * 2 + 1, col * 2) + contribution(
                plane,
                bgra,
                w,
                row * 2 + 1,
                col * 2 + 1,
            ),
        ) + 128) as u8
    }
}

/// A plane of `rows` rows with `cols` samples each.
pub open spec fn plane_samples(plane: Plane, bgra: Seq<u8>, w: int, cols: int, rows: int) -> Seq<
    u8,
> {
    Seq::new((rows * cols) as nat, |i: int| sample(plane, bgra, w, i / cols, i % cols))
}

/// The I420 image of a BGRA frame that is `w` pixels wide and `h` high.
pub open spec fn i420(bgra: Seq<u8>, w: int, h: int) -> Seq<u8> {
    plane_samples(Plane::Y, bgra, w, w, h) + plane_samples(Plane::U, bgra, w, w / 2, h / 2)
        + plane_samples(Plane::V, bgra, w, w / 2, h / 2)
}

/// Whether the frame has every pixel that `cols` samples in row `row` of `plane` are made of.
pub open spec fn row_available(plane: Plane, len: int, w: int, row: int, cols: int) -> bool {
    if plane is Y {
        cols <= w && (row + 1) * w * 4 <= len
    } else {
        2 * cols <= w && (2 * row + 2) * w * 4 <= len
    }
}

proof fn lemma_pixel_in_frame(len: int, w: int, row: int, col: int, rows: int)
    requires
        0 <= col < w,
        0 <= row < rows,
        rows * w * 4 <= len,
    ensures
        0 <= row * w,
        row * w + col < (row + 1) * w <= rows * w,
        0 <= pixel_at(w, row, col),
        pixel_at(w, row, col) + 4 <= len,
{
    lemma_mul_nonnegative(row, w);
    lemma_mul_is_distributive_add_other_way(w, row, 1);
    lemma_mul_inequality(row + 1, rows, w);
}

/// No pixel takes a sample out of the range of a byte, so samples need no clamping.
pub proof fn law_contributions_in_range(b: u8, g: u8, r: u8)
    ensures
        0 <= luma(b, g, r) <= 255,
        -128 <= blue_difference(b, g, r) <= 127,
        -128 <= red_difference(b, g, r) <= 127,
{
}

fn shift_right_8(x: i32) -> (q: i32)
    requires
        -100000 <= x <= 100000,
    ensures
        q as int == x as int / 256,
{
    assert(-100000 <= x <= 100000 ==> (x >> 8u32) as int == x as int / 256) by (bit_vector);
    x >> 8
}

fn pixel_contribution(plane: Plane, bgra: &[u8], w: usize, row: usize, col: usize) -> (value: i32)
    requires
        col < w,
        (row + 1) * w * 4 <= bgra@.len(),
    ensures
        value as int == contribution(plane, bgra@, w as int, row as int, col as int),
        -128 <= value <= 255,
        plane !is Y ==> value <= 127,
        plane is Y ==> value >= 0,
{
    let len: usize = bgra.len();
    proof {
        lemma_pixel_in_frame(len as int, w as int, row as int, col as int, row + 1);
    }
    let at: usize = (row * w + col) * 4;
    let b: i32 = bgra[at] as i32;
    let g: i32 = bgra[at + 1] as i32;
    let r: i32 = bgra[at + 2] as i32;
    proof {
        law_contributions_in_range(bgra@[at as int], bgra@[at + 1], bgra@[at + 2]);
    }
    match plane {
        Plane::Y => shift_right_8(77 * r + 150 * g + 29 * b + 128),
        Plane::U => shift_right_8(-43 * r - 85 * g + 128 * b),
        Plane::V => shift_right_8(128 * r - 107 * g - 21 * b),
    }
}

/// Fills `out` with the samples of one row of `plane`.
pub fn fill_row(plane: Plane, bgra: &[u8], w: usize, row: usize, out: &mut [u8])
    requires
        row_available(plane, bgra@.len() as int, w as int, row as int, old(out)@.len() as int),
        2 * row + 2 <= usize::MAX,
    ensures
        final(out)@ == Seq::new(
            old(out)@.len(),
            |col: int| sample(plane, bgra@, w as int, row as int, col),
        ),
{
    let n: usize = out.len();
    let ghost want = Seq::new(
        out@.len(),
        |col: int| sample(plane, bgra@, w as int, row as int, col),
    );
    let mut col: usize = 0;
    while col < n
        invariant
            col <= n,
            n == out@.len(),
            n == want.len(),
            forall|c: int|
                0 <= c < n ==> #[trigger] want[c] == sample(
                    plane,
                    bgra@,
                    w as int,
                    row as int,
                    c,
                ),
            row_available(plane, bgra@.len() as int, w as int, row as int, n as int),
            2 * row + 2 <= usize::MAX,
            forall|c: int| 0 <= c < col ==> out@[c] == #[trigger] want[c],
        decreases n - col,
    {
        if plane == Plane::Y {
            let y: i32 = pixel_contribution(plane, bgra, w, row, col);
            out[col] = y as u8;
        } else {
            proof {
                let a = (2 * row + 1) * w;
                let b = (2 * row + 2) * w;
                lemma_mul_inequality(2 * row + 1, 2 * row + 2, w as int);
                assert(row * 2 + 1 + 1 == 2 * row + 2);
                assert(col * 2 + 1 < w);
            }
            let mut sum: i32 = pixel_contribution(plane, bgra, w, row * 2, col * 2);
            sum = sum + pixel_contribution(plane, bgra, w, row * 2, col * 2 + 1);
            sum = sum + pixel_contribution(plane, bgra, w, row * 2 + 1, col * 2);
            sum = sum + pixel_contribution(plane, bgra, w, row * 2 + 1, col * 2 + 1);
            out[col] = ((sum / 4) + 128) as u8;
        }
        assert(out@[col as int] == want[col as int]);
        col += 1;
    }
    assert(out@ =~= want);
}

/// Fills a whole plane, one row of `cols` samples at a time, with the rows spread over rayon's
/// threads.
///
/// `par_chunks_mut` cuts the plane into consecutive, non-overlapping chunks of `cols` bytes,
/// `enumerate` numbers them from zero, and `for_each` runs [`fill_row`] once on each. The
/// contract claims that the plane then holds what `fill_row` puts in each of its rows.
#[verifier::external_body]
fn fill_plane(plane: Plane, bgra: &[u8], w: usize, cols: usize, rows: usize, out: &mut [u8])
    requires
        0 < cols,
        old(out)@.len() == rows * cols,
        forall|row: int|
            0 <= row < rows ==> #[trigger] row_available(
                plane,
                bgra@.len() as int,
                w as int,
                row,
                cols as int,
            ),
        2 * rows <= usize::MAX,
    ensures
        final(out)@ == plane_samples(plane, bgra@, w as int, cols as int, rows as int),
{
    out.par_chunks_mut(cols).enumerate().for_each(
        |(row, samples)| fill_row(plane, bgra, w, row, samples),
    );
}

/// Converts a BGRA frame to I420.
///
/// The planes follow each other: luma, then blue difference, then red difference. An odd last
/// row or column has no chroma sample of its own.
pub fn bgra_to_i420(bgra: &[u8], width: u32, height: u32) -> (yuv: Vec<u8>)
    requires
        width >= 2,
        width * height * 4 <= bgra@.len(),
    ensures
        yuv@ == i420(bgra@, width as int, height as int),
{
    let w: usize = width as usize;
    let h: usize = height as usize;
    let len: usize = bgra.len();
    let uv_w: usize = w / 2;
    let uv_h: usize = h / 2;
    proof {
        lemma_mul_nonnegative(w as int, h as int);
        lemma_mul_is_commutative(w as int, h as int);
        assert(uv_w * uv_h * 4 <= w * h) by (nonlinear_arith)
            requires
                uv_w * 2 <= w,
                uv_h * 2 <= h,
                0 <= uv_w,
                0 <= uv_h,
        ;
        assert(h * 2 <= h * w) by (nonlinear_arith)
            requires
                w >= 2,
                h >= 0,
        ;
        assert forall|row: int| 0 <= row < h implies #[trigger] row_available(
            Plane::Y,
            len as int,
            w as int,
            row,
            w as int,
        ) by {
            lemma_mul_inequality(row + 1, h as int, w as int);
        }
        assert forall|plane: Plane, row: int|
            plane !is Y && 0 <= row < uv_h implies #[trigger] row_available(
            plane,
            len as int,
            w as int,
            row,
            uv_w as int,
        ) by {
            lemma_mul_inequality(2 * row + 2, h as int, w as int);
        }
    }
    let y_size: usize = w * h;
    let uv_size: usize = uv_w * uv_h;
    let mut yuv: Vec<u8> = vec![0u8; y_size + 2 * uv_size];
    {
        let (y_plane, uv_planes) = yuv.as_mut_slice().split_at_mut(y_size);
        let (u_plane, v_plane) = uv_planes.split_at_mut(uv_size);
        fill_plane(Plane::Y, bgra, w, w, h, y_plane);
        fill_plane(Plane::U, bgra, w, uv_w, uv_h, u_plane);
        fill_plane(Plane::V, bgra, w, uv_w, uv_h, v_plane);
    }
    assert(yuv@ =~= i420(bgra@, w as int, h as int));
    yuv
}

/// The planes fill the image: one luma sample per pixel and two chroma samples per two by two
/// pixels.
pub proof fn law_i420_length(bgra: Seq<u8>, w: int, h: int)
    requires
        0 <= w,
        0 <= h,
    ensures
        i420(bgra, w, h).len() == w * h + 2 * ((w / 2) * (h / 2)),
{
    lemma_mul_is_commutative(w, h);
    lemma_mul_is_commutative(w / 2, h / 2);
    lemma_mul_nonnegative(h, w);
    lemma_mul_nonnegative(h / 2, w / 2);
}

/// Whether every pixel of the frame has equal colour channels.
pub open spec fn is_grey(bgra: Seq<u8>, w: int, h: int) -> bool {
    forall|row: int, col: int|
        #![trigger pixel_at(w, row, col)]
        0 <= row < h && 0 <= col < w ==> {
            let at = pixel_at(w, row, col);
            bgra[at] == bgra[at + 1] && bgra[at] == bgra[at + 2]
        }
}

/// Grey frames keep their brightness and carry no colour: each luma sample is the grey value of
/// its pixel, and every chroma sample is 128.
pub proof fn law_grey_frame(bgra: Seq<u8>, w: int, h: int)
    requires
        2 <= w,
        0 <= h,
        w * h * 4 <= bgra.len(),
        is_grey(bgra, w, h),
    ensures
        forall|i: int| 0 <= i < w * h ==> #[trigger] i420(bgra, w, h)[i] == bgra[4 * i],
        forall|i: int|
            w * h <= i < i420(bgra, w, h).len() ==> #[trigger] i420(bgra, w, h)[i] == 128,
{
    let image = i420(bgra, w, h);
    let cw = w / 2;
    let chroma = (cw * (h / 2)) as int;
    law_i420_length(bgra, w, h);
    lemma_mul_is_commutative(w, h);
    lemma_mul_is_commutative(cw, h / 2);
    lemma_mul_nonnegative(h, w);
    lemma_mul_nonnegative(h / 2, cw);
    assert forall|i: int| 0 <= i < w * h implies #[trigger] image[i] == bgra[4 * i] by {
        lemma_fundamental_div_mod(i, w);
        lemma_div_pos_is_pos(i, w);
        lemma_mod_bound(i, w);
        lemma_div_by_multiple_is_strongly_ordered(i, h * w, h, w);
        lemma_mul_is_commutative(w, i / w);
        lemma_div_by_multiple(h, w);
        assert(pixel_at(w, i / w, i % w) == 4 * i);
        assert(image[i] == sample(Plane::Y, bgra, w, i / w, i % w));
    }
    assert forall|i: int| w * h <= i < image.len() implies #[trigger] image[i] == 128 by {
        let plane = if i < w * h + chroma {
            Plane::U
        } else {
            Plane::V
        };
        let k = if i < w * h + chroma {
            i - w * h
        } else {
            i - w * h - chroma
        };
        assert(image[i] == sample(plane, bgra, w, k / cw, k % cw));
        lemma_div_pos_is_pos(k, cw);
        lemma_mod_bound(k, cw);
        lemma_div_by_multiple_is_strongly_ordered(k, (h / 2) * cw, h / 2, cw);
        lemma_div_by_multiple(h / 2, cw);
        let row = (k / cw) * 2;
        let col = (k % cw) * 2;
        let _ = (
            pixel_at(w, row, col),
            pixel_at(w, row, col + 1),
            pixel_at(w, row + 1, col),
            pixel_at(w, row + 1, col + 1),
        );
        assert(contribution(plane, bgra, w, row, col) == 0);
        assert(contribution(plane, bgra, w, row, col + 1) == 0);
        assert(contribution(plane, bgra, w, row + 1, col) == 0);
        assert(contribution(plane, bgra, w, row + 1, col + 1) == 0);
    }
}

proof fn lemma_place_in_plane(cols: int, rows: int, row: int, col: int)
    requires
        0 <= row < rows,
        0 <= col < cols,
    ensures
        0 <= row * cols + col < rows * cols,
        (row * cols + col) / cols == row,
        (row * cols + col) % cols == col,
{
    lemma_mul_nonnegative(row, cols);
    lemma_mul_inequality(row + 1, rows, cols);
    lemma_mul_is_distributive_add_other_way(cols, row, 1);
    lemma_fundamental_div_mod_converse(row * cols + col, cols, row, col);
}

pub(crate) proof fn lemma_luma_sample(bgra: Seq<u8>, w: int, h: int, row: int, col: int)
    requires
        2 <= w,
        0 <= row < h,
        0 <= col < w,
    ensures
        ({
            let k = row * w + col;
            let (b, g, r) = (bgra[4 * k], bgra[4 * k + 1], bgra[4 * k + 2]);
            let y = i420(bgra, w, h)[k];
            256 * y <= 77 * r + 150 * g + 29 * b + 128 < 256 * y + 256
        }),
{
    let k = row * w + col;
    lemma_place_in_plane(w, h, row, col);
    assert(i420(bgra, w, h)[k] == sample(Plane::Y, bgra, w, row, col));
    assert(pixel_at(w, row, col) == 4 * k);
    law_contributions_in_range(bgra[4 * k], bgra[4 * k + 1], bgra[4 * k + 2]);
}

/// Each luma sample is the weighted brightness of the one pixel in its place, rounded to the
/// nearest: 77 parts of red, 150 of green and 29 of blue in 256.
pub proof fn law_luma_of_each_pixel(
    bgra: &[u8],
    width: u32,
    height: u32,
    yuv: Vec<u8>,
    row: int,
    col: int,
)
    requires
        width >= 2,
        width * height * 4 <= bgra@.len(),
        call_ensures(bgra_to_i420, (bgra, width, height), yuv),
        0 <= row < height,
        0 <= col < width,
    ensures
        ({
            let k = row * width + col;
            let (b, g, r) = (bgra@[4 * k], bgra@[4 * k + 1], bgra@[4 * k + 2]);
            256 * yuv@[k] <= 77 * r + 150 * g + 29 * b + 128 < 256 * yuv@[k] + 256
        }),
{
    lemma_luma_sample(bgra@, width as int, height as int, row, col);
}

proof fn lemma_chroma_place(w: int, h: int, row: int, col: int)
    requires
        2 <= w,
        0 <= row < h / 2,
        0 <= col < w / 2,
    ensures
        ({
            let first = 4 * (2 * row * w + 2 * col);
            &&& pixel_at(w, row * 2, col * 2) == first
            &&& pixel_at(w, row * 2, col * 2 + 1) == first + 4
            &&& pixel_at(w, row * 2 + 1, col * 2) == first + 4 * w
            &&& pixel_at(w, row * 2 + 1, col * 2 + 1) == first + 4 * w + 4
            &&& 0 <= first && first + 4 * w + 8 <= 4 * (w * h)
        }),
{
    assert((row * 2) * w == 2 * row * w) by (nonlinear_arith);
    assert((row * 2 + 1) * w == 2 * row * w + w) by (nonlinear_arith);
    assert(0 <= 2 * row * w) by (nonlinear_arith)
        requires
            0 <= row,
            2 <= w,
    ;
    assert(2 * row * w + 2 * w <= w * h) by (nonlinear_arith)
        requires
            2 * row + 2 <= h,
            2 <= w,
    ;
}

/// Each sample of the second plane comes from the two by two pixels in its place and from no
/// others: 128 and the mean, rounded towards zero, of the blue differences of the four.
pub proof fn law_second_plane_is_blue_difference(
    bgra: &[u8],
    width: u32,
    height: u32,
    yuv: Vec<u8>,
    row: int,
    col: int,
)
    requires
        width >= 2,
        width * height * 4 <= bgra@.len(),
        call_ensures(bgra_to_i420, (bgra, width, height), yuv),
        0 <= row < height / 2,
        0 <= col < width / 2,
    ensures
        ({
            let first = 4 * (2 * row * width + 2 * col);
            let below = first + 4 * width;
            let of = |at: int| (128 * bgra@[at] - 43 * bgra@[at + 2] - 85 * bgra@[at + 1]) / 256;
            let sum = of(first) + of(first + 4) + of(below) + of(below + 4);
            let mean = yuv@[width * height + row * (width / 2) + col] - 128;
            &&& sum >= 0 ==> 4 * mean <= sum < 4 * mean + 4
            &&& sum <= 0 ==> 4 * mean - 4 < sum <= 4 * mean
        }),
{
    let (w, h) = (width as int, height as int);
    let (cw, ch) = (w / 2, h / 2);
    let k = row * cw + col;
    lemma_mul_is_commutative(w, h);
    lemma_mul_nonnegative(w, h);
    lemma_place_in_plane(cw, ch, row, col);
    lemma_chroma_place(w, h, row, col);
    assert(yuv@[w * h + k] == sample(Plane::U, bgra@, w, row, col));
    let first = 4 * (2 * row * w + 2 * col);
    let below = first + 4 * w;
    law_contributions_in_range(bgra@[first], bgra@[first + 1], bgra@[first + 2]);
    law_contributions_in_range(bgra@[first + 4], bgra@[first + 5], bgra@[first + 6]);
    law_contributions_in_range(bgra@[below], bgra@[below + 1], bgra@[below + 2]);
    law_contributions_in_range(bgra@[below + 4], bgra@[below + 5], bgra@[below + 6]);
}

/// Each sample of the third plane comes from the two by two pixels in its place and from no
/// others: 128 and the mean, rounded towards zero, of the red differences of the four.
pub proof fn law_third_plane_is_red_difference(
    bgra: &[u8],
    width: u32,
    height: u32,
    yuv: Vec<u8>,
    row: int,
    col: int,
)
    requires
        width >= 2,
        width * height * 4 <= bgra@.len(),
        call_ensures(bgra_to_i420, (bgra, width, height), yuv),
        0 <= row < height / 2,
        0 <= col < width / 2,
    ensures
        ({
            let first = 4 * (2 * row * width + 2 * col);
            let below = first + 4 * width;
            let of = |at: int| (128 * bgra@[at + 2] - 107 * bgra@[at + 1] - 21 * bgra@[at]) / 256;
            let sum = of(first) + of(first + 4) + of(below) + of(below + 4);
            let mean = yuv@[width * height + (width / 2) * (height / 2) + row * (width / 2) + col]
                - 128;
            &&& sum >= 0 ==> 4 * mean <= sum < 4 * mean + 4
            &&& sum <= 0 ==> 4 * mean - 4 < sum <= 4 * mean
        }),
{
    let (w, h) = (width as int, height as int);
    let (cw, ch) = (w / 2, h / 2);
    let k = row * cw + col;
    lemma_mul_is_commutative(w, h);
    lemma_mul_is_commutative(cw, ch);
    lemma_mul_nonnegative(w, h);
    lemma_place_in_plane(cw, ch, row, col);
    lemma_chroma_place(w, h, row, col);
    assert(yuv@[w * h + cw * ch + k] == sample(Plane::V, bgra@, w, row, col));
    let first = 4 * (2 * row * w + 2 * col);
    let below = first + 4 * w;
    law_contributions_in_range(bgra@[first], bgra@[first + 1], bgra@[first + 2]);
    law_contributions_in_range(bgra@[first + 4], bgra@[first + 5], bgra@[first + 6]);
    law_contributions_in_range(bgra@[below], bgra@[below + 1], bgra@[below + 2]);
    law_contributions_in_range(bgra@[below + 4], bgra@[below + 5], bgra@[below + 6]);
}

/// Whether each of the first `pixels` pixels of a frame has this colour.
pub open spec fn is_one_colour(bgra: Seq<u8>, pixels: int, b: u8, g: u8, r: u8) -> bool {
    forall|k: int|
        0 <= k < pixels ==> #[trigger] bgra[4 * k] == b && bgra[4 * k + 1] == g && bgra[4 * k + 2]
            == r
}

/// A frame of one colour becomes three planes of one value each, the same whatever the size of the
/// frame: the brightness of the colour, then its blue difference and then its red difference, both
/// raised by 128.
pub proof fn law_one_colour_frame(
    bgra: &[u8],
    width: u32,
    height: u32,
    yuv: Vec<u8>,
    b: u8,
    g: u8,
    r: u8,
)
    requires
        width >= 2,
        width * height * 4 <= bgra@.len(),
        call_ensures(bgra_to_i420, (bgra, width, height), yuv),
        is_one_colour(bgra@, width * height, b, g, r),
    ensures
        yuv@.len() == width * height + 2 * ((width / 2) * (height / 2)),
        forall|i: int|
            0 <= i < width * height ==> #[trigger] yuv@[i] == (77 * r + 150 * g + 29 * b + 128)
                / 256,
        forall|i: int|
            width * height <= i < width * height + (width / 2) * (height / 2)
                ==> #[trigger] yuv@[i] == 128 + (128 * b - 43 * r - 85 * g) / 256,
        forall|i: int|
            width * height + (width / 2) * (height / 2) <= i < yuv@.len() ==> #[trigger] yuv@[i]
                == 128 + (128 * r - 107 * g - 21 * b) / 256,
{
    let (w, h) = (width as int, height as int);
    let (cw, ch) = (w / 2, h / 2);
    let luma_size = w * h;
    let chroma_size = cw * ch;
    law_i420_length(bgra@, w, h);
    law_contributions_in_range(b, g, r);
    lemma_mul_is_commutative(w, h);
    lemma_mul_is_commutative(cw, ch);
    lemma_mul_nonnegative(w, h);
    lemma_mul_nonnegative(cw, ch);
    assert forall|i: int| 0 <= i < luma_size implies #[trigger] yuv@[i] == luma(b, g, r) by {
        lemma_fundamental_div_mod(i, w);
        lemma_div_pos_is_pos(i, w);
        lemma_mod_bound(i, w);
        lemma_div_by_multiple_is_strongly_ordered(i, h * w, h, w);
        lemma_div_by_multiple(h, w);
        lemma_mul_is_commutative(w, i / w);
        assert(yuv@[i] == sample(Plane::Y, bgra@, w, i / w, i % w));
        assert(pixel_at(w, i / w, i % w) == 4 * i);
        assert(bgra@[4 * i] == b);
    }
    assert forall|i: int| luma_size <= i < luma_size + 2 * chroma_size implies #[trigger] yuv@[i]
        == 128 + (if i < luma_size + chroma_size {
        blue_difference(b, g, r)
    } else {
        red_difference(b, g, r)
    }) by {
        let plane = if i < luma_size + chroma_size {
            Plane::U
        } else {
            Plane::V
        };
        let k = if i < luma_size + chroma_size {
            i - luma_size
        } else {
            i - luma_size - chroma_size
        };
        assert(yuv@[i] == sample(plane, bgra@, w, k / cw, k % cw));
        lemma_div_pos_is_pos(k, cw);
        lemma_mod_bound(k, cw);
        lemma_div_by_multiple_is_strongly_ordered(k, ch * cw, ch, cw);
        lemma_div_by_multiple(ch, cw);
        lemma_chroma_place(w, h, k / cw, k % cw);
        let pixel = 2 * (k / cw) * w + 2 * (k % cw);
        assert(bgra@[4 * pixel] == b);
        assert(bgra@[4 * (pixel + 1)] == b);
        assert(bgra@[4 * (pixel + w)] == b);
        assert(bgra@[4 * (pixel + w + 1)] == b);
    }
}

/// Colours keep their sides at every size: on a blue frame the second plane lies above 128 and the
/// third below it, on a red frame it is the other way round, and on a green one both lie below.
pub proof fn law_colours_keep_their_sides(
    bgra: &[u8],
    width: u32,
    height: u32,
    yuv: Vec<u8>,
    level: u8,
    i: int,
)
    requires
        width >= 2,
        width * height * 4 <= bgra@.len(),
        call_ensures(bgra_to_i420, (bgra, width, height), yuv),
        level >= 2,
        0 <= i < (width / 2) * (height / 2),
    ensures
        ({
            let second = yuv@[width * height + i];
            let third = yuv@[width * height + (width / 2) * (height / 2) + i];
            let size = width * height;
            &&& is_one_colour(bgra@, size, level, 0, 0) ==> second > 128 && third < 128
            &&& is_one_colour(bgra@, size, 0, 0, level) ==> second < 128 && third > 128
            &&& is_one_colour(bgra@, size, 0, level, 0) ==> second < 128 && third < 128
        }),
{
    let size = width * height;
    if is_one_colour(bgra@, size, level, 0, 0) {
        law_one_colour_frame(bgra, width, height, yuv, level, 0, 0);
    }
    if is_one_colour(bgra@, size, 0, 0, level) {
        law_one_colour_frame(bgra, width, height, yuv, 0, 0, level);
    }
    if is_one_colour(bgra@, size, 0, level, 0) {
        law_one_colour_frame(bgra, width, height, yuv, 0, level, 0);
    }
}

} // verus!
