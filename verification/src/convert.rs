//! Pixel format conversion: packed BGRA as a capturer delivers it to planar
//! I420 (a luma plane followed by two subsampled chroma planes), and planar
//! I420 back to packed RGB for display.
//!
//! All of it is integer fixed-point arithmetic with eight fractional bits,
//! saturated to the range of a byte.

use vstd::arithmetic::div_mod::lemma_fundamental_div_mod_converse;
use vstd::prelude::*;

verus! {

/// `x` limited to the range of a byte.
pub open spec fn clamp_spec(x: int) -> int {
    if x < 0 {
        0
    } else if x > 255 {
        255
    } else {
        x
    }
}

/// The quotient of `n` by `d`, which is not zero, rounded toward zero.
pub open spec fn div_toward_zero(n: int, d: int) -> int {
    if n >= 0 {
        n / d
    } else {
        -((-n) / d)
    }
}

/// One of the three planes of an I420 image.
#[derive(Clone, Copy, Debug, PartialEq, Eq, Structural)]
pub enum Plane {
    /// Brightness, one sample for each pixel.
    Luma,
    /// Blue difference, one sample for each block of two by two pixels.
    ChromaU,
    /// Red difference, one sample for each block of two by two pixels.
    ChromaV,
}

/// The sample that a pixel of the given colour contributes to a plane.
pub open spec fn sample_spec(plane: Plane, r: int, g: int, b: int) -> int {
    match plane {
        Plane::Luma => clamp_spec(div_toward_zero(66 * r + 129 * g + 25 * b + 128, 256) + 16),
        Plane::ChromaU => clamp_spec(
            div_toward_zero(-38 * r - 74 * g + 112 * b + 128, 256) + 128,
        ),
        Plane::ChromaV => clamp_spec(
            div_toward_zero(112 * r - 94 * g - 18 * b + 128, 256) + 128,
        ),
    }
}

/// Half of `n`, rounded up: the number of chroma samples along a side of `n`
/// pixels.
pub open spec fn half_up(n: int) -> int {
    (n + 1) / 2
}

/// The position in a packed BGRA buffer of the pixel in column `x` of row
/// `y`, where rows are `stride` bytes apart.
pub open spec fn bgra_offset(stride: int, x: int, y: int) -> int {
    y * stride + 4 * x
}

/// The sample of `plane` for the pixel in column `x` of row `y` of a packed
/// BGRA buffer.
pub open spec fn sample_at(plane: Plane, src: Seq<u8>, stride: int, x: int, y: int) -> u8 {
    let o = bgra_offset(stride, x, y);
    sample_spec(plane, src[o + 2] as int, src[o + 1] as int, src[o] as int) as u8
}

/// A plane of `cols` by `rows` samples in row-major order, where the sample
/// in column `i` of row `j` is taken from the pixel in column `step * i` of
/// row `step * j`.
pub open spec fn plane_of(
    plane: Plane,
    src: Seq<u8>,
    stride: int,
    cols: int,
    rows: int,
    step: int,
) -> Seq<u8> {
    Seq::new(
        (cols * rows) as nat,
        |k: int| sample_at(plane, src, stride, step * (k % cols), step * (k / cols)),
    )
}

/// Whether every pixel that a plane of `cols` by `rows` samples is taken
/// from lies inside a buffer of `len` bytes.
pub open spec fn plane_fits(len: int, stride: int, cols: int, rows: int, step: int) -> bool {
    cols > 0 && rows > 0 ==> step * (rows - 1) * stride + 4 * (step * (cols - 1)) + 3 <= len
}

/// The distance in bytes between two rows of a packed buffer of `len` bytes
/// that holds `height` rows.
pub open spec fn row_pitch(len: int, height: int) -> int {
    len / height
}

/// Whether a packed BGRA buffer of `len` bytes holds `height` rows of `width`
/// pixels each, as far as the conversion reads them: there is at least one
/// row, and the red byte of the last pixel of the last row is inside.
pub open spec fn bgra_fits(width: int, height: int, len: int) -> bool {
    &&& height > 0
    &&& plane_fits(len, row_pitch(len, height), width, height, 1)
}

/// The number of bytes of an I420 image of `width` by `height` pixels.
pub open spec fn i420_len(width: int, height: int) -> int {
    width * height + 2 * (half_up(width) * half_up(height))
}

/// The I420 image of a packed BGRA buffer: the luma plane at full
/// resolution, then the blue-difference and the red-difference plane, each
/// sampled at the top left pixel of every block of two by two.
pub open spec fn i420_of(width: int, height: int, src: Seq<u8>) -> Seq<u8> {
    let stride = row_pitch(src.len() as int, height);
    let cw = half_up(width);
    let ch = half_up(height);
    plane_of(Plane::Luma, src, stride, width, height, 1) + plane_of(
        Plane::ChromaU,
        src,
        stride,
        cw,
        ch,
        2,
    ) + plane_of(Plane::ChromaV, src, stride, cw, ch, 2)
}

/// The red channel of the pixel with the given luma and chroma samples.
pub open spec fn red_spec(y: int, u: int, v: int) -> int {
    clamp_spec(y + ((v - 128) * 359) / 256)
}

/// The green channel of the pixel with the given luma and chroma samples.
pub open spec fn green_spec(y: int, u: int, v: int) -> int {
    clamp_spec(y - ((u - 128) * 88) / 256 - ((v - 128) * 182) / 256)
}

/// The blue channel of the pixel with the given luma and chroma samples.
pub open spec fn blue_spec(y: int, u: int, v: int) -> int {
    clamp_spec(y + ((u - 128) * 453) / 256)
}

/// Channel `c` (0 red, 1 green, 2 blue) of the pixel with the given samples.
pub open spec fn channel_spec(c: int, y: int, u: int, v: int) -> int {
    if c == 0 {
        red_spec(y, u, v)
    } else if c == 1 {
        green_spec(y, u, v)
    } else {
        blue_spec(y, u, v)
    }
}

/// The smaller of two numbers.
pub open spec fn min_spec(a: int, b: int) -> int {
    if a <= b {
        a
    } else {
        b
    }
}

/// Whether the planes and the destination are large enough for a picture of
/// `cols` by `rows` pixels cut from the top left of planes whose luma rows
/// are `width` samples apart.
pub open spec fn rgb_fits(
    width: int,
    cols: int,
    rows: int,
    sy_len: int,
    su_len: int,
    sv_len: int,
    dest_len: int,
) -> bool {
    cols > 0 && rows > 0 ==> {
        &&& (rows - 1) * width + cols <= sy_len
        &&& ((rows - 1) / 2) * (width / 2) + (cols - 1) / 2 < su_len
        &&& ((rows - 1) / 2) * (width / 2) + (cols - 1) / 2 < sv_len
        &&& 3 * (rows * cols) <= dest_len
    }
}

/// Byte `k` of the packed RGB picture of `cols` pixels a row that is cut
/// from the top left of the given planes.
pub open spec fn rgb_at(
    width: int,
    sy: Seq<u8>,
    su: Seq<u8>,
    sv: Seq<u8>,
    cols: int,
    k: int,
) -> u8 {
    let pixel = k / 3;
    let i = pixel / cols;
    let j = pixel % cols;
    let uvi = (i / 2) * (width / 2) + j / 2;
    channel_spec(k % 3, sy[i * width + j] as int, su[uvi] as int, sv[uvi] as int) as u8
}

/// The destination after a picture of `cols` by `rows` pixels was written
/// to its front: three bytes a pixel, rows one after the other with nothing
/// between them; what lies behind the picture stays.
pub open spec fn rgb_onto(
    before: Seq<u8>,
    width: int,
    sy: Seq<u8>,
    su: Seq<u8>,
    sv: Seq<u8>,
    cols: int,
    rows: int,
) -> Seq<u8> {
    Seq::new(
        before.len(),
        |k: int|
            if k < 3 * (rows * cols) {
                rgb_at(width, sy, su, sv, cols, k)
            } else {
                before[k]
            },
    )
}

/// Limits `x` to the range of a byte.
pub fn clamp(x: i32) -> (r: u8)
    ensures
        r as int == clamp_spec(x as int),
{
    if x < 0 {
        0
    } else if x > 255 {
        255
    } else {
        x as u8
    }
}

/// Computes the sample that a pixel of the given colour contributes to a
/// plane.
fn sample(plane: Plane, r: u8, g: u8, b: u8) -> (s: u8)
    ensures
        s as int == sample_spec(plane, r as int, g as int, b as int),
{
    let r: i32 = r as i32;
    let g: i32 = g as i32;
    let b: i32 = b as i32;
    match plane {
        Plane::Luma => clamp((66 * r + 129 * g + 25 * b + 128) / 256 + 16),
        Plane::ChromaU => clamp((112 * b - 38 * r - 74 * g + 128) / 256 + 128),
        Plane::ChromaV => clamp((112 * r - 94 * g - 18 * b + 128) / 256 + 128),
    }
}

proof fn lemma_sample_in_bounds(
    len: int,
    stride: int,
    cols: int,
    rows: int,
    step: int,
    i: int,
    j: int,
)
    by (nonlinear_arith)
    requires
        plane_fits(len, stride, cols, rows, step),
        stride >= 0,
        step >= 1,
        0 <= i < cols,
        0 <= j < rows,
    ensures
        0 <= step * j <= step * (rows - 1),
        0 <= step * i <= step * (cols - 1),
        0 <= (step * j) * stride,
        bgra_offset(stride, step * i, step * j) == (step * j) * stride + 4 * (step * i),
        0 <= bgra_offset(stride, step * i, step * j),
        bgra_offset(stride, step * i, step * j) + 3 <= len,
{
    assert(step * j <= step * (rows - 1));
    assert((step * j) * stride <= (step * (rows - 1)) * stride);
    assert(step * i <= step * (cols - 1));
}

proof fn lemma_row_major(cols: int, i: int, j: int, rows: int)
    requires
        0 <= i < cols,
        0 <= j < rows,
    ensures
        (j * cols + i) % cols == i,
        (j * cols + i) / cols == j,
        0 <= j * cols + i < cols * rows,
        j * cols + cols == (j + 1) * cols,
{
    lemma_fundamental_div_mod_converse(j * cols + i, cols, j, i);
    assert(j * cols + i < cols * rows) by (nonlinear_arith)
        requires
            0 <= i < cols,
            0 <= j < rows,
    ;
    assert(0 <= j * cols) by (nonlinear_arith)
        requires
            0 <= j,
            0 < cols,
    ;
    assert(j * cols + cols == (j + 1) * cols) by (nonlinear_arith);
}

/// Appends one plane to `dest`: `cols` by `rows` samples in row-major
/// order, the sample in column `i` of row `j` taken from the pixel in column
/// `step * i` of row `step * j` of `src`.
fn push_plane(
    plane: Plane,
    src: &[u8],
    stride: usize,
    cols: usize,
    rows: usize,
    step: usize,
    dest: &mut Vec<u8>,
)
    requires
        1 <= step <= 2,
        plane_fits(src@.len() as int, stride as int, cols as int, rows as int, step as int),
        rows > 0 ==> step * (rows - 1) <= usize::MAX,
        old(dest)@.len() + cols * rows <= usize::MAX,
    ensures
        final(dest)@ == old(dest)@ + plane_of(
            plane,
            src@,
            stride as int,
            cols as int,
            rows as int,
            step as int,
        ),
{
    let ghost before = dest@;
    let ghost want = plane_of(plane, src@, stride as int, cols as int, rows as int, step as int);
    if cols == 0 {
        assert(cols * rows == 0) by (nonlinear_arith)
            requires
                cols == 0,
        ;
        assert(dest@ =~= before + want);
        return ;
    }
    assert(src@.len() <= usize::MAX) by {
        vstd::slice::axiom_spec_len(src);
    }
    let mut j: usize = 0;
    while j < rows
        invariant
            1 <= step <= 2,
            cols > 0,
            j <= rows,
            src@.len() <= usize::MAX,
            plane_fits(src@.len() as int, stride as int, cols as int, rows as int, step as int),
            rows > 0 ==> step * (rows - 1) <= usize::MAX,
            before.len() + cols * rows <= usize::MAX,
            want == plane_of(plane, src@, stride as int, cols as int, rows as int, step as int),
            dest@.len() == before.len() + j * cols,
            forall|k: int| 0 <= k < before.len() ==> dest@[k] == before[k],
            forall|k: int| 0 <= k < j * cols ==> dest@[before.len() + k] == want[k],
        decreases rows - j,
    {
        let mut i: usize = 0;
        while i < cols
            invariant
                1 <= step <= 2,
                cols > 0,
                j < rows,
                i <= cols,
                src@.len() <= usize::MAX,
                plane_fits(
                    src@.len() as int,
                    stride as int,
                    cols as int,
                    rows as int,
                    step as int,
                ),
                step * (rows - 1) <= usize::MAX,
                before.len() + cols * rows <= usize::MAX,
                want == plane_of(
                    plane,
                    src@,
                    stride as int,
                    cols as int,
                    rows as int,
                    step as int,
                ),
                dest@.len() == before.len() + j * cols + i,
                forall|k: int| 0 <= k < before.len() ==> dest@[k] == before[k],
                forall|k: int| 0 <= k < j * cols + i ==> dest@[before.len() + k] == want[k],
            decreases cols - i,
        {
            proof {
                lemma_sample_in_bounds(
                    src@.len() as int,
                    stride as int,
                    cols as int,
                    rows as int,
                    step as int,
                    i as int,
                    j as int,
                );
                lemma_row_major(cols as int, i as int, j as int, rows as int);
            }
            let o: usize = step * j * stride + 4 * (step * i);
            let s = sample(plane, src[o + 2], src[o + 1], src[o]);
            dest.push(s);
            i += 1;
        }
        proof {
            lemma_row_major(cols as int, 0, j as int, rows as int);
        }
        j += 1;
    }
    proof {
        assert(j * cols == cols * rows) by (nonlinear_arith)
            requires
                j == rows,
        ;
        assert(dest@ =~= before + want);
    }
}

/// Converts a packed BGRA picture of `width` by `height` pixels to I420,
/// replacing what `dest` held.
///
/// The rows of `src` are taken to be `src.len() / height` bytes apart, which
/// may be more than four bytes for each pixel of a row.
pub fn bgra_to_i420(width: usize, height: usize, src: &[u8], dest: &mut Vec<u8>)
    requires
        bgra_fits(width as int, height as int, src@.len() as int),
        i420_len(width as int, height as int) <= usize::MAX,
    ensures
        final(dest)@ == i420_of(width as int, height as int, src@),
{
    let stride = src.len() / height;
    let cw = width / 2 + width % 2;
    let ch = height / 2 + height % 2;
    proof {
        let w = width as int;
        let h = height as int;
        assert(cw == half_up(w) && ch == half_up(h));
        assert(0 <= w * h && 0 <= cw * ch) by (nonlinear_arith)
            requires
                0 <= w,
                0 <= h,
                0 <= cw,
                0 <= ch,
        ;
        if cw > 0 && ch > 0 {
            assert(2 * (ch - 1) * stride + 4 * (2 * (cw - 1)) + 3 <= (h - 1) * stride + 4 * (w - 1)
                + 3) by (nonlinear_arith)
                requires
                    2 * (ch - 1) <= h - 1,
                    2 * (cw - 1) <= w - 1,
                    stride >= 0,
            ;
        }
    }
    dest.clear();
    push_plane(Plane::Luma, src, stride, width, height, 1, dest);
    push_plane(Plane::ChromaU, src, stride, cw, ch, 2, dest);
    push_plane(Plane::ChromaV, src, stride, cw, ch, 2, dest);
    proof {
        assert(dest@ =~= i420_of(width as int, height as int, src@));
    }
}

/// Computes the three channels of the pixel with the given luma and chroma
/// samples.
fn pixel_rgb(y: u8, u: u8, v: u8) -> (rgb: (u8, u8, u8))
    ensures
        rgb.0 as int == red_spec(y as int, u as int, v as int),
        rgb.1 as int == green_spec(y as int, u as int, v as int),
        rgb.2 as int == blue_spec(y as int, u as int, v as int),
{
    let y: i32 = y as i32;
    let u: i32 = u as i32 - 128;
    let v: i32 = v as i32 - 128;
    let rv: i32 = v * 359;
    let gu: i32 = u * 88;
    let gv: i32 = v * 182;
    let bu: i32 = u * 453;
    proof {
        assert(rv >> 8 == rv / 256) by (bit_vector);
        assert(gu >> 8 == gu / 256) by (bit_vector);
        assert(gv >> 8 == gv / 256) by (bit_vector);
        assert(bu >> 8 == bu / 256) by (bit_vector);
    }
    (clamp(y + (rv >> 8)), clamp(y - (gu >> 8) - (gv >> 8)), clamp(y + (bu >> 8)))
}

proof fn lemma_rgb_in_bounds(
    width: int,
    cols: int,
    rows: int,
    sy_len: int,
    su_len: int,
    sv_len: int,
    dest_len: int,
    i: int,
    j: int,
)
    by (nonlinear_arith)
    requires
        rgb_fits(width, cols, rows, sy_len, su_len, sv_len, dest_len),
        0 <= cols <= width,
        0 <= i < rows,
        0 <= j < cols,
    ensures
        0 <= i * width,
        i * width + j < sy_len,
        0 <= (i / 2) * (width / 2),
        (i / 2) * (width / 2) + j / 2 < su_len,
        (i / 2) * (width / 2) + j / 2 < sv_len,
        0 <= i * cols,
        3 * (i * cols + j) + 3 <= 3 * (rows * cols),
        3 * (rows * cols) <= dest_len,
{
    assert(i * width <= (rows - 1) * width);
    assert(i / 2 <= (rows - 1) / 2);
    assert((i / 2) * (width / 2) <= ((rows - 1) / 2) * (width / 2));
    assert(j / 2 <= (cols - 1) / 2);
    assert(i * cols <= (rows - 1) * cols);
    assert((rows - 1) * cols + cols == rows * cols);
}

proof fn lemma_rgb_position(cols: int, i: int, j: int, c: int)
    requires
        0 <= i,
        0 <= j < cols,
        0 <= c < 3,
    ensures
        (3 * (i * cols + j) + c) / 3 == i * cols + j,
        (3 * (i * cols + j) + c) % 3 == c,
        (i * cols + j) / cols == i,
        (i * cols + j) % cols == j,
{
    lemma_fundamental_div_mod_converse(i * cols + j, cols, i, j);
}

/// Converts the top left `crop_width` by `crop_height` pixels of an I420
/// picture to packed RGB at the front of `dest`, three bytes a pixel and
/// row after row without padding. The rest of `dest` is left as it was.
///
/// The luma rows are `width` samples apart and the chroma rows half of
/// that, rounded down. A crop larger than `width` by `height` is cut down
/// to it.
pub fn i420_to_rgb(
    width: usize,
    height: usize,
    sy: &[u8],
    su: &[u8],
    sv: &[u8],
    dest: &mut [u8],
    crop_width: usize,
    crop_height: usize,
)
    requires
        rgb_fits(
            width as int,
            min_spec(crop_width as int, width as int),
            min_spec(crop_height as int, height as int),
            sy@.len() as int,
            su@.len() as int,
            sv@.len() as int,
            old(dest)@.len() as int,
        ),
    ensures
        final(dest)@ == rgb_onto(
            old(dest)@,
            width as int,
            sy@,
            su@,
            sv@,
            min_spec(crop_width as int, width as int),
            min_spec(crop_height as int, height as int),
        ),
{
    let cols = if crop_width < width {
        crop_width
    } else {
        width
    };
    let rows = if crop_height < height {
        crop_height
    } else {
        height
    };
    let uvw = width / 2;
    let dest_len = dest.len();
    let ghost before = dest@;
    let ghost want = rgb_onto(before, width as int, sy@, su@, sv@, cols as int, rows as int);
    proof {
        vstd::slice::axiom_spec_len(sy);
        vstd::slice::axiom_spec_len(su);
        vstd::slice::axiom_spec_len(sv);
    }
    if cols == 0 {
        assert(rows * cols == 0) by (nonlinear_arith)
            requires
                cols == 0,
        ;
        assert(dest@ =~= want);
        return ;
    }
    let mut i: usize = 0;
    while i < rows
        invariant
            0 < cols <= width,
            i <= rows,
            uvw == width / 2,
            rgb_fits(
                width as int,
                cols as int,
                rows as int,
                sy@.len() as int,
                su@.len() as int,
                sv@.len() as int,
                before.len() as int,
            ),
            sy@.len() <= usize::MAX,
            su@.len() <= usize::MAX,
            before.len() == dest_len,
            dest@.len() == before.len(),
            forall|k: int|
                0 <= k < 3 * (i * cols) ==> dest@[k] == rgb_at(
                    width as int,
                    sy@,
                    su@,
                    sv@,
                    cols as int,
                    k,
                ),
            forall|k: int| 3 * (i * cols) <= k < before.len() ==> dest@[k] == before[k],
        decreases rows - i,
    {
        let mut j: usize = 0;
        while j < cols
            invariant
                0 < cols <= width,
                i < rows,
                j <= cols,
                uvw == width / 2,
                rgb_fits(
                    width as int,
                    cols as int,
                    rows as int,
                    sy@.len() as int,
                    su@.len() as int,
                    sv@.len() as int,
                    before.len() as int,
                ),
                sy@.len() <= usize::MAX,
                su@.len() <= usize::MAX,
                before.len() == dest_len,
                dest@.len() == before.len(),
                forall|k: int|
                    0 <= k < 3 * (i * cols + j) ==> dest@[k] == rgb_at(
                        width as int,
                        sy@,
                        su@,
                        sv@,
                        cols as int,
                        k,
                    ),
                forall|k: int| 3 * (i * cols + j) <= k < before.len() ==> dest@[k] == before[k],
            decreases cols - j,
        {
            proof {
                lemma_rgb_in_bounds(
                    width as int,
                    cols as int,
                    rows as int,
                    sy@.len() as int,
                    su@.len() as int,
                    sv@.len() as int,
                    before.len() as int,
                    i as int,
                    j as int,
                );
                lemma_rgb_position(cols as int, i as int, j as int, 0);
                lemma_rgb_position(cols as int, i as int, j as int, 1);
                lemma_rgb_position(cols as int, i as int, j as int, 2);
            }
            let uvi: usize = (i / 2) * uvw + j / 2;
            let (r, g, b) = pixel_rgb(sy[i * width + j], su[uvi], sv[uvi]);
            let at: usize = 3 * (i * cols + j);
            dest[at] = r;
            dest[at + 1] = g;
            dest[at + 2] = b;
            j += 1;
        }
        proof {
            assert(i * cols + cols == (i + 1) * cols) by (nonlinear_arith);
        }
        i += 1;
    }
    proof {
        assert(i * cols == rows * cols) by (nonlinear_arith)
            requires
                i == rows,
        ;
        assert(dest@ =~= want);
    }
}

/// The most by which a channel of a pixel can change when the pixel is
/// converted to luma and chroma samples and back.
pub const ROUND_TRIP_ERROR: u8 = 21;

proof fn lemma_floor_256(n: int) -> (q: int)
    ensures
        q == n / 256,
        256 * q <= n <= 256 * q + 255,
{
    n / 256
}

proof fn lemma_toward_zero_256(n: int) -> (q: int)
    ensures
        q == div_toward_zero(n, 256),
        n >= 0 ==> 256 * q <= n <= 256 * q + 255,
        n < 0 ==> 256 * q - 255 <= n <= 256 * q,
{
    div_toward_zero(n, 256)
}

/// A colour that is converted to its three samples and back comes out with
/// every channel within [`ROUND_TRIP_ERROR`] of what it was.
#[verifier::rlimit(100)]
#[verifier::spinoff_prover]
pub proof fn lemma_colour_round_trip(r: u8, g: u8, b: u8)
    ensures
        ({
            let y = sample_spec(Plane::Luma, r as int, g as int, b as int);
            let u = sample_spec(Plane::ChromaU, r as int, g as int, b as int);
            let v = sample_spec(Plane::ChromaV, r as int, g as int, b as int);
            &&& -ROUND_TRIP_ERROR <= red_spec(y, u, v) - r <= ROUND_TRIP_ERROR
            &&& -ROUND_TRIP_ERROR <= green_spec(y, u, v) - g <= ROUND_TRIP_ERROR
            &&& -ROUND_TRIP_ERROR <= blue_spec(y, u, v) - b <= ROUND_TRIP_ERROR
        }),
{
    let y0 = lemma_floor_256(66 * r + 129 * g + 25 * b + 128);
    let u0 = lemma_toward_zero_256(-38 * r - 74 * g + 112 * b + 128);
    let v0 = lemma_toward_zero_256(112 * r - 94 * g - 18 * b + 128);
    assert(0 <= y0 <= 219);
    assert(-112 <= u0 <= 112);
    assert(-112 <= v0 <= 112);
    let y = y0 + 16;
    let u = u0 + 128;
    let v = v0 + 128;
    assert(y == sample_spec(Plane::Luma, r as int, g as int, b as int));
    assert(u == sample_spec(Plane::ChromaU, r as int, g as int, b as int));
    assert(v == sample_spec(Plane::ChromaV, r as int, g as int, b as int));
    let rv = lemma_floor_256(v0 * 359);
    let gu = lemma_floor_256(u0 * 88);
    let gv = lemma_floor_256(v0 * 182);
    let bu = lemma_floor_256(u0 * 453);
    assert(red_spec(y, u, v) == clamp_spec(y + rv));
    assert(green_spec(y, u, v) == clamp_spec(y - gu - gv));
    assert(blue_spec(y, u, v) == clamp_spec(y + bu));
    assert(-ROUND_TRIP_ERROR <= y + rv - r <= ROUND_TRIP_ERROR);
    assert(-ROUND_TRIP_ERROR <= y - gu - gv - g <= ROUND_TRIP_ERROR);
    assert(-ROUND_TRIP_ERROR <= y + bu - b <= ROUND_TRIP_ERROR);
}

/// Tells whether [`bgra_to_i420`] can convert a buffer of `len` bytes as a
/// picture of `width` by `height` pixels: the buffer holds every pixel that
/// is read, and the image has a length that this machine can address.
pub fn can_convert_bgra(width: usize, height: usize, len: usize) -> (ok: bool)
    ensures
        ok == (bgra_fits(width as int, height as int, len as int) && i420_len(
            width as int,
            height as int,
        ) <= usize::MAX),
{
    if height == 0 {
        return false;
    }
    if width == 0 {
        assert(i420_len(0, height as int) == 0) by (nonlinear_arith)
            requires
                i420_len(0, height as int) == 0 * height + 2 * (half_up(0) * half_up(
                    height as int,
                )),
                half_up(0) == 0,
        ;
        return true;
    }
    let stride = len / height;
    let cw = width / 2 + width % 2;
    let ch = height / 2 + height % 2;
    let max: u128 = 0xFFFF_FFFF_FFFF_FFFF;
    assert(cw == half_up(width as int) && ch == half_up(height as int));
    assert((height - 1) * stride <= max * max && width * height <= max * max && cw * ch <= max
        * max && 0 <= (height - 1) * stride && 0 <= cw * ch) by (nonlinear_arith)
        requires
            0 <= height - 1 <= max,
            0 <= stride <= max,
            0 <= width <= max,
            0 <= cw <= max,
            0 <= ch <= max,
            max == 0xFFFF_FFFF_FFFF_FFFF,
    ;
    let last_row: u128 = ((height - 1) as u128) * (stride as u128);
    let last_pixel: u128 = 4 * ((width - 1) as u128);
    if last_row > max || last_row + last_pixel + 3 > len as u128 {
        return false;
    }
    let luma: u128 = (width as u128) * (height as u128);
    let chroma: u128 = (cw as u128) * (ch as u128);
    if luma > max || chroma > max {
        assert(i420_len(width as int, height as int) > usize::MAX);
        return false;
    }
    luma + 2 * chroma <= usize::MAX as u128
}

/// Tells whether [`i420_to_rgb`] can convert planes of the given lengths
/// into a destination of `dest_len` bytes: the planes hold every sample
/// that is read, and the destination every byte that is written.
pub fn can_convert_i420(
    width: usize,
    height: usize,
    sy_len: usize,
    su_len: usize,
    sv_len: usize,
    dest_len: usize,
    crop_width: usize,
    crop_height: usize,
) -> (ok: bool)
    ensures
        ok == rgb_fits(
            width as int,
            min_spec(crop_width as int, width as int),
            min_spec(crop_height as int, height as int),
            sy_len as int,
            su_len as int,
            sv_len as int,
            dest_len as int,
        ),
{
    let cols = if crop_width < width {
        crop_width
    } else {
        width
    };
    let rows = if crop_height < height {
        crop_height
    } else {
        height
    };
    if cols == 0 || rows == 0 {
        return true;
    }
    let max: u128 = 0xFFFF_FFFF_FFFF_FFFF;
    let half_rows = (rows - 1) / 2;
    let half_width = width / 2;
    assert((rows - 1) * width <= max * max && half_rows * half_width <= max * max && rows * cols
        <= max * max && 0 <= (rows - 1) * width && 0 <= half_rows * half_width && 0 <= rows
        * cols) by (nonlinear_arith)
        requires
            0 <= rows - 1 <= max,
            0 <= rows <= max,
            0 <= cols <= max,
            0 <= width <= max,
            0 <= half_rows <= max,
            0 <= half_width <= max,
            max == 0xFFFF_FFFF_FFFF_FFFF,
    ;
    let luma_end: u128 = ((rows - 1) as u128) * (width as u128) + (cols as u128);
    let chroma_at: u128 = (half_rows as u128) * (half_width as u128) + (((cols - 1) / 2) as u128);
    let pixels: u128 = (rows as u128) * (cols as u128);
    if pixels > max {
        assert(3 * (rows * cols) > dest_len);
        return false;
    }
    luma_end <= sy_len as u128 && chroma_at < su_len as u128 && chroma_at < sv_len as u128 && 3
        * pixels <= dest_len as u128
}

/// The luma plane of an I420 image of `width` by `height` pixels.
pub open spec fn luma_plane(image: Seq<u8>, width: int, height: int) -> Seq<u8> {
    image.subrange(0, width * height)
}

/// The blue-difference plane of an I420 image of `width` by `height`
/// pixels.
pub open spec fn chroma_u_plane(image: Seq<u8>, width: int, height: int) -> Seq<u8> {
    let n = width * height;
    let q = half_up(width) * half_up(height);
    image.subrange(n, n + q)
}

/// The red-difference plane of an I420 image of `width` by `height` pixels.
pub open spec fn chroma_v_plane(image: Seq<u8>, width: int, height: int) -> Seq<u8> {
    let n = width * height;
    let q = half_up(width) * half_up(height);
    image.subrange(n + q, n + 2 * q)
}

/// Whether the pixel in column `x` of row `y` of a packed BGRA picture has
/// the colour of the top left pixel of its block of two by two.
pub open spec fn has_block_colour(src: Seq<u8>, stride: int, x: int, y: int) -> bool {
    let own = bgra_offset(stride, x, y);
    let first = bgra_offset(stride, x - x % 2, y - y % 2);
    src[own] == src[first] && src[own + 1] == src[first + 1] && src[own + 2] == src[first + 2]
}

/// A picture of even width that is converted to I420 and back to packed RGB
/// comes out with every channel of a pixel within [`ROUND_TRIP_ERROR`] of
/// what it was, wherever the pixel has the colour of the top left pixel of
/// its block of two by two. (The other pixels of a block get that pixel's
/// chroma, and can come out in any colour.)
///
/// The picture is packed without padding: its rows are four bytes for each
/// pixel apart. Channel 0 is red, 1 green, 2 blue.
pub proof fn lemma_conversion_round_trip(
    width: int,
    height: int,
    src: Seq<u8>,
    before: Seq<u8>,
    x: int,
    y: int,
    c: int,
)
    requires
        width > 0,
        height > 0,
        width % 2 == 0,
        src.len() == 4 * width * height,
        before.len() >= 3 * (height * width),
        0 <= x < width,
        0 <= y < height,
        0 <= c < 3,
        has_block_colour(src, 4 * width, x, y),
    ensures
        ({
            let image = i420_of(width, height, src);
            let shown = rgb_onto(
                before,
                width,
                luma_plane(image, width, height),
                chroma_u_plane(image, width, height),
                chroma_v_plane(image, width, height),
                width,
                height,
            );
            let was = src[bgra_offset(4 * width, x, y) + 2 - c];
            -ROUND_TRIP_ERROR <= shown[3 * (y * width + x) + c] - was <= ROUND_TRIP_ERROR
        }),
{
    let stride = row_pitch(src.len() as int, height);
    assert(stride == 4 * width) by {
        lemma_fundamental_div_mod_converse(src.len() as int, height, 4 * width, 0);
    }
    let cw = half_up(width);
    let ch = half_up(height);
    let n = width * height;
    let q = cw * ch;
    let image = i420_of(width, height, src);
    let sy = luma_plane(image, width, height);
    let su = chroma_u_plane(image, width, height);
    let sv = chroma_v_plane(image, width, height);
    let shown = rgb_onto(before, width, sy, su, sv, width, height);
    let pixel = y * width + x;
    let k = 3 * pixel + c;
    lemma_rgb_position(width, y, x, c);
    lemma_row_major(width, x, y, height);
    let bx = x / 2;
    let by = y / 2;
    assert(cw == width / 2);
    assert(0 <= bx < cw && 0 <= by < ch);
    lemma_row_major(cw, bx, by, ch);
    let uvi = by * cw + bx;
    assert(n >= 0 && q >= 0) by (nonlinear_arith)
        requires
            n == width * height,
            q == cw * ch,
            width > 0,
            height > 0,
            cw >= 0,
            ch >= 0,
    ;
    assert(height * width == n) by (nonlinear_arith)
        requires
            n == width * height,
    ;
    assert(image.len() == n + q + q);
    assert(k < 3 * (height * width));
    assert(shown[k] == rgb_at(width, sy, su, sv, width, k));
    assert(sy[pixel] == image[pixel]);
    assert(su[uvi] == image[n + uvi]);
    assert(sv[uvi] == image[n + q + uvi]);
    assert(image[pixel] == sample_at(Plane::Luma, src, stride, x, y));
    assert(2 * bx == x - x % 2 && 2 * by == y - y % 2);
    assert(image[n + uvi] == sample_at(Plane::ChromaU, src, stride, 2 * bx, 2 * by));
    assert(image[n + q + uvi] == sample_at(Plane::ChromaV, src, stride, 2 * bx, 2 * by));
    let own = bgra_offset(stride, x, y);
    lemma_colour_round_trip(src[own + 2], src[own + 1], src[own]);
}

} // verus!
