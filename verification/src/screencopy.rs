//! Screen capture: turning what the compositor hands over into frames, and the loop that captures
//! the region, scrolls down and repeats until the content stops changing.

use vstd::prelude::*;
use crate::frame::{blank_pixel, blank_row, frame_rows, frame_width, Frame, Rgba8};
use crate::stitch::{
    lemma_row_distance_nonnegative, lemma_row_distance_to_itself, row_distance, row_sad_fast,
    sampled_sad,
};

verus! {

/// `wl_shm` format with alpha, in memory as blue, green, red, alpha.
pub const FORMAT_ARGB8888: u32 = 0;

/// `wl_shm` format without alpha, in memory as blue, green, red, unused.
pub const FORMAT_XRGB8888: u32 = 1;

/// `wl_shm` format with alpha, in memory as red, green, blue, alpha.
pub const FORMAT_ABGR8888: u32 = 0x34324241;

// Frame conversion

/// The pixel that four bytes of shared memory stand for. Formats 0 and 1 start with blue, all
/// others with red. Only the two formats with alpha have transparent pixels.
pub open spec fn decode_pixel(format: u32, b0: u8, b1: u8, b2: u8, b3: u8) -> Rgba8 {
    let alpha = if format == FORMAT_ARGB8888 || format == FORMAT_ABGR8888 {
        b3
    } else {
        255u8
    };
    if format == FORMAT_ARGB8888 || format == FORMAT_XRGB8888 {
        (b2, b1, b0, alpha)
    } else {
        (b0, b1, b2, alpha)
    }
}

/// Where the pixel in column `x` of row `y` starts.
pub open spec fn pixel_offset(stride: u32, x: int, y: int) -> int {
    y * stride + x * 4
}

/// The pixel in column `x` of row `y`. It is blank where the data ends before it does.
pub open spec fn captured_pixel(data: Seq<u8>, stride: u32, format: u32, x: int, y: int) -> Rgba8 {
    let off = pixel_offset(stride, x, y);
    if off + 4 <= data.len() {
        decode_pixel(format, data[off], data[off + 1], data[off + 2], data[off + 3])
    } else {
        blank_pixel()
    }
}

/// A row of captured pixels.
pub open spec fn captured_row(data: Seq<u8>, w: nat, stride: u32, format: u32, y: int) -> Seq<Rgba8> {
    Seq::new(w, |x: int| captured_pixel(data, stride, format, x, y))
}

/// All rows of captured pixels.
pub open spec fn captured_rows(
    data: Seq<u8>,
    w: nat,
    h: nat,
    stride: u32,
    format: u32,
) -> Seq<Seq<Rgba8>> {
    Seq::new(h, |y: int| captured_row(data, w, stride, format, y))
}

/// Converts the raw bytes of shared memory to a frame.
///
/// These are the layouts that the compositor's screen copies come in:
///   XRGB8888 / ARGB8888: blue, green, red, unused or alpha
///   XBGR8888 / ABGR8888: red, green, blue, unused or alpha
pub fn raw_to_rgba(data: &[u8], width: u32, height: u32, stride: u32, format: u32) -> (img: Frame)
    requires
        width * 4 <= usize::MAX,
        width * height * 4 <= isize::MAX,
    ensures
        frame_rows(img) == captured_rows(data@, width as nat, height as nat, stride, format),
        frame_width(img) == width,
        frame_rows(img) == Seq::new(
            height as nat,
            |y: int| captured_row(data@, width as nat, stride, format, y),
        ),
{
    let mut img = Frame::new(width, height);
    let mut y: u32 = 0;
    while y < height
        invariant
            y <= height,
            frame_width(img) == width,
            frame_rows(img).len() == height,
            forall|j: int|
                0 <= j < y ==> #[trigger] frame_rows(img)[j] == captured_row(
                    data@,
                    width as nat,
                    stride,
                    format,
                    j,
                ),
            forall|j: int|
                y <= j < height ==> #[trigger] frame_rows(img)[j] == blank_row(width as nat),
        decreases height - y,
    {
        let ghost before = frame_rows(img);
        convert_row(data, width, stride, format, &mut img, y);
        assert forall|j: int| 0 <= j < height && j != y implies #[trigger] frame_rows(img)[j]
            == before[j] by {}
        y = y + 1;
    }
    assert(frame_rows(img) =~= Seq::new(
        height as nat,
        |y: int| captured_row(data@, width as nat, stride, format, y),
    ));
    assert(frame_rows(img) =~= captured_rows(data@, width as nat, height as nat, stride, format));
    img
}

/// A buffer that holds all rows, each with room for its pixels, leaves no pixel blank.
pub proof fn law_full_buffer_has_every_pixel(len: int, w: int, h: int, stride: u32, x: int, y: int)
    requires
        0 <= x < w,
        0 <= y < h,
        w * 4 <= stride,
        h * stride <= len,
    ensures
        0 <= pixel_offset(stride, x, y),
        pixel_offset(stride, x, y) + 4 <= len,
{
    assert(0 <= y * stride && y * stride + stride <= h * stride) by (nonlinear_arith)
        requires
            0 <= y,
            y + 1 <= h,
            stride >= 0,
    ;
}

/// Converts the bytes of one row.
fn convert_row(data: &[u8], width: u32, stride: u32, format: u32, img: &mut Frame, y: u32)
    requires
        frame_width(*old(img)) == width,
        y < frame_rows(*old(img)).len(),
        frame_rows(*old(img))[y as int] == blank_row(width as nat),
    ensures
        frame_width(*final(img)) == width,
        frame_rows(*final(img)) == frame_rows(*old(img)).update(
            y as int,
            captured_row(data@, width as nat, stride, format, y as int),
        ),
{
    let len: u128 = data.len() as u128;
    assert(0 <= y * stride <= u32::MAX * u32::MAX) by (nonlinear_arith)
        requires
            0 <= y <= u32::MAX,
            0 <= stride <= u32::MAX,
    ;
    let row_start: u128 = y as u128 * stride as u128;
    let ghost before = frame_rows(*img);
    let ghost row = captured_row(data@, width as nat, stride, format, y as int);
    let mut x: u32 = 0;
    while x < width && row_start + x as u128 * 4 + 4 <= len
        invariant
            len == data@.len(),
            len <= usize::MAX,
            row_start == y * stride,
            row_start <= u32::MAX * u32::MAX,
            x <= width,
            row == captured_row(data@, width as nat, stride, format, y as int),
            frame_width(*img) == width,
            y < before.len(),
            before[y as int] == blank_row(width as nat),
            frame_rows(*img).len() == before.len(),
            frame_rows(*img)[y as int].len() == width,
            forall|j: int| 0 <= j < x ==> #[trigger] frame_rows(*img)[y as int][j] == row[j],
            forall|j: int| x <= j < width ==> #[trigger] frame_rows(*img)[y as int][j] == blank_pixel(),
            forall|j: int| 0 <= j < before.len() && j != y ==> #[trigger] frame_rows(*img)[j] == before[j],
        decreases width - x,
    {
        let off: usize = (row_start + x as u128 * 4) as usize;
        let a: u8 = if format == FORMAT_ARGB8888 || format == FORMAT_ABGR8888 {
            data[off + 3]
        } else {
            255
        };
        let p: Rgba8 = if format == FORMAT_ARGB8888 || format == FORMAT_XRGB8888 {
            (data[off + 2], data[off + 1], data[off], a)
        } else {
            (data[off], data[off + 1], data[off + 2], a)
        };
        assert(p == row[x as int]);
        img.put_pixel(x, y, p);
        x = x + 1;
    }
    assert(frame_rows(*img)[y as int] =~= row);
    assert(frame_rows(*img) =~= before.update(y as int, row));
}

// Frame comparison

/// How much two frames differ: `total / count` is the average difference of a channel.
#[derive(Clone, Copy, Debug, PartialEq, Eq, Structural)]
pub struct FrameDiff {
    pub total: u128,
    pub count: u128,
}

/// The sum of the differences of every fourth pixel in every fourth of the first `n` rows.
pub open spec fn sampled_total(a: Frame, b: Frame, n: int) -> int
    decreases n,
{
    if n <= 0 {
        0
    } else {
        sampled_total(a, b, n - 1) + if (n - 1) % 4 == 0 {
            sampled_sad(a, n - 1, b, n - 1)
        } else {
            0
        }
    }
}

/// How many of `n` rows or columns are sampled.
pub open spec fn samples(n: int) -> int {
    (n + 3) / 4
}

/// The frames have the same width and height.
pub open spec fn same_dimensions(a: Frame, b: Frame) -> bool {
    frame_width(a) == frame_width(b) && frame_rows(a).len() == frame_rows(b).len()
}

/// The total difference and the number of channels it sums up. Frames of different size are as
/// far apart as can be; frames without pixels do not differ.
pub open spec fn frame_difference(a: Frame, b: Frame) -> (int, int) {
    let (w, h) = (frame_width(a) as int, frame_rows(a).len() as int);
    if !same_dimensions(a, b) {
        (255, 1)
    } else if w == 0 || h == 0 {
        (0, 1)
    } else {
        (sampled_total(a, b, h), 3 * (samples(w) * samples(h)))
    }
}

/// The two frames are taken to show the same.
pub open spec fn unchanged(a: Frame, b: Frame) -> bool {
    let (total, count) = frame_difference(a, b);
    total * 2 < count * 3
}

impl FrameDiff {
    /// The average difference is below `3 / 2`, so that the frames are taken to show the same.
    ///
    /// The comparison is exact. It agrees with a division in double precision wherever `count` is
    /// below two to the power of 52.
    pub fn is_unchanged(&self) -> (r: bool)
        ensures
            r == (self.total * 2 < self.count * 3),
    {
        if self.total < self.count {
            true
        } else {
            let excess: u128 = self.total - self.count;
            excess <= self.count && excess < self.count - excess
        }
    }
}

/// Compares two frames by every fourth pixel in each direction.
pub fn frame_diff(a: &Frame, b: &Frame) -> (r: FrameDiff)
    ensures
        r.total == frame_difference(*a, *b).0,
        r.count == frame_difference(*a, *b).1,
{
    let w = a.width();
    let h = a.height();
    if w != b.width() || h != b.height() {
        return FrameDiff { total: 255, count: 1 };
    }
    if w == 0 || h == 0 {
        return FrameDiff { total: 0, count: 1 };
    }
    let row_count: u128 = (w as u128 + 3) / 4;
    let mut total: u128 = 0;
    let mut count: u128 = 0;
    let mut y: u32 = 0;
    while y < h
        invariant
            0 < w == frame_width(*a) == frame_width(*b),
            h == frame_rows(*a).len() == frame_rows(*b).len(),
            row_count == samples(w as int),
            row_count <= 0x4000_0000,
            y <= h,
            y < h ==> y % 4 == 0,
            total == sampled_total(*a, *b, y as int),
            count == 3 * (row_count * samples(y as int)),
            count <= 0xc000_0000 * samples(y as int),
            total <= 255 * count,
        decreases h - y,
    {
        let sad = row_sad_fast(a, y, b, y);
        total = total + sad as u128;
        count = count + row_count * 3;
        let next: u32 = if h - y > 4 {
            y + 4
        } else {
            h
        };
        proof {
            reveal_with_fuel(sampled_total, 5);
            assert(samples(next as int) == samples(y as int) + 1);
            assert(row_count * (samples(y as int) + 1) == row_count * samples(y as int) + row_count)
                by (nonlinear_arith);
        }
        y = next;
    }
    FrameDiff { total, count }
}

/// Rows differ by at most 255 for each sampled channel, and which row comes first does not matter.
proof fn lemma_row_distance_bound(a: Seq<Rgba8>, b: Seq<Rgba8>, n: int)
    requires
        n >= 0,
    ensures
        row_distance(a, b, 4, n) <= 765 * samples(n),
        row_distance(a, b, 4, n) == row_distance(b, a, 4, n),
    decreases n,
{
    if n > 0 {
        lemma_row_distance_bound(a, b, n - 1);
    }
}

/// The same of the sampled rows of two frames of one size, which differ by nothing or more; those
/// of a frame and itself do not differ.
proof fn lemma_sampled_total(a: Frame, b: Frame, n: int)
    requires
        same_dimensions(a, b),
        n >= 0,
    ensures
        0 <= sampled_total(a, b, n) <= (765 * samples(frame_width(a) as int)) * samples(n),
        sampled_total(a, b, n) == sampled_total(b, a, n),
        a == b ==> sampled_total(a, b, n) == 0,
    decreases n,
{
    let per_row = 765 * samples(frame_width(a) as int);
    if n > 0 {
        lemma_sampled_total(a, b, n - 1);
        let (row_a, row_b, w) = (frame_rows(a)[n - 1], frame_rows(b)[n - 1], frame_width(a) as int);
        lemma_row_distance_nonnegative(row_a, row_b, 4, w);
        lemma_row_distance_to_itself(row_a, 4, w);
        lemma_row_distance_bound(row_a, row_b, w);
        if (n - 1) % 4 == 0 {
            assert(samples(n) == samples(n - 1) + 1);
            assert(per_row * samples(n) == per_row * samples(n - 1) + per_row) by (nonlinear_arith)
                requires
                    samples(n) == samples(n - 1) + 1,
            ;
        } else {
            assert(samples(n) == samples(n - 1));
        }
    }
}

/// The average difference of two frames lies between 0 and 255. Which frame comes first does not
/// matter, and a frame shows the same as itself.
pub proof fn law_frame_difference(a: Frame, b: Frame)
    ensures
        0 < frame_difference(a, b).1,
        0 <= frame_difference(a, b).0 <= 255 * frame_difference(a, b).1,
        frame_difference(a, b) == frame_difference(b, a),
        frame_difference(a, a).0 == 0,
        unchanged(a, a),
{
    let (w, h) = (frame_width(a) as int, frame_rows(a).len() as int);
    lemma_sampled_total(a, a, h);
    if w > 0 && h > 0 {
        assert(samples(w) * samples(h) > 0) by (nonlinear_arith)
            requires
                samples(w) > 0,
                samples(h) > 0,
        ;
    }
    if same_dimensions(a, b) {
        lemma_sampled_total(a, b, h);
        assert((765 * samples(w)) * samples(h) == 255 * (3 * (samples(w) * samples(h))))
            by (nonlinear_arith);
    }
}

} // verus!
