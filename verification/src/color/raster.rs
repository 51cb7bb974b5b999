//! Where the samples of a pixel filter lie.
//!
//! The filters themselves work on floating-point pixels. Which samples they read, and whether a
//! buffer is one that they can read, is decided here.

use vstd::prelude::*;

verus! {

/// Whether a buffer holds an image of this size with this many channels.
pub open spec fn is_image(len: int, width: int, height: int, channels: int) -> bool {
    len == width * height * channels
}

/// Whether a buffer holds an image of this size with this many channels.
pub fn holds_image(len: usize, width: u32, height: u32, channels: u8) -> (yes: bool)
    ensures
        yes == is_image(len as int, width as int, height as int, channels as int),
{
    assert(0 <= width * height <= 0xffff_ffff * 0xffff_ffff) by (nonlinear_arith)
        requires
            0 <= width <= 0xffff_ffff,
            0 <= height <= 0xffff_ffff,
    ;
    let pixels: u128 = width as u128 * height as u128;
    assert(0 <= pixels * channels <= 0xffff_ffff * 0xffff_ffff * 0xff) by (nonlinear_arith)
        requires
            0 <= pixels <= 0xffff_ffff * 0xffff_ffff,
            0 <= channels <= 0xff,
    ;
    len as u128 == pixels * channels as u128
}

/// Whether a buffer is one that a blur changes: an image of this size, with a pixel that has a
/// neighbour.
pub fn can_blur(len: usize, width: u32, height: u32, channels: u8) -> (yes: bool)
    ensures
        yes == (is_image(len as int, width as int, height as int, channels as int) && width * height
            >= 2),
{
    if width == 0 || height == 0 {
        assert(width * height == 0) by (nonlinear_arith)
            requires
                width == 0 || height == 0,
        ;
        return false;
    }
    let enough: bool = width >= 2 || height >= 2;
    assert(enough == (width * height >= 2)) by (nonlinear_arith)
        requires
            width >= 1,
            height >= 1,
            enough == (width >= 2 || height >= 2),
    ;
    enough && holds_image(len, width, height, channels)
}

/// An index held inside `[0, len)`.
pub open spec fn clamped(i: int, len: int) -> int {
    if i < 0 {
        0
    } else if i >= len {
        len - 1
    } else {
        i
    }
}

/// Clamps a signed index into `[0, len)`, which repeats the edge where a kernel hangs over it.
pub fn clamp_index(i: isize, len: usize) -> (index: usize)
    requires
        len > 0,
    ensures
        index == clamped(i as int, len as int),
{
    if i < 0 {
        0
    } else if i as usize >= len {
        len - 1
    } else {
        i as usize
    }
}

/// The sample that a kernel's tap reads along one axis: as far from `at` as the tap is from the
/// kernel's middle, and no further than the edge.
pub fn tap_index(at: usize, tap: usize, radius: usize, len: usize) -> (index: usize)
    requires
        at < len,
    ensures
        index == clamped(at + tap - radius, len as int),
{
    if tap <= radius {
        let back: usize = radius - tap;
        if back > at {
            0
        } else {
            at - back
        }
    } else {
        let forward: usize = tap - radius;
        if forward >= len - at {
            len - 1
        } else {
            at + forward
        }
    }
}

/// Where the pixel at column `x` of row `y` starts in a three-channel buffer.
pub open spec fn pixel_at(width: int, x: int, y: int) -> int {
    (y * width + x) * 3
}

/// Where the four pixels around a point start in a three-channel buffer: the point's own cell,
/// the next column, the next row, and both. `x` and `y` are the point's coordinates, rounded
/// down; the next column and row stop at the edge.
pub fn bilinear_offsets(width: usize, height: usize, x: usize, y: usize) -> (offsets: [usize; 4])
    requires
        x < width,
        y < height,
        width * height * 3 <= usize::MAX,
    ensures
        ({
            let (w, x0, y0) = (width as int, x as int, y as int);
            let x1 = clamped(x0 + 1, w);
            let y1 = clamped(y0 + 1, height as int);
            &&& offsets[0] == pixel_at(w, x0, y0)
            &&& offsets[1] == pixel_at(w, x1, y0)
            &&& offsets[2] == pixel_at(w, x0, y1)
            &&& offsets[3] == pixel_at(w, x1, y1)
        }),
        forall|i: int| 0 <= i < 4 ==> #[trigger] offsets[i] + 2 < width * height * 3,
{
    let right: usize = if x + 1 < width {
        x + 1
    } else {
        width - 1
    };
    let below: usize = if y + 1 < height {
        y + 1
    } else {
        height - 1
    };
    proof {
        lemma_pixel_inside(width as int, height as int, x as int, y as int);
        lemma_pixel_inside(width as int, height as int, right as int, y as int);
        lemma_pixel_inside(width as int, height as int, x as int, below as int);
        lemma_pixel_inside(width as int, height as int, right as int, below as int);
    }
    [
        (y * width + x) * 3,
        (y * width + right) * 3,
        (below * width + x) * 3,
        (below * width + right) * 3,
    ]
}

proof fn lemma_pixel_inside(width: int, height: int, x: int, y: int)
    requires
        0 <= x < width,
        0 <= y < height,
    ensures
        0 <= y * width,
        0 <= pixel_at(width, x, y),
        pixel_at(width, x, y) + 2 < width * height * 3,
{
    assert(0 <= y * width && y * width + x < width * height) by (nonlinear_arith)
        requires
            0 <= x < width,
            0 <= y < height,
    ;
    assert(width * height * 3 == (width * height) * 3);
}

// ----- laws -----

/// A clamped index lies inside, and one that lay inside stays.
pub proof fn clamping_repeats_the_edge(i: int, len: int)
    requires
        len > 0,
    ensures
        0 <= clamped(i, len) < len,
        0 <= i < len ==> clamped(i, len) == i,
        i < 0 ==> clamped(i, len) == 0,
        i >= len ==> clamped(i, len) == len - 1,
{
}

/// A kernel's taps lie in their order around its middle, which reads the pixel itself.
pub proof fn the_middle_tap_reads_the_pixel(at: int, radius: int, len: int, tap: int)
    requires
        0 <= at < len,
        0 <= tap < radius * 2,
        radius >= 0,
    ensures
        clamped(at + radius - radius, len) == at,
        clamped(at + tap - radius, len) <= clamped(at + (tap + 1) - radius, len),
{
}

/// A buffer holds an image where it has every channel of every pixel and no more, and a blur
/// changes it where some pixel has a neighbour.
pub proof fn images_fill_their_buffer(
    len: usize,
    width: u32,
    height: u32,
    channels: u8,
    holds: bool,
    blurs: bool,
)
    requires
        call_ensures(holds_image, (len, width, height, channels), holds),
        call_ensures(can_blur, (len, width, height, channels), blurs),
    ensures
        holds <==> len == channels * (width * height),
        blurs <==> holds && width > 0 && height > 0 && !(width == 1 && height == 1),
{
    let (w, h, c) = (width as int, height as int, channels as int);
    assert(w * h * c == c * (w * h)) by (nonlinear_arith);
    assert((w * h >= 2) == (w > 0 && h > 0 && !(w == 1 && h == 1))) by (nonlinear_arith)
        requires
            w >= 0,
            h >= 0,
    ;
}

/// An index that lies inside stays, and one that doesn't goes to the edge that's nearer.
pub proof fn indices_stop_at_the_edge(i: isize, len: usize, index: usize)
    requires
        len > 0,
        call_ensures(clamp_index, (i, len), index),
    ensures
        0 <= i < len ==> index == i,
        i < 0 ==> index == 0,
        i >= len ==> index + 1 == len,
{
}

/// A tap reads as far behind the pixel as it stands before the kernel's middle, and as far ahead
/// as it stands after, as far as there are pixels.
pub proof fn taps_read_around_the_pixel(
    at: usize,
    tap: usize,
    radius: usize,
    len: usize,
    index: usize,
)
    requires
        at < len,
        call_ensures(tap_index, (at, tap, radius, len), index),
    ensures
        index < len,
        0 <= at + tap - radius < len ==> index - at == tap - radius,
        at + tap < radius ==> index == 0,
        at + tap >= radius + len ==> index + 1 == len,
{
}

/// The four pixels around a point stand next to each other: the second a pixel after the first,
/// the third a row after it, the fourth both. In the last column and row there's nothing further,
/// and the pixel repeats.
pub proof fn neighbours_stand_next_to_each_other(
    width: usize,
    height: usize,
    x: usize,
    y: usize,
    offsets: [usize; 4],
)
    requires
        x < width,
        y < height,
        call_ensures(bilinear_offsets, (width, height, x, y), offsets),
    ensures
        offsets[0] == 3 * (y * width) + 3 * x,
        x + 1 < width ==> offsets[1] == offsets[0] + 3 && offsets[3] == offsets[2] + 3,
        x + 1 == width ==> offsets[1] == offsets[0] && offsets[3] == offsets[2],
        y + 1 < height ==> offsets[2] == offsets[0] + 3 * width,
        y + 1 == height ==> offsets[2] == offsets[0],
{
    let w = width as int;
    assert((y + 1) * w == y * w + w) by (nonlinear_arith);
}

} // verus!
