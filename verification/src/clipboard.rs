//! The bytes that go on the Windows clipboard.
//!
//! - `CF_HDROP` carries the original file, which Explorer pastes a copy of.
//! - `CF_DIB` carries 24-bit bottom-up BGR, which every Windows app understands. Alpha is
//!   composited over white, so there's no fourth byte to misread.
//! - `CF_DIBV5` carries 32-bit BGRA with straight alpha, tagged sRGB. It's offered only where the
//!   image has transparent pixels, since an opaque alpha channel tells a consumer nothing.
//!
//! A DIB carries no ICC profile, so the pixels handed in have to be sRGB. Nothing here transforms
//! colour.

use crate::bytes::{
    le16, le32, le_u16, le_u32, push_le_u16, push_le_u32, push_zeros, written_numbers_read_back,
};
use crate::paths::{shell_form, shell_path};
use crate::text::{encode_utf16, utf16};
use vstd::prelude::*;

verus! {

/// `BITMAPINFOHEADER`, the header `CF_DIB` starts with.
pub const BITMAPINFOHEADER_SIZE: u32 = 40;

/// `BITMAPV5HEADER`, the header `CF_DIBV5` starts with.
pub const BITMAPV5HEADER_SIZE: u32 = 124;

/// `BI_RGB`: no compression, channels in the order the bit count implies.
pub const BI_RGB: u32 = 0;

/// `BI_BITFIELDS`: the channel masks in the header say where each channel sits.
pub const BI_BITFIELDS: u32 = 3;

/// `LCS_sRGB`, which is the ASCII `sRGB` read as a big-endian `u32`.
pub const LCS_SRGB: u32 = 0x7352_4742;

/// `LCS_GM_IMAGES`: the perceptual rendering intent, which is what a photo wants.
pub const LCS_GM_IMAGES: u32 = 4;

/// Pixels per metre, both axes: 96 DPI, Windows' own baseline.
pub const PIXELS_PER_METRE: u32 = 3780;

/// `sizeof(DROPFILES)`, and therefore the offset of the first path in a `CF_HDROP` block.
pub const DROPFILES_SIZE: u32 = 20;

/// The bitmap representations of one image, ready to hand to Windows.
pub struct WindowsBitmaps {
    /// `CF_DIB`: 24-bit BGR, bottom-up. Always present.
    pub dib: Vec<u8>,
    /// `CF_DIBV5`: 32-bit BGRA, bottom-up. `None` unless the image has a transparent pixel.
    pub dib_v5: Option<Vec<u8>>,
}

// ----- the model -----

/// Whether any pixel is less than fully opaque.
pub open spec fn is_transparent(rgba: Seq<u8>) -> bool {
    exists|p: int| 0 <= p < rgba.len() / 4 && #[trigger] rgba[4 * p + 3] != 255
}

/// Bytes one row occupies, rounded up to the 4-byte boundary every DIB row starts on.
pub open spec fn stride_of(width: int, bits: int) -> int {
    (width * bits + 31) / 32 * 4
}

/// Whether a bitmap of this size can be held in memory.
pub open spec fn fits(header: int, width: int, height: int, bits: int) -> bool {
    stride_of(width, bits) <= usize::MAX && header + stride_of(width, bits) * height <= isize::MAX
}

/// Whether the buffer reaches to the end of row `y`.
pub open spec fn has_row(width: int, rgba: Seq<u8>, y: int) -> bool {
    (y * width + width) * 4 <= rgba.len()
}

/// One channel composited over a white background.
pub open spec fn blended(channel: u8, alpha: u8) -> u8 {
    ((channel * alpha + 255 * (255 - alpha) + 127) / 255) as u8
}

/// Channel `c` of the pixel at column `x` of row `y`, in RGBA order.
pub open spec fn channel(width: int, rgba: Seq<u8>, x: int, y: int, c: int) -> u8 {
    rgba[(y * width + x) * 4 + c]
}

/// Row `y` in 24 bits: blue, green and red of each pixel over white, then zeros.
pub open spec fn row24(width: int, rgba: Seq<u8>, y: int) -> Seq<u8> {
    Seq::new(
        stride_of(width, 24) as nat,
        |i: int|
            if has_row(width, rgba, y) && i < 3 * width {
                blended(
                    channel(width, rgba, i / 3, y, 2 - i % 3),
                    channel(width, rgba, i / 3, y, 3),
                )
            } else {
                0
            },
    )
}

/// Where byte `i` of a BGRA pixel stands in an RGBA one.
pub open spec fn bgra(i: int) -> int {
    if i < 3 {
        2 - i
    } else {
        3
    }
}

/// Row `y` in 32 bits: blue, green, red and alpha of each pixel.
pub open spec fn row32(width: int, rgba: Seq<u8>, y: int) -> Seq<u8> {
    Seq::new(
        stride_of(width, 32) as nat,
        |i: int|
            if has_row(width, rgba, y) {
                channel(width, rgba, i / 4, y, bgra(i % 4))
            } else {
                0
            },
    )
}

/// The first `count` rows in the order that a DIB stores them: last row first.
pub open spec fn stored(height: int, row: spec_fn(int) -> Seq<u8>, count: nat) -> Seq<u8>
    decreases count,
{
    if count == 0 {
        Seq::empty()
    } else {
        stored(height, row, (count - 1) as nat) + row(height - count)
    }
}

/// The part of the header that both formats have.
pub open spec fn common_header(
    size: u32,
    width: u32,
    height: u32,
    bits: u16,
    compression: u32,
) -> Seq<u8> {
    le32(size) + le32(width) + le32(height) + le16(1) + le16(bits) + le32(compression) + le32(
        (stride_of(width as int, bits as int) * height % 0x1_0000_0000) as u32,
    ) + le32(PIXELS_PER_METRE) + le32(PIXELS_PER_METRE) + le32(0) + le32(0)
}

/// What the longer header has on top: masks, colour space and intent.
pub open spec fn v5_header() -> Seq<u8> {
    le32(0x00ff_0000) + le32(0x0000_ff00) + le32(0x0000_00ff) + le32(0xff00_0000) + le32(LCS_SRGB)
        + Seq::new(48, |i: int| 0u8) + le32(LCS_GM_IMAGES) + Seq::new(12, |i: int| 0u8)
}

/// A `CF_DIB` block.
pub open spec fn dib(width: u32, height: u32, rgba: Seq<u8>) -> Seq<u8> {
    common_header(BITMAPINFOHEADER_SIZE, width, height, 24, BI_RGB) + stored(
        height as int,
        |y: int| row24(width as int, rgba, y),
        height as nat,
    )
}

/// A `CF_DIBV5` block.
pub open spec fn dib_v5(width: u32, height: u32, rgba: Seq<u8>) -> Seq<u8> {
    common_header(BITMAPV5HEADER_SIZE, width, height, 32, BI_BITFIELDS) + v5_header() + stored(
        height as int,
        |y: int| row32(width as int, rgba, y),
        height as nat,
    )
}

/// The bitmap representations of one image as mathematics.
#[verifier::ext_equal]
pub struct BitmapsView {
    pub dib: Seq<u8>,
    pub dib_v5: Option<Seq<u8>>,
}

impl View for WindowsBitmaps {
    type V = BitmapsView;

    open spec fn view(&self) -> BitmapsView {
        BitmapsView {
            dib: self.dib@,
            dib_v5: match self.dib_v5 {
                Some(block) => Some(block@),
                None => None,
            },
        }
    }
}

/// What the clipboard carries for an image.
pub open spec fn offered(width: u32, height: u32, rgba: Seq<u8>) -> BitmapsView {
    BitmapsView {
        dib: dib(width, height, rgba),
        dib_v5: if is_transparent(rgba) {
            Some(dib_v5(width, height, rgba))
        } else {
            None
        },
    }
}

/// UTF-16 code units as bytes, lowest first.
pub open spec fn unit_bytes(units: Seq<u16>) -> Seq<u8>
    decreases units.len(),
{
    if units.len() == 0 {
        Seq::empty()
    } else {
        unit_bytes(units.drop_last()) + le16(units.last())
    }
}

/// The paths in the form that the shell takes, without those that have none.
pub open spec fn shell_forms(paths: Seq<&str>) -> Seq<Seq<char>>
    decreases paths.len(),
{
    if paths.len() == 0 {
        Seq::empty()
    } else {
        let front = shell_forms(paths.drop_last());
        match shell_form(paths.last()@) {
            Some(shell) => front.push(shell),
            None => front,
        }
    }
}

/// Paths in UTF-16, each terminated.
pub open spec fn path_list(paths: Seq<Seq<char>>) -> Seq<u8>
    decreases paths.len(),
{
    if paths.len() == 0 {
        Seq::empty()
    } else {
        path_list(paths.drop_last()) + unit_bytes(utf16(paths.last())) + le16(0)
    }
}

/// The `DROPFILES` header: where the list starts, an unused point, and that it's UTF-16.
pub open spec fn drop_header() -> Seq<u8> {
    le32(DROPFILES_SIZE) + le32(0) + le32(0) + le32(0) + le32(1)
}

/// A `CF_HDROP` block.
pub open spec fn drop_block(paths: Seq<&str>) -> Option<Seq<u8>> {
    if shell_forms(paths).len() == 0 {
        None
    } else {
        Some(drop_header() + path_list(shell_forms(paths)) + le16(0))
    }
}

// ----- the code -----

/// Packs `rgba` (8 bits per channel, straight alpha, top row first) into the DIB formats the
/// clipboard should carry for it.
///
/// A buffer that's shorter than `width * height * 4` yields empty rows.
pub fn windows_bitmaps(width: u32, height: u32, rgba: &[u8]) -> (bitmaps: WindowsBitmaps)
    requires
        fits(BITMAPINFOHEADER_SIZE as int, width as int, height as int, 24),
        is_transparent(rgba@) ==> fits(
            BITMAPV5HEADER_SIZE as int,
            width as int,
            height as int,
            32,
        ),
    ensures
        bitmaps@ == offered(width, height, rgba@),
{
    let dib: Vec<u8> = dib_bgr24(width, height, rgba);
    let dib_v5: Option<Vec<u8>> = if has_transparency(rgba) {
        Some(dib_v5_bgra32(width, height, rgba))
    } else {
        None
    };
    WindowsBitmaps { dib, dib_v5 }
}

/// Whether any pixel is less than fully opaque.
pub fn has_transparency(rgba: &[u8]) -> (yes: bool)
    ensures
        yes == is_transparent(rgba@),
{
    for p in 0..rgba.len() / 4
        invariant
            forall|q: int| 0 <= q < p ==> #[trigger] rgba@[4 * q + 3] == 255,
    {
        if rgba[4 * p + 3] != 255 {
            assert(rgba@[4 * p + 3] != 255);
            return true;
        }
    }
    false
}

/// Bytes one row of `width` pixels occupies at `bits` per pixel.
pub fn row_stride(width: u32, bits: u32) -> (stride: usize)
    requires
        stride_of(width as int, bits as int) <= usize::MAX,
    ensures
        stride == stride_of(width as int, bits as int),
{
    assert(0 <= width * bits <= 0xffff_ffff * 0xffff_ffff) by (nonlinear_arith)
        requires
            0 <= width <= 0xffff_ffff,
            0 <= bits <= 0xffff_ffff,
    ;
    ((width as u128 * bits as u128 + 31) / 32 * 4) as usize
}

/// One channel composited over a white background.
pub fn over_white(channel: u8, alpha: u8) -> (value: u8)
    ensures
        value == blended(channel, alpha),
{
    assert(0 <= channel * alpha <= 255 * alpha) by (nonlinear_arith)
        requires
            0 <= channel <= 255,
            0 <= alpha,
    ;
    ((channel as u32 * alpha as u32 + 255 * (255 - alpha as u32) + 127) / 255) as u8
}

/// Appends the part of the header that both formats have.
fn push_common_header(
    out: &mut Vec<u8>,
    size: u32,
    width: u32,
    height: u32,
    bits: u16,
    compression: u32,
    image_size: u32,
)
    requires
        image_size == (stride_of(width as int, bits as int) * height % 0x1_0000_0000) as u32,
    ensures
        final(out)@ == old(out)@ + common_header(size, width, height, bits, compression),
{
    let ghost before = out@;
    push_le_u32(out, size);
    push_le_u32(out, width);
    push_le_u32(out, height);
    push_le_u16(out, 1);
    push_le_u16(out, bits);
    push_le_u32(out, compression);
    push_le_u32(out, image_size);
    push_le_u32(out, PIXELS_PER_METRE);
    push_le_u32(out, PIXELS_PER_METRE);
    push_le_u32(out, 0);
    push_le_u32(out, 0);
    assert(out@ =~= before + common_header(size, width, height, bits, compression));
}

proof fn lemma_rows_fit(header: int, width: int, height: int, bits: int, y: int)
    requires
        header >= 0,
        width >= 0,
        24 <= bits,
        0 <= y < height,
        fits(header, width, height, bits),
    ensures
        (y * width + width) * 4 <= usize::MAX,
        stride_of(width, bits) * height <= usize::MAX,
{
    let stride = stride_of(width, bits);
    assert(width * bits >= width * 24) by (nonlinear_arith)
        requires
            width >= 0,
            bits >= 24,
    ;
    assert(stride >= 3 * width);
    assert(stride * height >= 3 * width * height) by (nonlinear_arith)
        requires
            stride >= 3 * width,
            height >= 0,
    ;
    assert((y * width + width) * 4 <= 4 * width * height) by (nonlinear_arith)
        requires
            0 <= y < height,
            width >= 0,
    ;
    assert(3 * width * height == 3 * (width * height)) by (nonlinear_arith);
    assert(4 * width * height == 4 * (width * height)) by (nonlinear_arith);
}

proof fn lemma_channel_in_range(width: int, rgba: Seq<u8>, x: int, y: int)
    requires
        has_row(width, rgba, y),
        0 <= x < width,
        0 <= y,
    ensures
        0 <= (y * width + x) * 4,
        (y * width + x) * 4 + 3 < rgba.len(),
{
    assert(y * width >= 0) by (nonlinear_arith)
        requires
            y >= 0,
            width >= 0,
    ;
}

/// Appends a row in 24 bits.
fn push_row24(out: &mut Vec<u8>, width: u32, rgba: &[u8], y: u32)
    requires
        (y * width + width) * 4 <= usize::MAX,
        stride_of(width as int, 24) <= usize::MAX,
    ensures
        final(out)@ == old(out)@ + row24(width as int, rgba@, y as int),
{
    let ghost before = out@;
    let ghost row = row24(width as int, rgba@, y as int);
    let stride: usize = row_stride(width, 24);
    assert(0 <= y * width) by (nonlinear_arith);
    assert((y as usize) * (width as usize) == y * width);
    let w: usize = width as usize;
    let first: usize = y as usize * w;
    if (first + w) * 4 <= rgba.len() {
        for x in 0..w
            invariant
                w == width,
                first == y * width,
                (first + w) * 4 <= usize::MAX,
                has_row(width as int, rgba@, y as int),
                row == row24(width as int, rgba@, y as int),
                stride_of(width as int, 24) >= 3 * width,
                out@ == before + row.take(3 * x),
        {
            proof {
                lemma_channel_in_range(width as int, rgba@, x as int, y as int);
            }
            let at: usize = (first + x) * 4;
            let alpha: u8 = rgba[at + 3];
            out.push(over_white(rgba[at + 2], alpha));
            out.push(over_white(rgba[at + 1], alpha));
            out.push(over_white(rgba[at], alpha));
            assert(row.take(3 * (x + 1)) =~= row.take(3 * x).push(
                blended(rgba[at + 2], alpha),
            ).push(blended(rgba[at + 1], alpha)).push(blended(rgba[at as int], alpha)));
            assert(out@ =~= before + row.take(3 * (x + 1)));
        }
        push_zeros(out, stride - 3 * w);
    } else {
        push_zeros(out, stride);
    }
    assert(out@ =~= before + row);
}

/// Appends a row in 32 bits.
fn push_row32(out: &mut Vec<u8>, width: u32, rgba: &[u8], y: u32)
    requires
        (y * width + width) * 4 <= usize::MAX,
        stride_of(width as int, 32) <= usize::MAX,
    ensures
        final(out)@ == old(out)@ + row32(width as int, rgba@, y as int),
{
    let ghost before = out@;
    let ghost row = row32(width as int, rgba@, y as int);
    assert(0 <= y * width) by (nonlinear_arith);
    let w: usize = width as usize;
    let first: usize = y as usize * w;
    if (first + w) * 4 <= rgba.len() {
        for x in 0..w
            invariant
                w == width,
                first == y * width,
                (first + w) * 4 <= usize::MAX,
                has_row(width as int, rgba@, y as int),
                row == row32(width as int, rgba@, y as int),
                out@ == before + row.take(4 * x),
        {
            proof {
                lemma_channel_in_range(width as int, rgba@, x as int, y as int);
            }
            let at: usize = (first + x) * 4;
            out.push(rgba[at + 2]);
            out.push(rgba[at + 1]);
            out.push(rgba[at]);
            out.push(rgba[at + 3]);
            assert(row.take(4 * (x + 1)) =~= row.take(4 * x).push(rgba[at + 2]).push(
                rgba[at + 1],
            ).push(rgba[at as int]).push(rgba[at + 3]));
            assert(out@ =~= before + row.take(4 * (x + 1)));
        }
    } else {
        let stride: usize = row_stride(width, 32);
        push_zeros(out, stride);
    }
    assert(out@ =~= before + row);
}

/// A `CF_DIB` block: `BITMAPINFOHEADER` followed by 24-bit BGR rows, bottom-up, each row padded
/// to a 4-byte boundary. Alpha is composited over white.
pub fn dib_bgr24(width: u32, height: u32, rgba: &[u8]) -> (out: Vec<u8>)
    requires
        fits(BITMAPINFOHEADER_SIZE as int, width as int, height as int, 24),
    ensures
        out@ == dib(width, height, rgba@),
{
    let mut out: Vec<u8> = Vec::new();
    let image_size: u32 = image_size(width, height, 24);
    push_common_header(&mut out, BITMAPINFOHEADER_SIZE, width, height, 24, BI_RGB, image_size);
    let ghost header = out@;
    let ghost row = |y: int| row24(width as int, rgba@, y);
    assert(header =~= common_header(BITMAPINFOHEADER_SIZE, width, height, 24, BI_RGB));
    assert(out@ =~= header + stored(height as int, row, 0));
    for done in 0..height
        invariant
            fits(BITMAPINFOHEADER_SIZE as int, width as int, height as int, 24),
            row == (|y: int| row24(width as int, rgba@, y)),
            out@ == header + stored(height as int, row, done as nat),
    {
        let y: u32 = height - 1 - done;
        proof {
            lemma_rows_fit(
                BITMAPINFOHEADER_SIZE as int,
                width as int,
                height as int,
                24,
                y as int,
            );
        }
        push_row24(&mut out, width, rgba, y);
        assert(out@ =~= header + stored(height as int, row, (done + 1) as nat));
    }
    out
}

/// The size of the pixels in bytes, in as many bits as the header has for it.
fn image_size(width: u32, height: u32, bits: u32) -> (size: u32)
    requires
        bits <= 32,
    ensures
        size == (stride_of(width as int, bits as int) * height % 0x1_0000_0000) as u32,
{
    assert(0 <= width * bits <= 0xffff_ffff * 32) by (nonlinear_arith)
        requires
            0 <= width <= 0xffff_ffff,
            0 <= bits <= 32,
    ;
    let stride: u128 = (width as u128 * bits as u128 + 31) / 32 * 4;
    assert(0 <= stride * height <= 0x10_0000_0000 * 0x1_0000_0000) by (nonlinear_arith)
        requires
            0 <= stride <= 0x10_0000_0000,
            0 <= height <= 0x1_0000_0000,
    ;
    (stride * height as u128 % 0x1_0000_0000) as u32
}

/// A `CF_DIBV5` block: `BITMAPV5HEADER` followed by 32-bit BGRA rows, bottom-up. Alpha is
/// straight (not premultiplied) and the colour space is declared sRGB.
pub fn dib_v5_bgra32(width: u32, height: u32, rgba: &[u8]) -> (out: Vec<u8>)
    requires
        fits(BITMAPV5HEADER_SIZE as int, width as int, height as int, 32),
    ensures
        out@ == dib_v5(width, height, rgba@),
{
    let mut out: Vec<u8> = Vec::new();
    let image_size: u32 = image_size(width, height, 32);
    push_common_header(&mut out, BITMAPV5HEADER_SIZE, width, height, 32, BI_BITFIELDS, image_size);
    let ghost before = out@;
    push_le_u32(&mut out, 0x00ff_0000);
    push_le_u32(&mut out, 0x0000_ff00);
    push_le_u32(&mut out, 0x0000_00ff);
    push_le_u32(&mut out, 0xff00_0000);
    push_le_u32(&mut out, LCS_SRGB);
    push_zeros(&mut out, 48);
    push_le_u32(&mut out, LCS_GM_IMAGES);
    push_zeros(&mut out, 12);
    let ghost header = out@;
    assert(header =~= before + v5_header());
    assert(before =~= common_header(BITMAPV5HEADER_SIZE, width, height, 32, BI_BITFIELDS));
    let ghost row = |y: int| row32(width as int, rgba@, y);
    assert(out@ =~= header + stored(height as int, row, 0));
    for done in 0..height
        invariant
            fits(BITMAPV5HEADER_SIZE as int, width as int, height as int, 32),
            row == (|y: int| row32(width as int, rgba@, y)),
            out@ == header + stored(height as int, row, done as nat),
    {
        let y: u32 = height - 1 - done;
        proof {
            lemma_rows_fit(BITMAPV5HEADER_SIZE as int, width as int, height as int, 32, y as int);
        }
        push_row32(&mut out, width, rgba, y);
        assert(out@ =~= header + stored(height as int, row, (done + 1) as nat));
    }
    out
}

/// Appends a text in UTF-16.
fn push_utf16(out: &mut Vec<u8>, s: &str)
    ensures
        final(out)@ == old(out)@ + unit_bytes(utf16(s@)),
{
    let ghost before = out@;
    let units: Vec<u16> = encode_utf16(s);
    assert(out@ =~= before + unit_bytes(units@.take(0)));
    for i in 0..units.len()
        invariant
            out@ == before + unit_bytes(units@.take(i as int)),
    {
        push_le_u16(out, units[i]);
        assert(units@.take(i + 1).drop_last() =~= units@.take(i as int));
        assert(out@ =~= before + unit_bytes(units@.take(i + 1)));
    }
    assert(units@.take(units.len() as int) =~= units@);
}

/// A `CF_HDROP` block: a `DROPFILES` header followed by the paths as UTF-16, each terminated,
/// and one more terminator closing the list.
///
/// `None` when no path has a form that the shell takes, since an empty file list is worse than
/// no file list.
pub fn hdrop(paths: &[&str]) -> (block: Option<Vec<u8>>)
    ensures
        match block {
            Some(block) => drop_block(paths@) == Some(block@),
            None => drop_block(paths@) is None,
        },
{
    let mut out: Vec<u8> = Vec::new();
    push_le_u32(&mut out, DROPFILES_SIZE);
    push_le_u32(&mut out, 0);
    push_le_u32(&mut out, 0);
    push_le_u32(&mut out, 0);
    push_le_u32(&mut out, 1);
    let ghost header = out@;
    assert(header =~= drop_header());
    let mut any: bool = false;
    assert(out@ =~= header + path_list(shell_forms(paths@.take(0))));
    for i in 0..paths.len()
        invariant
            any == (shell_forms(paths@.take(i as int)).len() > 0),
            out@ == header + path_list(shell_forms(paths@.take(i as int))),
    {
        let ghost before = out@;
        assert(paths@.take(i + 1).drop_last() =~= paths@.take(i as int));
        let ghost front = shell_forms(paths@.take(i as int));
        if let Some(shell) = shell_path(paths[i]) {
            push_utf16(&mut out, shell.as_str());
            push_le_u16(&mut out, 0);
            any = true;
            assert(front.push(shell@).drop_last() =~= front);
            assert(out@ =~= header + path_list(front.push(shell@)));
        }
    }
    assert(paths@.take(paths.len() as int) =~= paths@);
    if !any {
        return None;
    }
    push_le_u16(&mut out, 0);
    Some(out)
}

// ----- laws -----

/// Every image is offered as a 24-bit bitmap, and one with a pixel that's less than opaque as a
/// 32-bit one besides.
pub proof fn alpha_is_offered_where_there_is_some(width: u32, height: u32, rgba: Seq<u8>)
    ensures
        offered(width, height, rgba).dib == dib(width, height, rgba),
        (exists|p: int| 0 <= p < rgba.len() / 4 && #[trigger] rgba[4 * p + 3] != 255)
            ==> offered(width, height, rgba).dib_v5 == Some(dib_v5(width, height, rgba)),
        (forall|p: int| 0 <= p < rgba.len() / 4 ==> #[trigger] rgba[4 * p + 3] == 255)
            ==> offered(width, height, rgba).dib_v5 is None,
{
}

proof fn lemma_stored_len(height: int, row: spec_fn(int) -> Seq<u8>, stride: int, count: nat)
    requires
        forall|y: int| #[trigger] row(y).len() == stride,
    ensures
        stored(height, row, count).len() == count * stride,
    decreases count,
{
    if count > 0 {
        lemma_stored_len(height, row, stride, (count - 1) as nat);
        assert(row(height - count).len() == stride);
        assert((count - 1) * stride + stride == count * stride) by (nonlinear_arith);
    } else {
        assert(count * stride == 0) by (nonlinear_arith)
            requires
                count == 0,
        ;
    }
}

proof fn lemma_stored_byte(
    height: int,
    row: spec_fn(int) -> Seq<u8>,
    stride: int,
    count: nat,
    r: int,
    i: int,
)
    requires
        forall|y: int| #[trigger] row(y).len() == stride,
        0 <= r < count,
        0 <= i < stride,
    ensures
        0 <= r * stride + i < stored(height, row, count).len(),
        stored(height, row, count)[r * stride + i] == row(height - 1 - r)[i],
    decreases count,
{
    lemma_stored_len(height, row, stride, count);
    lemma_stored_len(height, row, stride, (count - 1) as nat);
    assert(row(height - count).len() == stride);
    assert(0 <= r * stride) by (nonlinear_arith)
        requires
            r >= 0,
            stride >= 0,
    ;
    assert(r * stride + i < count * stride) by (nonlinear_arith)
        requires
            r < count,
            0 <= i < stride,
    ;
    if r < count - 1 {
        lemma_stored_byte(height, row, stride, (count - 1) as nat, r, i);
    }
}

proof fn lemma_dib_len(width: u32, height: u32, rgba: Seq<u8>)
    ensures
        dib(width, height, rgba).len() == 40 + height * stride_of(width as int, 24),
{
    let rows = |y: int| row24(width as int, rgba, y);
    lemma_stored_len(height as int, rows, stride_of(width as int, 24), height as nat);
    lemma_common_header(40, width, height, 24, 0);
    let front = common_header(40, width, height, 24, 0);
    assert(dib(width, height, rgba) == front + stored(height as int, rows, height as nat));
}

proof fn lemma_dib_v5_len(width: u32, height: u32, rgba: Seq<u8>)
    ensures
        dib_v5(width, height, rgba).len() == 124 + height * stride_of(width as int, 32),
{
    let rows = |y: int| row32(width as int, rgba, y);
    lemma_stored_len(height as int, rows, stride_of(width as int, 32), height as nat);
    lemma_common_header(124, width, height, 32, 3);
    let front = common_header(124, width, height, 32, 3);
    lemma_v5_header(front);
    assert(dib_v5(width, height, rgba) == front + v5_header() + stored(
        height as int,
        rows,
        height as nat,
    ));
}

/// A block holds the header and every row, whatever the buffer holds.
pub proof fn blocks_are_complete(width: u32, height: u32, rgba: Seq<u8>)
    ensures
        dib(width, height, rgba).len() == BITMAPINFOHEADER_SIZE + height * stride_of(
            width as int,
            24,
        ),
        dib_v5(width, height, rgba).len() == BITMAPV5HEADER_SIZE + height * (4 * width),
{
    lemma_dib_len(width, height, rgba);
    lemma_dib_v5_len(width, height, rgba);
    lemma_strides(width as int);
}

proof fn lemma_strides(width: int)
    requires
        width >= 0,
    ensures
        stride_of(width, 24) == (3 * width + 3) / 4 * 4,
        stride_of(width, 32) == 4 * width,
{
}

/// Rows run from the bottom up and channels run blue, green, red: the byte of a pixel's channel
/// stands in the row that's as far from the block's first as the pixel is from the image's last.
pub proof fn rows_run_bottom_up(width: u32, height: u32, rgba: Seq<u8>, x: int, y: int, c: int)
    requires
        rgba.len() >= width * height * 4,
        0 <= x < width,
        0 <= y < height,
        0 <= c < 4,
    ensures
        ({
            let alpha = channel(width as int, rgba, x, y, 3);
            let wanted = channel(width as int, rgba, x, y, c);
            let at24 = BITMAPINFOHEADER_SIZE + (height - 1 - y) * stride_of(width as int, 24);
            let at32 = BITMAPV5HEADER_SIZE + (height - 1 - y) * stride_of(width as int, 32);
            &&& c < 3 ==> dib(width, height, rgba)[at24 + (3 * x + 2 - c)] == blended(wanted, alpha)
            &&& dib_v5(width, height, rgba)[at32 + (4 * x + bgra(c))] == wanted
        }),
{
    let w = width as int;
    let h = height as int;
    assert((y * w + w) * 4 <= w * h * 4) by (nonlinear_arith)
        requires
            0 <= y < h,
            w >= 0,
    ;
    assert(has_row(w, rgba, y));
    let a = |y: int| row24(w, rgba, y);
    let b = |y: int| row32(w, rgba, y);
    if c < 3 {
        lemma_stored_byte(h, a, stride_of(w, 24), h as nat, h - 1 - y, 3 * x + 2 - c);
        assert((3 * x + 2 - c) / 3 == x && (3 * x + 2 - c) % 3 == 2 - c);
        assert(a(y)[3 * x + 2 - c] == blended(
            channel(w, rgba, x, y, c),
            channel(w, rgba, x, y, 3),
        ));
    }
    lemma_stored_byte(h, b, stride_of(w, 32), h as nat, h - 1 - y, 4 * x + bgra(c));
    assert((4 * x + bgra(c)) / 4 == x && (4 * x + bgra(c)) % 4 == bgra(c));
    assert(bgra(bgra(c)) == c);
    assert(b(y)[4 * x + bgra(c)] == channel(w, rgba, x, y, c));
}

/// An opaque pixel keeps its channels, an invisible one comes out white, and no channel gets
/// darker.
pub proof fn compositing_goes_towards_white(channel: u8, alpha: u8)
    ensures
        blended(channel, 255) == channel,
        blended(channel, 0) == 255,
        blended(channel, alpha) >= channel,
{
    assert(channel * alpha + 255 * (255 - alpha) >= 255 * channel) by (nonlinear_arith)
        requires
            0 <= channel <= 255,
            0 <= alpha <= 255,
    ;
    assert(channel * alpha + 255 * (255 - alpha) <= 255 * 255) by (nonlinear_arith)
        requires
            0 <= channel <= 255,
            0 <= alpha <= 255,
    ;
}

/// The list of a drop block ends in two terminators, so no reader runs past the block.
pub proof fn drop_lists_end_twice(paths: Seq<&str>)
    ensures
        drop_block(paths) matches Some(block) ==> block.len() >= 24 && block.skip(block.len() - 4)
            == seq![0u8, 0, 0, 0],
{
    if let Some(block) = drop_block(paths) {
        let forms = shell_forms(paths);
        let list = path_list(forms);
        let rest = path_list(forms.drop_last()) + unit_bytes(utf16(forms.last()));
        assert(list == rest + le16(0));
        assert(list[list.len() - 2] == 0 && list[list.len() - 1] == 0);
        let front = drop_header() + list;
        assert(drop_header().len() == 20);
        assert(front[front.len() - 2] == list[list.len() - 2]);
        assert(front[front.len() - 1] == list[list.len() - 1]);
        assert(block == front + le16(0));
        assert(block.skip(block.len() - 4) =~= seq![0u8, 0, 0, 0]);
    }
}

/// Compositing over white gives the mean of the channel and white, weighted by the alpha and
/// rounded to the nearest level.
pub proof fn compositing_is_the_rounded_mean(channel: u8, alpha: u8, value: u8)
    requires
        call_ensures(over_white, (channel, alpha), value),
    ensures
        value == blended(channel, alpha),
        -255 <= 2 * (255 * value - (channel * alpha + 255 * (255 - alpha))) <= 255,
{
    compositing_goes_towards_white(channel, alpha);
    let mean = channel * alpha + 255 * (255 - alpha);
    assert(0 <= mean <= 255 * 255) by (nonlinear_arith)
        requires
            0 <= channel <= 255,
            0 <= alpha <= 255,
            mean == channel * alpha + 255 * (255 - alpha),
    ;
}

/// A pixel's bytes in the two blocks: blue, green and red of it over white in a 24-bit row that's
/// padded to four bytes, and blue, green, red and alpha of it as they are in a 32-bit row, with
/// the last row of the image first.
pub proof fn pixels_stand_where_windows_reads_them(
    width: u32,
    height: u32,
    rgba: Seq<u8>,
    x: int,
    y: int,
)
    requires
        rgba.len() >= width * height * 4,
        0 <= x < width,
        0 <= y < height,
    ensures
        ({
            let from = (y * width + x) * 4;
            let alpha = rgba[from + 3] as int;
            let at = 40 + (height - 1 - y) * ((3 * width + 3) / 4 * 4) + 3 * x;
            let block = offered(width, height, rgba).dib;
            &&& is_mean(block[at] as int, rgba[from + 2] as int, alpha)
            &&& is_mean(block[at + 1] as int, rgba[from + 1] as int, alpha)
            &&& is_mean(block[at + 2] as int, rgba[from] as int, alpha)
        }),
        rgba[(y * width + x) * 4 + 3] != 255 ==> offered(width, height, rgba).dib_v5 is Some,
        offered(width, height, rgba).dib_v5 matches Some(block) ==> {
            let from = (y * width + x) * 4;
            let at = 124 + (height - 1 - y) * (4 * width) + 4 * x;
            &&& block[at] == rgba[from + 2]
            &&& block[at + 1] == rgba[from + 1]
            &&& block[at + 2] == rgba[from]
            &&& block[at + 3] == rgba[from + 3]
        },
{
    let w = width as int;
    let h = height as int;
    let from = (y * w + x) * 4;
    rows_run_bottom_up(width, height, rgba, x, y, 0);
    rows_run_bottom_up(width, height, rgba, x, y, 1);
    rows_run_bottom_up(width, height, rgba, x, y, 2);
    rows_run_bottom_up(width, height, rgba, x, y, 3);
    lemma_strides(w);
    let alpha = rgba[from + 3];
    lemma_mean(rgba[from], alpha);
    lemma_mean(rgba[from + 1], alpha);
    lemma_mean(rgba[from + 2], alpha);
    if alpha != 255 {
        assert(0 <= y * w + x < w * h) by (nonlinear_arith)
            requires
                0 <= x < w,
                0 <= y < h,
        ;
        assert(rgba[4 * (y * w + x) + 3] != 255);
    }
}

/// Whether a level is that of a channel over white, rounded to nearest.
pub open spec fn is_mean(value: int, channel: int, alpha: int) -> bool {
    -255 <= 2 * (255 * value - (channel * alpha + 255 * (255 - alpha))) <= 255
}

proof fn lemma_mean(channel: u8, alpha: u8)
    ensures
        is_mean(blended(channel, alpha) as int, channel as int, alpha as int),
{
    let mean = channel * alpha + 255 * (255 - alpha);
    assert(0 <= mean <= 255 * 255) by (nonlinear_arith)
        requires
            0 <= channel <= 255,
            0 <= alpha <= 255,
            mean == channel * alpha + 255 * (255 - alpha),
    ;
}

/// What isn't a pixel is zero: the padding of a row, and every byte of a row that the buffer
/// doesn't hold.
pub proof fn what_is_no_pixel_is_zero(width: u32, height: u32, rgba: Seq<u8>, y: int, i: int)
    requires
        0 <= y < height,
        0 <= i,
    ensures
        i < (3 * width + 3) / 4 * 4 && (i >= 3 * width || rgba.len() < (y + 1) * width * 4)
            ==> offered(width, height, rgba).dib[40 + (height - 1 - y) * ((3 * width + 3) / 4 * 4)
            + i] == 0,
        i < 4 * width && rgba.len() < (y + 1) * width * 4 ==> (offered(
            width,
            height,
            rgba,
        ).dib_v5 matches Some(block) ==> block[124 + (height - 1 - y) * (4 * width) + i] == 0),
{
    let w = width as int;
    let h = height as int;
    let a = |y: int| row24(w, rgba, y);
    let b = |y: int| row32(w, rgba, y);
    lemma_strides(w);
    assert((y + 1) * w * 4 == (y * w + w) * 4) by (nonlinear_arith);
    if i < stride_of(w, 24) {
        lemma_stored_byte(h, a, stride_of(w, 24), h as nat, h - 1 - y, i);
    }
    if i < 4 * w {
        lemma_stored_byte(h, b, stride_of(w, 32), h as nat, h - 1 - y, i);
    }
}

proof fn lemma_total(width: u32, height: u32, bits: int)
    requires
        bits == 24 || bits == 32,
    ensures
        ({
            let total = height * stride_of(width as int, bits);
            &&& total == stride_of(width as int, bits) * height
            &&& 0 <= total <= u32::MAX ==> (stride_of(width as int, bits) * height % 0x1_0000_0000)
                as u32 == total
        }),
{
    let stride = stride_of(width as int, bits);
    assert(height * stride == stride * height) by (nonlinear_arith);
}

/// What the header of a 24-bit block says: the size, one plane of 24 bits that aren't compressed,
/// and 3,780 pixels to the metre.
pub proof fn dib_headers_describe_the_image(width: u32, height: u32, rgba: Seq<u8>)
    ensures
        ({
            let block = dib(width, height, rgba);
            let total = height * ((3 * width + 3) / 4 * 4);
            &&& block.len() == 40 + total
            &&& le_u32(block, 0) == 40
            &&& le_u32(block, 4) == width
            &&& le_u32(block, 8) == height
            &&& le_u16(block, 12) == 1
            &&& le_u16(block, 14) == 24
            &&& le_u32(block, 16) == 0
            &&& 0 <= total <= u32::MAX ==> le_u32(block, 20) == total
            &&& le_u32(block, 24) == 3780
            &&& le_u32(block, 28) == 3780
            &&& le_u32(block, 32) == 0
            &&& le_u32(block, 36) == 0
        }),
{
    lemma_dib_len(width, height, rgba);
    lemma_strides(width as int);
    lemma_total(width, height, 24);
    lemma_common_header(40, width, height, 24, 0);
    let rows = stored(height as int, |y: int| row24(width as int, rgba, y), height as nat);
    lemma_front(common_header(40, width, height, 24, 0), rows);
}

/// What the header of a 32-bit block says: the size, one plane of 32 bits, where it keeps its
/// channels, that they're sRGB, and that it's a picture.
pub proof fn dib_v5_headers_describe_the_image(width: u32, height: u32, rgba: Seq<u8>)
    ensures
        ({
            let block = dib_v5(width, height, rgba);
            let total = height * (4 * width);
            &&& block.len() == 124 + total
            &&& le_u32(block, 0) == 124
            &&& le_u32(block, 4) == width
            &&& le_u32(block, 8) == height
            &&& le_u16(block, 12) == 1
            &&& le_u16(block, 14) == 32
            &&& le_u32(block, 16) == 3
            &&& 0 <= total <= u32::MAX ==> le_u32(block, 20) == total
            &&& le_u32(block, 24) == 3780
            &&& le_u32(block, 28) == 3780
            &&& le_u32(block, 32) == 0
            &&& le_u32(block, 36) == 0
            &&& le_u32(block, 40) == 0x00ff_0000
            &&& le_u32(block, 44) == 0x0000_ff00
            &&& le_u32(block, 48) == 0x0000_00ff
            &&& le_u32(block, 52) == 0xff00_0000
            &&& le_u32(block, 56) == 0x7352_4742
            &&& le_u32(block, 108) == 4
        }),
{
    lemma_dib_v5_len(width, height, rgba);
    lemma_strides(width as int);
    lemma_total(width, height, 32);
    lemma_common_header(124, width, height, 32, 3);
    let rows = stored(height as int, |y: int| row32(width as int, rgba, y), height as nat);
    let front = common_header(124, width, height, 32, 3);
    lemma_front(front, v5_header());
    lemma_v5_header(front);
    lemma_front(front + v5_header(), rows);
    lemma_front_v5(front + v5_header(), rows);
}

/// What stands in the first forty bytes stays there when more follows.
proof fn lemma_front(front: Seq<u8>, rest: Seq<u8>)
    requires
        front.len() >= 40,
    ensures
        le_u32(front + rest, 0) == le_u32(front, 0),
        le_u32(front + rest, 4) == le_u32(front, 4),
        le_u32(front + rest, 8) == le_u32(front, 8),
        le_u16(front + rest, 12) == le_u16(front, 12),
        le_u16(front + rest, 14) == le_u16(front, 14),
        le_u32(front + rest, 16) == le_u32(front, 16),
        le_u32(front + rest, 20) == le_u32(front, 20),
        le_u32(front + rest, 24) == le_u32(front, 24),
        le_u32(front + rest, 28) == le_u32(front, 28),
        le_u32(front + rest, 32) == le_u32(front, 32),
        le_u32(front + rest, 36) == le_u32(front, 36),
{
}

/// What stands in the bytes after those stays there when more follows.
proof fn lemma_front_v5(front: Seq<u8>, rest: Seq<u8>)
    requires
        front.len() >= 124,
    ensures
        le_u32(front + rest, 40) == le_u32(front, 40),
        le_u32(front + rest, 44) == le_u32(front, 44),
        le_u32(front + rest, 48) == le_u32(front, 48),
        le_u32(front + rest, 52) == le_u32(front, 52),
        le_u32(front + rest, 56) == le_u32(front, 56),
        le_u32(front + rest, 108) == le_u32(front, 108),
{
}

proof fn lemma_v5_header(front: Seq<u8>)
    requires
        front.len() == 40,
    ensures
        v5_header().len() == 84,
        le_u32(front + v5_header(), 40) == 0x00ff_0000,
        le_u32(front + v5_header(), 44) == 0x0000_ff00,
        le_u32(front + v5_header(), 48) == 0x0000_00ff,
        le_u32(front + v5_header(), 52) == 0xff00_0000,
        le_u32(front + v5_header(), 56) == 0x7352_4742,
        le_u32(front + v5_header(), 108) == 4,
{
}

proof fn lemma_common_header(size: u32, width: u32, height: u32, bits: u16, compression: u32)
    ensures
        ({
            let front = common_header(size, width, height, bits, compression);
            &&& front.len() == 40
            &&& le_u32(front, 0) == size
            &&& le_u32(front, 4) == width
            &&& le_u32(front, 8) == height
            &&& le_u16(front, 12) == 1
            &&& le_u16(front, 14) == bits
            &&& le_u32(front, 16) == compression
            &&& le_u32(front, 20) == (stride_of(width as int, bits as int) * height
                % 0x1_0000_0000) as u32
            &&& le_u32(front, 24) == 3780
            &&& le_u32(front, 28) == 3780
            &&& le_u32(front, 32) == 0
            &&& le_u32(front, 36) == 0
        }),
{
    let empty = Seq::<u8>::empty();
    let total = (stride_of(width as int, bits as int) * height % 0x1_0000_0000) as u32;
    written_numbers_read_back(empty, size, 0, empty);
    written_numbers_read_back(empty, width, bits, empty);
    written_numbers_read_back(empty, height, 1, empty);
    written_numbers_read_back(empty, compression, 0, empty);
    written_numbers_read_back(empty, total, 0, empty);
    assert forall|v: u32| #[trigger] le_u32(empty + le32(v) + empty, 0) == le_u32(le32(v), 0) by {
        assert(empty + le32(v) + empty =~= le32(v));
    }
    assert forall|v: u16| #[trigger] le_u16(empty + le16(v) + empty, 0) == le_u16(le16(v), 0) by {
        assert(empty + le16(v) + empty =~= le16(v));
    }
}

/// A drop block opens with where its list starts and that it's UTF-16, and its list holds each
/// path that the shell takes, terminated, in order: one path more adds its units and a terminator
/// before the last one, and a path that the shell doesn't take adds nothing.
pub proof fn drop_lists_hold_each_path(paths: Seq<&str>, path: &str)
    ensures
        drop_block(Seq::<&str>::empty()) is None,
        drop_block(paths) matches Some(block) ==> {
            &&& le_u32(block, 0) == 20
            &&& le_u32(block, 4) == 0
            &&& le_u32(block, 8) == 0
            &&& le_u32(block, 12) == 0
            &&& le_u32(block, 16) == 1
        },
        shell_form(path@) is None ==> drop_block(paths.push(path)) == drop_block(paths),
        shell_form(path@) matches Some(shell) ==> {
            let units = utf16(shell);
            let before = match drop_block(paths) {
                Some(block) => block.len() - 2,
                None => 20,
            };
            &&& drop_block(paths.push(path)) matches Some(block) && {
                &&& block.len() == before + 2 * units.len() + 4
                &&& forall|k: int|
                    0 <= k < units.len() ==> #[trigger] le_u16(block, before + 2 * k) == units[k]
                &&& block[before + 2 * units.len()] == 0 && block[before + 2 * units.len() + 1] == 0
                &&& block[before + 2 * units.len() + 2] == 0 && block[before + 2 * units.len() + 3]
                    == 0
                &&& drop_block(paths) matches Some(old) ==> forall|i: int|
                    0 <= i < before ==> #[trigger] block[i] == old[i]
            }
        },
{
    assert(paths.push(path).drop_last() =~= paths);
    let forms = shell_forms(paths);
    if let Some(block) = drop_block(paths) {
        assert(block =~= drop_header() + (path_list(forms) + le16(0)));
        lemma_drop_header(block, path_list(forms) + le16(0));
    }
    if let Some(shell) = shell_form(path@) {
        let units = utf16(shell);
        let more = forms.push(shell);
        assert(shell_forms(paths.push(path)) == more);
        assert(more.drop_last() =~= forms);
        lemma_unit_bytes(units);
        let list = path_list(forms);
        let block = drop_block(paths.push(path))->0;
        assert(block == drop_header() + (list + unit_bytes(units) + le16(0)) + le16(0));
        let before = 20 + list.len();
        if forms.len() == 0 {
            assert(list =~= Seq::empty());
        }
        assert forall|k: int| 0 <= k < units.len() implies #[trigger] le_u16(block, before + 2 * k)
            == units[k] by {
            assert(block[before + 2 * k] == unit_bytes(units)[2 * k]);
            assert(block[before + 2 * k + 1] == unit_bytes(units)[2 * k + 1]);
            assert(le_u16(unit_bytes(units), 2 * k) == units[k]);
        }
    }
}

proof fn lemma_drop_header(block: Seq<u8>, rest: Seq<u8>)
    requires
        block == drop_header() + rest,
    ensures
        le_u32(block, 0) == 20,
        le_u32(block, 4) == 0,
        le_u32(block, 8) == 0,
        le_u32(block, 12) == 0,
        le_u32(block, 16) == 1,
{
    let front = drop_header();
    assert forall|i: int| 0 <= i < 20 implies #[trigger] block[i] == front[i] by {}
}

proof fn lemma_unit_bytes(units: Seq<u16>)
    ensures
        unit_bytes(units).len() == 2 * units.len(),
        forall|k: int| 0 <= k < units.len() ==> #[trigger] le_u16(unit_bytes(units), 2 * k) == units[k],
    decreases units.len(),
{
    if units.len() > 0 {
        let front = units.drop_last();
        lemma_unit_bytes(front);
        let bytes = unit_bytes(units);
        assert forall|k: int| 0 <= k < units.len() implies #[trigger] le_u16(bytes, 2 * k) == units[k] by {
            if k < units.len() - 1 {
                assert(le_u16(unit_bytes(front), 2 * k) == front[k]);
                assert(bytes[2 * k] == unit_bytes(front)[2 * k]);
                assert(bytes[2 * k + 1] == unit_bytes(front)[2 * k + 1]);
            } else {
                assert(bytes[2 * k] == le16(units.last())[0]);
                assert(bytes[2 * k + 1] == le16(units.last())[1]);
            }
        }
    }
}

/// A row takes the fewest whole groups of four bytes that hold its pixels.
pub proof fn rows_are_padded_to_four_bytes(width: u32, bits: u32, stride: usize)
    requires
        call_ensures(row_stride, (width, bits), stride),
    ensures
        stride % 4 == 0,
        width * bits <= 8 * stride < width * bits + 32,
{
    assert(0 <= width * bits) by (nonlinear_arith);
}

/// An image has transparency where the alpha of some whole pixel isn't 255, and its 32-bit bitmap
/// is offered exactly then. What's offered is what the two formats give.
pub proof fn transparent_images_have_a_second_bitmap(
    width: u32,
    height: u32,
    rgba: &[u8],
    yes: bool,
    bitmaps: WindowsBitmaps,
    plain: Vec<u8>,
    deep: Vec<u8>,
)
    requires
        call_ensures(has_transparency, (rgba,), yes),
        call_ensures(windows_bitmaps, (width, height, rgba), bitmaps),
        call_ensures(dib_bgr24, (width, height, rgba), plain),
        call_ensures(dib_v5_bgra32, (width, height, rgba), deep),
    ensures
        yes <==> exists|p: int|
            0 <= p && 4 * p + 3 < rgba@.len() && #[trigger] rgba@[4 * p + 3] != 255,
        bitmaps@.dib == plain@,
        bitmaps@.dib_v5 is Some <==> yes,
        yes ==> bitmaps@.dib_v5->0 == deep@,
{
    if yes {
        let p = choose|p: int| 0 <= p < rgba@.len() / 4 && #[trigger] rgba@[4 * p + 3] != 255;
        assert(rgba@[4 * p + 3] != 255);
    }
    if exists|p: int| 0 <= p && 4 * p + 3 < rgba@.len() && #[trigger] rgba@[4 * p + 3] != 255 {
        let p = choose|p: int|
            0 <= p && 4 * p + 3 < rgba@.len() && #[trigger] rgba@[4 * p + 3] != 255;
        assert(0 <= p < rgba@.len() / 4);
        assert(rgba@[4 * p + 3] != 255);
    }
}

} // verus!
