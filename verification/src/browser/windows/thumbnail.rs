//! Turns preview pixels into the bitmap that an image list slot takes.
//!
//! Every slot in an image list is the same square size, and preview pixels are neither square nor
//! a fixed size. So each thumbnail is composed into a square canvas, centred, on the pane's own
//! background, with the channels in the order that a Windows DIB stores them and the rows top
//! down.

use vstd::arithmetic::div_mod::lemma_fundamental_div_mod_converse;
use vstd::prelude::*;

verus! {

/// Whether the source holds as many pixels as it claims, and any at all.
pub open spec fn usable(source: Seq<u8>, width: int, height: int) -> bool {
    width > 0 && height > 0 && source.len() >= width * height * 4
}

/// How much of a source's edge is copied.
pub open spec fn copied(edge: int, side: int) -> int {
    if edge < side {
        edge
    } else {
        side
    }
}

/// Where the copy starts in the canvas.
pub open spec fn margin(edge: int, side: int) -> int {
    (side - copied(edge, side)) / 2
}

/// Where the copy starts in the source.
pub open spec fn crop(edge: int, side: int) -> int {
    (edge - copied(edge, side)) / 2
}

/// Whether a canvas position is covered by the copy, along one axis.
pub open spec fn covered(at: int, edge: int, side: int) -> bool {
    margin(edge, side) <= at < margin(edge, side) + copied(edge, side)
}

/// Where a channel of a BGRA pixel stands in an RGB one.
pub open spec fn rgb(channel: int) -> int {
    2 - channel
}

/// One channel of the canvas pixel at column `x` of row `y`, in BGRA order.
pub open spec fn slot_channel(
    source: Seq<u8>,
    width: int,
    height: int,
    side: int,
    background: (u8, u8, u8),
    x: int,
    y: int,
    channel: int,
) -> u8 {
    if channel == 3 {
        255
    } else if usable(source, width, height) && covered(x, width, side) && covered(
        y,
        height,
        side,
    ) {
        source[((y - margin(height, side) + crop(height, side)) * width + (x - margin(width, side)
            + crop(width, side))) * 4 + rgb(channel)]
    } else if channel == 0 {
        background.2
    } else if channel == 1 {
        background.1
    } else {
        background.0
    }
}

/// The canvas: its pixels row by row, its channels in BGRA order.
pub open spec fn slot(
    source: Seq<u8>,
    width: int,
    height: int,
    side: int,
    background: (u8, u8, u8),
) -> Seq<u8> {
    Seq::new(
        (side * side * 4) as nat,
        |i: int|
            slot_channel(
                source,
                width,
                height,
                side,
                background,
                i / 4 % side,
                i / 4 / side,
                i % 4,
            ),
    )
}

proof fn lemma_copied_inside(
    width: int,
    height: int,
    side: int,
    x: int,
    y: int,
    source_len: int,
)
    requires
        width > 0,
        height > 0,
        covered(x, width, side),
        covered(y, height, side),
        width * height * 4 <= source_len,
    ensures
        ({
            let column = x - margin(width, side) + crop(width, side);
            let row = y - margin(height, side) + crop(height, side);
            &&& 0 <= column < width
            &&& 0 <= row < height
            &&& 0 <= row * width
            &&& (row * width + column) * 4 + 3 < source_len
        }),
{
    let column = x - margin(width, side) + crop(width, side);
    let row = y - margin(height, side) + crop(height, side);
    assert(0 <= row * width && row * width + column < width * height) by (nonlinear_arith)
        requires
            0 <= row < height,
            0 <= column < width,
    ;
    assert(width * height * 4 == (width * height) * 4);
}

/// Composes `width` × `height` RGBA pixels into a `side` × `side` top-down BGRA canvas, centred
/// on `background`.
///
/// A source larger than the canvas is centred and cropped rather than scaled. A source that holds
/// fewer pixels than it claims leaves the canvas blank. Alpha is written opaque throughout.
pub fn compose_slot(
    source: &[u8],
    width: u32,
    height: u32,
    side: u32,
    background: (u8, u8, u8),
) -> (canvas: Vec<u8>)
    requires
        side * side * 4 <= isize::MAX,
    ensures
        canvas@ == slot(source@, width as int, height as int, side as int, background),
{
    let ghost w = width as int;
    let ghost h = height as int;
    let ghost s = side as int;
    let ghost whole = slot(source@, w, h, s, background);
    let len: usize = source.len();
    assert(0 <= width * height <= 0xffff_ffff * 0xffff_ffff) by (nonlinear_arith)
        requires
            0 <= width <= 0xffff_ffff,
            0 <= height <= 0xffff_ffff,
    ;
    let pixels: u128 = width as u128 * height as u128 * 4;
    let usable: bool = width > 0 && height > 0 && len as u128 >= pixels;
    let copy_width: u32 = if width < side {
        width
    } else {
        side
    };
    let copy_height: u32 = if height < side {
        height
    } else {
        side
    };
    let destination_x: u32 = (side - copy_width) / 2;
    let destination_y: u32 = (side - copy_height) / 2;
    let source_x: u32 = (width - copy_width) / 2;
    let source_y: u32 = (height - copy_height) / 2;
    let mut canvas: Vec<u8> = Vec::new();
    assert(0 * s == 0 && 0 <= s * s) by (nonlinear_arith);
    for y in 0..side
        invariant
            w == width,
            h == height,
            s == side,
            side * side * 4 <= isize::MAX,
            len == source@.len(),
            whole == slot(source@, w, h, s, background),
            usable == self::usable(source@, w, h),
            copy_width == copied(w, s),
            copy_height == copied(h, s),
            destination_x == margin(w, s),
            destination_y == margin(h, s),
            source_x == crop(w, s),
            source_y == crop(h, s),
            canvas@.len() == y * s * 4,
            canvas@.len() <= whole.len(),
            canvas@ == whole.take(canvas@.len() as int),
    {
        assert(y * s + s <= s * s) by (nonlinear_arith)
            requires
                0 <= y < s,
        ;
        assert((y + 1) * s == y * s + s) by (nonlinear_arith);
        for x in 0..side
            invariant
                w == width,
                h == height,
                s == side,
                0 <= y < s,
                side * side * 4 <= isize::MAX,
                len == source@.len(),
                whole == slot(source@, w, h, s, background),
                usable == self::usable(source@, w, h),
                copy_width == copied(w, s),
                copy_height == copied(h, s),
                destination_x == margin(w, s),
                destination_y == margin(h, s),
                source_x == crop(w, s),
                source_y == crop(h, s),
                y * s + s <= s * s,
                canvas@.len() == (y * s + x) * 4,
                canvas@.len() <= whole.len(),
                canvas@ == whole.take(canvas@.len() as int),
        {
            let ghost before = canvas@;
            let ghost at = y * s + x;
            let inside: bool = usable && destination_x <= x && x - destination_x < copy_width
                && destination_y <= y && y - destination_y < copy_height;
            assert(inside == (self::usable(source@, w, h) && covered(x as int, w, s) && covered(
                y as int,
                h,
                s,
            )));
            if inside {
                proof {
                    lemma_copied_inside(w, h, s, x as int, y as int, source@.len() as int);
                }
                let column: u32 = x - destination_x + source_x;
                let row: u32 = y - destination_y + source_y;
                let from: usize = (row as usize * width as usize + column as usize) * 4;
                canvas.push(source[from + 2]);
                canvas.push(source[from + 1]);
                canvas.push(source[from]);
            } else {
                canvas.push(background.2);
                canvas.push(background.1);
                canvas.push(background.0);
            }
            canvas.push(255);
            proof {
                assert(s * y == y * s) by (nonlinear_arith);
                lemma_fundamental_div_mod_converse(at, s, y as int, x as int);
                assert forall|c: int| 0 <= c < 4 implies #[trigger] canvas@[4 * at + c]
                    == whole[4 * at + c] by {
                    let i = 4 * at + c;
                    assert(i / 4 == at && i % 4 == c);
                    assert(whole[i] == slot_channel(
                        source@,
                        w,
                        h,
                        s,
                        background,
                        x as int,
                        y as int,
                        c,
                    ));
                }
                assert forall|i: int| 0 <= i < canvas@.len() implies canvas@[i] == whole[i] by {
                    if i < 4 * at {
                        assert(canvas@[i] == before[i]);
                    } else {
                        let c = i - 4 * at;
                        assert(canvas@[4 * at + c] == whole[4 * at + c]);
                    }
                }
                assert(canvas@ =~= whole.take(canvas@.len() as int));
            }
        }
    }
    assert(canvas@ =~= whole);
    canvas
}

/// How many bytes one image list slot costs.
pub open spec fn cost_of(side: u32) -> int {
    side * side * 4
}

/// How many bytes one image list slot costs.
pub fn slot_bytes(side: u32) -> (bytes: usize)
    requires
        cost_of(side) <= usize::MAX,
    ensures
        bytes == cost_of(side),
{
    assert(0 <= side * side) by (nonlinear_arith);
    side as usize * side as usize * 4
}

// ----- laws -----

proof fn lemma_slot_at(
    source: Seq<u8>,
    width: int,
    height: int,
    side: int,
    background: (u8, u8, u8),
    x: int,
    y: int,
    c: int,
)
    requires
        0 <= x < side,
        0 <= y < side,
        0 <= c < 4,
    ensures
        0 <= (y * side + x) * 4 + c < slot(source, width, height, side, background).len(),
        slot(source, width, height, side, background)[(y * side + x) * 4 + c] == slot_channel(
            source,
            width,
            height,
            side,
            background,
            x,
            y,
            c,
        ),
{
    let at = y * side + x;
    assert(0 <= y * side && y * side + side <= side * side) by (nonlinear_arith)
        requires
            0 <= y < side,
    ;
    assert(side * y == y * side) by (nonlinear_arith);
    lemma_fundamental_div_mod_converse(at, side, y, x);
    assert((at * 4 + c) / 4 == at && (at * 4 + c) % 4 == c);
}

/// A slot takes the bytes that a slot costs, and every pixel of it is opaque.
pub proof fn slots_are_full_and_opaque(
    source: Seq<u8>,
    width: int,
    height: int,
    side: int,
    background: (u8, u8, u8),
)
    requires
        side >= 0,
    ensures
        slot(source, width, height, side, background).len() == side * side * 4,
        forall|p: int|
            0 <= p < side * side ==> #[trigger] slot(
                source,
                width,
                height,
                side,
                background,
            )[4 * p + 3] == 255,
{
    assert(side * side >= 0) by (nonlinear_arith);
    assert forall|p: int| 0 <= p < side * side implies #[trigger] slot(
        source,
        width,
        height,
        side,
        background,
    )[4 * p + 3] == 255 by {
        assert((4 * p + 3) % 4 == 3);
    }
}

/// A slot costs the bytes that its canvas has, whatever the source was.
pub proof fn slots_cost_their_canvas(
    source: Seq<u8>,
    width: u32,
    height: u32,
    side: u32,
    background: (u8, u8, u8),
)
    ensures
        slot(source, width as int, height as int, side as int, background).len() == cost_of(side),
{
    slots_are_full_and_opaque(source, width as int, height as int, side as int, background);
}

/// A source that's smaller than the slot appears whole, in its middle, the right way up.
pub proof fn a_small_source_appears_whole(
    source: Seq<u8>,
    width: int,
    height: int,
    side: int,
    background: (u8, u8, u8),
    x: int,
    y: int,
    c: int,
)
    requires
        usable(source, width, height),
        width <= side,
        height <= side,
        0 <= x < width,
        0 <= y < height,
        0 <= c < 3,
    ensures
        slot(source, width, height, side, background)[((y + (side - height) / 2) * side + (x + (side
            - width) / 2)) * 4 + c] == source[(y * width + x) * 4 + rgb(c)],
{
    lemma_slot_at(
        source,
        width,
        height,
        side,
        background,
        x + (side - width) / 2,
        y + (side - height) / 2,
        c,
    );
}

/// A source that doesn't hold the pixels it claims leaves nothing but background.
pub proof fn a_short_source_is_a_blank_slot(
    source: Seq<u8>,
    width: int,
    height: int,
    side: int,
    background: (u8, u8, u8),
    x: int,
    y: int,
)
    requires
        !usable(source, width, height),
        0 <= x < side,
        0 <= y < side,
    ensures
        slot(source, width, height, side, background)[(y * side + x) * 4] == background.2,
        slot(source, width, height, side, background)[(y * side + x) * 4 + 1] == background.1,
        slot(source, width, height, side, background)[(y * side + x) * 4 + 2] == background.0,
{
    lemma_slot_at(source, width, height, side, background, x, y, 0);
    lemma_slot_at(source, width, height, side, background, x, y, 1);
    lemma_slot_at(source, width, height, side, background, x, y, 2);
}

/// Whether a position of the canvas lies over a position of the source along one axis, where the
/// two are centred on each other.
pub open spec fn lies_over(at: int, from: int, edge: int, side: int) -> bool {
    &&& 0 <= at < side
    &&& 0 <= from < edge
    &&& edge <= side ==> at - from == (side - edge) / 2
    &&& edge > side ==> from - at == (edge - side) / 2
}

/// Where the canvas lies over the source it shows the source's pixel, blue first and opaque,
/// whichever of the two is larger along an axis.
pub proof fn canvases_show_the_middle_of_their_source(
    source: &[u8],
    width: u32,
    height: u32,
    side: u32,
    background: (u8, u8, u8),
    canvas: Vec<u8>,
    x: int,
    y: int,
    column: int,
    row: int,
)
    requires
        call_ensures(compose_slot, (source, width, height, side, background), canvas),
        source@.len() >= width * height * 4,
        lies_over(x, column, width as int, side as int),
        lies_over(y, row, height as int, side as int),
    ensures
        canvas@.len() == side * side * 4,
        canvas@[(y * side + x) * 4] == source@[(row * width + column) * 4 + 2],
        canvas@[(y * side + x) * 4 + 1] == source@[(row * width + column) * 4 + 1],
        canvas@[(y * side + x) * 4 + 2] == source@[(row * width + column) * 4],
        canvas@[(y * side + x) * 4 + 3] == 255,
{
    let (w, h, s) = (width as int, height as int, side as int);
    assert(canvas@ == slot(source@, w, h, s, background));
    assert(0 <= s * s) by (nonlinear_arith);
    lemma_slot_at(source@, w, h, s, background, x, y, 0);
    lemma_slot_at(source@, w, h, s, background, x, y, 1);
    lemma_slot_at(source@, w, h, s, background, x, y, 2);
    lemma_slot_at(source@, w, h, s, background, x, y, 3);
    assert(x - margin(w, s) + crop(w, s) == column);
    assert(y - margin(h, s) + crop(h, s) == row);
}

/// Where the canvas lies over no pixel of the source, or the source holds fewer pixels than it
/// claims, it shows the background, blue first and opaque.
pub proof fn canvases_show_the_background_elsewhere(
    source: &[u8],
    width: u32,
    height: u32,
    side: u32,
    background: (u8, u8, u8),
    canvas: Vec<u8>,
    x: int,
    y: int,
)
    requires
        call_ensures(compose_slot, (source, width, height, side, background), canvas),
        0 <= x < side,
        0 <= y < side,
        ({
            ||| source@.len() < width * height * 4
            ||| width < side && (x < (side - width) / 2 || x >= (side - width) / 2 + width)
            ||| height < side && (y < (side - height) / 2 || y >= (side - height) / 2 + height)
        }),
    ensures
        canvas@[(y * side + x) * 4] == background.2,
        canvas@[(y * side + x) * 4 + 1] == background.1,
        canvas@[(y * side + x) * 4 + 2] == background.0,
        canvas@[(y * side + x) * 4 + 3] == 255,
{
    let (w, h, s) = (width as int, height as int, side as int);
    lemma_slot_at(source@, w, h, s, background, x, y, 0);
    lemma_slot_at(source@, w, h, s, background, x, y, 1);
    lemma_slot_at(source@, w, h, s, background, x, y, 2);
    lemma_slot_at(source@, w, h, s, background, x, y, 3);
}

/// A slot costs four bytes for each of its pixels.
pub proof fn slots_cost_four_bytes_a_pixel(side: u32, bytes: usize)
    requires
        call_ensures(slot_bytes, (side,), bytes),
    ensures
        bytes == 4 * (side * side),
{
}

} // verus!
