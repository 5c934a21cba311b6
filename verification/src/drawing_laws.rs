//! What the drawings of the overlay are, said in numbers: which colours they have, how far they
//! reach, and what has to be shown anew.

use vstd::prelude::*;
use crate::overlay::{
    background_bytes, colour_byte, covers, crosshair_drawn, cursor_box, cutout, damage_of, filled,
    joined_box, outline, repainted, repaired, row_covers, selection_box, selection_drawn,
    BoundingBox, Selection, CLEAR, DIM, WHITE,
};
use crate::overlay_laws::{
    background, canvas_pixel, colour_pixel, in_box, is_canvas, law_crosshair_is_four_arms,
    law_fresh_canvas_is_clean, law_selection_is_a_window_in_a_border, lemma_repaired_pixel,
};

verus! {

// Colours

/// A colour lies in memory with its lowest byte first. The background is black and lets almost
/// half of what is behind it through, the selection lets all of it through, and what is drawn is
/// opaque white.
pub proof fn law_colours_in_memory(colour: u32)
    ensures
        colour_byte(colour, 0) + 0x100 * colour_byte(colour, 1) + 0x1_0000 * colour_byte(colour, 2)
            + 0x100_0000 * colour_byte(colour, 3) == colour,
        colour_pixel(DIM) == (0u8, 0u8, 0u8, 0x88u8),
        colour_pixel(CLEAR) == (0u8, 0u8, 0u8, 0u8),
        colour_pixel(WHITE) == (255u8, 255u8, 255u8, 255u8),
{
    assert(colour % 256 + 256 * (colour / 256 % 256) + 65536 * (colour / 65536 % 256) + 16777216 * (
    colour / 16777216) == colour) by {
        assert(colour / 65536 == colour / 256 / 256);
        assert(colour / 16777216 == colour / 65536 / 256);
    }
}

// Filling

/// Filling a rectangle gives the colour to the four bytes of each of its pixels, in every row that
/// ends inside the buffer, and leaves all other bytes alone.
pub proof fn law_filling_writes_whole_pixels(
    buf: Seq<u8>,
    w: u32,
    x1: int,
    y1: int,
    x2: int,
    y2: int,
    colour: u32,
    x: int,
    y: int,
    c: int,
    b: int,
)
    requires
        0 <= b < buf.len(),
    ensures
        ({
            let after = filled(buf, w, x1, y1, x2, y2, colour);
            &&& after.len() == buf.len()
            &&& x1 <= x <= x2 && y1 <= y <= y2 && 0 <= c < 4 && b == 4 * (y * w + x) + c && 4 * (y * w
                + x2) + 4 <= buf.len() ==> after[b] == colour_byte(colour, c)
            &&& (forall|k: int|
                y1 <= k <= y2 ==> b < 4 * (#[trigger] (k * w) + x1) || b > 4 * (k * w + x2) + 3 || 4
                    * (k * w + x2) + 4 > buf.len()) ==> after[b] == buf[b]
        }),
{
    let len = buf.len() as int;
    let p = b / 4;
    if x1 <= x <= x2 && y1 <= y <= y2 && 0 <= c < 4 && b == 4 * (y * w + x) + c && 4 * (y * w + x2)
        + 4 <= buf.len() {
        assert(p == y * w + x);
        assert(b % 4 == c);
        assert(row_covers(w as int, x1, x2, len, y, p));
        assert(covers(w as int, x1, y1, x2, y2, len, p));
    }
    if covers(w as int, x1, y1, x2, y2, len, p) {
        let k = choose|k: int| y1 <= k <= y2 && #[trigger] row_covers(w as int, x1, x2, len, k, p);
        assert(k * w == k * w);
        assert(4 * (k * w + x1) <= b <= 4 * (k * w + x2) + 3);
    }
}

// Edges

/// `e` is the lower of `a` and `b`, or zero if that is negative.
pub open spec fn is_near_edge(e: int, a: int, b: int) -> bool {
    &&& a < 0 || b < 0 ==> e == 0
    &&& a >= 0 && b >= 0 ==> e <= a && e <= b && (e == a || e == b)
}

/// `e` is the higher of `a` and `b`, of which one is not negative, but at most `limit`.
pub open spec fn is_far_edge(e: int, a: int, b: int, limit: int) -> bool {
    &&& e <= limit
    &&& e < limit ==> e >= a && e >= b && (e == a || e == b)
    &&& e == limit ==> a >= limit || b >= limit
}

/// `e` lies `n` below `edge`, but not below zero.
pub open spec fn is_below(e: int, edge: int, n: int) -> bool {
    &&& e >= 0
    &&& e == edge - n || e == 0 && edge < n
}

/// `e` lies `n` above `edge`, but not above `limit`.
pub open spec fn is_above(e: int, edge: int, n: int, limit: int) -> bool {
    &&& e <= limit
    &&& e == edge + n || e == limit && edge + n > limit
}

/// The part of a selection that is cut out reaches from the nearer of its two corners to the
/// farther one in both directions, as far as that is on the canvas. The border around it is two
/// pixels wide, as far as there is room.
pub proof fn law_selection_reaches_from_corner_to_corner(w: u32, h: u32, sel: Selection)
    requires
        w > 0,
        h > 0,
        sel.0 >= 0 || sel.2 >= 0,
        sel.1 >= 0 || sel.3 >= 0,
    ensures
        ({
            let (ax, ay, bx, by) = (sel.0 as int, sel.1 as int, sel.2 as int, sel.3 as int);
            let (x1, y1, x2, y2) = cutout(w, h, sel);
            let (l, t, r, b) = outline(w, h, sel);
            &&& is_near_edge(x1, ax, bx)
            &&& is_near_edge(y1, ay, by)
            &&& is_far_edge(x2, ax, bx, w - 1)
            &&& is_far_edge(y2, ay, by, h - 1)
            &&& is_below(l, x1, 2)
            &&& is_below(t, y1, 2)
            &&& is_above(r, x2, 2, w - 1)
            &&& is_above(b, y2, 2, h - 1)
        }),
{
}

/// A selection that lies in front of the canvas in one direction is cut out up to the far end in
/// that direction, on a canvas that has its size in 31 bits.
pub proof fn law_selection_in_front_reaches_to_the_end(w: u32, h: u32, sel: Selection)
    requires
        0 < w < 0x8000_0000,
        0 < h < 0x8000_0000,
    ensures
        sel.0 < 0 && sel.2 < 0 ==> cutout(w, h, sel).0 == 0 && cutout(w, h, sel).2 == w - 1,
        sel.1 < 0 && sel.3 < 0 ==> cutout(w, h, sel).1 == 0 && cutout(w, h, sel).3 == h - 1,
{
}

/// A selection that is two pixels away from the edges of the canvas or more looks like this: all
/// pixels between its corners are transparent, the two pixels around them in each direction are
/// white, and no other pixel is touched.
pub proof fn law_selection_in_numbers(
    buf: Seq<u8>,
    w: u32,
    h: u32,
    sel: Selection,
    x1: int,
    y1: int,
    x2: int,
    y2: int,
    x: int,
    y: int,
)
    requires
        is_canvas(buf, w, h),
        2 <= x1 <= x2 < w - 2,
        2 <= y1 <= y2 < h - 2,
        sel.0 == x1 && sel.2 == x2 || sel.0 == x2 && sel.2 == x1,
        sel.1 == y1 && sel.3 == y2 || sel.1 == y2 && sel.3 == y1,
        0 <= x < w,
        0 <= y < h,
    ensures
        canvas_pixel(selection_drawn(buf, w, h, sel), w, x, y) == if x1 <= x <= x2 && y1 <= y <= y2 {
            (0u8, 0u8, 0u8, 0u8)
        } else if x1 - 2 <= x <= x2 + 2 && y1 - 2 <= y <= y2 + 2 {
            (255u8, 255u8, 255u8, 255u8)
        } else {
            canvas_pixel(buf, w, x, y)
        },
{
    law_colours_in_memory(0);
    law_selection_is_a_window_in_a_border(buf, w, h, sel, x, y);
}

/// The box that is repaired after a selection reaches three pixels out from it, as far as there is
/// room.
pub proof fn law_selection_box_is_wider_by_three(w: u32, h: u32, sel: Selection, e: Selection)
    requires
        w > 0,
        h > 0,
        sel.0 >= 0 || sel.2 >= 0,
        sel.1 >= 0 || sel.3 >= 0,
        is_near_edge(e.0 as int, sel.0 as int, sel.2 as int),
        is_near_edge(e.1 as int, sel.1 as int, sel.3 as int),
        is_far_edge(e.2 as int, sel.0 as int, sel.2 as int, i32::MAX as int),
        is_far_edge(e.3 as int, sel.1 as int, sel.3 as int, i32::MAX as int),
    ensures
        ({
            let area = selection_box(w, h, sel);
            &&& is_below(area.0 as int, e.0 as int, 3)
            &&& is_below(area.1 as int, e.1 as int, 3)
            &&& is_above(area.2 as int, e.2 as int, 3, w - 1)
            &&& is_above(area.3 as int, e.3 as int, 3, h - 1)
        }),
{
}

/// The box around a crosshair reaches 14 pixels out from its centre, as far as there is room.
pub proof fn law_cursor_box_reaches_out_by_fourteen(w: u32, h: u32, cx: u32, cy: u32)
    requires
        w > 0,
        h > 0,
    ensures
        ({
            let area = cursor_box(w, h, (cx, cy));
            &&& is_below(area.0 as int, cx as int, 14)
            &&& is_below(area.1 as int, cy as int, 14)
            &&& is_above(area.2 as int, cx as int, 14, w - 1)
            &&& is_above(area.3 as int, cy as int, 14, h - 1)
        }),
{
}

/// At `x` lies an arm of a crosshair with its centre at `c`: from 4 to 14 pixels away from it in
/// either direction. Where there is no room for an arm it is the last pixel of the canvas, which
/// is `n` pixels wide.
pub open spec fn on_arm(x: int, c: int, n: int) -> bool {
    ||| 4 <= c - x <= 14
    ||| 4 <= x - c <= 14
    ||| x == 0 && c < 4
    ||| x == n - 1 && n - 1 - c < 4
}

/// A crosshair has four arms, three pixels thick, that lie 4 to 14 pixels away from its centre.
/// They are white, and nothing else is touched. The centre may lie up to three pixels behind the
/// right edge of the canvas, and anywhere below it.
pub proof fn law_crosshair_in_numbers(buf: Seq<u8>, w: u32, h: u32, cx: u32, cy: u32, x: int, y: int)
    requires
        is_canvas(buf, w, h),
        cx < w + 4,
        0 <= x < w,
        0 <= y < h,
    ensures
        canvas_pixel(crosshair_drawn(buf, w, h, cx, cy), w, x, y) == if (-1 <= y - cy <= 1 && on_arm(
            x,
            cx as int,
            w as int,
        )) || (-1 <= x - cx <= 1 && on_arm(y, cy as int, h as int)) {
            (255u8, 255u8, 255u8, 255u8)
        } else {
            canvas_pixel(buf, w, x, y)
        },
{
    law_colours_in_memory(0);
    law_crosshair_is_four_arms(buf, w, h, cx, cy, x, y);
}

// Repainting

/// The box around two boxes holds both, and each of its edges is an edge of one of them.
pub proof fn law_joined_box_is_the_smallest(a: BoundingBox, b: BoundingBox)
    ensures
        joined_box(Some(a), Some(b)) matches Some(j) && {
            &&& j.0 <= a.0 && j.0 <= b.0 && (j.0 == a.0 || j.0 == b.0)
            &&& j.1 <= a.1 && j.1 <= b.1 && (j.1 == a.1 || j.1 == b.1)
            &&& j.2 >= a.2 && j.2 >= b.2 && (j.2 == a.2 || j.2 == b.2)
            &&& j.3 >= a.3 && j.3 >= b.3 && (j.3 == a.3 || j.3 == b.3)
        },
        joined_box(Some(a), None) == Some(a),
        joined_box(None, Some(b)) == Some(b),
        joined_box(None, None) is None,
{
}

/// The damage is exactly the pixels of the box, or of the whole canvas where there is none.
pub proof fn law_damage_is_the_box(w: u32, h: u32, area: BoundingBox, x: int, y: int)
    ensures
        ({
            let d = damage_of(w, h, Some(area));
            d.x <= x < d.x + d.width && d.y <= y < d.y + d.height <==> in_box(Some(area), x, y)
        }),
        ({
            let d = damage_of(w, h, Some(area));
            d.x == area.0 && d.y == area.1 && d.x + d.width == area.2 + 1 && d.y + d.height == area.3
                + 1
        }),
        ({
            let d = damage_of(w, h, None);
            d.x == 0 && d.y == 0 && d.width == w && d.height == h
        }),
{
}

/// What a frame shows: the crosshair lies on top of the selection, and the selection on the
/// background.
pub proof fn law_crosshair_lies_on_the_selection(
    buf: Seq<u8>,
    w: u32,
    h: u32,
    prev_sel: Option<BoundingBox>,
    prev_cursor: Option<BoundingBox>,
    selection: Option<Selection>,
    cursor: (u32, u32),
    sel: Selection,
)
    ensures
        repainted(buf, w, h, prev_sel, prev_cursor, selection, Some(cursor)) == crosshair_drawn(
            repainted(buf, w, h, prev_sel, prev_cursor, selection, None),
            w,
            h,
            cursor.0,
            cursor.1,
        ),
        repainted(buf, w, h, prev_sel, prev_cursor, Some(sel), None) == selection_drawn(
            repainted(buf, w, h, prev_sel, prev_cursor, None, None),
            w,
            h,
            sel,
        ),
        repainted(buf, w, h, None, None, None, None) == buf,
{
}

/// A repaint that draws nothing paints over what was drawn before with the background, and leaves
/// all else as it is.
pub proof fn law_repaint_without_anything_to_draw(
    buf: Seq<u8>,
    w: u32,
    h: u32,
    prev_sel: Option<BoundingBox>,
    prev_cursor: Option<BoundingBox>,
    x: int,
    y: int,
)
    requires
        is_canvas(buf, w, h),
        prev_sel matches Some(b) ==> b.2 < w,
        prev_cursor matches Some(b) ==> b.2 < w,
        0 <= x < w,
        0 <= y < h,
    ensures
        canvas_pixel(repainted(buf, w, h, prev_sel, prev_cursor, None, None), w, x, y) == if in_box(
            prev_sel,
            x,
            y,
        ) || in_box(prev_cursor, x, y) {
            (0u8, 0u8, 0u8, 0x88u8)
        } else {
            canvas_pixel(buf, w, x, y)
        },
{
    law_colours_in_memory(0);
    lemma_repaired_pixel(buf, w, h, prev_sel, x, y);
    lemma_repaired_pixel(
        repaired(buf, w, prev_sel),
        w,
        h,
        prev_cursor,
        x,
        y,
    );
}

/// A fresh canvas has four bytes for each pixel, all of the background.
pub proof fn law_fresh_canvas_is_dim(w: u32, h: u32, x: int, y: int)
    requires
        0 <= x < w,
        0 <= y < h,
    ensures
        background(w, h).len() == 4 * (w * h),
        canvas_pixel(background(w, h), w, x, y) == (0u8, 0u8, 0u8, 0x88u8),
{
    law_colours_in_memory(0);
    law_fresh_canvas_is_clean(w, h);
    assert(w * h == h * w) by (nonlinear_arith);
}

/// The background is the same four bytes over and over: three zeros, then `0x88`.
pub proof fn law_background_is_black_and_dim(len: nat, b: int)
    requires
        0 <= b < len,
    ensures
        background_bytes(len).len() == len,
        background_bytes(len)[b] == if b % 4 == 3 {
            0x88u8
        } else {
            0u8
        },
{
    law_colours_in_memory(0);
}

} // verus!
