//! What holds of the overlay as a whole: what its drawings look like pixel by pixel, and that
//! repainting only what has changed leaves nothing behind.

use vstd::prelude::*;
use crate::overlay::{
    colour_byte, covers, crosshair_box, crosshair_drawn, cursor_box, cutout, damage_of,
    filled, joined_box, less, lower, near_edge, outline, repainted, repaired, row_covers,
    selection_box, selection_drawn, BoundingBox, Selection, CLEAR, CROSSHAIR_ARM,
    CROSSHAIR_GAP, DIM, WHITE,
};

verus! {

/// The bytes are those of a canvas of `w` by `h` pixels.
pub open spec fn is_canvas(buf: Seq<u8>, w: u32, h: u32) -> bool {
    buf.len() == 4 * (h * w)
}

/// The four bytes of a pixel of a canvas.
pub open spec fn canvas_pixel(buf: Seq<u8>, w: u32, x: int, y: int) -> (u8, u8, u8, u8) {
    let i = 4 * (y * w + x);
    (buf[i], buf[i + 1], buf[i + 2], buf[i + 3])
}

/// The four bytes of a colour.
pub open spec fn colour_pixel(colour: u32) -> (u8, u8, u8, u8) {
    (
        colour_byte(colour, 0),
        colour_byte(colour, 1),
        colour_byte(colour, 2),
        colour_byte(colour, 3),
    )
}

/// The pixel lies between the edges.
pub open spec fn within(x1: int, y1: int, x2: int, y2: int, x: int, y: int) -> bool {
    x1 <= x <= x2 && y1 <= y <= y2
}

/// The pixel lies in the box.
pub open spec fn in_box(area: Option<BoundingBox>, x: int, y: int) -> bool {
    match area {
        Some(b) => within(b.0 as int, b.1 as int, b.2 as int, b.3 as int, x, y),
        None => false,
    }
}

/// Two pixels of a canvas in one place are in the same row and column.
proof fn lemma_rows_do_not_meet(w: int, k: int, y: int, x1: int, x2: int, x: int)
    requires
        0 <= x < w,
        0 <= x1,
        x2 < w,
        k * w + x1 <= y * w + x <= k * w + x2,
    ensures
        k == y,
{
    if k > y {
        assert(k * w >= y * w + w) by (nonlinear_arith)
            requires
                k >= y + 1,
                w >= 0,
        ;
    }
    if k < y {
        assert(y * w >= k * w + w) by (nonlinear_arith)
            requires
                y >= k + 1,
                w >= 0,
        ;
    }
}

/// A pixel of a canvas lies inside its bytes.
proof fn lemma_pixel_in_canvas(w: int, h: int, x: int, y: int)
    requires
        0 <= x < w,
        0 <= y < h,
    ensures
        0 <= y * w,
        y * w + w <= h * w,
{
    assert(0 <= y * w && y * w + w <= h * w) by (nonlinear_arith)
        requires
            0 <= y,
            y + 1 <= h,
            w >= 0,
    ;
}

/// Filling a rectangle changes the pixels inside it to the colour, and no others.
pub proof fn law_fill_rect_fills_the_rectangle(
    buf: Seq<u8>,
    w: u32,
    h: u32,
    x1: int,
    y1: int,
    x2: int,
    y2: int,
    colour: u32,
    x: int,
    y: int,
)
    requires
        is_canvas(buf, w, h),
        0 <= x1,
        x2 < w,
        0 <= x < w,
        0 <= y < h,
    ensures
        is_canvas(filled(buf, w, x1, y1, x2, y2, colour), w, h),
        canvas_pixel(filled(buf, w, x1, y1, x2, y2, colour), w, x, y) == if within(
            x1,
            y1,
            x2,
            y2,
            x,
            y,
        ) {
            colour_pixel(colour)
        } else {
            canvas_pixel(buf, w, x, y)
        },
{
    let len = buf.len() as int;
    let p = y * w + x;
    lemma_pixel_in_canvas(w as int, h as int, x, y);
    assert(covers(w as int, x1, y1, x2, y2, len, p) == within(x1, y1, x2, y2, x, y)) by {
        if within(x1, y1, x2, y2, x, y) {
            assert(row_covers(w as int, x1, x2, len, y, p));
        }
        if covers(w as int, x1, y1, x2, y2, len, p) {
            let k = choose|k: int| y1 <= k <= y2 && #[trigger] row_covers(w as int, x1, x2, len, k, p);
            lemma_rows_do_not_meet(w as int, k, y, x1, x2, x);
        }
    }
    assert((4 * p) / 4 == p && (4 * p + 1) / 4 == p && (4 * p + 2) / 4 == p && (4 * p + 3) / 4 == p);
    assert((4 * p) % 4 == 0 && (4 * p + 1) % 4 == 1 && (4 * p + 2) % 4 == 2 && (4 * p + 3) % 4 == 3);
}

/// A selection that touches the canvas looks like this: its outline is white and two pixels
/// thick, what lies inside is transparent, and nothing else is touched.
pub proof fn law_selection_is_a_window_in_a_border(
    buf: Seq<u8>,
    w: u32,
    h: u32,
    sel: Selection,
    x: int,
    y: int,
)
    requires
        w >= 3,
        h >= 3,
        is_canvas(buf, w, h),
        cutout(w, h, sel).0 <= cutout(w, h, sel).2,
        cutout(w, h, sel).1 <= cutout(w, h, sel).3,
        0 <= x < w,
        0 <= y < h,
    ensures
        ({
            let (l, t, r, b) = outline(w, h, sel);
            canvas_pixel(selection_drawn(buf, w, h, sel), w, x, y) == if !within(l, t, r, b, x, y) {
                canvas_pixel(buf, w, x, y)
            } else if x < l + 2 || x > r - 2 || y < t + 2 || y > b - 2 {
                colour_pixel(WHITE)
            } else {
                colour_pixel(CLEAR)
            }
        }),
{
    law_selection_is_drawn_edge_by_edge(buf, w, h, sel, x, y);
}

/// A selection that begins on the canvas or right beside it, wherever it ends, is drawn like this:
/// the upper, the lower, the left and the right edge of its outline are white, what else lies in
/// its cutout is transparent, and nothing else is touched.
pub proof fn law_selection_is_drawn_edge_by_edge(buf: Seq<u8>, w: u32, h: u32, sel: Selection, x: int, y: int)
    requires
        w >= 3,
        h >= 3,
        is_canvas(buf, w, h),
        near_edge(sel.0, sel.2) <= w,
        0 <= x < w,
        0 <= y < h,
    ensures
        is_canvas(selection_drawn(buf, w, h, sel), w, h),
        ({
            let (x1, y1, x2, y2) = cutout(w, h, sel);
            let (l, t, r, b) = outline(w, h, sel);
            canvas_pixel(selection_drawn(buf, w, h, sel), w, x, y) == if within(
                l,
                t,
                r,
                t + 1,
                x,
                y,
            ) || within(l, b - 1, r, b, x, y) || within(l, t + 2, l + 1, b - 2, x, y) || within(
                r - 1,
                t + 2,
                r,
                b - 2,
                x,
                y,
            ) {
                colour_pixel(WHITE)
            } else if within(x1, y1, x2, y2, x, y) {
                colour_pixel(CLEAR)
            } else {
                canvas_pixel(buf, w, x, y)
            }
        }),
{
    let (x1, y1, x2, y2) = cutout(w, h, sel);
    let (l, t, r, b) = outline(w, h, sel);
    let b0 = filled(buf, w, x1, y1, x2, y2, CLEAR);
    let b1 = filled(b0, w, l, t, r, t + 1, WHITE);
    let b2 = filled(b1, w, l, b - 1, r, b, WHITE);
    let b3 = filled(b2, w, l, t + 2, l + 1, b - 2, WHITE);
    law_fill_rect_fills_the_rectangle(buf, w, h, x1, y1, x2, y2, CLEAR, x, y);
    law_fill_rect_fills_the_rectangle(b0, w, h, l, t, r, t + 1, WHITE, x, y);
    law_fill_rect_fills_the_rectangle(b1, w, h, l, b - 1, r, b, WHITE, x, y);
    law_fill_rect_fills_the_rectangle(b2, w, h, l, t + 2, l + 1, b - 2, WHITE, x, y);
    law_fill_rect_fills_the_rectangle(b3, w, h, r - 1, t + 2, r, b - 2, WHITE, x, y);
}

/// The pixel belongs to one of the four arms of a crosshair.
pub open spec fn on_crosshair(w: u32, h: u32, cx: u32, cy: u32, x: int, y: int) -> bool {
    let (l, t, r, b) = crosshair_box(cx, cy, w, h);
    let gap = CROSSHAIR_GAP as int;
    let (left, right) = (less(cx as int, gap), lower(cx + gap, w - 1));
    let (above, below) = (less(cy as int, gap), lower(cy + gap, h - 1));
    ||| cy - 1 <= y <= cy + 1 && (l <= x <= left || right <= x <= r)
    ||| cx - 1 <= x <= cx + 1 && (t <= y <= above || below <= y <= b)
}

/// A crosshair looks like this: its arms are white, and nothing else is touched.
pub proof fn law_crosshair_is_four_arms(
    buf: Seq<u8>,
    w: u32,
    h: u32,
    cx: u32,
    cy: u32,
    x: int,
    y: int,
)
    requires
        is_canvas(buf, w, h),
        cx < w + CROSSHAIR_GAP,
        0 <= x < w,
        0 <= y < h,
    ensures
        is_canvas(crosshair_drawn(buf, w, h, cx, cy), w, h),
        canvas_pixel(crosshair_drawn(buf, w, h, cx, cy), w, x, y) == if on_crosshair(
            w,
            h,
            cx,
            cy,
            x,
            y,
        ) {
            colour_pixel(WHITE)
        } else {
            canvas_pixel(buf, w, x, y)
        },
        on_crosshair(w, h, cx, cy, x, y) && cy < h + CROSSHAIR_ARM ==> in_box(
            Some(cursor_box(w, h, (cx, cy))),
            x,
            y,
        ),
{
    let (l, t, r, b) = crosshair_box(cx, cy, w, h);
    let (right, bottom) = (less(w as int, 1), less(h as int, 1));
    let gap = CROSSHAIR_GAP as int;
    let (x0, x1) = (less(cx as int, 1), lower(cx + 1, right));
    let (y0, y1) = (less(cy as int, 1), lower(cy + 1, bottom));
    let b0 = filled(buf, w, l, y0, less(cx as int, gap), y1, WHITE);
    let b1 = filled(b0, w, lower(cx + gap, right), y0, r, y1, WHITE);
    let b2 = filled(b1, w, x0, t, x1, less(cy as int, gap), WHITE);
    law_fill_rect_fills_the_rectangle(buf, w, h, l, y0, less(cx as int, gap), y1, WHITE, x, y);
    law_fill_rect_fills_the_rectangle(b0, w, h, lower(cx + gap, right), y0, r, y1, WHITE, x, y);
    law_fill_rect_fills_the_rectangle(b1, w, h, x0, t, x1, less(cy as int, gap), WHITE, x, y);
    law_fill_rect_fills_the_rectangle(b2, w, h, x0, lower(cy + gap, bottom), x1, b, WHITE, x, y);
}

/// A crosshair that is more than three pixels away from each edge leaves a gap around its centre:
/// what is closer to it than four pixels in each direction is not touched.
pub proof fn law_crosshair_leaves_a_gap(
    buf: Seq<u8>,
    w: u32,
    h: u32,
    cx: u32,
    cy: u32,
    x: int,
    y: int,
)
    requires
        is_canvas(buf, w, h),
        CROSSHAIR_GAP <= cx < w - CROSSHAIR_GAP,
        CROSSHAIR_GAP <= cy < h - CROSSHAIR_GAP,
        cx - CROSSHAIR_GAP < x < cx + CROSSHAIR_GAP,
        cy - CROSSHAIR_GAP < y < cy + CROSSHAIR_GAP,
    ensures
        canvas_pixel(crosshair_drawn(buf, w, h, cx, cy), w, x, y) == canvas_pixel(buf, w, x, y),
{
    law_crosshair_is_four_arms(buf, w, h, cx, cy, x, y);
}

/// What is painted over with the background is background; the rest stays as it is.
pub(crate) proof fn lemma_repaired_pixel(
    buf: Seq<u8>,
    w: u32,
    h: u32,
    area: Option<BoundingBox>,
    x: int,
    y: int,
)
    requires
        is_canvas(buf, w, h),
        area matches Some(b) ==> b.2 < w,
        0 <= x < w,
        0 <= y < h,
    ensures
        is_canvas(repaired(buf, w, area), w, h),
        canvas_pixel(repaired(buf, w, area), w, x, y) == if in_box(area, x, y) {
            colour_pixel(DIM)
        } else {
            canvas_pixel(buf, w, x, y)
        },
{
    if let Some(b) = area {
        law_fill_rect_fills_the_rectangle(
            buf,
            w,
            h,
            b.0 as int,
            b.1 as int,
            b.2 as int,
            b.3 as int,
            DIM,
            x,
            y,
        );
    }
}

/// The selection begins on the canvas or right beside it.
pub open spec fn selection_in_reach(w: u32, h: u32, selection: Option<Selection>) -> bool {
    selection matches Some(sel) ==> {
        &&& w >= 3
        &&& h >= 3
        &&& near_edge(sel.0, sel.2) <= w
        &&& near_edge(sel.1, sel.3) <= h + 1
    }
}

/// The cursor is on the canvas or right beside it.
pub open spec fn cursor_in_reach(w: u32, h: u32, cursor: Option<(u32, u32)>) -> bool {
    cursor matches Some(c) ==> c.0 < w + CROSSHAIR_GAP && c.1 < h + CROSSHAIR_ARM
}

/// The box does not reach over the right edge of the canvas.
pub open spec fn box_on_canvas(w: u32, area: Option<BoundingBox>) -> bool {
    area matches Some(b) ==> b.2 < w
}

/// The box around a selection, where there is one.
pub open spec fn selection_area(w: u32, h: u32, selection: Option<Selection>) -> Option<BoundingBox> {
    match selection {
        Some(sel) => Some(selection_box(w, h, sel)),
        None => None,
    }
}

/// The box around a crosshair, where there is one.
pub open spec fn cursor_area(w: u32, h: u32, cursor: Option<(u32, u32)>) -> Option<BoundingBox> {
    match cursor {
        Some(c) => Some(cursor_box(w, h, c)),
        None => None,
    }
}

/// Drawing changes nothing outside the boxes around what is drawn.
proof fn lemma_drawn_pixel_outside(
    buf: Seq<u8>,
    w: u32,
    h: u32,
    selection: Option<Selection>,
    cursor: Option<(u32, u32)>,
    x: int,
    y: int,
)
    requires
        is_canvas(buf, w, h),
        selection_in_reach(w, h, selection),
        cursor_in_reach(w, h, cursor),
        0 <= x < w,
        0 <= y < h,
        !in_box(selection_area(w, h, selection), x, y),
        !in_box(cursor_area(w, h, cursor), x, y),
    ensures
        is_canvas(repainted(buf, w, h, None, None, selection, cursor), w, h),
        canvas_pixel(repainted(buf, w, h, None, None, selection, cursor), w, x, y) == canvas_pixel(
            buf,
            w,
            x,
            y,
        ),
{
    let drawn = match selection {
        Some(sel) => {
            law_selection_is_drawn_edge_by_edge(buf, w, h, sel, x, y);
            selection_drawn(buf, w, h, sel)
        },
        None => buf,
    };
    assert(is_canvas(drawn, w, h));
    assert(canvas_pixel(drawn, w, x, y) == canvas_pixel(buf, w, x, y));
    if let Some(c) = cursor {
        law_crosshair_is_four_arms(drawn, w, h, c.0, c.1, x, y);
    }
}

/// The damage of a repaint covers every pixel that it changes.
pub proof fn law_damage_covers_all_changes(
    buf: Seq<u8>,
    w: u32,
    h: u32,
    prev_sel: Option<BoundingBox>,
    prev_cursor: Option<BoundingBox>,
    selection: Option<Selection>,
    cursor: Option<(u32, u32)>,
    x: int,
    y: int,
)
    requires
        is_canvas(buf, w, h),
        box_on_canvas(w, prev_sel),
        box_on_canvas(w, prev_cursor),
        selection_in_reach(w, h, selection),
        cursor_in_reach(w, h, cursor),
        0 <= x < w,
        0 <= y < h,
        canvas_pixel(
            repainted(buf, w, h, prev_sel, prev_cursor, selection, cursor),
            w,
            x,
            y,
        ) != canvas_pixel(buf, w, x, y),
    ensures
        ({
            let d = damage_of(
                w,
                h,
                joined_box(
                    joined_box(
                        joined_box(prev_sel, selection_area(w, h, selection)),
                        prev_cursor,
                    ),
                    cursor_area(w, h, cursor),
                ),
            );
            d.x <= x < d.x + d.width && d.y <= y < d.y + d.height
        }),
{
    let first = repaired(buf, w, prev_sel);
    let second = repaired(first, w, prev_cursor);
    lemma_repaired_pixel(buf, w, h, prev_sel, x, y);
    lemma_repaired_pixel(first, w, h, prev_cursor, x, y);
    if !in_box(selection_area(w, h, selection), x, y) && !in_box(cursor_area(w, h, cursor), x, y) {
        lemma_drawn_pixel_outside(second, w, h, selection, cursor, x, y);
    }
}

/// A canvas that shows nothing but the background.
pub open spec fn background(w: u32, h: u32) -> Seq<u8> {
    Seq::new((4 * (h * w)) as nat, |b: int| colour_byte(DIM, b % 4))
}

/// Outside the two boxes the canvas shows the background.
pub open spec fn is_clean_outside(
    buf: Seq<u8>,
    w: u32,
    h: u32,
    sel: Option<BoundingBox>,
    cursor: Option<BoundingBox>,
) -> bool {
    forall|x: int, y: int|
        0 <= x < w && 0 <= y < h && !in_box(sel, x, y) && !in_box(cursor, x, y)
            ==> #[trigger] canvas_pixel(buf, w, x, y) == colour_pixel(DIM)
}

/// A canvas that was filled with the background is clean everywhere.
pub proof fn law_fresh_canvas_is_clean(w: u32, h: u32)
    ensures
        is_canvas(background(w, h), w, h),
        is_clean_outside(background(w, h), w, h, None, None),
{
    let buf = background(w, h);
    assert(0 <= h * w) by (nonlinear_arith)
        requires
            0 <= h,
            0 <= w,
    ;
    assert forall|x: int, y: int|
        0 <= x < w && 0 <= y < h implies #[trigger] canvas_pixel(buf, w, x, y) == colour_pixel(DIM) by {
        lemma_background_pixel(w, h, x, y);
    }
}

proof fn lemma_background_pixel(w: u32, h: u32, x: int, y: int)
    requires
        0 <= x < w,
        0 <= y < h,
    ensures
        canvas_pixel(background(w, h), w, x, y) == colour_pixel(DIM),
{
    lemma_pixel_in_canvas(w as int, h as int, x, y);
    let p = y * w + x;
    assert((4 * p) % 4 == 0 && (4 * p + 1) % 4 == 1 && (4 * p + 2) % 4 == 2 && (4 * p + 3) % 4 == 3);
}

/// A canvas whose pixels are all background is the background.
proof fn lemma_all_background(buf: Seq<u8>, w: u32, h: u32)
    requires
        is_canvas(buf, w, h),
        forall|x: int, y: int|
            0 <= x < w && 0 <= y < h ==> #[trigger] canvas_pixel(buf, w, x, y) == colour_pixel(DIM),
    ensures
        buf == background(w, h),
{
    assert forall|b: int| 0 <= b < buf.len() implies #[trigger] buf[b] == colour_byte(DIM, b % 4) by {
        let p = b / 4;
        assert(w > 0) by {
            if w == 0 {
                assert(h * w == 0) by (nonlinear_arith)
                    requires
                        w == 0,
                ;
            }
        }
        let (x, y) = (p % (w as int), p / (w as int));
        vstd::arithmetic::div_mod::lemma_fundamental_div_mod(p, w as int);
        assert(p == y * w + x) by (nonlinear_arith)
            requires
                p == w * y + x,
        ;
        assert(0 <= x < w && 0 <= y < h) by (nonlinear_arith)
            requires
                w > 0,
                0 <= p < h * w,
                x == p % (w as int),
                y == p / (w as int),
        ;
        assert(canvas_pixel(buf, w, x, y) == colour_pixel(DIM));
    }
    assert(buf =~= background(w, h));
}

/// Repainting only what has changed is as good as repainting everything: if the canvas was clean
/// outside the boxes of what was drawn before, then it becomes what it would have become from a
/// bare background.
pub proof fn law_repaint_equals_full_repaint(
    buf: Seq<u8>,
    w: u32,
    h: u32,
    prev_sel: Option<BoundingBox>,
    prev_cursor: Option<BoundingBox>,
    selection: Option<Selection>,
    cursor: Option<(u32, u32)>,
)
    requires
        is_canvas(buf, w, h),
        box_on_canvas(w, prev_sel),
        box_on_canvas(w, prev_cursor),
        is_clean_outside(buf, w, h, prev_sel, prev_cursor),
    ensures
        repainted(buf, w, h, prev_sel, prev_cursor, selection, cursor) == repainted(
            background(w, h),
            w,
            h,
            None,
            None,
            selection,
            cursor,
        ),
{
    let first = repaired(buf, w, prev_sel);
    let second = repaired(first, w, prev_cursor);
    assert forall|x: int, y: int| 0 <= x < w && 0 <= y < h implies #[trigger] canvas_pixel(
        second,
        w,
        x,
        y,
    ) == colour_pixel(DIM) by {
        lemma_repaired_pixel(buf, w, h, prev_sel, x, y);
        lemma_repaired_pixel(first, w, h, prev_cursor, x, y);
        assert(in_box(prev_sel, x, y) || in_box(prev_cursor, x, y) || canvas_pixel(buf, w, x, y)
            == colour_pixel(DIM));
    }
    lemma_all_background(second, w, h);
}

/// A repaint leaves nothing behind: outside the boxes of what it draws, which lie on the canvas,
/// the canvas is clean again.
pub proof fn law_repaint_leaves_nothing_behind(
    buf: Seq<u8>,
    w: u32,
    h: u32,
    prev_sel: Option<BoundingBox>,
    prev_cursor: Option<BoundingBox>,
    selection: Option<Selection>,
    cursor: Option<(u32, u32)>,
)
    requires
        w > 0,
        h > 0,
        is_canvas(buf, w, h),
        box_on_canvas(w, prev_sel),
        box_on_canvas(w, prev_cursor),
        is_clean_outside(buf, w, h, prev_sel, prev_cursor),
        selection_in_reach(w, h, selection),
        cursor_in_reach(w, h, cursor),
    ensures
        ({
            let after = repainted(buf, w, h, prev_sel, prev_cursor, selection, cursor);
            let (sel, cur) = (selection_area(w, h, selection), cursor_area(w, h, cursor));
            &&& is_canvas(after, w, h)
            &&& box_on_canvas(w, sel)
            &&& box_on_canvas(w, cur)
            &&& is_clean_outside(after, w, h, sel, cur)
        }),
{
    law_repaint_equals_full_repaint(buf, w, h, prev_sel, prev_cursor, selection, cursor);
    let after = repainted(buf, w, h, prev_sel, prev_cursor, selection, cursor);
    let (sel, cur) = (selection_area(w, h, selection), cursor_area(w, h, cursor));
    let bare = background(w, h);
    assert forall|x: int, y: int|
        0 <= x < w && 0 <= y < h && !in_box(sel, x, y) && !in_box(cur, x, y) implies
        #[trigger] canvas_pixel(after, w, x, y) == colour_pixel(DIM) by {
        lemma_drawn_pixel_outside(bare, w, h, selection, cursor, x, y);
        lemma_background_pixel(w, h, x, y);
    }
}

} // verus!
