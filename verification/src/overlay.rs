//! The overlay on which the region is selected: a canvas of ARGB8888 pixels, four bytes each,
//! blue first. The canvas is dim, the selection is cut out of it, and the cursor is a crosshair.

use vstd::prelude::*;

verus! {

/// A box of pixels: left, top, right, bottom. The right and bottom edges belong to it.
pub type BoundingBox = (u32, u32, u32, u32);

/// The two corners between which the pointer was dragged.
pub type Selection = (i32, i32, i32, i32);

/// Black at 53 percent opacity, the background.
pub const DIM: u32 = 0x88000000;

/// Fully transparent, the selection.
pub const CLEAR: u32 = 0x00000000;

/// Opaque white, the border of the selection and the crosshair.
pub const WHITE: u32 = 0xFFFFFFFF;

/// How far the border reaches out from the selection.
pub const BORDER: u32 = 2;

/// How far the box that is repaired after a selection reaches out from it.
pub const REPAIR_BORDER: u32 = 3;

/// Half the length of the crosshair.
pub const CROSSHAIR_ARM: u32 = 14;

/// Where an arm of the crosshair begins, measured from the centre.
pub const CROSSHAIR_GAP: u32 = 4;

// Filling

/// Byte `i` of a colour in memory.
pub open spec fn colour_byte(colour: u32, i: int) -> u8 {
    if i == 0 {
        (colour % 256) as u8
    } else if i == 1 {
        (colour / 256 % 256) as u8
    } else if i == 2 {
        (colour / 65536 % 256) as u8
    } else {
        (colour / 16777216) as u8
    }
}

/// The columns `x1` to `x2` of row `y` lie in a buffer of `len` bytes, and the pixel with the
/// index `p` is one of them.
pub open spec fn row_covers(w: int, x1: int, x2: int, len: int, y: int, p: int) -> bool {
    &&& y * w + x1 <= p <= y * w + x2
    &&& 4 * (y * w + x2 + 1) <= len
}

/// One of the rows `y1` to `y2` covers the pixel with the index `p`.
pub open spec fn covers(w: int, x1: int, y1: int, x2: int, y2: int, len: int, p: int) -> bool {
    exists|y: int| y1 <= y <= y2 && #[trigger] row_covers(w, x1, x2, len, y, p)
}

/// The bytes after a rectangle was filled. A row that does not end inside the buffer is left out.
pub open spec fn filled(
    buf: Seq<u8>,
    w: u32,
    x1: int,
    y1: int,
    x2: int,
    y2: int,
    colour: u32,
) -> Seq<u8> {
    Seq::new(
        buf.len(),
        |b: int|
            if covers(w as int, x1, y1, x2, y2, buf.len() as int, b / 4) {
                colour_byte(colour, b % 4)
            } else {
                buf[b]
            },
    )
}

/// Fills the bytes `start..end` with a colour.
fn fill_span(pixels: &mut [u8], start: usize, end: usize, colour: u32)
    requires
        start % 4 == 0,
        start <= end <= old(pixels)@.len(),
    ensures
        final(pixels)@ == Seq::new(
            old(pixels)@.len(),
            |b: int|
                if start <= b < end {
                    colour_byte(colour, b % 4)
                } else {
                    old(pixels)@[b]
                },
        ),
{
    let ghost before = pixels@;
    let mut b: usize = start;
    while b < end
        invariant
            start <= b <= end <= before.len(),
            pixels@.len() == before.len(),
            forall|i: int| start <= i < b ==> #[trigger] pixels@[i] == colour_byte(colour, i % 4),
            forall|i: int| 0 <= i < start ==> #[trigger] pixels@[i] == before[i],
            forall|i: int| b <= i < before.len() ==> #[trigger] pixels@[i] == before[i],
        decreases end - b,
    {
        let byte: u8 = match b % 4 {
            0 => (colour % 256) as u8,
            1 => (colour / 256 % 256) as u8,
            2 => (colour / 65536 % 256) as u8,
            _ => (colour / 16777216) as u8,
        };
        pixels[b] = byte;
        b = b + 1;
    }
    assert(pixels@ =~= Seq::new(
        before.len(),
        |b: int|
            if start <= b < end {
                colour_byte(colour, b % 4)
            } else {
                before[b]
            },
    ));
}

/// As many bytes of the background.
pub open spec fn background_bytes(len: nat) -> Seq<u8> {
    Seq::new(len, |b: int| colour_byte(DIM, b % 4))
}

/// Fills the whole canvas with the background.
pub fn fill_background(pixels: &mut [u8])
    ensures
        final(pixels)@ == background_bytes(old(pixels)@.len()),
        final(pixels)@ == Seq::new(old(pixels)@.len(), |b: int| colour_byte(DIM, b % 4)),
{
    let len: usize = pixels.len();
    fill_span(pixels, 0, len, DIM);
    assert(pixels@ =~= Seq::new(old(pixels)@.len(), |b: int| colour_byte(DIM, b % 4)));
    assert(pixels@ =~= background_bytes(old(pixels)@.len()));
}

/// One more row adds what it covers.
proof fn lemma_fill_one_more_row(
    buf: Seq<u8>,
    w: u32,
    x1: int,
    y1: int,
    x2: int,
    y: int,
    colour: u32,
    after: Seq<u8>,
)
    requires
        y1 <= y,
        4 * (y * w + x2 + 1) <= buf.len(),
        after.len() == buf.len(),
        forall|b: int|
            0 <= b < buf.len() ==> #[trigger] after[b] == if 4 * (y * w + x1) <= b < 4 * (y * w + x2
                + 1) {
                colour_byte(colour, b % 4)
            } else {
                filled(buf, w, x1, y1, x2, y - 1, colour)[b]
            },
    ensures
        after == filled(buf, w, x1, y1, x2, y, colour),
{
    let len = buf.len() as int;
    assert forall|b: int| 0 <= b < len implies #[trigger] after[b] == filled(
        buf,
        w,
        x1,
        y1,
        x2,
        y,
        colour,
    )[b] by {
        let p = b / 4;
        if row_covers(w as int, x1, x2, len, y, p) {
            assert(covers(w as int, x1, y1, x2, y, len, p));
        } else if covers(w as int, x1, y1, x2, y, len, p) {
            let k = choose|k: int| y1 <= k <= y && #[trigger] row_covers(w as int, x1, x2, len, k, p);
            assert(row_covers(w as int, x1, x2, len, k, p));
            assert(covers(w as int, x1, y1, x2, y - 1, len, p));
        } else if covers(w as int, x1, y1, x2, y - 1, len, p) {
            let k = choose|k: int|
                y1 <= k <= y - 1 && #[trigger] row_covers(w as int, x1, x2, len, k, p);
            assert(row_covers(w as int, x1, x2, len, k, p));
        }
    }
    assert(after =~= filled(buf, w, x1, y1, x2, y, colour));
}

/// Once a row does not fit into the buffer, no later row does.
proof fn lemma_fill_ends(buf: Seq<u8>, w: u32, x1: int, y1: int, x2: int, y: int, y2: int, colour: u32)
    requires
        y <= y2 ==> 4 * (y * w + x2 + 1) > buf.len(),
        y - 1 <= y2,
    ensures
        filled(buf, w, x1, y1, x2, y - 1, colour) == filled(buf, w, x1, y1, x2, y2, colour),
{
    let len = buf.len() as int;
    assert forall|p: int|
        covers(w as int, x1, y1, x2, y - 1, len, p) == covers(w as int, x1, y1, x2, y2, len, p) by {
        if covers(w as int, x1, y1, x2, y2, len, p) {
            let k = choose|k: int| y1 <= k <= y2 && #[trigger] row_covers(w as int, x1, x2, len, k, p);
            if k >= y {
                assert(k * w >= y * w) by (nonlinear_arith)
                    requires
                        k >= y,
                        w >= 0,
                ;
            }
            assert(row_covers(w as int, x1, x2, len, k, p));
        }
        if covers(w as int, x1, y1, x2, y - 1, len, p) {
            let k = choose|k: int|
                y1 <= k <= y - 1 && #[trigger] row_covers(w as int, x1, x2, len, k, p);
            assert(row_covers(w as int, x1, x2, len, k, p));
        }
    }
    assert(filled(buf, w, x1, y1, x2, y - 1, colour) =~= filled(buf, w, x1, y1, x2, y2, colour));
}

/// Fills the columns `x1` to `x2` of the rows `y1` to `y2` of a canvas that is `w` pixels wide.
pub fn fill_rect(pixels: &mut [u8], w: u32, x1: u32, y1: u32, x2: u32, y2: u32, colour: u32)
    ensures
        final(pixels)@ == filled(
            old(pixels)@,
            w,
            x1 as int,
            y1 as int,
            x2 as int,
            y2 as int,
            colour,
        ),
{
    let ghost before = pixels@;
    let len: u128 = pixels.len() as u128;
    if y1 > y2 {
        assert(before =~= filled(before, w, x1 as int, y1 as int, x2 as int, y2 as int, colour));
        return;
    }
    let mut y: u64 = y1 as u64;
    assert(before =~= filled(before, w, x1 as int, y1 as int, x2 as int, y1 - 1, colour));
    while y <= y2 as u64
        invariant
            len == before.len() == pixels@.len(),
            len <= usize::MAX,
            y1 <= y <= y2 + 1,
            pixels@ == filled(before, w, x1 as int, y1 as int, x2 as int, y - 1, colour),
        ensures
            pixels@ == filled(before, w, x1 as int, y1 as int, x2 as int, y2 as int, colour),
        decreases y2 + 1 - y,
    {
        assert(0 <= y * w <= u32::MAX * u32::MAX) by (nonlinear_arith)
            requires
                0 <= y <= u32::MAX,
                0 <= w <= u32::MAX,
        ;
        let row: u128 = y as u128 * w as u128;
        let end: u128 = (row + x2 as u128 + 1) * 4;
        if end > len {
            proof {
                lemma_fill_ends(before, w, x1 as int, y1 as int, x2 as int, y as int, y2 as int, colour);
            }
            break;
        }
        if x1 <= x2 {
            fill_span(pixels, ((row + x1 as u128) * 4) as usize, end as usize, colour);
        }
        proof {
            lemma_fill_one_more_row(
                before,
                w,
                x1 as int,
                y1 as int,
                x2 as int,
                y as int,
                colour,
                pixels@,
            );
        }
        y = y + 1;
    }
}

// Drawing

/// `a - b`, but not less than zero.
pub open spec fn less(a: int, b: int) -> int {
    if a >= b {
        a - b
    } else {
        0
    }
}

/// The smaller of two numbers.
pub open spec fn lower(a: int, b: int) -> int {
    if a <= b {
        a
    } else {
        b
    }
}

/// The larger of two numbers.
pub open spec fn upper(a: int, b: int) -> int {
    if a >= b {
        a
    } else {
        b
    }
}

/// The near edge of a drag from `a` to `b`, where it is on the canvas.
pub open spec fn near_edge(a: i32, b: i32) -> int {
    upper(lower(a as int, b as int), 0)
}

/// The far edge of a drag from `a` to `b`, as an unsigned number: one that lies in front of the
/// canvas is larger than any other.
pub open spec fn far_edge(a: i32, b: i32) -> int {
    let far = upper(a as int, b as int);
    if far < 0 {
        far + 0x1_0000_0000
    } else {
        far
    }
}

/// The part of a selection that is cut out of the canvas.
pub open spec fn cutout(w: u32, h: u32, sel: Selection) -> (int, int, int, int) {
    (
        near_edge(sel.0, sel.2),
        near_edge(sel.1, sel.3),
        lower(far_edge(sel.0, sel.2), less(w as int, 1)),
        lower(far_edge(sel.1, sel.3), less(h as int, 1)),
    )
}

/// The outline of a selection: its cutout and the border around it, as far as there is room.
pub open spec fn outline(w: u32, h: u32, sel: Selection) -> (int, int, int, int) {
    let (x1, y1, x2, y2) = cutout(w, h, sel);
    (
        less(x1, BORDER as int),
        less(y1, BORDER as int),
        lower(x2 + BORDER, w - 1),
        lower(y2 + BORDER, h - 1),
    )
}

/// The bytes after a selection was drawn: a transparent cutout, then the top, bottom, left and
/// right edges of its outline, two pixels thick.
pub open spec fn selection_drawn(buf: Seq<u8>, w: u32, h: u32, sel: Selection) -> Seq<u8> {
    let (x1, y1, x2, y2) = cutout(w, h, sel);
    let (l, t, r, b) = outline(w, h, sel);
    let buf = filled(buf, w, x1, y1, x2, y2, CLEAR);
    let buf = filled(buf, w, l, t, r, t + 1, WHITE);
    let buf = filled(buf, w, l, b - 1, r, b, WHITE);
    let buf = filled(buf, w, l, t + 2, l + 1, b - 2, WHITE);
    filled(buf, w, r - 1, t + 2, r, b - 2, WHITE)
}

/// The box that a crosshair lies in.
pub open spec fn crosshair_box(cx: u32, cy: u32, w: u32, h: u32) -> (int, int, int, int) {
    (
        less(cx as int, CROSSHAIR_ARM as int),
        less(cy as int, CROSSHAIR_ARM as int),
        lower(cx + CROSSHAIR_ARM, less(w as int, 1)),
        lower(cy + CROSSHAIR_ARM, less(h as int, 1)),
    )
}

/// The bytes after a crosshair was drawn: its left, right, upper and lower arms, three pixels
/// thick, with a gap around the centre. Arms end at the edge of the canvas, so that within three
/// pixels of an edge the arm towards it paints into the gap.
pub open spec fn crosshair_drawn(buf: Seq<u8>, w: u32, h: u32, cx: u32, cy: u32) -> Seq<u8> {
    let (l, t, r, b) = crosshair_box(cx, cy, w, h);
    let (right, bottom) = (less(w as int, 1), less(h as int, 1));
    let gap = CROSSHAIR_GAP as int;
    let (x0, x1) = (less(cx as int, 1), lower(cx + 1, right));
    let (y0, y1) = (less(cy as int, 1), lower(cy + 1, bottom));
    let buf = filled(buf, w, l, y0, less(cx as int, gap), y1, WHITE);
    let buf = filled(buf, w, lower(cx + gap, right), y0, r, y1, WHITE);
    let buf = filled(buf, w, x0, t, x1, less(cy as int, gap), WHITE);
    filled(buf, w, x0, lower(cy + gap, bottom), x1, b, WHITE)
}

fn sat_sub(a: u32, b: u32) -> (r: u32)
    ensures
        r == less(a as int, b as int),
{
    if a >= b {
        a - b
    } else {
        0
    }
}

/// `a + b`, but not more than `limit`.
fn add_up_to(a: u32, b: u32, limit: u32) -> (r: u32)
    ensures
        r == lower(a + b, limit as int),
{
    if a as u64 + b as u64 <= limit as u64 {
        a + b
    } else {
        limit
    }
}

fn near(a: i32, b: i32) -> (r: u32)
    ensures
        r == near_edge(a, b),
        r <= i32::MAX,
{
    let low: i32 = if a <= b {
        a
    } else {
        b
    };
    if low >= 0 {
        low as u32
    } else {
        0
    }
}

fn far(a: i32, b: i32) -> (r: u32)
    ensures
        r == far_edge(a, b),
{
    let high: i32 = if a >= b {
        a
    } else {
        b
    };
    if high >= 0 {
        high as u32
    } else {
        (high as i64 + 0x1_0000_0000) as u32
    }
}

/// Draws a selection: a transparent interior in a white border, two pixels thick.
pub fn draw_selection(pixels: &mut [u8], w: u32, h: u32, ax: i32, ay: i32, bx: i32, by: i32)
    requires
        w >= 3,
        h >= 3,
    ensures
        final(pixels)@ == selection_drawn(old(pixels)@, w, h, (ax, ay, bx, by)),
{
    let x1 = near(ax, bx);
    let y1 = near(ay, by);
    let x2 = add_up_to(far(ax, bx), 0, w - 1);
    let y2 = add_up_to(far(ay, by), 0, h - 1);
    fill_rect(pixels, w, x1, y1, x2, y2, CLEAR);

    let bx1 = sat_sub(x1, BORDER);
    let by1 = sat_sub(y1, BORDER);
    let bx2 = add_up_to(x2, BORDER, w - 1);
    let by2 = add_up_to(y2, BORDER, h - 1);
    fill_rect(pixels, w, bx1, by1, bx2, by1 + 1, WHITE);
    fill_rect(pixels, w, bx1, by2 - 1, bx2, by2, WHITE);
    fill_rect(pixels, w, bx1, by1 + 2, bx1 + 1, by2 - 2, WHITE);
    fill_rect(pixels, w, bx2 - 1, by1 + 2, bx2, by2 - 2, WHITE);
}

/// Draws a crosshair at `(cx, cy)` in white.
pub fn draw_crosshair(pixels: &mut [u8], w: u32, h: u32, cx: u32, cy: u32)
    requires
        cx + CROSSHAIR_ARM <= u32::MAX,
        cy + CROSSHAIR_ARM <= u32::MAX,
    ensures
        final(pixels)@ == crosshair_drawn(old(pixels)@, w, h, cx, cy),
{
    let right = sat_sub(w, 1);
    let bottom = sat_sub(h, 1);
    let y0 = sat_sub(cy, 1);
    let y1 = add_up_to(cy, 1, bottom);
    let x0 = sat_sub(cx, 1);
    let x1 = add_up_to(cx, 1, right);
    let (l, t, r, b) = crosshair_bbox(cx, cy, w, h);
    fill_rect(pixels, w, l, y0, sat_sub(cx, CROSSHAIR_GAP), y1, WHITE);
    fill_rect(pixels, w, add_up_to(cx, CROSSHAIR_GAP, right), y0, r, y1, WHITE);
    fill_rect(pixels, w, x0, t, x1, sat_sub(cy, CROSSHAIR_GAP), WHITE);
    fill_rect(pixels, w, x0, add_up_to(cy, CROSSHAIR_GAP, bottom), x1, b, WHITE);
}

/// The box that a crosshair lies in, which is repaired when the crosshair moves on.
pub fn crosshair_bbox(cx: u32, cy: u32, w: u32, h: u32) -> (r: BoundingBox)
    requires
        cx + CROSSHAIR_ARM <= u32::MAX,
        cy + CROSSHAIR_ARM <= u32::MAX,
    ensures
        (r.0 as int, r.1 as int, r.2 as int, r.3 as int) == crosshair_box(cx, cy, w, h),
{
    (
        sat_sub(cx, CROSSHAIR_ARM),
        sat_sub(cy, CROSSHAIR_ARM),
        add_up_to(cx, CROSSHAIR_ARM, sat_sub(w, 1)),
        add_up_to(cy, CROSSHAIR_ARM, sat_sub(h, 1)),
    )
}

// Repainting

/// The part of the surface that has to be shown anew.
#[derive(Clone, Copy, Debug, PartialEq, Eq, Structural)]
pub struct Damage {
    pub x: i64,
    pub y: i64,
    pub width: i64,
    pub height: i64,
}

/// What a repaint drew and what the surface has to show anew.
#[derive(Clone, Copy, Debug, PartialEq, Eq)]
pub struct Repaint {
    /// The box around the selection, where there is one.
    pub selection: Option<BoundingBox>,
    /// The box around the crosshair, where there is one.
    pub crosshair: Option<BoundingBox>,
    pub damage: Damage,
}

/// The box that is repaired after a selection: it and a border of three pixels.
pub open spec fn selection_box(w: u32, h: u32, sel: Selection) -> BoundingBox {
    (
        less(near_edge(sel.0, sel.2), REPAIR_BORDER as int) as u32,
        less(near_edge(sel.1, sel.3), REPAIR_BORDER as int) as u32,
        lower(far_edge(sel.0, sel.2) + REPAIR_BORDER, w - 1) as u32,
        lower(far_edge(sel.1, sel.3) + REPAIR_BORDER, h - 1) as u32,
    )
}

/// The box around a crosshair.
pub open spec fn cursor_box(w: u32, h: u32, cursor: (u32, u32)) -> BoundingBox {
    let (l, t, r, b) = crosshair_box(cursor.0, cursor.1, w, h);
    (l as u32, t as u32, r as u32, b as u32)
}

/// The bytes after a box was painted over with the background.
pub open spec fn repaired(buf: Seq<u8>, w: u32, area: Option<BoundingBox>) -> Seq<u8> {
    match area {
        Some(b) => filled(buf, w, b.0 as int, b.1 as int, b.2 as int, b.3 as int, DIM),
        None => buf,
    }
}

/// The bytes after a repaint: what was drawn before is painted over with the background, then the
/// selection is drawn, and the crosshair on top.
pub open spec fn repainted(
    buf: Seq<u8>,
    w: u32,
    h: u32,
    prev_sel: Option<BoundingBox>,
    prev_cursor: Option<BoundingBox>,
    selection: Option<Selection>,
    cursor: Option<(u32, u32)>,
) -> Seq<u8> {
    let buf = repaired(repaired(buf, w, prev_sel), w, prev_cursor);
    let buf = match selection {
        Some(sel) => selection_drawn(buf, w, h, sel),
        None => buf,
    };
    match cursor {
        Some(c) => crosshair_drawn(buf, w, h, c.0, c.1),
        None => buf,
    }
}

/// The box around two boxes.
pub open spec fn joined_box(a: Option<BoundingBox>, b: Option<BoundingBox>) -> Option<BoundingBox> {
    match (a, b) {
        (Some(p), Some(q)) => Some(
            (
                if p.0 <= q.0 { p.0 } else { q.0 },
                if p.1 <= q.1 { p.1 } else { q.1 },
                if p.2 >= q.2 { p.2 } else { q.2 },
                if p.3 >= q.3 { p.3 } else { q.3 },
            ),
        ),
        (Some(_), None) => a,
        (None, _) => b,
    }
}

/// The damage that a box amounts to; without one it is the whole canvas.
pub open spec fn damage_of(w: u32, h: u32, area: Option<BoundingBox>) -> Damage {
    match area {
        Some(b) => Damage {
            x: b.0 as i64,
            y: b.1 as i64,
            width: (b.2 - b.0 + 1) as i64,
            height: (b.3 - b.1 + 1) as i64,
        },
        None => Damage { x: 0, y: 0, width: w as i64, height: h as i64 },
    }
}

fn join_boxes(a: Option<BoundingBox>, b: Option<BoundingBox>) -> (r: Option<BoundingBox>)
    ensures
        r == joined_box(a, b),
{
    match (a, b) {
        (Some(p), Some(q)) => Some(
            (
                if p.0 <= q.0 { p.0 } else { q.0 },
                if p.1 <= q.1 { p.1 } else { q.1 },
                if p.2 >= q.2 { p.2 } else { q.2 },
                if p.3 >= q.3 { p.3 } else { q.3 },
            ),
        ),
        (Some(_), None) => a,
        (None, _) => b,
    }
}

/// Repaints the canvas: paints over what was drawn before, draws the selection and the crosshair,
/// and adds up the boxes of all of them.
pub fn repaint(
    pixels: &mut [u8],
    w: u32,
    h: u32,
    prev_sel: Option<BoundingBox>,
    prev_cursor: Option<BoundingBox>,
    selection: Option<Selection>,
    cursor: Option<(u32, u32)>,
) -> (r: Repaint)
    requires
        w > 0,
        h > 0,
        selection is Some ==> w >= 3 && h >= 3,
        cursor matches Some(c) ==> c.0 + CROSSHAIR_ARM <= u32::MAX && c.1 + CROSSHAIR_ARM <= u32::MAX,
    ensures
        final(pixels)@ == repainted(
            old(pixels)@,
            w,
            h,
            prev_sel,
            prev_cursor,
            selection,
            cursor,
        ),
        r.selection == match selection {
            Some(sel) => Some(selection_box(w, h, sel)),
            None => None,
        },
        r.crosshair == match cursor {
            Some(c) => Some(cursor_box(w, h, c)),
            None => None,
        },
        r.damage == damage_of(
            w,
            h,
            joined_box(joined_box(joined_box(prev_sel, r.selection), prev_cursor), r.crosshair),
        ),
{
    if let Some((x1, y1, x2, y2)) = prev_sel {
        fill_rect(pixels, w, x1, y1, x2, y2, DIM);
    }
    if let Some((x1, y1, x2, y2)) = prev_cursor {
        fill_rect(pixels, w, x1, y1, x2, y2, DIM);
    }
    let cur_sel: Option<BoundingBox> = match selection {
        Some((ax, ay, bx, by)) => {
            draw_selection(pixels, w, h, ax, ay, bx, by);
            Some(
                (
                    sat_sub(near(ax, bx), REPAIR_BORDER),
                    sat_sub(near(ay, by), REPAIR_BORDER),
                    add_up_to(far(ax, bx), REPAIR_BORDER, w - 1),
                    add_up_to(far(ay, by), REPAIR_BORDER, h - 1),
                ),
            )
        },
        None => None,
    };
    let cur_cursor: Option<BoundingBox> = match cursor {
        Some((cx, cy)) => {
            draw_crosshair(pixels, w, h, cx, cy);
            Some(crosshair_bbox(cx, cy, w, h))
        },
        None => None,
    };
    let area = join_boxes(join_boxes(join_boxes(prev_sel, cur_sel), prev_cursor), cur_cursor);
    let damage = match area {
        Some((x1, y1, x2, y2)) => Damage {
            x: x1 as i64,
            y: y1 as i64,
            width: x2 as i64 - x1 as i64 + 1,
            height: y2 as i64 - y1 as i64 + 1,
        },
        None => Damage { x: 0, y: 0, width: w as i64, height: h as i64 },
    };
    Repaint { selection: cur_sel, crosshair: cur_cursor, damage }
}

} // verus!
