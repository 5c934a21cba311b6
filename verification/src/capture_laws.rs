//! What holds of captured frames and of the capture loop, said over bytes, pixels and the frames
//! that come in.

use vstd::prelude::*;
use crate::capture_loop::{action, capture_run, CaptureAction, CapturePhase};
use crate::capture_state::{
    half_extent, scroll_ticks, unsigned_coordinate, BufferAction, CaptureError, CaptureGlobal,
    CaptureState, FrameInfo, PointerRequest,
};
use crate::Rect;
use crate::frame::{frame_rows, frame_width, Frame, Rgba8};
use crate::screencopy::{
    captured_pixel, captured_rows, decode_pixel, frame_difference, sampled_total, samples, unchanged,
};
use crate::scroll_laws::{
    alike, law_no_pixel_differs_by_more_than_its_row,
    law_sampled_distance_counts_every_fourth_pixel, lemma_row_distance_of_alike_rows,
};
use crate::stitch::{common_width, lemma_row_distance_nonnegative, pixel_distance, sampled_sad};

verus! {

// Conversion

/// Reading a pixel gives back what was written: with blue first in formats 0 and 1 and with red
/// first in all others, and with alpha in formats 0 and `0x34324241` only.
pub proof fn law_pixels_are_read_as_they_were_written(format: u32, r: u8, g: u8, b: u8, a: u8)
    ensures
        decode_pixel(0, b, g, r, a) == (r, g, b, a),
        decode_pixel(1, b, g, r, a) == (r, g, b, 255u8),
        decode_pixel(0x34324241, r, g, b, a) == (r, g, b, a),
        format != 0 && format != 1 && format != 0x34324241 ==> decode_pixel(format, r, g, b, a) == (
            r,
            g,
            b,
            255u8,
        ),
{
}

/// Each captured pixel is read from its own four bytes: a row begins `stride` bytes behind the one
/// before, a pixel four bytes behind the one before. What the data does not hold is transparent.
pub proof fn law_pixels_have_four_bytes_each(
    data: Seq<u8>,
    w: nat,
    h: nat,
    stride: u32,
    format: u32,
    x: int,
    y: int,
    at: int,
)
    requires
        0 <= x < w,
        0 <= y < h,
        at == 4 * x + stride * y,
    ensures
        ({
            let rows = captured_rows(data, w, h, stride, format);
            &&& rows.len() == h
            &&& rows[y].len() == w
            &&& at + 3 < data.len() ==> rows[y][x] == decode_pixel(
                format,
                data[at],
                data[at + 1],
                data[at + 2],
                data[at + 3],
            )
            &&& at + 3 >= data.len() ==> rows[y][x] == (0u8, 0u8, 0u8, 0u8)
        }),
{
    assert(stride * y == y * stride) by (nonlinear_arith);
    assert(captured_rows(data, w, h, stride, format)[y][x] == captured_pixel(
        data,
        stride,
        format,
        x,
        y,
    ));
}

// Comparison

/// Every fourth row is summed up.
proof fn lemma_total_of_a_row(a: Frame, b: Frame, n: int, y: int)
    requires
        0 <= y < n,
        y % 4 == 0,
    ensures
        sampled_total(a, b, n) >= sampled_sad(a, y, b, y),
    decreases n,
{
    lemma_total_is_not_negative(a, b, n - 1);
    if y < n - 1 {
        lemma_total_of_a_row(a, b, n - 1, y);
        lemma_row_distance_nonnegative(
            frame_rows(a)[n - 1],
            frame_rows(b)[n - 1],
            4,
            common_width(a, b),
        );
    }
}

proof fn lemma_total_is_not_negative(a: Frame, b: Frame, n: int)
    ensures
        sampled_total(a, b, n) >= 0,
    decreases n,
{
    if n > 0 {
        lemma_total_is_not_negative(a, b, n - 1);
        lemma_row_distance_nonnegative(
            frame_rows(a)[n - 1],
            frame_rows(b)[n - 1],
            4,
            common_width(a, b),
        );
    }
}

/// Frames differ by at least as much as any of their rows that is looked at, every fourth from the
/// first one down to the last, and as any pixel that is looked at, every fourth of such a row.
pub proof fn law_no_row_differs_by_more_than_its_frame(a: Frame, b: Frame, x: int, y: int)
    requires
        frame_width(a) == frame_width(b),
        frame_rows(a).len() == frame_rows(b).len(),
        0 <= x < frame_width(a),
        0 <= y < frame_rows(a).len(),
        x % 4 == 0,
        y % 4 == 0,
    ensures
        frame_difference(a, b).0 >= sampled_sad(a, y, b, y),
        frame_difference(a, b).0 >= pixel_distance(frame_rows(a)[y][x], frame_rows(b)[y][x]),
{
    lemma_total_of_a_row(a, b, frame_rows(a).len() as int, y);
    law_no_pixel_differs_by_more_than_its_row(a, y, b, y, x);
}

/// A changed pixel changes the total by as much as it comes closer or moves away, if it is one of
/// those that are looked at.
proof fn lemma_total_of_a_changed_pixel(
    a: Frame,
    changed: Frame,
    b: Frame,
    n: int,
    x: int,
    y: int,
    p: Rgba8,
)
    requires
        frame_width(a) == frame_width(b) == frame_width(changed),
        0 <= x < frame_width(a),
        0 <= y < frame_rows(a).len(),
        n <= frame_rows(a).len(),
        frame_rows(a)[y].len() == frame_width(a),
        frame_rows(changed) == frame_rows(a).update(y, frame_rows(a)[y].update(x, p)),
    ensures
        sampled_total(changed, b, n) - sampled_total(a, b, n) == if y < n && x % 4 == 0 && y % 4
            == 0 {
            pixel_distance(p, frame_rows(b)[y][x]) - pixel_distance(
                frame_rows(a)[y][x],
                frame_rows(b)[y][x],
            )
        } else {
            0
        },
    decreases n,
{
    if n > 0 {
        lemma_total_of_a_changed_pixel(a, changed, b, n - 1, x, y, p);
        if n - 1 == y {
            law_sampled_distance_counts_every_fourth_pixel(a, changed, y, b, y, x, p);
        } else {
            assert(frame_rows(changed)[n - 1] == frame_rows(a)[n - 1]);
        }
    }
}

/// Two frames of one size differ by as much as their pixels in every fourth column of every fourth
/// row, and by nothing else: where a pixel is replaced, the difference changes by as much as that
/// pixel comes closer or moves away, or not at all.
pub proof fn law_difference_counts_every_fourth_pixel_both_ways(
    a: Frame,
    changed: Frame,
    b: Frame,
    x: int,
    y: int,
    p: Rgba8,
)
    requires
        frame_width(a) == frame_width(b) == frame_width(changed),
        frame_rows(a).len() == frame_rows(b).len(),
        0 <= x < frame_width(a),
        0 <= y < frame_rows(a).len(),
        frame_rows(a)[y].len() == frame_width(a),
        frame_rows(changed) == frame_rows(a).update(y, frame_rows(a)[y].update(x, p)),
    ensures
        frame_difference(changed, b).1 == frame_difference(a, b).1,
        frame_difference(changed, b).0 - frame_difference(a, b).0 == if x % 4 == 0 && y % 4 == 0 {
            pixel_distance(p, frame_rows(b)[y][x]) - pixel_distance(
                frame_rows(a)[y][x],
                frame_rows(b)[y][x],
            )
        } else {
            0
        },
{
    lemma_total_of_a_changed_pixel(a, changed, b, frame_rows(a).len() as int, x, y, p);
}

/// Where nothing differs in the sampled rows the total is nothing.
proof fn lemma_total_of_alike_frames(a: Frame, b: Frame, n: int)
    requires
        frame_width(a) == frame_width(b),
        forall|x: int, y: int|
            0 <= x < frame_width(a) && 0 <= y < n && x % 4 == 0 && y % 4 == 0 ==> alike(
                #[trigger] frame_rows(a)[y][x],
                frame_rows(b)[y][x],
            ),
    ensures
        sampled_total(a, b, n) == 0,
    decreases n,
{
    if n > 0 {
        lemma_total_of_alike_frames(a, b, n - 1);
        lemma_row_distance_of_alike_rows(
            frame_rows(a)[n - 1],
            frame_rows(b)[n - 1],
            4,
            frame_width(a) as int,
        );
    }
}

/// Frames of one size do not differ exactly if all pixels in every fourth column of every fourth
/// row have the same colours.
pub proof fn law_only_alike_frames_do_not_differ(a: Frame, b: Frame)
    requires
        frame_width(a) == frame_width(b),
        frame_rows(a).len() == frame_rows(b).len(),
    ensures
        frame_difference(a, b).0 == 0 <==> forall|x: int, y: int|
            0 <= x < frame_width(a) && 0 <= y < frame_rows(a).len() && x % 4 == 0 && y % 4 == 0
                ==> alike(#[trigger] frame_rows(a)[y][x], frame_rows(b)[y][x]),
{
    if frame_difference(a, b).0 == 0 {
        assert forall|x: int, y: int|
            0 <= x < frame_width(a) && 0 <= y < frame_rows(a).len() && x % 4 == 0 && y % 4
                == 0 implies alike(#[trigger] frame_rows(a)[y][x], frame_rows(b)[y][x]) by {
            law_no_row_differs_by_more_than_its_frame(a, b, x, y);
        }
    }
    if forall|x: int, y: int|
        0 <= x < frame_width(a) && 0 <= y < frame_rows(a).len() && x % 4 == 0 && y % 4 == 0
            ==> alike(#[trigger] frame_rows(a)[y][x], frame_rows(b)[y][x]) {
        lemma_total_of_alike_frames(a, b, frame_rows(a).len() as int);
    }
}

/// The difference is an average over three colours of every fourth pixel both ways: of as many
/// columns and rows as the frame has, divided by four and rounded up. Frames of different size
/// differ by 255 on average, frames without pixels by nothing.
pub proof fn law_difference_is_an_average(a: Frame, b: Frame, columns: int, rows: int)
    requires
        4 * columns - 4 < frame_width(a) <= 4 * columns,
        4 * rows - 4 < frame_rows(a).len() <= 4 * rows,
    ensures
        frame_width(a) != frame_width(b) || frame_rows(a).len() != frame_rows(b).len() ==> {
            &&& frame_difference(a, b).1 > 0
            &&& frame_difference(a, b).0 == 255 * frame_difference(a, b).1
        },
        frame_width(a) == frame_width(b) && frame_rows(a).len() == frame_rows(b).len() && columns > 0
            && rows > 0 ==> frame_difference(a, b).1 == columns * rows * 3,
        frame_width(a) == frame_width(b) && frame_rows(a).len() == frame_rows(b).len() && (columns
            == 0 || rows == 0) ==> frame_difference(a, b).0 == 0 && frame_difference(a, b).1 > 0,
{
    assert(samples(frame_width(a) as int) == columns);
    assert(samples(frame_rows(a).len() as int) == rows);
    assert(3 * (columns * rows) == columns * rows * 3) by (nonlinear_arith);
}

/// Two frames are taken to show the same exactly if they differ by less than one and a half on
/// average.
pub proof fn law_less_than_one_and_a_half_is_unchanged(a: Frame, b: Frame)
    ensures
        unchanged(a, b) <==> 10 * frame_difference(a, b).0 < 15 * frame_difference(a, b).1,
{
}

// The capture loop

/// What the loop wants after it has taken some frames.
pub open spec fn wanted(captured: Seq<Frame>) -> CaptureAction {
    action(capture_run(captured).0, capture_run(captured).1.len())
}

/// The frames that the loop has kept after it has taken some.
pub open spec fn kept(captured: Seq<Frame>) -> Seq<Frame> {
    capture_run(captured).1
}

/// Each frame but the first shows something else than the one before it.
pub open spec fn keeps_changing(captured: Seq<Frame>) -> bool {
    forall|i: int| 0 < i < captured.len() ==> !unchanged(#[trigger] captured[i - 1], captured[i])
}

/// The last of some frames and those before it.
proof fn lemma_one_more(captured: Seq<Frame>, f: Frame)
    ensures
        captured.push(f).drop_last() == captured,
        captured.push(f).last() == f,
{
    assert(captured.push(f).drop_last() =~= captured);
}

/// While the first frame is loading the phase counts the attempts.
proof fn lemma_loading(captured: Seq<Frame>)
    requires
        1 <= captured.len() <= 10,
        keeps_changing(captured),
    ensures
        capture_run(captured).0 == (CapturePhase::Stabilizing {
            attempt: (captured.len() - 1) as usize,
        }),
        kept(captured) == seq![captured.last()],
    decreases captured.len(),
{
    let before = captured.drop_last();
    if captured.len() == 1 {
        assert(before =~= Seq::empty());
        assert(kept(captured) =~= seq![captured.last()]);
    } else {
        assert forall|i: int| 0 < i < before.len() implies !unchanged(
            #[trigger] before[i - 1],
            before[i],
        ) by {
            assert(!unchanged(captured[i - 1], captured[i]));
        }
        lemma_loading(before);
        let i = captured.len() - 1;
        assert(!unchanged(captured[i - 1], captured[i]));
        assert(before.last() == captured[i - 1]);
        assert(kept(captured) =~= seq![captured.last()]);
    }
}

/// The first frame is captured at once. While it keeps changing the latest state of it is kept and
/// the next is waited for, ten times at most; then scrolling begins.
pub proof fn law_first_frame_is_waited_for(captured: Seq<Frame>)
    requires
        keeps_changing(captured),
    ensures
        captured.len() == 0 ==> wanted(captured) == CaptureAction::Capture && kept(captured).len()
            == 0,
        1 <= captured.len() <= 11 ==> kept(captured) == seq![captured.last()],
        1 <= captured.len() <= 10 ==> wanted(captured) == CaptureAction::SettleAndCapture,
        captured.len() == 11 ==> wanted(captured) == CaptureAction::ScrollAndCapture,
{
    if 1 <= captured.len() <= 10 {
        lemma_loading(captured);
    }
    if captured.len() == 11 {
        let before = captured.drop_last();
        assert forall|i: int| 0 < i < before.len() implies !unchanged(
            #[trigger] before[i - 1],
            before[i],
        ) by {
            assert(!unchanged(captured[i - 1], captured[i]));
        }
        lemma_loading(before);
        assert(!unchanged(captured[9], captured[10]));
        assert(kept(captured) =~= seq![captured.last()]);
    }
}

/// Once the first frame no longer changes it is kept, and scrolling begins. One frame that shows
/// nothing new does not end the capture, a second one does.
pub proof fn law_stable_first_frame_is_kept(captured: Seq<Frame>, probe: Frame, g: Frame, g2: Frame)
    requires
        1 <= captured.len() <= 10,
        keeps_changing(captured),
        unchanged(captured.last(), probe),
        unchanged(captured.last(), g),
        unchanged(captured.last(), g2),
    ensures
        kept(captured.push(probe)) == seq![captured.last()],
        wanted(captured.push(probe)) == CaptureAction::ScrollAndCapture,
        kept(captured.push(probe).push(g)) == seq![captured.last()],
        wanted(captured.push(probe).push(g)) == CaptureAction::ScrollAndCapture,
        kept(captured.push(probe).push(g).push(g2)) == seq![captured.last()],
        wanted(captured.push(probe).push(g).push(g2)) == CaptureAction::Finish,
{
    lemma_loading(captured);
    lemma_one_more(captured, probe);
    lemma_one_more(captured.push(probe), g);
    lemma_one_more(captured.push(probe).push(g), g2);
}

/// Where the first frame never becomes stable the last state of it is kept, and scrolling goes on
/// as it would otherwise: the second frame that shows nothing new ends the capture.
pub proof fn law_unstable_first_frame_is_given_up(captured: Seq<Frame>, g: Frame, g2: Frame)
    requires
        captured.len() == 11,
        keeps_changing(captured),
        unchanged(captured.last(), g),
        unchanged(captured.last(), g2),
    ensures
        kept(captured.push(g)) == seq![captured.last()],
        wanted(captured.push(g)) == CaptureAction::ScrollAndCapture,
        kept(captured.push(g).push(g2)) == seq![captured.last()],
        wanted(captured.push(g).push(g2)) == CaptureAction::Finish,
{
    law_first_frame_is_waited_for(captured);
    let before = captured.drop_last();
    assert forall|i: int| 0 < i < before.len() implies !unchanged(
        #[trigger] before[i - 1],
        before[i],
    ) by {
        assert(!unchanged(captured[i - 1], captured[i]));
    }
    lemma_loading(before);
    assert(!unchanged(captured[9], captured[10]));
    lemma_one_more(captured, g);
    lemma_one_more(captured.push(g), g2);
}

/// While scrolling, a frame that shows something new is kept, and capturing goes on until 200
/// frames are. One frame after it that shows nothing new is dropped and does not end the capture;
/// a second one in a row is dropped and does.
pub proof fn law_capture_ends_after_two_frames_without_news(
    captured: Seq<Frame>,
    f: Frame,
    g: Frame,
    g2: Frame,
)
    requires
        wanted(captured) == CaptureAction::ScrollAndCapture,
        !unchanged(kept(captured).last(), f),
        unchanged(f, g),
        unchanged(f, g2),
    ensures
        kept(captured).len() < 200,
        kept(captured.push(f)) == kept(captured).push(f),
        wanted(captured.push(f)) == if kept(captured).len() == 199 {
            CaptureAction::Finish
        } else {
            CaptureAction::ScrollAndCapture
        },
        kept(captured.push(f).push(g)) == kept(captured).push(f),
        wanted(captured.push(f).push(g)) == wanted(captured.push(f)),
        kept(captured.push(f).push(g).push(g2)) == kept(captured).push(f),
        wanted(captured.push(f).push(g).push(g2)) == CaptureAction::Finish,
{
    lemma_one_more(captured, f);
    lemma_one_more(captured.push(f), g);
    lemma_one_more(captured.push(f).push(g), g2);
}

/// After the end nothing is taken any more.
pub proof fn law_nothing_is_taken_after_the_end(captured: Seq<Frame>, f: Frame)
    requires
        wanted(captured) == CaptureAction::Finish,
    ensures
        wanted(captured.push(f)) == CaptureAction::Finish,
        kept(captured.push(f)) == kept(captured),
{
    lemma_one_more(captured, f);
}

// The protocol

/// A global is bound in the version that the compositor has, but not in a later one than is used.
pub open spec fn is_older_of(bound: u32, offered: u32, used: u32) -> bool {
    &&& bound <= offered
    &&& bound <= used
    &&& bound == offered || bound == used
}

/// The globals that a capture uses are bound under their names, each in a version that is known.
pub proof fn law_capture_globals_are_bound(
    s: CaptureState,
    name: u32,
    version: u32,
    interface: Seq<char>,
)
    ensures
        s.binding(name, "wl_shm"@, version) matches Some((g, v)) && g == CaptureGlobal::Shm
            && is_older_of(v, version, 1),
        s.binding(name, "wl_seat"@, version) matches Some((g, v)) && g == CaptureGlobal::Seat
            && is_older_of(v, version, 7),
        s.binding(name, "zwlr_screencopy_manager_v1"@, version) matches Some((g, v)) && g
            == CaptureGlobal::ScreencopyManager && is_older_of(v, version, 3),
        s.binding(name, "zwlr_virtual_pointer_manager_v1"@, version) matches Some((g, v)) && g
            == CaptureGlobal::VirtualPointerManager && is_older_of(v, version, 2),
        s.binding(name, "wl_output"@, version) is Some <==> !s.has_output && (s.output_global_name
            == 0 || s.output_global_name == name),
        s.binding(name, "wl_output"@, version) matches Some((g, v)) ==> g == CaptureGlobal::Output
            && is_older_of(v, version, 3),
        interface != "wl_shm"@ && interface != "wl_seat"@ && interface
            != "zwlr_screencopy_manager_v1"@ && interface != "zwlr_virtual_pointer_manager_v1"@
            && interface != "wl_output"@ ==> s.binding(name, interface, version) is None,
{
    reveal_strlit("wl_shm");
    reveal_strlit("wl_seat");
    reveal_strlit("wl_output");
    reveal_strlit("zwlr_screencopy_manager_v1");
    reveal_strlit("zwlr_virtual_pointer_manager_v1");
    assert("wl_shm"@.len() == 6);
    assert("wl_seat"@.len() == 7);
    assert("wl_output"@.len() == 9);
    assert("zwlr_screencopy_manager_v1"@.len() == 26);
    assert("zwlr_virtual_pointer_manager_v1"@.len() == 31);
}

/// Once a global is bound it is there, and what was there before still is. Nothing else changes.
/// One output is enough: no other is bound after it.
pub proof fn law_bound_globals_stay(
    s: CaptureState,
    global: CaptureGlobal,
    name: u32,
    version: u32,
)
    ensures
        ({
            let t = s.with_global(global);
            &&& t.has_shm <==> s.has_shm || global == CaptureGlobal::Shm
            &&& t.has_output <==> s.has_output || global == CaptureGlobal::Output
            &&& t.has_seat <==> s.has_seat || global == CaptureGlobal::Seat
            &&& t.has_screencopy_manager <==> s.has_screencopy_manager || global
                == CaptureGlobal::ScreencopyManager
            &&& t.has_vp_manager <==> s.has_vp_manager || global
                == CaptureGlobal::VirtualPointerManager
            &&& t.current_frame_id == s.current_frame_id
            &&& t.frame_info == s.frame_info
            &&& t.has_buffer == s.has_buffer
            &&& (t.output_w, t.output_h, t.output_global_name) == (
                s.output_w,
                s.output_h,
                s.output_global_name,
            )
            &&& t.has_output ==> t.binding(name, "wl_output"@, version) is None
        }),
{
    law_capture_globals_are_bound(s.with_global(global), name, version, "wl_output"@);
}

/// A frame is copied like this: its number is the one after that of the frame before; the first
/// description of its buffer is taken, and a buffer of as many bytes as its rows have is made;
/// later descriptions are ignored. When it has been copied all of that is known of it.
pub proof fn law_frame_is_copied_as_described(
    s: CaptureState,
    format: Option<u32>,
    width: u32,
    height: u32,
    stride: u32,
    other: Option<u32>,
    n: u32,
)
    requires
        s.has_shm,
    ensures
        ({
            let begun = s.begun();
            let id = begun.current_frame_id;
            let (described, what) = begun.described(id, format, width, height, stride);
            let made = described.with_buffer();
            let copied = made.copied(id);
            &&& id == s.current_frame_id + 1 || id == 0 && s.current_frame_id == 0xffff_ffff
            &&& !begun.frame_info.ready && !begun.frame_info.failed && !begun.has_buffer
            &&& begun.frame_info.format == 0 && begun.frame_info.stride == 0
            &&& begun.frame_info.width == 0 && begun.frame_info.height == 0
            &&& what matches BufferAction::Create { size } && size == stride * height
            &&& made.described(id, other, n, n, n) == (made, BufferAction::Ignore)
            &&& copied.frame_info.format == match format {
                Some(f) => f,
                None => 1u32,
            }
            &&& copied.frame_info.width == width
            &&& copied.frame_info.height == height
            &&& copied.frame_info.stride == stride
            &&& copied.frame_info.ready
            &&& !copied.frame_info.failed
            &&& made.failed(id).frame_info.failed
            &&& !described.frame_info.ready && !described.frame_info.failed
            &&& made.has_buffer && made.frame_info == described.frame_info
            &&& described.without_buffer().frame_info.failed
            &&& !described.without_buffer().has_buffer
        }),
{
    assert(0 <= stride * height <= u32::MAX * u32::MAX) by (nonlinear_arith)
        requires
            0 <= stride <= u32::MAX,
            0 <= height <= u32::MAX,
    ;
}

/// Without shared memory no buffer is made, and the frame fails.
pub proof fn law_without_shared_memory_a_frame_fails(
    s: CaptureState,
    format: Option<u32>,
    width: u32,
    height: u32,
    stride: u32,
)
    requires
        !s.has_shm,
    ensures
        ({
            let begun = s.begun();
            let (t, what) = begun.described(
                begun.current_frame_id,
                format,
                width,
                height,
                stride,
            );
            what == BufferAction::Ignore && t.frame_info.failed && !t.frame_info.ready
        }),
{
}

/// Copying frames touches nothing but what is known of the current frame.
pub proof fn law_copying_leaves_the_rest_alone(
    s: CaptureState,
    id: u32,
    format: Option<u32>,
    width: u32,
    height: u32,
    stride: u32,
)
    ensures
        ({
            let rest = |t: CaptureState|
                (
                    t.has_shm,
                    t.has_output,
                    t.has_screencopy_manager,
                    t.has_vp_manager,
                    t.has_seat,
                    t.output_w,
                    t.output_h,
                    t.output_global_name,
                );
            &&& rest(s.begun()) == rest(s)
            &&& rest(s.with_buffer()) == rest(s)
            &&& rest(s.without_buffer()) == rest(s)
            &&& s.with_buffer().current_frame_id == s.current_frame_id
            &&& s.without_buffer().current_frame_id == s.current_frame_id
            &&& s.copied(id).current_frame_id == s.current_frame_id
            &&& s.failed(id).current_frame_id == s.current_frame_id
            &&& rest(s.copied(id)) == rest(s)
            &&& rest(s.failed(id)) == rest(s)
            &&& rest(s.described(id, format, width, height, stride).0) == rest(s)
            &&& id != s.current_frame_id ==> s.copied(id) == s && s.failed(id) == s
        }),
{
}

/// The centre of an extent that has it in 31 bits is half of it away from its start, rounded down;
/// of a larger one, which counts as negative, half in the other direction.
pub proof fn law_centre_is_halfway(extent: u32)
    ensures
        extent < 0x8000_0000 ==> 2 * half_extent(extent) <= extent < 2 * half_extent(extent) + 2,
        extent >= 0x8000_0000 ==> 2 * half_extent(extent) - 2 < extent - 0x1_0000_0000 <= 2
            * half_extent(extent),
{
}

/// A coordinate is handed over in 32 bits: as it is where that is possible, else off by a multiple
/// of two to the power of 32.
pub proof fn law_coordinates_have_32_bits(v: int)
    ensures
        0 <= unsigned_coordinate(v) < 0x1_0000_0000,
        (v - unsigned_coordinate(v)) % 0x1_0000_0000 == 0,
        0 <= v < 0x1_0000_0000 ==> unsigned_coordinate(v) == v,
{
}

/// Scrolling turns the wheel down one step at a time, a millisecond apart; each step is announced
/// as one of a wheel and closed off.
pub proof fn law_ticks_follow_each_other(time: u32, n: int, i: int)
    requires
        0 <= i < n,
        time + n - 1 <= u32::MAX,
    ensures
        scroll_ticks(time, n).len() == 3 * n,
        scroll_ticks(time, n)[3 * i] == PointerRequest::AxisSourceWheel,
        scroll_ticks(time, n)[3 * i + 1] == (PointerRequest::AxisDiscrete {
            time: (time + i) as u32,
            steps: 1,
        }),
        scroll_ticks(time, n)[3 * i + 2] == PointerRequest::Frame,
    decreases n,
{
    if n == 1 {
        assert(scroll_ticks(time, 0) =~= Seq::empty());
    } else {
        law_ticks_follow_each_other(time, n - 1, if i < n - 1 {
            i
        } else {
            0
        });
    }
}

/// Without a tick nothing is turned.
pub proof fn law_no_tick_no_request(time: u32, n: int)
    requires
        n <= 0,
    ensures
        scroll_ticks(time, n).len() == 0,
{
}

/// Scrolling begins by moving the pointer to the centre of the region, which is given as a point
/// of the whole output. Then the wheel turns.
pub proof fn law_pointer_goes_to_the_centre_of_the_region(
    s: CaptureState,
    region: Rect,
    time: u32,
    ticks: int,
    i: int,
    cx: u32,
    cy: u32,
)
    requires
        0 <= region.x,
        0 <= region.y,
        region.width < 0x8000_0000,
        region.height < 0x8000_0000,
        2 * (cx - region.x) <= region.width < 2 * (cx - region.x) + 2,
        2 * (cy - region.y) <= region.height < 2 * (cy - region.y) + 2,
    ensures
        s.scrolling(region, time, ticks).len() == 2 + scroll_ticks(time, ticks).len(),
        s.scrolling(region, time, ticks)[0] == (PointerRequest::MotionAbsolute {
            time,
            x: cx,
            y: cy,
            x_extent: s.output_w,
            y_extent: s.output_h,
        }),
        s.scrolling(region, time, ticks)[1] == PointerRequest::Frame,
        0 <= i < scroll_ticks(time, ticks).len() ==> s.scrolling(region, time, ticks)[2 + i]
            == scroll_ticks(time, ticks)[i],
{
}

/// The size of the output is that of the last mode that has an area.
pub proof fn law_output_has_the_size_of_its_mode(s: CaptureState, width: i32, height: i32)
    ensures
        width >= 1 && height >= 1 ==> s.with_mode(width, height).output_w == width && s.with_mode(
            width,
            height,
        ).output_h == height,
        width < 1 || height < 1 ==> s.with_mode(width, height) == s,
        s == (CaptureState {
            output_w: s.output_w,
            output_h: s.output_h,
            ..s.with_mode(width, height)
        }),
{
}

/// A capture needs both managers, and a frame an output too. Each error names what is missing.
pub proof fn law_capture_needs_its_protocols(s: CaptureState)
    ensures
        match s.usable() {
            Ok(_) => s.has_screencopy_manager && s.has_vp_manager,
            Err(CaptureError::NoScreencopyManager) => !s.has_screencopy_manager,
            Err(CaptureError::NoVirtualPointerManager) => s.has_screencopy_manager
                && !s.has_vp_manager,
            Err(_) => false,
        },
        match s.next_frame() {
            Ok(id) => s.has_screencopy_manager && s.has_output && id == s.begun().current_frame_id,
            Err(CaptureError::NoScreencopyManager) => !s.has_screencopy_manager,
            Err(CaptureError::NoOutput) => s.has_screencopy_manager && !s.has_output,
            Err(_) => false,
        },
{
}

/// A frame is waited for until it is ready or has failed. It can be read, as it was described, if
/// it has not failed and has a buffer.
pub proof fn law_frame_can_be_read_unless_it_failed(s: CaptureState, id: u32)
    requires
        id == s.current_frame_id,
    ensures
        s.settled() <==> s.frame_info.ready || s.frame_info.failed,
        s.copied(id).settled(),
        s.failed(id).settled(),
        !s.begun().settled(),
        s.failed(id).readable() is Err,
        match s.readable() {
            Ok(info) => !s.frame_info.failed && s.has_buffer && info == s.frame_info,
            Err(CaptureError::FrameFailed) => s.frame_info.failed,
            Err(CaptureError::NoBuffer) => !s.frame_info.failed && !s.has_buffer,
            Err(_) => false,
        },
{
}

/// A capture starts with nothing: no frame can be copied before the compositor has announced its
/// managers, and any output will do unless one is wanted.
pub proof fn law_capture_starts_with_nothing(s: CaptureState, output: u32, name: u32, version: u32)
    requires
        s.is_fresh(output),
    ensures
        s.usable() is Err,
        s.next_frame() is Err,
        s.readable() is Err,
        !s.settled(),
        !s.has_shm && !s.has_seat && !s.has_vp_manager,
        s.output_w == 0 && s.output_h == 0 && s.current_frame_id == 0,
        s.binding(name, "wl_output"@, version) is Some <==> output == 0 || output == name,
{
    law_capture_globals_are_bound(s, name, version, "wl_output"@);
}

} // verus!
