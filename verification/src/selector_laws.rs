//! What holds of the selector, said over the events that come in.

use vstd::prelude::*;
use crate::overlay::{cursor_box, selection_box, Selection};
use crate::selector::{
    keeps_dragging, last_motion, law_drag_selects_the_rectangle, rect_between, selector_binding,
    ButtonState, Redraw, SelectorEvent, SelectorGlobal, SelectorState,
};
use crate::Rect;

verus! {

// The rectangle

/// Two numbers are two or more apart.
pub open spec fn apart(a: int, b: int) -> bool {
    a >= b + 2 || b >= a + 2
}

/// A drag selects a rectangle exactly if it goes two pixels or more in both directions, however
/// large it is.
pub proof fn law_drag_of_two_pixels_selects(ax: i32, ay: i32, bx: i32, by: i32)
    ensures
        rect_between((ax, ay, bx, by)) is Some <==> apart(ax as int, bx as int) && apart(
            ay as int,
            by as int,
        ),
{
}

/// The rectangle between two corners is found from its upper left one and its size, whichever
/// corners the drag went from and to.
pub proof fn law_rectangle_is_found_from_any_corner(
    x: i32,
    y: i32,
    width: u32,
    height: u32,
    u: i32,
    v: i32,
)
    requires
        width >= 2,
        height >= 2,
        x + width == u,
        y + height == v,
    ensures
        rect_between((x, y, u, v)) == Some(Rect { x, y, width, height }),
        rect_between((u, v, x, y)) == Some(Rect { x, y, width, height }),
        rect_between((x, v, u, y)) == Some(Rect { x, y, width, height }),
        rect_between((u, y, x, v)) == Some(Rect { x, y, width, height }),
{
}

/// Pressing the left button at one corner of a rectangle of two pixels or more each way and
/// releasing it at the opposite one selects that rectangle on the output that the overlay is shown
/// on, whatever else happens in between.
pub proof fn law_dragging_out_a_rectangle_selects_it(
    s: SelectorState,
    rect: Rect,
    u: i32,
    v: i32,
    events: Seq<SelectorEvent>,
)
    requires
        !s.pressing,
        !s.cancelled,
        rect.width >= 2,
        rect.height >= 2,
        rect.x + rect.width == u,
        rect.y + rect.height == v,
        forall|i: int| 0 <= i < events.len() ==> keeps_dragging(#[trigger] events[i]),
        last_motion((rect.x, rect.y), events) == (u, v),
    ensures
        ({
            let down = s.after(SelectorEvent::Motion(rect.x, rect.y)).after(
                SelectorEvent::Button(0x110, ButtonState::Pressed),
            );
            let up = down.after_all(events).after(
                SelectorEvent::Button(0x110, ButtonState::Released),
            );
            up.done && up.selected() == Some((rect, s.output_global_name))
        }),
{
    law_drag_selects_the_rectangle(s, rect.x, rect.y, events);
}

/// The selection is there as soon as the drag has a start and an end. Nothing is selected without
/// it, nor once the selector was cancelled.
pub proof fn law_selection_has_two_corners(s: SelectorState)
    ensures
        s.selection() is Some <==> s.drag_start is Some && s.drag_end is Some,
        s.selection() matches Some(sel) ==> s.drag_start == Some((sel.0, sel.1)) && s.drag_end
            == Some((sel.2, sel.3)),
        s.selected() matches Some((rect, output)) ==> {
            &&& !s.cancelled
            &&& s.selection() matches Some(sel) && rect_between(sel) == Some(rect)
            &&& output == s.output_global_name
        },
        s.selected() is None ==> s.cancelled || s.selection() is None || rect_between(
            s.selection()->0,
        ) is None,
{
}

// Events

/// The selector is cancelled by the right button, whatever it does, and by pressing the escape key,
/// and by nothing else. It is done then, and when the left button is released.
pub proof fn law_what_ends_a_selection(s: SelectorState, event: SelectorEvent)
    ensures
        s.after(event).cancelled <==> s.cancelled || match event {
            SelectorEvent::Button(button, _) => button == 0x111,
            SelectorEvent::Key(key, pressed) => key == 1 && pressed,
            _ => false,
        },
        s.after(event).done <==> s.done || match event {
            SelectorEvent::Button(button, state) => button == 0x111 || button == 0x110 && state
                == ButtonState::Released,
            SelectorEvent::Key(key, pressed) => key == 1 && pressed,
            _ => false,
        },
        s.after(event).pressing <==> match event {
            SelectorEvent::Button(button, state) => if button == 0x110 && state
                == ButtonState::Pressed {
                true
            } else {
                s.pressing && !(button == 0x110 && state == ButtonState::Released)
            },
            _ => s.pressing,
        },
{
}

/// The drag ends where the pointer moved to last. It starts there too until the left button goes
/// down, and stays there as long as it is down. The cursor is where the pointer entered or moved
/// to last, or at the edge of the canvas if that is in front of it.
pub proof fn law_what_the_pointer_does(s: SelectorState, event: SelectorEvent)
    ensures
        s.after(event).drag_end == match event {
            SelectorEvent::Motion(x, y) => Some((x, y)),
            _ => s.drag_end,
        },
        match event {
            SelectorEvent::Motion(x, y) => s.after(event).drag_start == if s.pressing {
                s.drag_start
            } else {
                Some((x, y))
            },
            SelectorEvent::Button(button, state) => if button == 0x110 && state
                == ButtonState::Pressed && s.drag_end is Some {
                s.after(event).drag_start == s.drag_end
            } else {
                s.after(event).drag_start == s.drag_start
            },
            _ => s.after(event).drag_start == s.drag_start,
        },
        match event {
            SelectorEvent::Enter(x, y) | SelectorEvent::Motion(x, y) => s.after(event).cursor_pos
                matches Some(c) && (c.0 == x || x < 0 && c.0 == 0) && (c.1 == y || y < 0 && c.1 == 0),
            _ => s.after(event).cursor_pos == s.cursor_pos,
        },
{
}

/// No event touches what the compositor has given.
pub proof fn law_events_leave_the_overlay_alone(s: SelectorState, event: SelectorEvent)
    ensures
        ({
            let t = s.after(event);
            &&& t.has_compositor == s.has_compositor
            &&& t.has_shm == s.has_shm
            &&& t.has_seat == s.has_seat
            &&& t.has_layer_shell == s.has_layer_shell
            &&& t.has_surface == s.has_surface
            &&& t.has_pointer == s.has_pointer
            &&& (t.screen_w, t.screen_h, t.output_ready) == (s.screen_w, s.screen_h, s.output_ready)
            &&& (t.canvas_w, t.canvas_h, t.overlay_ready) == (s.canvas_w, s.canvas_h, s.overlay_ready)
            &&& t.output_global_name == s.output_global_name
            &&& t.init_error == s.init_error
        }),
{
}

/// Whenever the pointer enters or moves, the selection as it is then is drawn: at once, or, while a
/// frame is under way, when that has been shown. Without a canvas nothing is drawn.
pub proof fn law_what_the_pointer_does_is_shown(s: SelectorState, x: i32, y: i32)
    ensures
        ({
            let moved = s.moved(x, y);
            let entered = s.entered(x, y);
            let (after_move, draw_move) = moved.refreshed();
            let (after_enter, draw_enter) = entered.refreshed();
            &&& after_move.frame_pending == s.frame_pending
            &&& after_enter.frame_pending == s.frame_pending
            &&& s.canvas_w == 0 ==> {
                &&& draw_move == Redraw::Nothing && after_move == moved
                &&& draw_enter == Redraw::Nothing && after_enter == entered
            }
            &&& s.canvas_w > 0 && !s.frame_pending ==> {
                &&& draw_move == Redraw::Draw(moved.selection()) && after_move == moved
                &&& draw_enter == Redraw::Draw(s.selection()) && after_enter == entered
            }
            &&& s.canvas_w > 0 && s.frame_pending ==> {
                &&& draw_move == Redraw::Nothing
                &&& after_move.frame_shown().1 == Redraw::Draw(moved.selection())
                &&& draw_enter == Redraw::Nothing
                &&& after_enter.frame_shown().1 == Redraw::Draw(s.selection())
            }
        }),
{
}

/// One frame is under way at a time: a redraw is done at once if there is none, and is kept for
/// later if there is one. When it has been shown, what was kept is drawn, and no more is kept.
pub proof fn law_one_frame_at_a_time(s: SelectorState, sel: Option<Selection>)
    ensures
        !s.frame_pending ==> s.scheduled(sel) == (s, Redraw::Draw(sel)),
        s.frame_pending ==> s.scheduled(sel).1 == Redraw::Nothing && s.scheduled(sel).0.pending_sel
            == Some(sel) && s.scheduled(sel).0.frame_pending,
        !s.frame_shown().0.frame_pending,
        s.frame_shown().0.pending_sel is None,
        s.pending_sel is None ==> s.frame_shown().1 == Redraw::Nothing,
        s.pending_sel matches Some(p) ==> s.frame_shown().1 == Redraw::Draw(p),
        s.frame_shown().0.prev_sel == s.prev_sel,
        s.frame_shown().0.prev_cursor_bbox == s.prev_cursor_bbox,
{
}

/// A frame is under way once it was drawn, for which the canvas needs an area, the overlay a buffer
/// and a surface. Then the boxes around what it shows are remembered; nothing else changes.
pub proof fn law_drawing_starts_a_frame(s: SelectorState, sel: Selection)
    ensures
        s.canvas_w == 0 || s.canvas_h == 0 || !s.overlay_ready || !s.has_surface ==> s.drawn(Some(sel))
            == s && s.drawn(None) == s,
        s.canvas_w > 0 && s.canvas_h > 0 && s.overlay_ready && s.has_surface ==> {
            let (t, u) = (s.drawn(Some(sel)), s.drawn(None));
            &&& t.frame_pending && u.frame_pending
            &&& t.prev_sel == Some(selection_box(s.canvas_w, s.canvas_h, sel))
            &&& u.prev_sel is None
            &&& s.cursor_pos is None ==> t.prev_cursor_bbox is None
            &&& s.cursor_pos matches Some(c) ==> t.prev_cursor_bbox == Some(
                cursor_box(s.canvas_w, s.canvas_h, c),
            )
            &&& u.prev_cursor_bbox == t.prev_cursor_bbox
            &&& t.pending_sel == s.pending_sel && u.pending_sel == s.pending_sel
        },
{
}

// The compositor

/// The globals that the selector uses are bound under their names, each in the version that the
/// compositor has, but not in a later one than is known.
pub proof fn law_selector_globals_are_bound(version: u32, interface: Seq<char>)
    ensures
        selector_binding("wl_compositor"@, version) == Some(
            (SelectorGlobal::Compositor, older(version, 4)),
        ),
        selector_binding("wl_shm"@, version) == Some((SelectorGlobal::Shm, older(version, 1))),
        selector_binding("wl_seat"@, version) == Some((SelectorGlobal::Seat, older(version, 7))),
        selector_binding("wl_output"@, version) == Some((SelectorGlobal::Output, older(version, 3))),
        selector_binding("zwlr_layer_shell_v1"@, version) == Some(
            (SelectorGlobal::LayerShell, older(version, 4)),
        ),
        interface != "wl_compositor"@ && interface != "wl_shm"@ && interface != "wl_seat"@ && interface
            != "wl_output"@ && interface != "zwlr_layer_shell_v1"@ ==> selector_binding(
            interface,
            version,
        ) is None,
{
    reveal_strlit("wl_compositor");
    reveal_strlit("wl_shm");
    reveal_strlit("wl_seat");
    reveal_strlit("wl_output");
    reveal_strlit("zwlr_layer_shell_v1");
    assert("wl_compositor"@.len() == 13);
    assert("wl_shm"@.len() == 6);
    assert("wl_seat"@.len() == 7);
    assert("wl_output"@.len() == 9);
    assert("zwlr_layer_shell_v1"@.len() == 19);
}

/// The older of two versions.
pub open spec fn older(a: u32, b: u32) -> u32 {
    vstd::math::min(a as int, b as int) as u32
}

/// Once a global is bound it is there, and what was there before still is.
pub proof fn law_bound_globals_stay(s: SelectorState, global: SelectorGlobal)
    ensures
        ({
            let t = s.with_global(global);
            &&& t.has_compositor <==> s.has_compositor || global == SelectorGlobal::Compositor
            &&& t.has_shm <==> s.has_shm || global == SelectorGlobal::Shm
            &&& t.has_seat <==> s.has_seat || global == SelectorGlobal::Seat
            &&& t.has_layer_shell <==> s.has_layer_shell || global == SelectorGlobal::LayerShell
            &&& s == (SelectorState {
                has_compositor: s.has_compositor,
                has_shm: s.has_shm,
                has_seat: s.has_seat,
                has_layer_shell: s.has_layer_shell,
                ..t
            })
        }),
{
}

/// The overlay needs the layer shell. Its surface is created as soon as there are a compositor,
/// shared memory, a layer shell and the size of an output, and only once.
pub proof fn law_surface_is_created_once_all_is_there(s: SelectorState, width: i32, height: i32)
    ensures
        s.usable() is Ok <==> s.has_layer_shell,
        s.has_surface ==> !s.wants_surface(),
        !s.has_surface && s.with_mode(width, height).wants_surface() <==> !s.has_surface
            && s.has_compositor && s.has_shm && s.has_layer_shell && (s.output_ready || width >= 1
            && height >= 1),
        s.wants_surface() ==> !(SelectorState { has_surface: true, ..s }).wants_surface(),
{
}

/// The canvas has the size that the compositor gives to the surface, or in a direction for which
/// it gives none that of the output's last mode with an area.
pub proof fn law_canvas_has_the_size_of_the_surface(
    s: SelectorState,
    mode_w: i32,
    mode_h: i32,
    width: u32,
    height: u32,
)
    requires
        mode_w >= 1,
        mode_h >= 1,
    ensures
        ({
            let t = s.with_mode(mode_w, mode_h).configured(width, height);
            &&& t.screen_w == mode_w && t.screen_h == mode_h
            &&& t.canvas_w == width || width == 0 && t.canvas_w == mode_w
            &&& t.canvas_h == height || height == 0 && t.canvas_h == mode_h
            &&& s == (SelectorState {
                screen_w: s.screen_w,
                screen_h: s.screen_h,
                output_ready: s.output_ready,
                canvas_w: s.canvas_w,
                canvas_h: s.canvas_h,
                ..t
            })
        }),
        s.with_mode(0, mode_h) == s,
        s.with_mode(mode_w, 0) == s,
        s.with_mode((-mode_w) as i32, mode_h) == s,
        s.with_mode(mode_w, (-mode_h) as i32) == s,
{
}

/// The buffer of the overlay has four bytes for each pixel of the canvas, row after row. There is
/// one exactly if there are shared memory and a canvas with an area.
pub proof fn law_overlay_has_four_bytes_a_pixel(s: SelectorState)
    ensures
        s.layout() is Some <==> s.has_shm && s.canvas_w > 0 && s.canvas_h > 0,
        s.layout() matches Some(l) ==> {
            &&& l.width == s.canvas_w && l.height == s.canvas_h
            &&& l.stride == s.canvas_w + s.canvas_w + s.canvas_w + s.canvas_w
            &&& l.size == l.stride * s.canvas_h
        },
{
    let (w, h) = (s.canvas_w as int, s.canvas_h as int);
    assert(0 <= h * w <= u32::MAX * u32::MAX) by (nonlinear_arith)
        requires
            0 <= h <= u32::MAX,
            0 <= w <= u32::MAX,
    ;
    assert((w * 4) * h == 4 * (h * w)) by (nonlinear_arith);
}

/// An overlay that could not be made is answered with why; otherwise the answer is what was
/// selected, if anything was.
pub proof fn law_answer_is_the_selection(s: SelectorState)
    ensures
        match s.answer() {
            Ok(selected) => s.init_error is None && selected == s.selected(),
            Err(message) => s.init_error matches Some(m) && m@ == message,
        },
{
}

/// The selector starts with nothing: it is neither done nor cancelled, nothing is selected, and
/// nothing is drawn. A click before the pointer has moved selects nothing.
pub proof fn law_selector_starts_with_nothing(s: SelectorState, sel: Option<Selection>)
    requires
        s.is_fresh(),
    ensures
        s.valid(),
        !s.done && !s.cancelled && !s.pressing && !s.frame_pending,
        s.selection() is None && s.rectangle() is None && s.selected() is None,
        s.usable() is Err && !s.wants_surface() && s.layout() is None,
        s.answer() matches Ok(a) && a is None,
        s.drawn(sel) == s,
        s.frame_shown().1 == Redraw::Nothing,
        s.output_global_name == 0,
        ({
            let up = s.after(SelectorEvent::Button(0x110, ButtonState::Pressed)).after(
                SelectorEvent::Button(0x110, ButtonState::Released),
            );
            up.done && up.selected() is None
        }),
{
}

/// The rectangle of the result is the one between the corners of the drag, whether or not the
/// selector was cancelled.
pub proof fn law_rectangle_is_that_of_the_drag(s: SelectorState)
    ensures
        s.rectangle() is Some <==> match (s.drag_start, s.drag_end) {
            (Some(p), Some(q)) => apart(p.0 as int, q.0 as int) && apart(p.1 as int, q.1 as int),
            _ => false,
        },
        s.selection() matches Some(sel) ==> s.rectangle() == rect_between(sel),
        !s.cancelled && s.rectangle() is Some ==> s.selected() == Some(
            (s.rectangle()->0, s.output_global_name),
        ),
{
}

/// What the compositor says of the surface changes nothing else: on which output it is shown, that
/// its buffer was made, or that it was not, which ends the selection with an error. One pointer is
/// enough.
pub proof fn law_what_becomes_of_the_surface(s: SelectorState, output: u32, message: String)
    ensures
        s.shown_on(output).output_global_name == output,
        s == (SelectorState { output_global_name: s.output_global_name, ..s.shown_on(output) }),
        s.with_overlay().overlay_ready,
        s == (SelectorState { overlay_ready: s.overlay_ready, ..s.with_overlay() }),
        s.with_error(message).done,
        s.with_error(message).answer() matches Err(m) && m == message@,
        s == (SelectorState {
            init_error: s.init_error,
            done: s.done,
            ..s.with_error(message)
        }),
        !s.wants_pointer(false),
        s.wants_pointer(true) <==> !s.has_pointer,
{
}

} // verus!
