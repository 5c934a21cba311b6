//! Region selection: a fullscreen overlay on which the user drags out a rectangle. The right
//! button or the escape key cancels.
//!
//! [`SelectorState`] takes the events of the compositor and says what to do about them.

use vstd::prelude::*;
use crate::overlay::{
    cursor_box, damage_of, joined_box, repaint, repainted, selection_box, BoundingBox, Damage,
    Selection,
};
use crate::Rect;

verus! {

/// The left mouse button.
pub const BTN_LEFT: u32 = 0x110;

/// The right mouse button.
pub const BTN_RIGHT: u32 = 0x111;

/// The key code of the escape key.
pub const KEY_ESC: u32 = 1;

/// The globals that the selector uses.
#[derive(Clone, Copy, Debug, PartialEq, Eq, Structural)]
pub enum SelectorGlobal {
    Compositor,
    Shm,
    Seat,
    Output,
    LayerShell,
}

/// What a button does.
#[derive(Clone, Copy, Debug, PartialEq, Eq, Structural)]
pub enum ButtonState {
    Pressed,
    Released,
    /// Something that this version of the protocol does not know.
    Other,
}

/// Why a region cannot be selected.
#[derive(Clone, Copy, Debug, PartialEq, Eq, Structural)]
pub enum SelectorError {
    /// The compositor has no `zwlr_layer_shell_v1`.
    NoLayerShell,
}

/// Whether to draw a frame now.
#[derive(Clone, Copy, Debug, PartialEq, Eq)]
pub enum Redraw {
    Nothing,
    /// Draw a frame with this selection.
    Draw(Option<Selection>),
}

/// The size of the buffer that the overlay needs.
#[derive(Clone, Copy, Debug, PartialEq, Eq, Structural)]
pub struct OverlayLayout {
    pub width: u32,
    pub height: u32,
    /// Bytes in a row.
    pub stride: u64,
    /// Bytes in all.
    pub size: u128,
}

/// What can happen while the overlay is shown.
pub enum SelectorEvent {
    /// The pointer has come onto the overlay.
    Enter(i32, i32),
    /// The pointer has moved.
    Motion(i32, i32),
    Button(u32, ButtonState),
    /// A key, and whether it went down.
    Key(u32, bool),
    /// A frame was drawn, with a selection in it or without.
    Draw(Option<Selection>),
    /// The compositor has shown a frame.
    FrameShown,
}

/// The state of the selector.
pub struct SelectorState {
    pub has_compositor: bool,
    pub has_shm: bool,
    pub has_seat: bool,
    pub has_layer_shell: bool,
    pub has_surface: bool,
    pub has_pointer: bool,
    /// The resolution of the output, which stands in for the size of the canvas.
    pub screen_w: u32,
    pub screen_h: u32,
    pub output_ready: bool,
    /// The size that the compositor gave to the surface.
    pub canvas_w: u32,
    pub canvas_h: u32,
    /// The buffer of the overlay has been made.
    pub overlay_ready: bool,
    /// The box around the selection that was drawn last.
    pub prev_sel: Option<BoundingBox>,
    /// The box around the crosshair that was drawn last.
    pub prev_cursor_bbox: Option<BoundingBox>,
    /// A frame was handed over that the compositor has not shown yet.
    pub frame_pending: bool,
    /// The selection to draw when it has.
    pub pending_sel: Option<Option<Selection>>,
    pub cursor_pos: Option<(u32, u32)>,
    /// The left button is down.
    pub pressing: bool,
    pub drag_start: Option<(i32, i32)>,
    pub drag_end: Option<(i32, i32)>,
    /// The registry name of the output that the overlay is shown on, or 0 where it is not known.
    pub output_global_name: u32,
    pub done: bool,
    pub cancelled: bool,
    pub init_error: Option<String>,
}

/// Which global an interface is, and the newest version of it that is used.
pub open spec fn selector_interface(interface: Seq<char>) -> Option<(SelectorGlobal, u32)> {
    if interface == "wl_compositor"@ {
        Some((SelectorGlobal::Compositor, 4u32))
    } else if interface == "wl_shm"@ {
        Some((SelectorGlobal::Shm, 1u32))
    } else if interface == "wl_seat"@ {
        Some((SelectorGlobal::Seat, 7u32))
    } else if interface == "wl_output"@ {
        Some((SelectorGlobal::Output, 3u32))
    } else if interface == "zwlr_layer_shell_v1"@ {
        Some((SelectorGlobal::LayerShell, 4u32))
    } else {
        None
    }
}

/// The binding that a global gets, and its version.
pub open spec fn selector_binding(interface: Seq<char>, version: u32) -> Option<
    (SelectorGlobal, u32),
> {
    match selector_interface(interface) {
        Some((global, newest)) => Some((global, if version <= newest {
            version
        } else {
            newest
        })),
        None => None,
    }
}

/// The rectangle between two corners, if it is at least two pixels wide and high.
pub open spec fn rect_between(sel: Selection) -> Option<Rect> {
    let (ax, ay, bx, by) = sel;
    let (x1, x2) = if ax <= bx {
        (ax, bx)
    } else {
        (bx, ax)
    };
    let (y1, y2) = if ay <= by {
        (ay, by)
    } else {
        (by, ay)
    };
    if x2 - x1 < 2 || y2 - y1 < 2 {
        None
    } else {
        Some(Rect { x: x1, y: y1, width: (x2 - x1) as u32, height: (y2 - y1) as u32 })
    }
}

/// A pointer position as a pixel of the canvas: what lies in front of it is at its edge.
pub open spec fn cursor_at(x: i32, y: i32) -> (u32, u32) {
    (if x >= 0 {
        x as u32
    } else {
        0
    }, if y >= 0 {
        y as u32
    } else {
        0
    })
}

impl SelectorState {
    /// The invariant of the selector: the cursor is where a pointer can be.
    pub open spec fn valid(&self) -> bool {
        self.cursor_pos matches Some(c) ==> c.0 <= i32::MAX && c.1 <= i32::MAX
    }

    /// The corners of the drag, once there are two.
    pub open spec fn selection(&self) -> Option<Selection> {
        match (self.drag_start, self.drag_end) {
            (Some(s), Some(e)) => Some((s.0, s.1, e.0, e.1)),
            _ => None,
        }
    }

    /// What the user has selected: nothing where the selection was cancelled or is too small.
    pub open spec fn selected(&self) -> Option<(Rect, u32)> {
        if self.cancelled {
            None
        } else {
            match self.selection() {
                Some(sel) => match rect_between(sel) {
                    Some(rect) => Some((rect, self.output_global_name)),
                    None => None,
                },
                None => None,
            }
        }
    }

    /// The state after a global was bound.
    pub open spec fn with_global(self, global: SelectorGlobal) -> SelectorState {
        match global {
            SelectorGlobal::Compositor => SelectorState { has_compositor: true, ..self },
            SelectorGlobal::Shm => SelectorState { has_shm: true, ..self },
            SelectorGlobal::Seat => SelectorState { has_seat: true, ..self },
            SelectorGlobal::Output => self,
            SelectorGlobal::LayerShell => SelectorState { has_layer_shell: true, ..self },
        }
    }

    /// The state after a redraw was asked for, and what to draw at once. While a frame is under
    /// way the selection is kept for later, in place of an earlier one.
    pub open spec fn scheduled(self, sel: Option<Selection>) -> (SelectorState, Redraw) {
        if self.frame_pending {
            (SelectorState { pending_sel: Some(sel), ..self }, Redraw::Nothing)
        } else {
            (self, Redraw::Draw(sel))
        }
    }

    /// The state after a redraw of the current selection was asked for, which needs a canvas.
    pub open spec fn refreshed(self) -> (SelectorState, Redraw) {
        if self.canvas_w > 0 {
            self.scheduled(self.selection())
        } else {
            (self, Redraw::Nothing)
        }
    }

    /// The state after the pointer has entered, before anything is drawn.
    pub open spec fn entered(self, x: i32, y: i32) -> SelectorState {
        SelectorState { cursor_pos: Some(cursor_at(x, y)), ..self }
    }

    /// The state after the pointer has moved, before anything is drawn. The drag starts where the
    /// button goes down, so until then its start moves along.
    pub open spec fn moved(self, x: i32, y: i32) -> SelectorState {
        SelectorState {
            cursor_pos: Some(cursor_at(x, y)),
            drag_end: Some((x, y)),
            drag_start: if self.pressing {
                self.drag_start
            } else {
                Some((x, y))
            },
            ..self
        }
    }

    /// The state after a button was used.
    pub open spec fn clicked(self, button: u32, state: ButtonState) -> SelectorState {
        if button == BTN_RIGHT {
            SelectorState { cancelled: true, done: true, ..self }
        } else if button == BTN_LEFT && state == ButtonState::Pressed {
            SelectorState {
                pressing: true,
                drag_start: if self.drag_end is Some {
                    self.drag_end
                } else {
                    self.drag_start
                },
                ..self
            }
        } else if button == BTN_LEFT && state == ButtonState::Released {
            SelectorState { pressing: false, done: true, ..self }
        } else {
            self
        }
    }

    /// The state after a key was used.
    pub open spec fn typed(self, key: u32, pressed: bool) -> SelectorState {
        if key == KEY_ESC && pressed {
            SelectorState { cancelled: true, done: true, ..self }
        } else {
            self
        }
    }

    /// The state after the compositor has shown a frame, and what to draw at once.
    pub open spec fn frame_shown(self) -> (SelectorState, Redraw) {
        (
            SelectorState { frame_pending: false, pending_sel: None, ..self },
            match self.pending_sel {
                Some(sel) => Redraw::Draw(sel),
                None => Redraw::Nothing,
            },
        )
    }

    /// A frame can be drawn: there is a canvas, a buffer for it and a surface to show it on.
    pub open spec fn can_draw(&self) -> bool {
        self.canvas_w > 0 && self.canvas_h > 0 && self.overlay_ready && self.has_surface
    }

    /// The state after a frame was drawn: the frame is under way, and the boxes around what is
    /// in it are known.
    pub open spec fn drawn(self, selection: Option<Selection>) -> SelectorState {
        if self.can_draw() {
            SelectorState {
                prev_sel: match selection {
                    Some(sel) => Some(selection_box(self.canvas_w, self.canvas_h, sel)),
                    None => None,
                },
                prev_cursor_bbox: match self.cursor_pos {
                    Some(c) => Some(cursor_box(self.canvas_w, self.canvas_h, c)),
                    None => None,
                },
                frame_pending: true,
                ..self
            }
        } else {
            self
        }
    }

    /// The state after an event.
    pub open spec fn after(self, event: SelectorEvent) -> SelectorState {
        match event {
            SelectorEvent::Enter(x, y) => self.entered(x, y).refreshed().0,
            SelectorEvent::Motion(x, y) => self.moved(x, y).refreshed().0,
            SelectorEvent::Button(button, state) => self.clicked(button, state),
            SelectorEvent::Key(key, pressed) => self.typed(key, pressed),
            SelectorEvent::Draw(selection) => self.drawn(selection),
            SelectorEvent::FrameShown => self.frame_shown().0,
        }
    }

    /// The state after events that came one after the other.
    pub open spec fn after_all(self, events: Seq<SelectorEvent>) -> SelectorState
        decreases events.len(),
    {
        if events.len() == 0 {
            self
        } else {
            self.after_all(events.drop_last()).after(events.last())
        }
    }

    /// Nothing has happened yet.
    pub open spec fn is_fresh(&self) -> bool {
        &&& !self.has_compositor && !self.has_shm && !self.has_seat && !self.has_layer_shell
        &&& !self.has_surface && !self.has_pointer
        &&& self.screen_w == 0 && self.screen_h == 0 && !self.output_ready
        &&& self.canvas_w == 0 && self.canvas_h == 0 && !self.overlay_ready
        &&& self.prev_sel is None && self.prev_cursor_bbox is None
        &&& !self.frame_pending && self.pending_sel is None
        &&& self.cursor_pos is None && !self.pressing
        &&& self.drag_start is None && self.drag_end is None
        &&& self.output_global_name == 0
        &&& !self.done && !self.cancelled && self.init_error is None
    }

    /// The rectangle that was dragged out, unless it is too small.
    pub open spec fn rectangle(&self) -> Option<Rect> {
        match self.selection() {
            Some(sel) => rect_between(sel),
            None => None,
        }
    }

    /// The state after the surface was shown on an output.
    pub open spec fn shown_on(self, output: u32) -> SelectorState {
        SelectorState { output_global_name: output, ..self }
    }

    /// The state after the buffer of the overlay was made.
    pub open spec fn with_overlay(self) -> SelectorState {
        SelectorState { overlay_ready: true, ..self }
    }

    /// The state after the buffer of the overlay could not be made.
    pub open spec fn with_error(self, message: String) -> SelectorState {
        SelectorState { init_error: Some(message), done: true, ..self }
    }

    /// A pointer is there that is not used yet.
    pub open spec fn wants_pointer(&self, pointer: bool) -> bool {
        pointer && !self.has_pointer
    }

    /// Whether the compositor has what the overlay needs.
    pub open spec fn usable(&self) -> Result<(), SelectorError> {
        if self.has_layer_shell {
            Ok(())
        } else {
            Err(SelectorError::NoLayerShell)
        }
    }

    /// The state after an output has announced a mode.
    pub open spec fn with_mode(self, width: i32, height: i32) -> SelectorState {
        if width > 0 && height > 0 {
            SelectorState {
                screen_w: width as u32,
                screen_h: height as u32,
                output_ready: true,
                ..self
            }
        } else {
            self
        }
    }

    /// The surface can be created, and has not been yet.
    pub open spec fn wants_surface(&self) -> bool {
        !self.has_surface && self.has_compositor && self.has_shm && self.has_layer_shell
            && self.output_ready
    }

    /// The state after the surface was given a size.
    pub open spec fn configured(self, width: u32, height: u32) -> SelectorState {
        SelectorState {
            canvas_w: if width > 0 {
                width
            } else {
                self.screen_w
            },
            canvas_h: if height > 0 {
                height
            } else {
                self.screen_h
            },
            ..self
        }
    }

    /// The buffer that the overlay needs, if one can be made.
    pub open spec fn layout(&self) -> Option<OverlayLayout> {
        if self.has_shm && self.canvas_w > 0 && self.canvas_h > 0 {
            Some(
                OverlayLayout {
                    width: self.canvas_w,
                    height: self.canvas_h,
                    stride: (self.canvas_w * 4) as u64,
                    size: (4 * (self.canvas_h * self.canvas_w)) as u128,
                },
            )
        } else {
            None
        }
    }

    /// The result of the selection, or why the overlay could not be shown.
    pub open spec fn answer(&self) -> Result<Option<(Rect, u32)>, Seq<char>> {
        match self.init_error {
            Some(message) => Err(message@),
            None => Ok(self.selected()),
        }
    }

    /// The state before anything is known.
    pub fn new() -> (r: SelectorState)
        ensures
            r.is_fresh(),
            r.valid(),
            !r.has_compositor && !r.has_shm && !r.has_seat && !r.has_layer_shell && !r.has_surface
                && !r.has_pointer,
            r.screen_w == 0 && r.screen_h == 0 && !r.output_ready,
            r.canvas_w == 0 && r.canvas_h == 0 && !r.overlay_ready,
            r.prev_sel is None && r.prev_cursor_bbox is None,
            !r.frame_pending && r.pending_sel is None,
            r.cursor_pos is None && !r.pressing && r.drag_start is None && r.drag_end is None,
            r.output_global_name == 0,
            !r.done && !r.cancelled && r.init_error is None,
    {
        SelectorState {
            has_compositor: false,
            has_shm: false,
            has_seat: false,
            has_layer_shell: false,
            has_surface: false,
            has_pointer: false,
            screen_w: 0,
            screen_h: 0,
            output_ready: false,
            canvas_w: 0,
            canvas_h: 0,
            overlay_ready: false,
            prev_sel: None,
            prev_cursor_bbox: None,
            frame_pending: false,
            pending_sel: None,
            cursor_pos: None,
            pressing: false,
            drag_start: None,
            drag_end: None,
            output_global_name: 0,
            done: false,
            cancelled: false,
            init_error: None,
        }
    }

    /// The registry announces a global. Returns what to bind it as, and in which version.
    pub fn on_global(&mut self, interface: &String, version: u32) -> (r: Option<
        (SelectorGlobal, u32),
    >)
        ensures
            r == selector_binding(interface@, version),
            match r {
                Some((global, _)) => *final(self) == old(self).with_global(global),
                None => *final(self) == *old(self),
            },
    {
        let (global, newest): (SelectorGlobal, u32) = if *interface == "wl_compositor".to_owned() {
            (SelectorGlobal::Compositor, 4)
        } else if *interface == "wl_shm".to_owned() {
            (SelectorGlobal::Shm, 1)
        } else if *interface == "wl_seat".to_owned() {
            (SelectorGlobal::Seat, 7)
        } else if *interface == "wl_output".to_owned() {
            (SelectorGlobal::Output, 3)
        } else if *interface == "zwlr_layer_shell_v1".to_owned() {
            (SelectorGlobal::LayerShell, 4)
        } else {
            return None;
        };
        match global {
            SelectorGlobal::Compositor => {
                self.has_compositor = true;
            },
            SelectorGlobal::Shm => {
                self.has_shm = true;
            },
            SelectorGlobal::Seat => {
                self.has_seat = true;
            },
            SelectorGlobal::Output => {},
            SelectorGlobal::LayerShell => {
                self.has_layer_shell = true;
            },
        }
        Some((global, if version <= newest {
            version
        } else {
            newest
        }))
    }

    /// The compositor has what the overlay needs.
    pub fn check_protocols(&self) -> (r: Result<(), SelectorError>)
        ensures
            r == self.usable(),
            r == if self.has_layer_shell {
                Ok::<(), SelectorError>(())
            } else {
                Err(SelectorError::NoLayerShell)
            },
    {
        if self.has_layer_shell {
            Ok(())
        } else {
            Err(SelectorError::NoLayerShell)
        }
    }

    /// An output announces a mode. One without an area is ignored.
    pub fn on_output_mode(&mut self, width: i32, height: i32)
        ensures
            *final(self) == old(self).with_mode(width, height),
            *final(self) == if width > 0 && height > 0 {
                SelectorState {
                    screen_w: width as u32,
                    screen_h: height as u32,
                    output_ready: true,
                    ..*old(self)
                }
            } else {
                *old(self)
            },
    {
        if width > 0 && height > 0 {
            self.screen_w = width as u32;
            self.screen_h = height as u32;
            self.output_ready = true;
        }
    }

    /// Says whether to create the surface now: once, as soon as the compositor, shared memory, the
    /// layer shell and the size of the output are there.
    pub fn try_create_surface(&mut self) -> (r: bool)
        ensures
            r == old(self).wants_surface(),
            r == (!old(self).has_surface && old(self).has_compositor && old(self).has_shm && old(
                self,
            ).has_layer_shell && old(self).output_ready),
            *final(self) == (SelectorState { has_surface: old(self).has_surface || r, ..*old(self) }),
    {
        if self.has_surface || !self.has_compositor || !self.has_shm || !self.has_layer_shell
            || !self.output_ready {
            return false;
        }
        self.has_surface = true;
        true
    }

    /// The surface is shown on an output, which has this registry name.
    pub fn on_surface_enter(&mut self, output: u32)
        ensures
            *final(self) == old(self).shown_on(output),
            *final(self) == (SelectorState { output_global_name: output, ..*old(self) }),
    {
        self.output_global_name = output;
    }

    /// The compositor gives the surface a size, or leaves it to the output's.
    pub fn on_configure(&mut self, width: u32, height: u32)
        ensures
            *final(self) == old(self).configured(width, height),
            *final(self) == (SelectorState {
                canvas_w: if width > 0 {
                    width
                } else {
                    old(self).screen_w
                },
                canvas_h: if height > 0 {
                    height
                } else {
                    old(self).screen_h
                },
                ..*old(self)
            }),
    {
        self.canvas_w = if width > 0 {
            width
        } else {
            self.screen_w
        };
        self.canvas_h = if height > 0 {
            height
        } else {
            self.screen_h
        };
    }

    /// The buffer that the overlay needs. Without shared memory or a canvas there is none.
    pub fn overlay_layout(&self) -> (r: Option<OverlayLayout>)
        ensures
            r == self.layout(),
            match r {
                Some(layout) => self.has_shm && self.canvas_w > 0 && self.canvas_h > 0
                    && layout.width == self.canvas_w && layout.height == self.canvas_h
                    && layout.stride == self.canvas_w * 4 && layout.size == 4 * (self.canvas_h
                    * self.canvas_w),
                None => !self.has_shm || self.canvas_w == 0 || self.canvas_h == 0,
            },
    {
        let (w, h) = (self.canvas_w, self.canvas_h);
        if !self.has_shm || w == 0 || h == 0 {
            return None;
        }
        assert(0 <= h * w <= u32::MAX * u32::MAX) by (nonlinear_arith)
            requires
                0 <= h <= u32::MAX,
                0 <= w <= u32::MAX,
        ;
        let area: u128 = h as u128 * w as u128;
        Some(OverlayLayout { width: w, height: h, stride: w as u64 * 4, size: 4 * area })
    }

    /// The buffer of the overlay was made.
    pub fn on_overlay_created(&mut self)
        ensures
            *final(self) == old(self).with_overlay(),
            *final(self) == (SelectorState { overlay_ready: true, ..*old(self) }),
    {
        self.overlay_ready = true;
    }

    /// The buffer of the overlay could not be made, which ends the selection.
    pub fn on_overlay_error(&mut self, message: String)
        ensures
            *final(self) == old(self).with_error(message),
            *final(self) == (SelectorState { init_error: Some(message), done: true, ..*old(self) }),
    {
        self.init_error = Some(message);
        self.done = true;
    }

    /// The seat announces its devices. Returns whether to get a pointer, which is done once, and
    /// whether to get a keyboard.
    pub fn on_capabilities(&mut self, pointer: bool, keyboard: bool) -> (r: (bool, bool))
        ensures
            r.0 == old(self).wants_pointer(pointer),
            r.0 == (pointer && !old(self).has_pointer),
            r.1 == keyboard,
            *final(self) == (SelectorState { has_pointer: old(self).has_pointer || r.0, ..*old(self) }),
    {
        let get_pointer = pointer && !self.has_pointer;
        if get_pointer {
            self.has_pointer = true;
        }
        (get_pointer, keyboard)
    }

    /// The corners of the drag, once there are two.
    pub fn current_selection(&self) -> (r: Option<Selection>)
        ensures
            r == self.selection(),
    {
        match (self.drag_start, self.drag_end) {
            (Some((ax, ay)), Some((bx, by))) => Some((ax, ay, bx, by)),
            _ => None,
        }
    }

    /// The rectangle that was dragged out, unless it is too small.
    pub fn result_rect(&self) -> (r: Option<Rect>)
        ensures
            r == self.rectangle(),
            r == match self.selection() {
                Some(sel) => rect_between(sel),
                None => None,
            },
    {
        match self.current_selection() {
            Some((ax, ay, bx, by)) => {
                let (x1, x2): (i32, i32) = if ax <= bx {
                    (ax, bx)
                } else {
                    (bx, ax)
                };
                let (y1, y2): (i32, i32) = if ay <= by {
                    (ay, by)
                } else {
                    (by, ay)
                };
                let width: i64 = x2 as i64 - x1 as i64;
                let height: i64 = y2 as i64 - y1 as i64;
                if width < 2 || height < 2 {
                    None
                } else {
                    Some(Rect { x: x1, y: y1, width: width as u32, height: height as u32 })
                }
            },
            None => None,
        }
    }

    /// Asks for a redraw. At most one frame is under way at a time.
    pub fn schedule_redraw(&mut self, sel: Option<Selection>) -> (r: Redraw)
        ensures
            (*final(self), r) == old(self).scheduled(sel),
    {
        if self.frame_pending {
            self.pending_sel = Some(sel);
            Redraw::Nothing
        } else {
            Redraw::Draw(sel)
        }
    }

    fn refresh(&mut self) -> (r: Redraw)
        ensures
            (*final(self), r) == old(self).refreshed(),
    {
        if self.canvas_w > 0 {
            let sel = self.current_selection();
            self.schedule_redraw(sel)
        } else {
            Redraw::Nothing
        }
    }

    /// The pointer enters the surface.
    pub fn on_pointer_enter(&mut self, x: i32, y: i32) -> (r: Redraw)
        ensures
            (*final(self), r) == old(self).entered(x, y).refreshed(),
            final(self).valid(),
    {
        self.cursor_pos = Some(pixel_at(x, y));
        self.refresh()
    }

    fn track(&mut self, x: i32, y: i32)
        ensures
            *final(self) == old(self).moved(x, y),
    {
        let start: Option<(i32, i32)> = if self.pressing {
            self.drag_start
        } else {
            Some((x, y))
        };
        self.cursor_pos = Some(pixel_at(x, y));
        self.drag_end = Some((x, y));
        self.drag_start = start;
    }

    /// The pointer moves.
    pub fn on_motion(&mut self, x: i32, y: i32) -> (r: Redraw)
        ensures
            (*final(self), r) == old(self).moved(x, y).refreshed(),
            final(self).valid(),
    {
        self.track(x, y);
        self.refresh()
    }

    /// A button is used.
    pub fn on_button(&mut self, button: u32, state: ButtonState)
        ensures
            *final(self) == old(self).clicked(button, state),
    {
        if button == BTN_RIGHT {
            self.cancelled = true;
            self.done = true;
        } else if button == BTN_LEFT {
            match state {
                ButtonState::Pressed => {
                    self.pressing = true;
                    if self.drag_end.is_some() {
                        self.drag_start = self.drag_end;
                    }
                },
                ButtonState::Released => {
                    self.pressing = false;
                    self.done = true;
                },
                ButtonState::Other => {},
            }
        }
    }

    /// A key is used.
    pub fn on_key(&mut self, key: u32, pressed: bool)
        ensures
            *final(self) == old(self).typed(key, pressed),
    {
        if key == KEY_ESC && pressed {
            self.cancelled = true;
            self.done = true;
        }
    }

    /// The compositor has shown the last frame.
    pub fn on_frame_done(&mut self) -> (r: Redraw)
        ensures
            (*final(self), r) == old(self).frame_shown(),
    {
        self.frame_pending = false;
        let pending = self.pending_sel;
        self.pending_sel = None;
        match pending {
            Some(sel) => Redraw::Draw(sel),
            None => Redraw::Nothing,
        }
    }

    /// Draws a frame into the buffer of the overlay. Returns what the surface has to show anew, or
    /// `None` where no frame can be drawn yet.
    pub fn do_frame(&mut self, pixels: &mut [u8], selection: Option<Selection>) -> (r: Option<Damage>)
        requires
            old(self).valid(),
            old(self).can_draw() && selection is Some ==> old(self).canvas_w >= 3 && old(
                self,
            ).canvas_h >= 3,
        ensures
            final(self).valid(),
            r is Some <==> old(self).can_draw(),
            *final(self) == old(self).drawn(selection),
            match r {
                Some(damage) => {
                    let s = *old(self);
                    let (w, h) = (s.canvas_w, s.canvas_h);
                    let cur_sel = match selection {
                        Some(sel) => Some(selection_box(w, h, sel)),
                        None => None,
                    };
                    let cur_cursor = match s.cursor_pos {
                        Some(c) => Some(cursor_box(w, h, c)),
                        None => None,
                    };
                    &&& final(pixels)@ == repainted(
                        old(pixels)@,
                        w,
                        h,
                        s.prev_sel,
                        s.prev_cursor_bbox,
                        selection,
                        s.cursor_pos,
                    )
                    &&& damage == damage_of(
                        w,
                        h,
                        joined_box(
                            joined_box(joined_box(s.prev_sel, cur_sel), s.prev_cursor_bbox),
                            cur_cursor,
                        ),
                    )
                },
                None => final(pixels)@ == old(pixels)@,
            },
    {
        if self.canvas_w == 0 || self.canvas_h == 0 || !self.overlay_ready || !self.has_surface {
            return None;
        }
        let painted = repaint(
            pixels,
            self.canvas_w,
            self.canvas_h,
            self.prev_sel,
            self.prev_cursor_bbox,
            selection,
            self.cursor_pos,
        );
        self.prev_sel = painted.selection;
        self.prev_cursor_bbox = painted.crosshair;
        self.frame_pending = true;
        Some(painted.damage)
    }

    /// The result of the selection: the rectangle and the output it lies on, nothing where the
    /// user has cancelled or the rectangle is too small, or why the overlay could not be shown.
    pub fn outcome(&self) -> (r: Result<Option<(Rect, u32)>, String>)
        ensures
            match (r, self.answer()) {
                (Ok(a), Ok(b)) => a == b,
                (Err(a), Err(b)) => a@ == b,
                _ => false,
            },
            match r {
                Err(message) => self.init_error matches Some(m) && message@ == m@,
                Ok(selected) => self.init_error is None && selected == self.selected(),
            },
    {
        if let Some(message) = &self.init_error {
            return Err(message.clone());
        }
        if self.cancelled {
            return Ok(None);
        }
        match self.result_rect() {
            Some(rect) => Ok(Some((rect, self.output_global_name))),
            None => Ok(None),
        }
    }
}

fn pixel_at(x: i32, y: i32) -> (r: (u32, u32))
    ensures
        r == cursor_at(x, y),
{
    (if x >= 0 {
        x as u32
    } else {
        0
    }, if y >= 0 {
        y as u32
    } else {
        0
    })
}

/// Where the pointer is after events, if it was at a point before them: where it moved to last.
pub open spec fn last_motion(start: (i32, i32), events: Seq<SelectorEvent>) -> (i32, i32)
    decreases events.len(),
{
    if events.len() == 0 {
        start
    } else {
        match events.last() {
            SelectorEvent::Motion(x, y) => (x, y),
            _ => last_motion(start, events.drop_last()),
        }
    }
}

/// An event that neither ends a drag nor starts one anew: all but what the left and the right
/// button do, and the escape key.
pub open spec fn keeps_dragging(event: SelectorEvent) -> bool {
    match event {
        SelectorEvent::Button(button, state) => button != BTN_LEFT && button != BTN_RIGHT || button
            == BTN_LEFT && state == ButtonState::Other,
        SelectorEvent::Key(key, pressed) => !(key == KEY_ESC && pressed),
        _ => true,
    }
}

/// While the left button is down the drag starts where it did and ends where the pointer was last.
proof fn lemma_drag_goes_on(s: SelectorState, start: (i32, i32), events: Seq<SelectorEvent>)
    requires
        s.pressing,
        !s.cancelled,
        s.drag_start == Some(start),
        s.drag_end == Some(start),
        forall|i: int| 0 <= i < events.len() ==> keeps_dragging(#[trigger] events[i]),
    ensures
        s.after_all(events).pressing,
        !s.after_all(events).cancelled,
        s.after_all(events).drag_start == Some(start),
        s.after_all(events).drag_end == Some(last_motion(start, events)),
        s.after_all(events).output_global_name == s.output_global_name,
    decreases events.len(),
{
    if events.len() > 0 {
        let before = events.drop_last();
        assert forall|i: int| 0 <= i < before.len() implies keeps_dragging(
            #[trigger] before[i],
        ) by {
            assert(before[i] == events[i]);
        }
        lemma_drag_goes_on(s, start, before);
        assert(keeps_dragging(events[events.len() - 1]));
    }
}

/// A drag selects the rectangle between where the left button goes down and where the pointer was
/// when it came up, however often the pointer has moved on the way and whatever was drawn.
pub proof fn law_drag_selects_the_rectangle(
    s: SelectorState,
    ax: i32,
    ay: i32,
    events: Seq<SelectorEvent>,
)
    requires
        !s.pressing,
        !s.cancelled,
        forall|i: int| 0 <= i < events.len() ==> keeps_dragging(#[trigger] events[i]),
    ensures
        ({
            let down = s.after(SelectorEvent::Motion(ax, ay)).after(
                SelectorEvent::Button(BTN_LEFT, ButtonState::Pressed),
            );
            let up = down.after_all(events).after(
                SelectorEvent::Button(BTN_LEFT, ButtonState::Released),
            );
            let (bx, by) = last_motion((ax, ay), events);
            &&& up.done
            &&& up.selection() == Some((ax, ay, bx, by))
            &&& up.selected() == match rect_between((ax, ay, bx, by)) {
                Some(rect) => Some((rect, s.output_global_name)),
                None => None::<(Rect, u32)>,
            }
        }),
{
    let down = s.after(SelectorEvent::Motion(ax, ay)).after(
        SelectorEvent::Button(BTN_LEFT, ButtonState::Pressed),
    );
    lemma_drag_goes_on(down, (ax, ay), events);
}

/// It does not matter from which corner to which a rectangle is dragged out.
pub proof fn law_drag_direction_does_not_matter(ax: i32, ay: i32, bx: i32, by: i32)
    ensures
        rect_between((ax, ay, bx, by)) == rect_between((bx, by, ax, ay)),
        rect_between((ax, ay, bx, by)) == rect_between((ax, by, bx, ay)),
        rect_between((ax, ay, bx, by)) == rect_between((bx, ay, ax, by)),
{
}

/// A rectangle that is selected has an area, and its edges are those of the drag.
pub proof fn law_selected_rectangle_spans_the_drag(ax: i32, ay: i32, bx: i32, by: i32)
    ensures
        rect_between((ax, ay, bx, by)) matches Some(rect) ==> {
            &&& rect.width >= 2
            &&& rect.height >= 2
            &&& rect.x <= ax <= rect.x + rect.width
            &&& rect.x <= bx <= rect.x + rect.width
            &&& rect.y <= ay <= rect.y + rect.height
            &&& rect.y <= by <= rect.y + rect.height
            &&& rect.x == ax || rect.x == bx
            &&& rect.x + rect.width == ax || rect.x + rect.width == bx
            &&& rect.y == ay || rect.y == by
            &&& rect.y + rect.height == ay || rect.y + rect.height == by
        },
{
}

/// A selection that was cancelled stays cancelled.
pub proof fn law_cancelled_for_good(s: SelectorState, events: Seq<SelectorEvent>)
    requires
        s.cancelled,
    ensures
        s.after_all(events).cancelled,
        s.after_all(events).selected() is None,
    decreases events.len(),
{
    if events.len() > 0 {
        law_cancelled_for_good(s, events.drop_last());
    }
}

/// The right button and the escape key cancel: nothing is selected then, whatever was dragged out
/// before and whatever happens after.
pub proof fn law_cancel_selects_nothing(
    s: SelectorState,
    state: ButtonState,
    events: Seq<SelectorEvent>,
)
    ensures
        s.clicked(BTN_RIGHT, state).done,
        s.clicked(BTN_RIGHT, state).cancelled,
        s.clicked(BTN_RIGHT, state).after_all(events).cancelled,
        s.clicked(BTN_RIGHT, state).after_all(events).selected() is None,
        s.typed(KEY_ESC, true).done,
        s.typed(KEY_ESC, true).cancelled,
        s.typed(KEY_ESC, true).after_all(events).cancelled,
        s.typed(KEY_ESC, true).after_all(events).selected() is None,
{
    law_cancelled_for_good(s.clicked(BTN_RIGHT, state), events);
    law_cancelled_for_good(s.typed(KEY_ESC, true), events);
}

/// Every event keeps the invariant, and none undoes a cancellation or takes back that the selector
/// is done.
pub proof fn law_every_event_keeps_the_end(s: SelectorState, event: SelectorEvent)
    ensures
        s.cancelled ==> s.after(event).cancelled,
        s.done ==> s.after(event).done,
        s.valid() ==> s.after(event).valid(),
{
}

/// While a frame is under way no other is drawn, and of the redraws asked for meanwhile the last
/// one is drawn when it has been shown.
pub proof fn law_latest_redraw_wins(
    s: SelectorState,
    first: Option<Selection>,
    second: Option<Selection>,
)
    requires
        s.frame_pending,
    ensures
        ({
            let (s1, r1) = s.scheduled(first);
            let (s2, r2) = s1.scheduled(second);
            &&& r1 == Redraw::Nothing
            &&& r2 == Redraw::Nothing
            &&& s2.frame_shown().1 == Redraw::Draw(second)
            &&& s2.frame_shown().0.frame_shown().1 == Redraw::Nothing
        }),
{
}

} // verus!
