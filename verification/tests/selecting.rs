use scrollshot::overlay::{
    crosshair_bbox, draw_crosshair, draw_selection, fill_background, fill_rect, repaint, Damage,
    CLEAR, DIM, WHITE,
};
use scrollshot::selector::{
    ButtonState, OverlayLayout, Redraw, SelectorError, SelectorGlobal, SelectorState, BTN_LEFT,
    BTN_RIGHT, KEY_ESC,
};
use scrollshot::Rect;

fn canvas(w: u32, h: u32) -> Vec<u8> {
    let mut buf = vec![1; (w * h * 4) as usize];
    fill_background(&mut buf);
    buf
}

fn pixel(buf: &[u8], w: u32, x: u32, y: u32) -> u32 {
    let i = ((y * w + x) * 4) as usize;
    u32::from_le_bytes([buf[i], buf[i + 1], buf[i + 2], buf[i + 3]])
}

#[test]
fn background_is_dim() {
    assert_eq!(canvas(1, 2), vec![0, 0, 0, 0x88, 0, 0, 0, 0x88]);
}

#[test]
fn a_rectangle_is_filled_with_its_edges() {
    let mut buf = canvas(6, 5);
    fill_rect(&mut buf, 6, 1, 2, 3, 3, 0x11223344);
    for y in 0..5 {
        for x in 0..6 {
            let inside = (1..=3).contains(&x) && (2..=3).contains(&y);
            assert_eq!(pixel(&buf, 6, x, y), if inside { 0x11223344 } else { DIM });
        }
    }
    assert_eq!(&buf[(2 * 6 + 1) * 4..][..4], &[0x44, 0x33, 0x22, 0x11]);
}

#[test]
fn rows_that_do_not_fit_are_left_out() {
    let mut buf = canvas(4, 4);
    fill_rect(&mut buf, 4, 2, 3, 5, 9, WHITE);
    assert_eq!(buf, canvas(4, 4));
    fill_rect(&mut buf, 4, 2, 2, 3, u32::MAX, WHITE);
    assert_eq!(pixel(&buf, 4, 3, 3), WHITE);
    assert_eq!(pixel(&buf, 4, 1, 3), DIM);
}

#[test]
fn columns_behind_the_edge_are_those_of_the_next_row() {
    let mut buf = canvas(4, 3);
    fill_rect(&mut buf, 4, 3, 0, 4, 0, WHITE);
    assert_eq!(pixel(&buf, 4, 3, 0), WHITE);
    assert_eq!(pixel(&buf, 4, 0, 1), WHITE);
    assert_eq!(pixel(&buf, 4, 1, 1), DIM);
}

#[test]
fn an_empty_rectangle_fills_nothing() {
    let mut buf = canvas(4, 4);
    fill_rect(&mut buf, 4, 2, 2, 1, 2, WHITE);
    fill_rect(&mut buf, 4, 1, 3, 2, 2, WHITE);
    assert_eq!(buf, canvas(4, 4));
}

#[test]
fn a_selection_is_transparent_in_a_white_border() {
    let mut buf = canvas(20, 20);
    draw_selection(&mut buf, 20, 20, 12, 11, 5, 6);
    for y in 0..20 {
        for x in 0..20 {
            let inside = (5..=12).contains(&x) && (6..=11).contains(&y);
            let outline = (3..=14).contains(&x) && (4..=13).contains(&y);
            let expected = if inside {
                CLEAR
            } else if outline {
                WHITE
            } else {
                DIM
            };
            assert_eq!(pixel(&buf, 20, x, y), expected);
        }
    }
}

#[test]
fn the_border_stays_on_the_canvas() {
    let mut buf = canvas(8, 8);
    draw_selection(&mut buf, 8, 8, -5, 0, 100, 7);
    for y in 0..8 {
        for x in 0..8 {
            let border = x < 2 || x > 5 || y < 2 || y > 5;
            assert_eq!(pixel(&buf, 8, x, y), if border { WHITE } else { CLEAR });
        }
    }
}

#[test]
fn a_crosshair_has_four_arms_around_a_gap() {
    let mut buf = canvas(40, 40);
    draw_crosshair(&mut buf, 40, 40, 20, 18);
    for y in 0..40u32 {
        for x in 0..40u32 {
            let (dx, dy) = (x.abs_diff(20), y.abs_diff(18));
            let arm = (dy <= 1 && (4..=14).contains(&dx)) || (dx <= 1 && (4..=14).contains(&dy));
            assert_eq!(pixel(&buf, 40, x, y), if arm { WHITE } else { DIM });
        }
    }
    assert_eq!(crosshair_bbox(20, 18, 40, 40), (6, 4, 34, 32));
}

#[test]
fn near_an_edge_an_arm_paints_into_the_gap() {
    let mut buf = canvas(40, 40);
    draw_crosshair(&mut buf, 40, 40, 4, 20);
    assert_eq!(pixel(&buf, 40, 1, 20), DIM);
    let mut buf = canvas(40, 40);
    draw_crosshair(&mut buf, 40, 40, 3, 20);
    assert_eq!(pixel(&buf, 40, 0, 20), WHITE);
}

#[test]
fn the_box_of_a_crosshair_stays_on_the_canvas() {
    assert_eq!(crosshair_bbox(3, 38, 40, 40), (0, 24, 17, 39));
    assert_eq!(crosshair_bbox(3, 3, 0, 0), (0, 0, 0, 0));
}

#[test]
fn a_crosshair_stays_inside_its_box() {
    for (cx, cy) in [(0, 0), (39, 39), (2, 20), (41, 50)] {
        let mut buf = canvas(40, 40);
        draw_crosshair(&mut buf, 40, 40, cx, cy);
        let (l, t, r, b) = crosshair_bbox(cx, cy, 40, 40);
        for y in 0..40 {
            for x in 0..40 {
                if pixel(&buf, 40, x, y) != DIM {
                    assert!(l <= x && x <= r && t <= y && y <= b);
                }
            }
        }
    }
}

#[test]
fn a_first_repaint_damages_the_whole_canvas() {
    let mut buf = canvas(30, 20);
    let r = repaint(&mut buf, 30, 20, None, None, None, None);
    assert_eq!(r.damage, Damage { x: 0, y: 0, width: 30, height: 20 });
    assert_eq!((r.selection, r.crosshair), (None, None));
    assert_eq!(buf, canvas(30, 20));
}

#[test]
fn damage_is_the_box_around_everything() {
    let mut buf = canvas(100, 100);
    let sel = Some((30, 40, 50, 45));
    let r = repaint(&mut buf, 100, 100, Some((10, 60, 12, 70)), None, sel, Some((90, 20)));
    assert_eq!(r.selection, Some((27, 37, 53, 48)));
    assert_eq!(r.crosshair, Some((76, 6, 99, 34)));
    assert_eq!(r.damage, Damage { x: 10, y: 6, width: 90, height: 65 });
}

#[test]
fn a_repaint_leaves_nothing_behind() {
    let steps = [
        (Some((10, 10, 30, 20)), Some((30, 20))),
        (Some((10, 10, 2, 47)), Some((2, 47))),
        (Some((10, 10, -8, 90)), Some((0, 49))),
        (None, Some((25, 25))),
        (None, None),
    ];
    let mut buf = canvas(50, 50);
    let (mut sel_box, mut cursor_box) = (None, None);
    for (sel, cursor) in steps {
        let before = buf.clone();
        let r = repaint(&mut buf, 50, 50, sel_box, cursor_box, sel, cursor);
        let mut full = canvas(50, 50);
        repaint(&mut full, 50, 50, None, None, sel, cursor);
        assert_eq!(buf, full);
        for y in 0..50 {
            for x in 0..50 {
                if pixel(&buf, 50, x, y) != pixel(&before, 50, x, y) {
                    let (x, y, d) = (x as i64, y as i64, r.damage);
                    assert!(d.x <= x && x < d.x + d.width && d.y <= y && y < d.y + d.height);
                }
            }
        }
        sel_box = r.selection;
        cursor_box = r.crosshair;
    }
    assert_eq!(buf, canvas(50, 50));
}

#[test]
fn globals_of_the_selector_are_bound_in_versions_that_are_known() {
    let mut s = SelectorState::new();
    let mut bind = |interface: &str, version| s.on_global(&interface.to_string(), version);
    assert_eq!(bind("wl_compositor", 6), Some((SelectorGlobal::Compositor, 4)));
    assert_eq!(bind("wl_shm", 1), Some((SelectorGlobal::Shm, 1)));
    assert_eq!(bind("wl_seat", 8), Some((SelectorGlobal::Seat, 7)));
    assert_eq!(bind("wl_output", 2), Some((SelectorGlobal::Output, 2)));
    assert_eq!(bind("zwlr_layer_shell_v1", 9), Some((SelectorGlobal::LayerShell, 4)));
    assert_eq!(bind("xdg_wm_base", 9), None);
    assert!(s.has_compositor && s.has_shm && s.has_seat && s.has_layer_shell);
}

#[test]
fn the_surface_is_created_once() {
    let mut s = SelectorState::new();
    assert!(!s.try_create_surface());
    s.on_global(&"wl_compositor".to_string(), 4);
    s.on_global(&"wl_shm".to_string(), 1);
    s.on_global(&"zwlr_layer_shell_v1".to_string(), 4);
    assert!(!s.try_create_surface());
    s.on_output_mode(0, 100);
    assert!(!s.try_create_surface());
    s.on_output_mode(200, 100);
    assert!(s.try_create_surface());
    assert!(s.has_surface);
    assert!(!s.try_create_surface());
}

#[test]
fn the_surface_needs_everything_that_goes_with_it() {
    let globals = ["wl_compositor", "wl_shm", "zwlr_layer_shell_v1"];
    for missing in globals {
        let mut s = SelectorState::new();
        s.on_output_mode(200, 100);
        for global in globals {
            if global != missing {
                s.on_global(&global.to_string(), 1);
            }
        }
        assert!(!s.try_create_surface());
        assert!(!s.has_surface);
        s.on_global(&missing.to_string(), 1);
        assert!(s.try_create_surface());
    }
}

#[test]
fn a_compositor_without_a_layer_shell_is_an_error() {
    let mut s = SelectorState::new();
    s.on_global(&"wl_compositor".to_string(), 4);
    assert_eq!(s.check_protocols(), Err(SelectorError::NoLayerShell));
    s.on_global(&"zwlr_layer_shell_v1".to_string(), 4);
    assert_eq!(s.check_protocols(), Ok(()));
}

#[test]
fn the_canvas_has_the_size_of_the_surface_or_the_output() {
    let mut s = SelectorState::new();
    s.on_output_mode(200, 100);
    s.on_configure(0, 80);
    assert_eq!((s.canvas_w, s.canvas_h), (200, 80));
    assert_eq!(s.overlay_layout(), None);
    s.on_global(&"wl_shm".to_string(), 1);
    assert_eq!(
        s.overlay_layout(),
        Some(OverlayLayout { width: 200, height: 80, stride: 800, size: 64000 })
    );
    s.on_configure(70000, 70000);
    assert_eq!(s.overlay_layout().unwrap().size, 19600000000);
}

#[test]
fn devices_are_taken_as_they_come() {
    let mut s = SelectorState::new();
    assert_eq!(s.on_capabilities(false, false), (false, false));
    assert_eq!(s.on_capabilities(true, true), (true, true));
    assert_eq!(s.on_capabilities(true, true), (false, true));
}

fn drag(ax: i32, ay: i32, bx: i32, by: i32) -> SelectorState {
    let mut s = SelectorState::new();
    s.on_surface_enter(42);
    s.on_motion(1, 1);
    s.on_motion(ax, ay);
    s.on_button(BTN_LEFT, ButtonState::Pressed);
    s.on_motion(5, 7);
    s.on_motion(bx, by);
    s.on_button(BTN_LEFT, ButtonState::Released);
    s
}

#[test]
fn a_drag_selects_a_rectangle() {
    let rect = Rect { x: 10, y: 20, width: 30, height: 5 };
    for s in [drag(10, 20, 40, 25), drag(40, 25, 10, 20), drag(40, 20, 10, 25)] {
        assert!(s.done);
        assert_eq!(s.result_rect(), Some(rect));
        assert_eq!(s.outcome(), Ok(Some((rect, 42))));
    }
}

#[test]
fn small_rectangles_are_not_selected() {
    assert_eq!(drag(10, 20, 11, 40).outcome(), Ok(None));
    assert_eq!(drag(10, 20, 30, 21).outcome(), Ok(None));
    assert!(drag(10, 20, 12, 22).outcome().unwrap().is_some());
    let wide = drag(i32::MIN, 0, i32::MAX, 9).result_rect();
    assert_eq!(wide, Some(Rect { x: i32::MIN, y: 0, width: u32::MAX, height: 9 }));
}

#[test]
fn a_click_without_motion_selects_nothing() {
    let mut s = SelectorState::new();
    s.on_button(BTN_LEFT, ButtonState::Pressed);
    s.on_button(BTN_LEFT, ButtonState::Released);
    assert!(s.done);
    assert_eq!(s.current_selection(), None);
    assert_eq!(s.outcome(), Ok(None));
}

#[test]
fn the_right_button_and_the_escape_key_cancel() {
    let mut s = drag(10, 20, 40, 60);
    s.on_button(BTN_RIGHT, ButtonState::Released);
    assert_eq!(s.outcome(), Ok(None));
    let mut s = drag(10, 20, 40, 60);
    s.on_key(KEY_ESC, false);
    s.on_key(30, true);
    assert!(s.outcome().unwrap().is_some());
    s.on_key(KEY_ESC, true);
    s.on_motion(100, 100);
    assert!(s.done && s.cancelled);
    assert_eq!(s.outcome(), Ok(None));
}

#[test]
fn only_the_ends_of_a_drag_count() {
    let mut s = SelectorState::new();
    s.on_surface_enter(7);
    s.on_configure(100, 100);
    s.on_motion(10, 20);
    s.on_button(BTN_LEFT, ButtonState::Pressed);
    s.frame_pending = true;
    for (x, y) in [(90, 90), (0, 0), (-5, 300), (12, 21)] {
        assert_eq!(s.on_motion(x, y), Redraw::Nothing);
    }
    assert_eq!(s.on_frame_done(), Redraw::Draw(Some((10, 20, 12, 21))));
    s.on_key(30, true);
    s.on_pointer_enter(1, 1);
    s.on_motion(40, 60);
    s.on_button(0x112, ButtonState::Pressed);
    s.on_button(BTN_LEFT, ButtonState::Released);
    assert!(s.done && !s.pressing);
    assert_eq!(s.current_selection(), Some((10, 20, 40, 60)));
    let rect = Rect { x: 10, y: 20, width: 30, height: 40 };
    assert_eq!(s.outcome(), Ok(Some((rect, 7))));
}

#[test]
fn a_cancelled_selection_stays_cancelled() {
    let mut s = SelectorState::new();
    s.on_configure(100, 100);
    s.on_button(BTN_RIGHT, ButtonState::Pressed);
    s.on_pointer_enter(3, 4);
    s.on_motion(10, 20);
    s.on_button(BTN_LEFT, ButtonState::Pressed);
    s.on_motion(40, 60);
    s.on_frame_done();
    s.on_key(KEY_ESC, false);
    s.on_button(BTN_LEFT, ButtonState::Released);
    assert!(s.done && s.cancelled);
    assert_eq!(s.result_rect(), Some(Rect { x: 10, y: 20, width: 30, height: 40 }));
    assert_eq!(s.outcome(), Ok(None));
}

#[test]
fn other_buttons_do_nothing() {
    let mut s = SelectorState::new();
    s.on_button(0x112, ButtonState::Pressed);
    s.on_button(BTN_LEFT, ButtonState::Other);
    assert!(!s.done && !s.pressing && !s.cancelled);
}

#[test]
fn an_overlay_that_cannot_be_made_is_an_error() {
    let mut s = drag(10, 20, 40, 60);
    s.on_overlay_error("no memory".to_string());
    assert!(s.done);
    assert_eq!(s.outcome(), Err("no memory".to_string()));
}

#[test]
fn one_frame_is_under_way_at_a_time() {
    let mut s = SelectorState::new();
    s.on_configure(100, 100);
    assert_eq!(s.schedule_redraw(None), Redraw::Draw(None));
    s.frame_pending = true;
    assert_eq!(s.on_motion(3, 4), Redraw::Nothing);
    assert_eq!(s.on_motion(5, 6), Redraw::Nothing);
    assert_eq!(s.on_frame_done(), Redraw::Draw(Some((5, 6, 5, 6))));
    assert_eq!(s.on_frame_done(), Redraw::Nothing);
}

#[test]
fn without_a_canvas_nothing_is_drawn() {
    let mut s = SelectorState::new();
    assert_eq!(s.on_pointer_enter(3, 4), Redraw::Nothing);
    assert_eq!(s.on_motion(3, 4), Redraw::Nothing);
    let mut buf = canvas(4, 4);
    assert_eq!(s.do_frame(&mut buf, None), None);
    assert_eq!(buf, canvas(4, 4));
    assert!(!s.frame_pending);
}

#[test]
fn frames_show_the_selection_and_the_cursor() {
    let mut s = SelectorState::new();
    s.on_configure(60, 50);
    s.on_overlay_created();
    s.on_global(&"wl_compositor".to_string(), 4);
    s.on_global(&"wl_shm".to_string(), 1);
    s.on_global(&"zwlr_layer_shell_v1".to_string(), 4);
    s.on_output_mode(60, 50);
    assert!(s.try_create_surface());
    let mut buf = canvas(60, 50);
    assert_eq!(s.on_pointer_enter(-3, 20), Redraw::Draw(None));
    assert_eq!(s.cursor_pos, Some((0, 20)));
    let damage = s.do_frame(&mut buf, None);
    assert_eq!(damage, Some(Damage { x: 0, y: 6, width: 15, height: 29 }));
    assert!(s.frame_pending);
    assert_eq!(s.prev_cursor_bbox, Some((0, 6, 14, 34)));
    assert_eq!(pixel(&buf, 60, 10, 20), WHITE);

    s.on_frame_done();
    s.on_motion(40, 40);
    s.on_button(BTN_LEFT, ButtonState::Pressed);
    assert_eq!(s.on_motion(45, 45), Redraw::Draw(Some((40, 40, 45, 45))));
    s.do_frame(&mut buf, Some((40, 40, 45, 45)));
    assert_eq!(s.prev_sel, Some((37, 37, 48, 48)));
    assert_eq!(pixel(&buf, 60, 10, 20), DIM);
    assert_eq!(pixel(&buf, 60, 42, 42), CLEAR);
    assert_eq!(pixel(&buf, 60, 38, 42), WHITE);
}
