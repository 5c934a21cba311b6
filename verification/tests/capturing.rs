use scrollshot::capture_loop::{CaptureAction, CaptureLoop, CapturePhase};
use scrollshot::capture_state::{
    BufferAction, CaptureError, CaptureGlobal, CaptureState, FrameInfo, PointerRequest,
};
use scrollshot::frame::{Frame, Rgba8};
use scrollshot::screencopy::{frame_diff, raw_to_rgba, FrameDiff};
use scrollshot::Rect;

fn solid(w: u32, h: u32, pixel: Rgba8) -> Frame {
    let mut f = Frame::new(w, h);
    for y in 0..h {
        for x in 0..w {
            f.put_pixel(x, y, pixel);
        }
    }
    f
}

fn grey(v: u8) -> Frame {
    solid(8, 8, (v, v, v, 255))
}

#[test]
fn blue_first_formats_are_swapped() {
    let data = [1, 2, 3, 4, 5, 6, 7, 8];
    let argb = raw_to_rgba(&data, 2, 1, 8, 0);
    assert_eq!(argb.get_pixel(0, 0), (3, 2, 1, 4));
    assert_eq!(argb.get_pixel(1, 0), (7, 6, 5, 8));
    let xrgb = raw_to_rgba(&data, 2, 1, 8, 1);
    assert_eq!(xrgb.get_pixel(0, 0), (3, 2, 1, 255));
}

#[test]
fn red_first_formats_are_kept() {
    let data = [1, 2, 3, 4];
    assert_eq!(raw_to_rgba(&data, 1, 1, 4, 0x34324241).get_pixel(0, 0), (1, 2, 3, 4));
    assert_eq!(raw_to_rgba(&data, 1, 1, 4, 0x34324258).get_pixel(0, 0), (1, 2, 3, 255));
}

#[test]
fn rows_start_at_multiples_of_the_stride() {
    let data = [1, 2, 3, 4, 0, 0, 5, 6, 7, 8, 0, 0];
    let f = raw_to_rgba(&data, 1, 2, 6, 0x34324241);
    assert_eq!(f.get_pixel(0, 0), (1, 2, 3, 4));
    assert_eq!(f.get_pixel(0, 1), (5, 6, 7, 8));
}

#[test]
fn pixels_that_are_missing_stay_blank() {
    let data = [1, 2, 3, 4, 5, 6, 7];
    let f = raw_to_rgba(&data, 2, 2, 8, 0x34324241);
    assert_eq!(f.get_pixel(0, 0), (1, 2, 3, 4));
    assert_eq!(f.get_pixel(1, 0), (0, 0, 0, 0));
    assert_eq!(f.get_pixel(0, 1), (0, 0, 0, 0));
}

#[test]
fn difference_is_averaged_over_sampled_channels() {
    let a = solid(9, 5, (10, 10, 10, 255));
    let b = solid(9, 5, (12, 7, 10, 0));
    assert_eq!(frame_diff(&a, &b), FrameDiff { total: 5 * 6, count: 18 });
    assert_eq!(frame_diff(&b, &a), FrameDiff { total: 30, count: 18 });
    assert_eq!(frame_diff(&a, &a), FrameDiff { total: 0, count: 18 });
}

#[test]
fn pixels_between_the_samples_do_not_count() {
    let a = grey(10);
    let mut b = grey(10);
    b.put_pixel(1, 0, (200, 200, 200, 255));
    b.put_pixel(0, 3, (200, 200, 200, 255));
    assert_eq!(frame_diff(&a, &b).total, 0);
    b.put_pixel(4, 4, (20, 10, 10, 255));
    assert_eq!(frame_diff(&a, &b).total, 10);
}

#[test]
fn frames_of_different_size_are_as_far_apart_as_can_be() {
    let d = frame_diff(&solid(4, 4, (0, 0, 0, 0)), &solid(4, 5, (0, 0, 0, 0)));
    assert_eq!(d, FrameDiff { total: 255, count: 1 });
    assert!(!d.is_unchanged());
}

#[test]
fn frames_without_pixels_do_not_differ() {
    let d = frame_diff(&Frame::new(0, 5), &Frame::new(0, 5));
    assert_eq!(d, FrameDiff { total: 0, count: 1 });
    assert!(d.is_unchanged());
}

#[test]
fn the_threshold_is_one_and_a_half() {
    assert!(FrameDiff { total: 2, count: 2 }.is_unchanged());
    assert!(FrameDiff { total: 149, count: 100 }.is_unchanged());
    assert!(!FrameDiff { total: 150, count: 100 }.is_unchanged());
    assert!(!FrameDiff { total: 151, count: 100 }.is_unchanged());
    assert!(!FrameDiff { total: u128::MAX, count: 1 }.is_unchanged());
    assert!(!FrameDiff { total: 0, count: 0 }.is_unchanged());
    for total in 0..400u128 {
        let d = FrameDiff { total, count: 192 };
        assert_eq!(d.is_unchanged(), (total as f64 / 192.0) < 1.5);
    }
}

#[test]
fn capture_waits_until_the_first_frame_is_stable() {
    let mut c = CaptureLoop::new();
    assert_eq!(c.next_action(), CaptureAction::Capture);
    assert!(c.on_frame(grey(0)).is_none());
    assert_eq!(c.next_action(), CaptureAction::SettleAndCapture);
    assert_eq!(c.on_frame(grey(50)).unwrap().total, 50 * 12);
    assert_eq!(c.next_action(), CaptureAction::SettleAndCapture);
    assert_eq!(c.phase, CapturePhase::Stabilizing { attempt: 1 });
    c.on_frame(grey(51));
    assert_eq!(c.next_action(), CaptureAction::ScrollAndCapture);
    let frames = c.into_frames();
    assert_eq!(frames.len(), 1);
    assert_eq!(frames[0].get_pixel(0, 0), (50, 50, 50, 255));
}

#[test]
fn capture_gives_up_waiting_after_ten_attempts() {
    let mut c = CaptureLoop::new();
    c.on_frame(grey(0));
    for i in 1..=10u8 {
        assert_eq!(c.next_action(), CaptureAction::SettleAndCapture);
        c.on_frame(grey(10 * i));
    }
    assert_eq!(c.next_action(), CaptureAction::ScrollAndCapture);
    assert_eq!(c.frames.len(), 1);
    assert_eq!(c.frames[0].get_pixel(0, 0), (100, 100, 100, 255));
}

#[test]
fn capture_stops_after_two_unchanged_frames() {
    let mut c = CaptureLoop::new();
    c.on_frame(grey(0));
    c.on_frame(grey(0));
    c.on_frame(grey(10));
    c.on_frame(grey(10));
    assert_eq!(c.phase, CapturePhase::Scrolling { streak: 1 });
    c.on_frame(grey(20));
    assert_eq!(c.phase, CapturePhase::Scrolling { streak: 0 });
    c.on_frame(grey(20));
    assert_eq!(c.next_action(), CaptureAction::ScrollAndCapture);
    c.on_frame(grey(21));
    assert_eq!(c.next_action(), CaptureAction::Finish);
    assert_eq!(c.phase, CapturePhase::Finished);
    let values: Vec<u8> = c.into_frames().iter().map(|f| f.get_pixel(0, 0).0).collect();
    assert_eq!(values, vec![0, 10, 20]);
}

#[test]
fn capture_stops_at_two_hundred_frames() {
    let mut c = CaptureLoop::new();
    c.on_frame(grey(0));
    c.on_frame(grey(0));
    let mut captured = 0;
    while c.next_action() != CaptureAction::Finish {
        captured += 1;
        c.on_frame(grey(if captured % 2 == 0 { 0 } else { 100 }));
    }
    assert_eq!(captured, 199);
    assert_eq!(c.frames.len(), 200);
}

#[test]
fn capture_always_ends() {
    // Every other frame shows nothing new.
    let mut c = CaptureLoop::new();
    let mut captured = 0;
    while c.next_action() != CaptureAction::Finish {
        c.on_frame(grey(if captured / 2 % 2 == 0 { 0 } else { 100 }));
        captured += 1;
    }
    assert!(captured <= 411);
    assert_eq!(c.frames.len(), 200);
}

fn ready_state() -> CaptureState {
    let mut s = CaptureState::new(0);
    s.on_global(1, &"wl_shm".to_string(), 1);
    s.on_global(2, &"wl_output".to_string(), 4);
    s.on_global(3, &"zwlr_screencopy_manager_v1".to_string(), 3);
    s.on_global(4, &"zwlr_virtual_pointer_manager_v1".to_string(), 2);
    s
}

#[test]
fn globals_are_bound_in_versions_that_are_known() {
    let mut s = CaptureState::new(0);
    assert_eq!(s.on_global(1, &"wl_shm".to_string(), 2), Some((CaptureGlobal::Shm, 1)));
    assert_eq!(s.on_global(2, &"wl_output".to_string(), 2), Some((CaptureGlobal::Output, 2)));
    assert_eq!(s.on_global(3, &"wl_seat".to_string(), 9), Some((CaptureGlobal::Seat, 7)));
    assert_eq!(
        s.on_global(4, &"zwlr_screencopy_manager_v1".to_string(), 5),
        Some((CaptureGlobal::ScreencopyManager, 3))
    );
    assert_eq!(
        s.on_global(5, &"zwlr_virtual_pointer_manager_v1".to_string(), 5),
        Some((CaptureGlobal::VirtualPointerManager, 2))
    );
    assert_eq!(s.on_global(6, &"wl_compositor".to_string(), 5), None);
    assert!(s.has_shm && s.has_output && s.has_seat);
}

#[test]
fn only_the_wanted_output_is_bound() {
    let output = "wl_output".to_string();
    let mut s = CaptureState::new(7);
    assert_eq!(s.on_global(5, &output, 4), None);
    assert_eq!(s.on_global(7, &output, 4), Some((CaptureGlobal::Output, 3)));
    assert_eq!(s.on_global(7, &output, 4), None);
    let mut s = CaptureState::new(0);
    assert_eq!(s.on_global(5, &output, 4), Some((CaptureGlobal::Output, 3)));
    assert_eq!(s.on_global(7, &output, 4), None);
}

#[test]
fn missing_protocols_are_errors() {
    let mut s = CaptureState::new(0);
    assert_eq!(s.check_protocols(), Err(CaptureError::NoScreencopyManager));
    assert_eq!(s.begin_frame(), Err(CaptureError::NoScreencopyManager));
    s.on_global(3, &"zwlr_screencopy_manager_v1".to_string(), 3);
    assert_eq!(s.check_protocols(), Err(CaptureError::NoVirtualPointerManager));
    assert_eq!(s.begin_frame(), Err(CaptureError::NoOutput));
    let region = Rect { x: 0, y: 0, width: 10, height: 10 };
    assert_eq!(s.scroll_requests(region, 0, 2), Err(CaptureError::NoVirtualPointerManager));
    assert_eq!(ready_state().check_protocols(), Ok(()));
}

#[test]
fn a_frame_is_described_then_copied() {
    let mut s = ready_state();
    assert_eq!(s.begin_frame(), Ok(1));
    assert!(!s.frame_settled());
    assert_eq!(s.on_buffer(1, Some(0), 10, 20, 48), BufferAction::Create { size: 960 });
    s.on_buffer_created();
    assert_eq!(s.on_buffer(1, Some(1), 1, 1, 4), BufferAction::Ignore);
    s.on_ready(1);
    assert!(s.frame_settled());
    let info =
        FrameInfo { format: 0, width: 10, height: 20, stride: 48, ready: true, failed: false };
    assert_eq!(s.check_frame(), Ok(info));
    assert_eq!(s.begin_frame(), Ok(2));
    assert_eq!(s.frame_info, FrameInfo::default());
    assert!(!s.has_buffer);
}

#[test]
fn an_unknown_format_is_taken_to_be_xrgb() {
    let mut s = ready_state();
    s.begin_frame().unwrap();
    s.on_buffer(1, None, 1, 1, 4);
    assert_eq!(s.frame_info.format, 1);
}

#[test]
fn events_of_the_frame_before_are_ignored() {
    let mut s = ready_state();
    s.begin_frame().unwrap();
    s.begin_frame().unwrap();
    let before = s;
    s.on_ready(1);
    s.on_failed(1);
    assert_eq!(s.on_buffer(1, Some(0), 1, 1, 4), BufferAction::Ignore);
    assert_eq!(s, before);
    s.current_frame_id = u32::MAX;
    assert_eq!(s.begin_frame(), Ok(0));
}

#[test]
fn a_frame_can_fail() {
    let mut s = ready_state();
    s.begin_frame().unwrap();
    s.on_failed(1);
    assert!(s.frame_settled());
    assert_eq!(s.check_frame(), Err(CaptureError::FrameFailed));

    s.begin_frame().unwrap();
    s.on_ready(2);
    assert_eq!(s.check_frame(), Err(CaptureError::NoBuffer));

    s.begin_frame().unwrap();
    s.on_buffer(3, Some(0), 1, 1, 4);
    s.on_buffer_error();
    assert_eq!(s.check_frame(), Err(CaptureError::FrameFailed));

    s.has_shm = false;
    s.begin_frame().unwrap();
    assert_eq!(s.on_buffer(4, Some(0), 1, 1, 4), BufferAction::Ignore);
    assert_eq!(s.check_frame(), Err(CaptureError::FrameFailed));
}

#[test]
fn output_modes_without_an_area_are_ignored() {
    let mut s = CaptureState::new(0);
    s.on_output_mode(1920, 1080);
    s.on_output_mode(0, 5);
    s.on_output_mode(5, -1);
    assert_eq!((s.output_w, s.output_h), (1920, 1080));
}

#[test]
fn scrolling_turns_the_wheel_in_the_centre_of_the_region() {
    let mut s = ready_state();
    s.on_output_mode(1920, 1080);
    let region = Rect { x: 100, y: 50, width: 31, height: 20 };
    assert_eq!(
        s.scroll_requests(region, 1000, 2),
        Ok(vec![
            PointerRequest::MotionAbsolute {
                time: 1000,
                x: 115,
                y: 60,
                x_extent: 1920,
                y_extent: 1080
            },
            PointerRequest::Frame,
            PointerRequest::AxisSourceWheel,
            PointerRequest::AxisDiscrete { time: 1000, steps: 1 },
            PointerRequest::Frame,
            PointerRequest::AxisSourceWheel,
            PointerRequest::AxisDiscrete { time: 1001, steps: 1 },
            PointerRequest::Frame,
        ])
    );
    assert_eq!(s.scroll_requests(region, u32::MAX, 0).unwrap().len(), 2);
    assert_eq!(s.scroll_requests(region, u32::MAX, -3).unwrap().len(), 2);
    assert_eq!(s.scroll_requests(region, u32::MAX, 1).unwrap().len(), 5);
}

#[test]
fn a_centre_off_the_screen_wraps_around() {
    let s = ready_state();
    let region = Rect { x: -10, y: i32::MAX, width: 4, height: 4 };
    let requests = s.scroll_requests(region, 0, 0).unwrap();
    assert!(matches!(
        requests[0],
        PointerRequest::MotionAbsolute { x: 4294967288, y: 2147483649, .. }
    ));
}
