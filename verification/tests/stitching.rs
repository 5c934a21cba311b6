use scrollshot::frame::{Frame, Rgba8};
use scrollshot::stitch::{
    find_scroll_offset, find_seam, plan_slices, row_sad_fast, row_sad_full, stitch_frames,
    try_stitch_frames, Slice, StitchError,
};

fn frame(w: u32, h: u32, pixel: impl Fn(u32, u32) -> Rgba8) -> Frame {
    let mut f = Frame::new(w, h);
    for y in 0..h {
        for x in 0..w {
            f.put_pixel(x, y, pixel(x, y));
        }
    }
    f
}

/// A page in which each row looks different.
fn page(x: u32, y: u32) -> Rgba8 {
    ((y % 251) as u8, (y * 7 % 253) as u8, (x * 3 + y / 251) as u8, 255)
}

/// A window of the page, 64 rows high.
fn window(top: u32) -> Frame {
    frame(16, 64, |x, y| page(x, top + y))
}

fn assert_shows_page(out: &Frame, top: u32, height: u32) {
    assert_eq!(out.width(), 16);
    assert_eq!(out.height(), height);
    for y in 0..height {
        for x in 0..16 {
            assert_eq!(out.get_pixel(x, y), page(x, top + y));
        }
    }
}

#[test]
fn fresh_frame_is_blank() {
    let f = Frame::new(3, 2);
    assert_eq!((f.width(), f.height()), (3, 2));
    assert_eq!(f.get_pixel(2, 1), (0, 0, 0, 0));
}

#[test]
fn put_pixel_changes_one_pixel() {
    let mut f = Frame::new(2, 2);
    f.put_pixel(1, 0, (1, 2, 3, 4));
    assert_eq!(f.get_pixel(1, 0), (1, 2, 3, 4));
    assert_eq!(f.get_pixel(0, 0), (0, 0, 0, 0));
    assert_eq!(f.get_pixel(0, 1), (0, 0, 0, 0));
    assert_eq!(f.get_pixel(1, 1), (0, 0, 0, 0));
}

#[test]
fn full_distance_sums_the_colour_channels() {
    let a = frame(2, 1, |_, _| (10, 20, 30, 0));
    let b = frame(3, 1, |x, _| (13, 15, 30 + x as u8, 255));
    assert_eq!(row_sad_full(&a, 0, &b, 0), 3 + 5 + 3 + 5 + 1);
    assert_eq!(row_sad_full(&b, 0, &a, 0), 17);
}

#[test]
fn fast_distance_samples_every_fourth_column() {
    let a = frame(9, 1, |_, _| (0, 0, 0, 0));
    let b = frame(9, 1, |x, _| (if x % 4 == 0 { 1 } else { 100 }, 0, 0, 0));
    assert_eq!(row_sad_fast(&a, 0, &b, 0), 3);
    assert_eq!(row_sad_full(&a, 0, &b, 0), 603);
}

#[test]
fn distance_of_rows_without_columns_is_zero() {
    let a = frame(0, 1, |_, _| (0, 0, 0, 0));
    let b = frame(5, 1, |_, _| (9, 9, 9, 9));
    assert_eq!(row_sad_full(&a, 0, &b, 0), 0);
    assert_eq!(row_sad_fast(&a, 0, &b, 0), 0);
}

#[test]
fn scroll_of_a_page_is_found() {
    for s in [1, 5, 17, 31] {
        assert_eq!(find_scroll_offset(&window(0), &window(s)), Some(s));
    }
}

#[test]
fn frames_that_do_not_move_have_no_scroll() {
    assert_eq!(find_scroll_offset(&window(0), &window(0)), None);
}

#[test]
fn small_frames_have_no_scroll() {
    let low = |top: u32| frame(16, 31, |x, y| page(x, top + y));
    assert_eq!(find_scroll_offset(&low(0), &low(5)), None);
    let slim = |top: u32| frame(7, 64, |x, y| page(x, top + y));
    assert_eq!(find_scroll_offset(&slim(0), &slim(5)), None);
    let wide = |top: u32| frame(8, 32, |x, y| page(x, top + y));
    assert_eq!(find_scroll_offset(&wide(0), &wide(5)), Some(5));
}

#[test]
fn five_votes_are_needed() {
    // Only the last rows of the first frame come back in the second; nothing else matches.
    let with_rows = |n: u32| {
        let prev = frame(16, 32, |_, y| (y as u8, 0, 0, 255));
        let next = frame(16, 32, |_, y| {
            if y < n {
                ((32 - n + y) as u8, 0, 0, 255)
            } else {
                (0, 200, y as u8, 255)
            }
        });
        find_scroll_offset(&prev, &next)
    };
    assert_eq!(with_rows(5), Some(27));
    assert_eq!(with_rows(4), None);
}

#[test]
fn of_equally_many_votes_the_smaller_scroll_wins() {
    // Eight rows have moved up by 8, eight others by 16.
    let prev = frame(16, 32, |_, y| ((y * 5) as u8, 0, 0, 255));
    let next = frame(16, 32, |_, y| {
        if y < 8 {
            (((y + 8) * 5) as u8, 0, 0, 255)
        } else if y < 16 {
            (((y + 16) * 5) as u8, 0, 0, 255)
        } else {
            (0, 0, 200, 255)
        }
    });
    assert_eq!(find_scroll_offset(&prev, &next), Some(8));
}

#[test]
fn seam_of_a_small_overlap_is_the_top_row() {
    let f = frame(4, 10, |_, y| (y as u8, 0, 0, 255));
    assert_eq!(find_seam(&f, &f, 7), 0);
    assert_eq!(find_seam(&f, &f, 10), 0);
    assert_eq!(find_seam(&f, &f, 4000), 0);
}

#[test]
fn seam_is_the_first_row_in_which_the_frames_are_most_alike() {
    let prev = frame(4, 40, |_, _| (100, 0, 0, 255));
    let next = frame(4, 40, |_, y| (if y == 12 || y == 20 { 103 } else { 90 }, 0, 0, 255));
    assert_eq!(find_seam(&prev, &next, 10), 12);
}

#[test]
fn seam_is_not_looked_for_at_the_edges() {
    // The overlap has 30 rows, of which 3 to 26 are searched.
    let prev = frame(4, 40, |_, _| (100, 0, 0, 255));
    let best_at = |row: u32| frame(4, 40, move |_, y| (if y == row { 100 } else { 90 }, 0, 0, 255));
    assert_eq!(find_seam(&prev, &best_at(2), 10), 3);
    assert_eq!(find_seam(&prev, &best_at(3), 10), 3);
    assert_eq!(find_seam(&prev, &best_at(26), 10), 26);
    assert_eq!(find_seam(&prev, &best_at(27), 10), 3);
}

#[test]
fn no_frames_cannot_be_stitched() {
    assert!(matches!(stitch_frames(vec![]), Err(StitchError::NoFrames)));
    assert!(matches!(try_stitch_frames(vec![]), Some(Err(StitchError::NoFrames))));
}

#[test]
fn a_single_frame_is_its_own_result() {
    let out = stitch_frames(vec![window(3)]).ok().unwrap();
    assert_shows_page(&out, 3, 64);
}

#[test]
fn windows_of_a_page_stitch_to_the_page() {
    let out = stitch_frames(vec![window(2), window(22), window(30), window(61)]).ok().unwrap();
    assert_shows_page(&out, 2, 59 + 64);
}

#[test]
fn seams_decide_which_rows_a_frame_contributes() {
    let slices = plan_slices(&vec![window(0), window(20), window(34)]);
    // The overlaps have 44 and 50 rows, and all of them are alike.
    assert_eq!(
        slices,
        vec![
            Slice { frame: 0, start: 0, end: 24 },
            Slice { frame: 1, start: 4, end: 19 },
            Slice { frame: 2, start: 5, end: 64 },
        ]
    );
}

#[test]
fn where_no_scroll_is_found_a_quarter_of_the_height_is_assumed() {
    let blank = || frame(16, 40, |_, _| (7, 7, 7, 255));
    let out = stitch_frames(vec![blank(), blank(), blank()]).ok().unwrap();
    assert_eq!(out.height(), 60);
}

#[test]
fn where_no_scroll_is_found_the_one_before_is_assumed() {
    let solid = frame(16, 64, |_, _| (0, 0, 250, 255));
    let slices = plan_slices(&vec![window(0), window(20), solid]);
    // The scroll stays 20, which leaves an overlap of 44 rows.
    assert!(slices[1].end >= 20 + 4);
    assert_eq!(slices[1].end - slices[2].start, 20);
}

#[test]
fn later_frames_are_fitted_to_the_width_of_the_first() {
    let first = frame(4, 8, |_, _| (1, 1, 1, 255));
    let slim = frame(2, 8, |_, _| (2, 2, 2, 255));
    let out = stitch_frames(vec![first, slim]).ok().unwrap();
    assert_eq!((out.width(), out.height()), (4, 10));
    assert_eq!(out.get_pixel(3, 0), (1, 1, 1, 255));
    assert_eq!(out.get_pixel(1, 9), (2, 2, 2, 255));
    assert_eq!(out.get_pixel(2, 9), (0, 0, 0, 0));

    let first = frame(2, 8, |_, _| (1, 1, 1, 255));
    let wide = frame(4, 8, |_, _| (2, 2, 2, 255));
    let out = stitch_frames(vec![first, wide]).ok().unwrap();
    assert_eq!((out.width(), out.height()), (2, 10));
    assert_eq!(out.get_pixel(1, 9), (2, 2, 2, 255));
}

#[test]
fn frames_that_are_too_short_leave_blank_rows() {
    let first = frame(4, 8, |_, _| (1, 1, 1, 255));
    let short = frame(4, 5, |_, _| (2, 2, 2, 255));
    // The scroll is 2 and the overlap 3, so the seam is the top row.
    let out = stitch_frames(vec![first, short]).ok().unwrap();
    assert_eq!(out.height(), 10);
    assert_eq!(out.get_pixel(0, 1), (1, 1, 1, 255));
    assert_eq!(out.get_pixel(0, 2), (2, 2, 2, 255));
    assert_eq!(out.get_pixel(0, 6), (2, 2, 2, 255));
    assert_eq!(out.get_pixel(0, 7), (0, 0, 0, 0));
    assert_eq!(out.get_pixel(0, 9), (0, 0, 0, 0));
}

#[test]
fn a_slice_that_ends_before_it_starts_counts_against_the_height() {
    // Frames of 20 rows are too low for a scroll to be found, so 5 is assumed. The overlap has 15
    // rows, of which 1 to 13 are searched.
    let first = frame(4, 20, |_, _| (100, 0, 0, 255));
    let second = frame(4, 20, |_, y| (if y == 13 { 100 } else { 50 }, 0, 0, 255));
    let third = frame(4, 20, |_, y| (if y == 1 { 50 } else { 10 }, 0, 0, 255));
    let frames = vec![first, second, third];
    assert_eq!(
        plan_slices(&frames),
        vec![
            Slice { frame: 0, start: 0, end: 18 },
            Slice { frame: 1, start: 13, end: 6 },
            Slice { frame: 2, start: 1, end: 20 },
        ]
    );
    let out = stitch_frames(frames).ok().unwrap();
    assert_eq!(out.height(), 30);
    assert_eq!(out.get_pixel(0, 17), (100, 0, 0, 255));
    assert_eq!(out.get_pixel(0, 18), (50, 0, 0, 255));
    assert_eq!(out.get_pixel(0, 29), (10, 0, 0, 255));
}
