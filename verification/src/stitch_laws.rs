//! What holds of scroll detection and stitching as a whole.

use vstd::prelude::*;
use crate::extremum::{first_min, is_first_max, is_first_min, lemma_first_max, lemma_first_min};
use crate::frame::{frame_rows, frame_width, Frame, Rgba8};
use crate::stitch::{
    common_height, common_width, fit_row, full_sad, is_stitched, joined_rows,
    lemma_row_distance_nonnegative, lemma_row_distance_to_itself, lemma_seam_row, match_profile,
    overlap, pair_scroll, row_distance, sampled_sad, scroll_offset, scroll_vote,
    scroll_votes, seam_profile, seam_row, seam_search_end, seam_search_start, slice_end,
    slice_rows, slice_start, slices_height, stitchable, stitched_height, vote_count, vote_tally,
};
use crate::scroll_laws::{law_found_scroll_is_used, law_scroll_of_clear_rows_is_found};

verus! {

/// If all but the first `k` elements of a sequence are `x`, then `x` occurs at least that often,
/// and anything else at most `k` times.
proof fn lemma_count_of_a_tail<A>(s: Seq<A>, k: int, x: A)
    requires
        0 <= k <= s.len(),
        forall|i: int| k <= i < s.len() ==> s[i] == x,
    ensures
        s.to_multiset().count(x) >= s.len() - k,
        forall|y: A| y != x ==> #[trigger] s.to_multiset().count(y) <= k,
    decreases s.len(),
{
    s.to_multiset_ensures();
    if s.len() > k {
        let t = s.drop_last();
        lemma_count_of_a_tail(t, k, x);
        vstd::seq_lib::to_multiset_build(t, x);
        assert(s =~= t.push(x));
    }
}

/// A scroll distance that is found lies strictly between zero and the common height, has at least
/// five votes, and no scroll distance has more.
pub proof fn law_found_scroll_has_most_votes(prev: Frame, next: Frame)
    ensures
        scroll_offset(prev, next) matches Some(s) ==> {
            &&& 0 < s < common_height(prev, next)
            &&& vote_count(prev, next, s) >= 5
            &&& forall|t: int|
                0 <= t < common_height(prev, next) ==> #[trigger] vote_count(prev, next, t)
                    <= vote_count(prev, next, s)
        },
{
    if let Some(s) = scroll_offset(prev, next) {
        let tally = vote_tally(prev, next);
        lemma_first_max(tally);
        assert forall|t: int| 0 <= t < common_height(prev, next) implies #[trigger] vote_count(
            prev,
            next,
            t,
        ) <= vote_count(prev, next, s) by {
            assert(tally[t] <= tally[s]);
        }
        scroll_votes(prev, next).to_multiset_ensures();
        assert(scroll_votes(prev, next).contains(Some(s)));
    }
}

/// Content that moves up by less than half a frame is recognised: if `next` shows the rows of
/// `prev` moved up by `s`, and none of these rows looks like another row of `next` in the sampled
/// columns, then the scroll distance that is found is `s`.
pub proof fn law_scroll_of_distinct_rows_is_found(prev: Frame, next: Frame, s: int)
    requires
        common_height(prev, next) >= 32,
        common_width(prev, next) >= 8,
        0 < s,
        2 * s < common_height(prev, next),
        forall|i: int|
            0 <= i < common_height(prev, next) - s ==> #[trigger] frame_rows(next)[i] == frame_rows(
                prev,
            )[i + s],
        forall|py: int, ny: int|
            s <= py < common_height(prev, next) && 0 <= ny < common_height(prev, next) && ny != py
                - s ==> #[trigger] sampled_sad(prev, py, next, ny) > 0,
    ensures
        scroll_offset(prev, next) == Some(s),
{
    let h = common_height(prev, next);
    let votes = scroll_votes(prev, next);
    assert forall|py: int| s <= py < h implies votes[py] == Some(s) by {
        let profile = match_profile(prev, next, py);
        let ny = py - s;
        assert(frame_rows(next)[ny] == frame_rows(prev)[ny + s]);
        lemma_row_distance_to_itself(frame_rows(prev)[py], 4, common_width(prev, next));
        assert(sampled_sad(prev, py, next, ny) == 0);
        assert forall|j: int| 0 <= j < h implies profile[ny] <= #[trigger] profile[j] by {
            lemma_row_distance_nonnegative(
                frame_rows(prev)[py],
                frame_rows(next)[j],
                4,
                common_width(prev, next),
            );
        }
        assert forall|j: int| 0 <= j < ny implies profile[ny] < #[trigger] profile[j] by {
            assert(sampled_sad(prev, py, next, j) > 0);
        }
        assert(is_first_min(profile, ny));
        lemma_first_min(profile);
        assert(scroll_vote(prev, next, py) == Some(s));
    }
    lemma_count_of_a_tail(votes, s, Some(s));
    let tally = vote_tally(prev, next);
    assert forall|t: int| 0 <= t < h && t != s implies tally[s] > #[trigger] tally[t] by {
        assert(votes.to_multiset().count(Some(t)) <= s);
    }
    assert(is_first_max(tally, s));
    lemma_first_max(tally);
}

/// The cut is where the frames are most alike: no row in which a seam is looked for is at a
/// smaller distance than the seam, and none above it at the same.
pub proof fn law_seam_is_where_frames_are_most_alike(prev: Frame, next: Frame, scroll: int, r: int)
    requires
        scroll >= 0,
        overlap(prev, next, scroll) >= 4,
        seam_search_start(overlap(prev, next, scroll)) <= r < seam_search_end(
            overlap(prev, next, scroll),
        ),
    ensures
        ({
            let seam = seam_row(prev, next, scroll);
            let best = full_sad(prev, scroll + seam, next, seam);
            &&& best <= full_sad(prev, scroll + r, next, r)
            &&& r < seam ==> best < full_sad(prev, scroll + r, next, r)
        }),
{
    let profile = seam_profile(prev, next, scroll);
    let lo = seam_search_start(overlap(prev, next, scroll));
    lemma_first_min(profile);
    let i = first_min(profile);
    assert(profile[i] == full_sad(prev, scroll + lo + i, next, lo + i));
    assert(profile[r - lo] == full_sad(prev, scroll + lo + (r - lo), next, lo + (r - lo)));
}

/// All frames have the size of the first.
pub open spec fn same_size(frames: Seq<Frame>) -> bool {
    forall|k: int| #![trigger frames[k]]
        0 <= k < frames.len() ==> {
            &&& frame_width(frames[k]) == frame_width(frames[0])
            &&& frame_rows(frames[k]).len() == frame_rows(frames[0]).len()
            &&& forall|y: int|
                0 <= y < frame_rows(frames[k]).len() ==> (#[trigger] frame_rows(frames[k])[y]).len()
                    == frame_width(frames[k])
        }
}

/// No slice ends before it starts: from each seam to the next the content moves on.
pub open spec fn slices_ordered(frames: Seq<Frame>) -> bool {
    forall|k: int| 0 <= k < frames.len() ==> #[trigger] slice_start(frames, k) <= slice_end(frames, k)
}

/// Between frames of one size the scroll is at most their height.
proof fn lemma_scroll_within_frame(frames: Seq<Frame>, i: int)
    requires
        same_size(frames),
        0 <= i < frames.len() - 1,
    ensures
        0 <= pair_scroll(frames, i) <= frame_rows(frames[0]).len(),
    decreases i,
{
    law_found_scroll_has_most_votes(frames[i], frames[i + 1]);
    if scroll_offset(frames[i], frames[i + 1]) is None && i > 0 {
        lemma_scroll_within_frame(frames, i - 1);
    }
}

/// Between frames of one size a slice that is not the last ends at the seam, which lies inside
/// the frame.
proof fn lemma_slice_ends_at_seam(frames: Seq<Frame>, k: int)
    requires
        same_size(frames),
        0 <= k < frames.len() - 1,
    ensures
        slice_end(frames, k) == pair_scroll(frames, k) + slice_start(frames, k + 1),
        0 <= slice_start(frames, k + 1),
        slice_end(frames, k) <= frame_rows(frames[0]).len(),
{
    lemma_scroll_within_frame(frames, k);
    lemma_seam_row(frames[k], frames[k + 1], pair_scroll(frames, k));
}

/// Slices of frames of one size lie inside their frames.
proof fn lemma_slice_within_frame(frames: Seq<Frame>, k: int)
    requires
        same_size(frames),
        0 <= k < frames.len(),
    ensures
        0 <= slice_start(frames, k),
        slice_end(frames, k) <= frame_rows(frames[0]).len(),
{
    if k > 0 {
        lemma_slice_ends_at_seam(frames, k - 1);
    }
    if k < frames.len() - 1 {
        lemma_slice_ends_at_seam(frames, k);
    }
}

/// Frames of one size contribute as many rows as their slices span.
proof fn lemma_joined_height(frames: Seq<Frame>, k: int)
    requires
        same_size(frames),
        slices_ordered(frames),
        0 <= k <= frames.len(),
    ensures
        joined_rows(frames, k).len() == slices_height(frames, k),
    decreases k,
{
    if k > 0 {
        lemma_joined_height(frames, k - 1);
        lemma_slice_within_frame(frames, k - 1);
        assert(slice_start(frames, k - 1) <= slice_end(frames, k - 1));
        assert(frames[k - 1] == frames[k - 1]);
    }
}

/// The result of stitching frames of one size has no gaps: its rows are the slices of the frames,
/// one after another, and its height is what these add up to, if each ends where it starts or below.
pub proof fn law_same_size_frames_leave_no_gaps(frames: Seq<Frame>, out: Frame)
    requires
        frames.len() >= 2,
        same_size(frames),
        slices_ordered(frames),
        slices_height(frames, frames.len() as int) <= u32::MAX,
        is_stitched(frames, out),
    ensures
        frame_rows(out) == joined_rows(frames, frames.len() as int),
        frame_rows(out).len() == slices_height(frames, frames.len() as int),
{
    lemma_joined_height(frames, frames.len() as int);
    assert(frame_rows(out) =~= joined_rows(frames, frames.len() as int));
}

/// `f` shows the `h` rows of `page` from row `top` on.
pub open spec fn is_window(f: Frame, page: Seq<Seq<Rgba8>>, w: nat, top: int, h: nat) -> bool {
    &&& 0 <= top
    &&& top + h <= page.len()
    &&& frame_width(f) == w
    &&& frame_rows(f) == page.subrange(top, top + h)
}

/// The frames are windows of one page, each `h` rows high, at the given heights.
pub open spec fn are_windows(
    frames: Seq<Frame>,
    page: Seq<Seq<Rgba8>>,
    w: nat,
    tops: Seq<int>,
    h: nat,
) -> bool {
    &&& tops.len() == frames.len()
    &&& forall|y: int| 0 <= y < page.len() ==> (#[trigger] page[y]).len() == w
    &&& forall|k: int| 0 <= k < frames.len() ==> is_window(#[trigger] frames[k], page, w, tops[k], h)
}

/// Where two windows overlap they show the same, so that they are joined in the first row in which
/// a seam is looked for.
proof fn lemma_seam_between_windows(
    frames: Seq<Frame>,
    page: Seq<Seq<Rgba8>>,
    w: nat,
    tops: Seq<int>,
    h: nat,
    k: int,
)
    requires
        are_windows(frames, page, w, tops, h),
        0 <= k < frames.len() - 1,
        pair_scroll(frames, k) == tops[k + 1] - tops[k],
        0 <= pair_scroll(frames, k) <= h,
    ensures
        ({
            let o = h - pair_scroll(frames, k);
            slice_start(frames, k + 1) == if o < 4 {
                0
            } else {
                seam_search_start(o)
            }
        }),
{
    let (prev, next, s) = (frames[k], frames[k + 1], pair_scroll(frames, k));
    assert(is_window(prev, page, w, tops[k], h));
    assert(is_window(next, page, w, tops[k + 1], h));
    let o = overlap(prev, next, s);
    assert(o == h - s);
    if o >= 4 {
        let profile = seam_profile(prev, next, s);
        let lo = seam_search_start(o);
        assert forall|i: int| 0 <= i < profile.len() implies #[trigger] profile[i] == 0 by {
            let row = page[tops[k + 1] + lo + i];
            assert(frame_rows(prev)[s + lo + i] == row);
            assert(frame_rows(next)[lo + i] == row);
            lemma_row_distance_to_itself(row, 1, common_width(prev, next));
        }
        assert(is_first_min(profile, 0));
        lemma_first_min(profile);
    }
}

/// From each seam between windows to the next the content moves on.
proof fn lemma_windows_are_ordered(
    frames: Seq<Frame>,
    page: Seq<Seq<Rgba8>>,
    w: nat,
    tops: Seq<int>,
    h: nat,
)
    requires
        are_windows(frames, page, w, tops, h),
        forall|i: int|
            0 <= i < frames.len() - 1 ==> #[trigger] pair_scroll(frames, i) == tops[i + 1] - tops[i],
    ensures
        same_size(frames),
        slices_ordered(frames),
{
    assert(same_size(frames)) by {
        assert forall|k: int| 0 <= k < frames.len() implies is_window(
            #[trigger] frames[k],
            page,
            w,
            tops[k],
            h,
        ) by {}
        if frames.len() > 0 {
            assert(is_window(frames[0], page, w, tops[0], h));
        }
    }
    assert forall|k: int| 0 <= k < frames.len() implies #[trigger] slice_start(frames, k)
        <= slice_end(frames, k) by {
        assert(is_window(frames[0], page, w, tops[0], h));
        if k > 0 {
            assert(pair_scroll(frames, k - 1) == tops[k] - tops[k - 1]);
            lemma_scroll_within_frame(frames, k - 1);
            lemma_seam_between_windows(frames, page, w, tops, h, k - 1);
        }
        if k < frames.len() - 1 {
            assert(pair_scroll(frames, k) == tops[k + 1] - tops[k]);
            lemma_scroll_within_frame(frames, k);
            lemma_seam_between_windows(frames, page, w, tops, h, k);
            lemma_slice_ends_at_seam(frames, k);
        }
    }
}

/// The rows that the first `k` windows contribute are a stretch of the page.
proof fn lemma_joined_windows(
    frames: Seq<Frame>,
    page: Seq<Seq<Rgba8>>,
    w: nat,
    tops: Seq<int>,
    h: nat,
    k: int,
)
    requires
        are_windows(frames, page, w, tops, h),
        slices_ordered(frames),
        1 <= k <= frames.len(),
        forall|i: int|
            0 <= i < frames.len() - 1 ==> #[trigger] pair_scroll(frames, i) == tops[i + 1] - tops[i],
    ensures
        same_size(frames),
        tops[0] <= tops[k - 1] + slice_end(frames, k - 1) <= page.len(),
        joined_rows(frames, k) == page.subrange(tops[0], tops[k - 1] + slice_end(frames, k - 1)),
    decreases k,
{
    assert(frames[0] == frames[0]);
    assert(same_size(frames));
    let frame = frames[k - 1];
    let start = slice_start(frames, k - 1);
    let end = slice_end(frames, k - 1);
    assert(is_window(frame, page, w, tops[k - 1], h));
    lemma_slice_within_frame(frames, k - 1);
    assert(start <= end);
    let added = slice_rows(frame, start, end, w);
    assert(added =~= page.subrange(tops[k - 1] + start, tops[k - 1] + end)) by {
        assert forall|i: int| 0 <= i < end - start implies #[trigger] added[i] == page[tops[k - 1]
            + start + i] by {
            let row = page[tops[k - 1] + start + i];
            assert(frame_rows(frame)[start + i] == row);
            assert(fit_row(row, w) =~= row);
        }
    }
    if k == 1 {
        assert(joined_rows(frames, 0) =~= Seq::empty());
        assert(joined_rows(frames, 1) =~= added);
    } else {
        lemma_joined_windows(frames, page, w, tops, h, k - 1);
        lemma_slice_ends_at_seam(frames, k - 2);
        assert(pair_scroll(frames, k - 2) == tops[k - 1] - tops[k - 2]);
        assert(joined_rows(frames, k) =~= page.subrange(tops[0], tops[k - 1] + end));
    }
}

/// Stitching puts a page together again: if the frames are windows of one page, each found to be
/// scrolled as far as it was, then the result is the page from the top of the first window to the
/// bottom of the last.
pub proof fn law_windows_stitch_to_the_page(
    frames: Seq<Frame>,
    page: Seq<Seq<Rgba8>>,
    w: nat,
    tops: Seq<int>,
    h: nat,
    out: Frame,
)
    requires
        frames.len() > 0,
        are_windows(frames, page, w, tops, h),
        page.len() <= u32::MAX,
        forall|i: int|
            0 <= i < frames.len() - 1 ==> #[trigger] pair_scroll(frames, i) == tops[i + 1] - tops[i],
        is_stitched(frames, out),
    ensures
        frame_width(out) == w,
        frame_rows(out) == page.subrange(tops[0], tops.last() + h),
{
    let n = frames.len() as int;
    assert(is_window(frames[0], page, w, tops[0], h));
    if n > 1 {
        lemma_windows_are_ordered(frames, page, w, tops, h);
        lemma_joined_windows(frames, page, w, tops, h, n);
        lemma_joined_height(frames, n);
        assert(frame_rows(out) =~= joined_rows(frames, n));
    }
}

/// A page whose rows all look different in the sampled columns is put together again from windows
/// that move down it by less than half their height at a time.
pub proof fn law_page_of_distinct_rows_is_recovered(
    frames: Seq<Frame>,
    page: Seq<Seq<Rgba8>>,
    w: nat,
    tops: Seq<int>,
    h: nat,
    out: Frame,
)
    requires
        frames.len() > 0,
        are_windows(frames, page, w, tops, h),
        page.len() <= u32::MAX,
        w >= 8,
        h >= 32,
        forall|i: int, j: int|
            0 <= i < page.len() && 0 <= j < page.len() && i != j ==> #[trigger] row_distance(
                page[i],
                page[j],
                4,
                w as int,
            ) > 0,
        forall|i: int|
            0 <= i < frames.len() - 1 ==> 0 < #[trigger] tops[i + 1] - tops[i] && 2 * (tops[i + 1]
                - tops[i]) < h,
        is_stitched(frames, out),
    ensures
        frame_width(out) == w,
        frame_rows(out) == page.subrange(tops[0], tops.last() + h),
{
    assert forall|i: int| 0 <= i < frames.len() - 1 implies #[trigger] pair_scroll(frames, i)
        == tops[i + 1] - tops[i] by {
        let (prev, next) = (frames[i], frames[i + 1]);
        let s = tops[i + 1] - tops[i];
        assert(is_window(prev, page, w, tops[i], h));
        assert(is_window(next, page, w, tops[i + 1], h));
        assert forall|py: int, ny: int| s <= py < h && 0 <= ny < h && ny != py - s implies
            #[trigger] sampled_sad(prev, py, next, ny) > 0 by {
            assert(row_distance(page[tops[i] + py], page[tops[i + 1] + ny], 4, w as int) > 0);
        }
        law_scroll_of_distinct_rows_is_found(prev, next, s);
    }
    law_windows_stitch_to_the_page(frames, page, w, tops, h, out);
}

/// A page whose rows are clearly different in the sampled columns, by one for each colour or more,
/// is put together again from windows that move down it by any distance, as long as each shares
/// five rows with the one before.
pub proof fn law_page_of_clear_rows_is_recovered(
    frames: Seq<Frame>,
    page: Seq<Seq<Rgba8>>,
    w: nat,
    tops: Seq<int>,
    h: nat,
    out: Frame,
)
    requires
        frames.len() > 0,
        are_windows(frames, page, w, tops, h),
        page.len() <= u32::MAX,
        w >= 8,
        h >= 32,
        forall|i: int, j: int|
            0 <= i < page.len() && 0 <= j < page.len() && i != j ==> 4 * #[trigger] row_distance(
                page[i],
                page[j],
                4,
                w as int,
            ) >= 3 * w,
        forall|i: int|
            0 <= i < frames.len() - 1 ==> 0 < #[trigger] tops[i + 1] - tops[i] <= h - 5,
        is_stitched(frames, out),
    ensures
        frame_width(out) == w,
        frame_rows(out) == page.subrange(tops[0], tops.last() + h),
{
    let q = w as int / 4;
    assert forall|i: int| 0 <= i < frames.len() - 1 implies #[trigger] pair_scroll(frames, i)
        == tops[i + 1] - tops[i] by {
        let (a, b, s) = (frames[i], frames[i + 1], tops[i + 1] - tops[i]);
        assert(is_window(a, page, w, tops[i], h));
        assert(is_window(b, page, w, tops[i + 1], h));
        assert forall|py: int, ny: int| 0 <= py < h && 0 <= ny < h && ny != py - s implies
            #[trigger] sampled_sad(a, py, b, ny) >= 3 * q by {
            assert(4 * row_distance(page[tops[i] + py], page[tops[i + 1] + ny], 4, w as int) >= 3 * w);
        }
        law_scroll_of_clear_rows_is_found(a, b, h, s, q);
        law_found_scroll_is_used(frames, i, s);
    }
    law_windows_stitch_to_the_page(frames, page, w, tops, h, out);
}

/// The slices follow each other from seam to seam: the first begins at the top, each later one at
/// the seam to the frame before, and each ends where that seam lies in its own frame, or at the
/// height of the first frame if that comes earlier. The last ends at that height.
pub proof fn law_slices_meet_at_the_seams(frames: Seq<Frame>, k: int)
    requires
        0 <= k < frames.len() - 1,
    ensures
        slice_start(frames, 0) == 0,
        slice_start(frames, k + 1) == seam_row(frames[k], frames[k + 1], pair_scroll(frames, k)),
        slice_end(frames, k) <= frame_rows(frames[0]).len(),
        slice_end(frames, k) <= pair_scroll(frames, k) + slice_start(frames, k + 1),
        slice_end(frames, k) == frame_rows(frames[0]).len() || slice_end(frames, k) == pair_scroll(
            frames,
            k,
        ) + slice_start(frames, k + 1),
        slice_end(frames, frames.len() - 1) == frame_rows(frames[0]).len(),
{
}

/// The frames lie at these heights of the page, going by how far each is scrolled.
pub open spec fn scrolled_to(frames: Seq<Frame>, tops: Seq<int>) -> bool {
    &&& tops.len() == frames.len()
    &&& tops[0] == 0
    &&& forall|i: int|
        0 <= i < frames.len() - 1 ==> #[trigger] tops[i + 1] == tops[i] + pair_scroll(frames, i)
}

/// How high the slices of the first frames are together: they reach from the top of the page down
/// to the end of the last of them.
proof fn lemma_slices_reach_down(frames: Seq<Frame>, tops: Seq<int>, k: int)
    requires
        same_size(frames),
        scrolled_to(frames, tops),
        1 <= k <= frames.len(),
    ensures
        slices_height(frames, k) == tops[k - 1] + slice_end(frames, k - 1),
    decreases k,
{
    if k == 1 {
        assert(slices_height(frames, 0) == 0);
    } else {
        lemma_slices_reach_down(frames, tops, k - 1);
        lemma_slice_ends_at_seam(frames, k - 2);
        assert(tops[k - 2 + 1] == tops[k - 2] + pair_scroll(frames, k - 2));
    }
}

/// Frames of one size stitch to an image that is as high as the first frame and all scrolls taken
/// together.
pub proof fn law_height_is_that_of_a_frame_and_the_scrolls(
    frames: Seq<Frame>,
    tops: Seq<int>,
    out: Frame,
)
    requires
        frames.len() >= 2,
        same_size(frames),
        scrolled_to(frames, tops),
        0 <= tops.last() + frame_rows(frames[0]).len() <= u32::MAX,
        is_stitched(frames, out),
    ensures
        frame_width(out) == frame_width(frames[0]),
        frame_rows(out).len() == tops.last() + frame_rows(frames[0]).len(),
{
    lemma_slices_reach_down(frames, tops, frames.len() as int);
}

/// Where the rows of a slice are in what the frames contribute.
proof fn lemma_joined_row(frames: Seq<Frame>, tops: Seq<int>, n: int, k: int, r: int)
    requires
        same_size(frames),
        slices_ordered(frames),
        scrolled_to(frames, tops),
        0 <= k < n <= frames.len(),
        slice_start(frames, k) <= r < slice_end(frames, k),
    ensures
        0 <= tops[k] + r < joined_rows(frames, n).len(),
        joined_rows(frames, n)[tops[k] + r] == fit_row(
            frame_rows(frames[k])[r],
            frame_width(frames[0]),
        ),
    decreases n,
{
    lemma_joined_height(frames, n - 1);
    lemma_slice_within_frame(frames, n - 1);
    assert(slice_start(frames, n - 1) <= slice_end(frames, n - 1));
    assert(frames[n - 1] == frames[n - 1]);
    if k < n - 1 {
        lemma_joined_row(frames, tops, n - 1, k, r);
    } else if k == 0 {
        assert(joined_rows(frames, 0) =~= Seq::empty());
    } else {
        lemma_slices_reach_down(frames, tops, k);
        lemma_slice_ends_at_seam(frames, k - 1);
        assert(tops[k - 1 + 1] == tops[k - 1] + pair_scroll(frames, k - 1));
    }
}

/// Each row of each slice ends up where the page has it: as far below the top of its frame as it
/// was, and that as far down as the frame is scrolled.
pub proof fn law_rows_end_up_where_the_page_has_them(
    frames: Seq<Frame>,
    tops: Seq<int>,
    out: Frame,
    k: int,
    r: int,
)
    requires
        frames.len() >= 2,
        same_size(frames),
        slices_ordered(frames),
        scrolled_to(frames, tops),
        tops.last() + frame_rows(frames[0]).len() <= u32::MAX,
        is_stitched(frames, out),
        0 <= k < frames.len(),
        slice_start(frames, k) <= r < slice_end(frames, k),
    ensures
        0 <= tops[k] + r < frame_rows(out).len(),
        frame_rows(out)[tops[k] + r] == frame_rows(frames[k])[r],
{
    let n = frames.len() as int;
    lemma_slices_reach_down(frames, tops, n);
    lemma_joined_row(frames, tops, n, k, r);
    lemma_joined_height(frames, n);
    lemma_slice_within_frame(frames, k);
    let row = frame_rows(frames[k])[r];
    assert(row.len() == frame_width(frames[k]) == frame_width(frames[0]));
    assert(fit_row(row, frame_width(frames[0])) =~= row);
}

/// How many of the rows `start..end` a frame with `n` rows has.
pub open spec fn rows_between(start: int, end: int, n: int) -> int {
    if start >= end || start >= n {
        0
    } else if end <= n {
        end - start
    } else {
        n - start
    }
}

/// The slices of the frames, whose sizes may differ, begin at these heights of the result.
pub open spec fn slices_begin_at(frames: Seq<Frame>, at: Seq<int>) -> bool {
    &&& at.len() == frames.len() + 1
    &&& at[0] == 0
    &&& forall|k: int|
        0 <= k < frames.len() ==> #[trigger] at[k + 1] == at[k] + rows_between(
            slice_start(frames, k),
            slice_end(frames, k),
            frame_rows(frames[k]).len() as int,
        )
}

/// How many rows the first frames contribute.
proof fn lemma_joined_length(frames: Seq<Frame>, at: Seq<int>, n: int)
    requires
        slices_begin_at(frames, at),
        0 <= n <= frames.len(),
    ensures
        joined_rows(frames, n).len() == at[n],
    decreases n,
{
    if n > 0 {
        lemma_joined_length(frames, at, n - 1);
        assert(at[n - 1 + 1] == at[n - 1] + rows_between(
            slice_start(frames, n - 1),
            slice_end(frames, n - 1),
            frame_rows(frames[n - 1]).len() as int,
        ));
    }
}

/// Where a row of a slice is among the rows that the first frames contribute.
proof fn lemma_joined_slice(frames: Seq<Frame>, at: Seq<int>, n: int, k: int, r: int)
    requires
        slices_begin_at(frames, at),
        0 <= k < n <= frames.len(),
        slice_start(frames, k) <= r < slice_end(frames, k),
        r < frame_rows(frames[k]).len(),
    ensures
        0 <= at[k] + (r - slice_start(frames, k)) < joined_rows(frames, n).len(),
        joined_rows(frames, n)[at[k] + (r - slice_start(frames, k))] == fit_row(
            frame_rows(frames[k])[r],
            frame_width(frames[0]),
        ),
    decreases n,
{
    if k < n - 1 {
        lemma_joined_slice(frames, at, n - 1, k, r);
    } else {
        let (start, end) = (slice_start(frames, k), slice_end(frames, k));
        let added = slice_rows(frames[k], start, end, frame_width(frames[0]));
        lemma_joined_length(frames, at, k);
        assert(joined_rows(frames, n) == joined_rows(frames, k) + added);
        assert(added[r - start] == fit_row(
            frame_rows(frames[k])[start + (r - start)],
            frame_width(frames[0]),
        ));
    }
}

/// The result is put together from the slices, whatever sizes the frames have. Each row of a slice
/// follows the one before; what of it reaches over the right edge of the result is cut off, and
/// what it lacks is transparent. So are rows that no slice fills.
pub proof fn law_result_is_made_of_the_slices(
    frames: Seq<Frame>,
    at: Seq<int>,
    out: Frame,
    k: int,
    r: int,
    x: int,
    y: int,
)
    requires
        frames.len() >= 2,
        slices_begin_at(frames, at),
        is_stitched(frames, out),
        0 <= y < frame_rows(out).len(),
        0 <= x < frame_width(frames[0]),
    ensures
        frame_width(out) == frame_width(frames[0]),
        frame_rows(out)[y].len() == frame_width(frames[0]),
        0 <= k < frames.len() && slice_start(frames, k) <= r < slice_end(frames, k) && r
            < frame_rows(frames[k]).len() && y == at[k] + (r - slice_start(frames, k))
            ==> frame_rows(out)[y][x] == if x < frame_rows(frames[k])[r].len() {
            frame_rows(frames[k])[r][x]
        } else {
            (0u8, 0u8, 0u8, 0u8)
        },
        y >= at.last() ==> frame_rows(out)[y][x] == (0u8, 0u8, 0u8, 0u8),
{
    let n = frames.len() as int;
    lemma_joined_length(frames, at, n);
    lemma_joined_rows_fit(frames, n);
    if 0 <= k < n && slice_start(frames, k) <= r < slice_end(frames, k) && r < frame_rows(
        frames[k],
    ).len() {
        lemma_joined_slice(frames, at, n, k, r);
    }
}

/// All rows that frames contribute are as wide as the first frame.
proof fn lemma_joined_rows_fit(frames: Seq<Frame>, n: int)
    requires
        0 <= n <= frames.len(),
    ensures
        forall|y: int|
            0 <= y < joined_rows(frames, n).len() ==> (#[trigger] joined_rows(frames, n)[y]).len()
                == frame_width(frames[0]),
    decreases n,
{
    if n > 0 {
        lemma_joined_rows_fit(frames, n - 1);
        let (before, all) = (joined_rows(frames, n - 1), joined_rows(frames, n));
        assert forall|y: int| 0 <= y < all.len() implies (#[trigger] all[y]).len() == frame_width(
            frames[0],
        ) by {
            if y < before.len() {
                assert(all[y] == before[y]);
            }
        }
    }
}

/// The result is as high as all slices taken together, where one that ends before it begins takes
/// off as much, counted in 32 bits.
pub proof fn law_height_is_that_of_all_slices(frames: Seq<Frame>, heights: Seq<int>, out: Frame)
    requires
        frames.len() >= 2,
        heights.len() == frames.len() + 1,
        heights[0] == 0,
        forall|k: int|
            0 <= k < frames.len() ==> #[trigger] heights[k + 1] == heights[k] + slice_end(frames, k)
                - slice_start(frames, k),
        is_stitched(frames, out),
    ensures
        frame_rows(out).len() < 0x1_0000_0000,
        (heights.last() - frame_rows(out).len()) % 0x1_0000_0000 == 0,
{
    lemma_heights_add_up(frames, heights, frames.len() as int);
}

proof fn lemma_heights_add_up(frames: Seq<Frame>, heights: Seq<int>, n: int)
    requires
        0 <= n < heights.len(),
        heights.len() == frames.len() + 1,
        heights[0] == 0,
        forall|k: int|
            0 <= k < frames.len() ==> #[trigger] heights[k + 1] == heights[k] + slice_end(frames, k)
                - slice_start(frames, k),
    ensures
        slices_height(frames, n) == heights[n],
    decreases n,
{
    if n > 0 {
        lemma_heights_add_up(frames, heights, n - 1);
        assert(heights[n - 1 + 1] == heights[n - 1] + slice_end(frames, n - 1) - slice_start(
            frames,
            n - 1,
        ));
    }
}

/// A single frame is its own result, and there is always room for it. Several frames can be
/// stitched exactly if their result, at four bytes a pixel, is no larger than anything in memory
/// can be.
pub proof fn law_what_fits_into_memory_is_stitched(frames: Seq<Frame>, out: Frame)
    requires
        frames.len() > 0,
        is_stitched(frames, out),
    ensures
        frames.len() == 1 ==> out == frames[0] && stitchable(frames),
        frames.len() >= 2 ==> (stitchable(frames) <==> 4 * (frame_rows(out).len() * frame_width(out))
            <= isize::MAX),
{
    if frames.len() >= 2 {
        let (a, b) = (stitched_height(frames), frame_width(frames[0]) as int);
        assert(a * b * 4 == 4 * (a * b)) by (nonlinear_arith);
    }
}

} // verus!
