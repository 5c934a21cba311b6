//! Stitch a sequence of overlapping frames into one tall image.
//!
//!   1. **Scroll detection** by voting: each row of a frame is matched against every row of the
//!      next frame, by the sum of absolute differences of every fourth pixel. A good match that
//!      lies further up votes for a scroll distance, and the distance with the most votes wins.
//!
//!   2. **Seam finding**: the two frames are cut at the row of their overlap in which they are
//!      most alike, which hides what differs between them at the boundary.

use vstd::prelude::*;
use crate::extremum::{first_max, first_min, is_first_max, is_first_min, lemma_first_max, lemma_first_min};
use crate::frame::{blank_pixel, blank_row, frame_rows, frame_width, Frame, Rgba8};

verus! {

// Row comparison

/// The distance of two channel values.
pub open spec fn channel_distance(a: u8, b: u8) -> int {
    if a <= b {
        b - a
    } else {
        a - b
    }
}

/// The distance of two pixels. Their alpha does not count.
pub open spec fn pixel_distance(a: Rgba8, b: Rgba8) -> int {
    channel_distance(a.0, b.0) + channel_distance(a.1, b.1) + channel_distance(a.2, b.2)
}

/// The sum of the distances in every `step`-th of the first `n` columns.
pub open spec fn row_distance(a: Seq<Rgba8>, b: Seq<Rgba8>, step: int, n: int) -> int
    decreases n,
{
    if n <= 0 {
        0
    } else {
        row_distance(a, b, step, n - 1) + if (n - 1) % step == 0 {
            pixel_distance(a[n - 1], b[n - 1])
        } else {
            0
        }
    }
}

/// A row is at no distance from itself.
pub proof fn lemma_row_distance_to_itself(row: Seq<Rgba8>, step: int, n: int)
    ensures
        row_distance(row, row, step, n) == 0,
    decreases n,
{
    if n > 0 {
        lemma_row_distance_to_itself(row, step, n - 1);
    }
}

/// Distances are not negative.
pub proof fn lemma_row_distance_nonnegative(a: Seq<Rgba8>, b: Seq<Rgba8>, step: int, n: int)
    ensures
        row_distance(a, b, step, n) >= 0,
    decreases n,
{
    if n > 0 {
        lemma_row_distance_nonnegative(a, b, step, n - 1);
    }
}

/// The number of columns that two frames share.
pub open spec fn common_width(a: Frame, b: Frame) -> int {
    if frame_width(a) <= frame_width(b) {
        frame_width(a) as int
    } else {
        frame_width(b) as int
    }
}

/// The number of rows that two frames share.
pub open spec fn common_height(a: Frame, b: Frame) -> int {
    if frame_rows(a).len() <= frame_rows(b).len() {
        frame_rows(a).len() as int
    } else {
        frame_rows(b).len() as int
    }
}

/// The distance of row `ay` of `a` and row `by` of `b`.
pub open spec fn full_sad(a: Frame, ay: int, b: Frame, by: int) -> int {
    row_distance(frame_rows(a)[ay], frame_rows(b)[by], 1, common_width(a, b))
}

/// The distance of row `ay` of `a` and row `by` of `b` in every fourth column.
pub open spec fn sampled_sad(a: Frame, ay: int, b: Frame, by: int) -> int {
    row_distance(frame_rows(a)[ay], frame_rows(b)[by], 4, common_width(a, b))
}

fn channel_sad(a: u8, b: u8) -> (r: u64)
    ensures
        r == channel_distance(a, b),
        r <= 255,
{
    if a <= b {
        (b - a) as u64
    } else {
        (a - b) as u64
    }
}

fn pixel_sad(a: Rgba8, b: Rgba8) -> (r: u64)
    ensures
        r == pixel_distance(a, b),
        r <= 765,
{
    channel_sad(a.0, b.0) + channel_sad(a.1, b.1) + channel_sad(a.2, b.2)
}

fn min_u32(a: u32, b: u32) -> (r: u32)
    ensures
        r == if a <= b {
            a
        } else {
            b
        },
{
    if a <= b {
        a
    } else {
        b
    }
}

/// Full-width sum of absolute differences between one row of `a` and one row of `b`.
pub fn row_sad_full(a: &Frame, ay: u32, b: &Frame, by: u32) -> (r: u64)
    requires
        ay < frame_rows(*a).len(),
        by < frame_rows(*b).len(),
    ensures
        r == full_sad(*a, ay as int, *b, by as int),
        r <= 765 * common_width(*a, *b),
{
    let w = min_u32(a.width(), b.width());
    let ghost ra = frame_rows(*a)[ay as int];
    let ghost rb = frame_rows(*b)[by as int];
    let mut sad: u64 = 0;
    let mut x: u32 = 0;
    while x < w
        invariant
            w == common_width(*a, *b),
            w <= frame_width(*a),
            w <= frame_width(*b),
            ay < frame_rows(*a).len(),
            by < frame_rows(*b).len(),
            ra == frame_rows(*a)[ay as int],
            rb == frame_rows(*b)[by as int],
            x <= w,
            sad == row_distance(ra, rb, 1, x as int),
            sad <= 765 * x,
        decreases w - x,
    {
        sad = sad + pixel_sad(a.get_pixel(x, ay), b.get_pixel(x, by));
        x = x + 1;
    }
    sad
}

/// Sum of absolute differences between one row of `a` and one row of `b`, over every fourth
/// pixel.
pub fn row_sad_fast(a: &Frame, ay: u32, b: &Frame, by: u32) -> (r: u64)
    requires
        ay < frame_rows(*a).len(),
        by < frame_rows(*b).len(),
    ensures
        r == sampled_sad(*a, ay as int, *b, by as int),
        r <= 765 * ((common_width(*a, *b) + 3) / 4),
{
    let w = min_u32(a.width(), b.width());
    let ghost ra = frame_rows(*a)[ay as int];
    let ghost rb = frame_rows(*b)[by as int];
    let mut sad: u64 = 0;
    let mut x: u32 = 0;
    while x < w
        invariant
            w == common_width(*a, *b),
            w <= frame_width(*a),
            w <= frame_width(*b),
            ay < frame_rows(*a).len(),
            by < frame_rows(*b).len(),
            ra == frame_rows(*a)[ay as int],
            rb == frame_rows(*b)[by as int],
            x <= w,
            x < w ==> x % 4 == 0,
            sad == row_distance(ra, rb, 4, x as int),
            sad <= 765 * ((x + 3) / 4),
        decreases w - x,
    {
        sad = sad + pixel_sad(a.get_pixel(x, ay), b.get_pixel(x, by));
        proof {
            reveal_with_fuel(row_distance, 5);
        }
        x = if w - x > 4 {
            x + 4
        } else {
            w
        };
    }
    sad
}

// Scroll detection

/// How far row `py` of `prev` is from each row of `next`.
pub open spec fn match_profile(prev: Frame, next: Frame, py: int) -> Seq<int> {
    Seq::new(common_height(prev, next) as nat, |ny: int| sampled_sad(prev, py, next, ny))
}

/// The row of `next` that is most like row `py` of `prev`.
pub open spec fn best_match(prev: Frame, next: Frame, py: int) -> int {
    first_min(match_profile(prev, next, py))
}

/// Below this a match is good: three, one for each colour channel, for every four columns that the
/// frames share. Columns that make up no four add nothing, though the first of them is sampled.
pub open spec fn match_threshold(prev: Frame, next: Frame) -> int {
    (common_width(prev, next) / 4) * 3
}

/// The scroll distance that row `py` of `prev` votes for, if it casts a vote: its best match is
/// good and lies further up.
pub open spec fn scroll_vote(prev: Frame, next: Frame, py: int) -> Option<int> {
    let ny = best_match(prev, next, py);
    if sampled_sad(prev, py, next, ny) < match_threshold(prev, next) && py > ny {
        Some(py - ny)
    } else {
        None
    }
}

/// The votes of all rows.
pub open spec fn scroll_votes(prev: Frame, next: Frame) -> Seq<Option<int>> {
    Seq::new(common_height(prev, next) as nat, |py: int| scroll_vote(prev, next, py))
}

/// How many rows vote for the scroll distance `s`.
pub open spec fn vote_count(prev: Frame, next: Frame, s: int) -> nat {
    scroll_votes(prev, next).to_multiset().count(Some(s))
}

/// The votes for each scroll distance.
pub open spec fn vote_tally(prev: Frame, next: Frame) -> Seq<int> {
    Seq::new(common_height(prev, next) as nat, |s: int| vote_count(prev, next, s) as int)
}

/// The scroll distance between two frames: the one with the most votes, and of several such the
/// smallest, provided that it has at least five. Frames that share fewer than 32 rows or fewer
/// than 8 columns have none.
pub open spec fn scroll_offset(prev: Frame, next: Frame) -> Option<int> {
    let s = first_max(vote_tally(prev, next));
    if common_height(prev, next) < 32 || common_width(prev, next) < 8 {
        None
    } else if vote_count(prev, next, s) >= 5 {
        Some(s)
    } else {
        None
    }
}

/// The row among the first `h` rows of `next` that is most like row `py` of `prev`, and its
/// distance.
fn find_best_match(prev: &Frame, next: &Frame, py: u32, h: u32) -> (r: (u32, u64))
    requires
        0 < h == common_height(*prev, *next),
        py < h,
    ensures
        r.0 == best_match(*prev, *next, py as int),
        r.0 < h,
        r.1 == sampled_sad(*prev, py as int, *next, r.0 as int),
{
    let ghost profile = match_profile(*prev, *next, py as int);
    let mut best_ny: u32 = 0;
    let mut best_sad: u64 = row_sad_fast(prev, py, next, 0);
    let mut ny: u32 = 1;
    while ny < h
        invariant
            0 < h == common_height(*prev, *next),
            py < h,
            profile == match_profile(*prev, *next, py as int),
            best_ny < ny <= h,
            best_sad == profile[best_ny as int],
            forall|j: int| 0 <= j < ny ==> best_sad <= #[trigger] profile[j],
            forall|j: int| 0 <= j < best_ny ==> best_sad < #[trigger] profile[j],
        decreases h - ny,
    {
        let sad = row_sad_fast(prev, py, next, ny);
        assert(sad == profile[ny as int]);
        if sad < best_sad {
            best_sad = sad;
            best_ny = ny;
        }
        ny = ny + 1;
    }
    proof {
        assert(is_first_min(profile, best_ny as int));
        lemma_first_min(profile);
    }
    (best_ny, best_sad)
}

/// The number of rows that vote for each scroll distance below `h`.
fn count_votes(prev: &Frame, next: &Frame, h: u32, threshold: u64) -> (tally: Vec<u32>)
    requires
        0 < h == common_height(*prev, *next),
        threshold == match_threshold(*prev, *next),
    ensures
        tally@.len() == h,
        forall|s: int| 0 <= s < h ==> #[trigger] tally@[s] == vote_tally(*prev, *next)[s],
{
    let ghost votes = scroll_votes(*prev, *next);
    let mut tally: Vec<u32> = Vec::new();
    let mut s: u32 = 0;
    while s < h
        invariant
            s <= h,
            tally@.len() == s,
            forall|i: int| 0 <= i < s ==> #[trigger] tally@[i] == 0,
        decreases h - s,
    {
        tally.push(0);
        s = s + 1;
    }
    proof {
        assert(votes.take(0) =~= Seq::empty());
        votes.take(0).to_multiset_ensures();
    }
    let mut py: u32 = 0;
    while py < h
        invariant
            0 < h == common_height(*prev, *next),
            threshold == match_threshold(*prev, *next),
            votes == scroll_votes(*prev, *next),
            votes.len() == h,
            py <= h,
            tally@.len() == h,
            forall|i: int|
                0 <= i < h ==> #[trigger] tally@[i] == votes.take(py as int).to_multiset().count(
                    Some(i),
                ) && tally@[i] <= py,
        decreases h - py,
    {
        let (ny, sad) = find_best_match(prev, next, py, h);
        let ghost before = tally@;
        if sad < threshold && py > ny {
            let d: usize = (py - ny) as usize;
            tally[d] = tally[d] + 1;
        }
        proof {
            let cast = votes.take(py as int);
            let vote = votes[py as int];
            assert(votes.take(py + 1) =~= cast.push(vote));
            vstd::seq_lib::to_multiset_build(cast, vote);
            assert forall|i: int| 0 <= i < h implies #[trigger] tally@[i] == votes.take(
                py + 1,
            ).to_multiset().count(Some(i)) && tally@[i] <= py + 1 by {
                assert(before[i] == cast.to_multiset().count(Some(i)));
            }
        }
        py = py + 1;
    }
    assert(votes.take(h as int) =~= votes);
    tally
}

/// Finds how far the content scrolled up from `prev` to `next`, by letting all rows vote.
pub fn find_scroll_offset(prev: &Frame, next: &Frame) -> (r: Option<u32>)
    ensures
        match r {
            Some(s) => scroll_offset(*prev, *next) == Some(s as int),
            None => scroll_offset(*prev, *next) is None,
        },
{
    let h = min_u32(prev.height(), next.height());
    let w = min_u32(prev.width(), next.width());
    if h < 32 || w < 8 {
        return None;
    }
    let threshold: u64 = (w as u64 / 4) * 3;
    let tally = count_votes(prev, next, h, threshold);
    let ghost counts = vote_tally(*prev, *next);
    let mut best: u32 = 0;
    let mut s: u32 = 1;
    while s < h
        invariant
            0 < h,
            tally@.len() == h,
            counts.len() == h,
            best < s <= h,
            forall|i: int| 0 <= i < h ==> #[trigger] tally@[i] == counts[i],
            forall|i: int| 0 <= i < s ==> counts[best as int] >= #[trigger] counts[i],
            forall|i: int| 0 <= i < best ==> counts[best as int] > #[trigger] counts[i],
        decreases h - s,
    {
        if tally[s as usize] > tally[best as usize] {
            best = s;
        }
        s = s + 1;
    }
    proof {
        assert(is_first_max(counts, best as int));
        lemma_first_max(counts);
    }
    if tally[best as usize] >= 5 {
        Some(best)
    } else {
        None
    }
}

// Seam finding

/// The number of rows that two frames have in common after a scroll.
pub open spec fn overlap(prev: Frame, next: Frame, scroll: int) -> int {
    if common_height(prev, next) >= scroll {
        common_height(prev, next) - scroll
    } else {
        0
    }
}

/// The first row of an overlap in which a seam is looked for: a tenth of it is left out.
pub open spec fn seam_search_start(overlap: int) -> int {
    if overlap / 10 >= 1 {
        overlap / 10
    } else {
        1
    }
}

/// The row behind the last one in which a seam is looked for: a tenth is left out here too.
pub open spec fn seam_search_end(overlap: int) -> int {
    overlap - overlap / 10
}

/// How far the two frames are apart in each row in which a seam is looked for.
pub open spec fn seam_profile(prev: Frame, next: Frame, scroll: int) -> Seq<int> {
    let o = overlap(prev, next, scroll);
    let lo = seam_search_start(o);
    Seq::new(
        (seam_search_end(o) - lo) as nat,
        |i: int| full_sad(prev, scroll + lo + i, next, lo + i),
    )
}

/// The row of `next` at which the frames are joined: the first in which they are most alike, or
/// the top row where they overlap in fewer than four.
pub open spec fn seam_row(prev: Frame, next: Frame, scroll: int) -> int {
    let o = overlap(prev, next, scroll);
    if o < 4 {
        0
    } else {
        seam_search_start(o) + first_min(seam_profile(prev, next, scroll))
    }
}

/// A seam lies among the rows in which it is looked for, and so inside both frames.
pub proof fn lemma_seam_row(prev: Frame, next: Frame, scroll: int)
    requires
        scroll >= 0,
    ensures
        ({
            let o = overlap(prev, next, scroll);
            let r = seam_row(prev, next, scroll);
            &&& o < 4 ==> r == 0
            &&& o >= 4 ==> 1 <= seam_search_start(o) <= r < seam_search_end(o) <= o
        }),
{
    let o = overlap(prev, next, scroll);
    if o >= 4 {
        lemma_first_min(seam_profile(prev, next, scroll));
    }
}

/// Finds the row at which to cut from `prev` to `next`, in coordinates of `next`.
pub fn find_seam(prev: &Frame, next: &Frame, scroll: u32) -> (r: u32)
    ensures
        r == seam_row(*prev, *next, scroll as int),
        scroll + r <= u32::MAX,
{
    let h = min_u32(prev.height(), next.height());
    let overlap: u32 = if h >= scroll {
        h - scroll
    } else {
        0
    };
    if overlap < 4 {
        return 0;
    }
    let margin: u32 = overlap / 10;
    let search_start: u32 = if margin >= 1 {
        margin
    } else {
        1
    };
    let search_end: u32 = overlap - margin;
    let ghost profile = seam_profile(*prev, *next, scroll as int);
    let mut best_row: u32 = search_start;
    let mut best_sad: u64 = row_sad_full(prev, scroll + search_start, next, search_start);
    let mut r: u32 = search_start + 1;
    while r < search_end
        invariant
            h == common_height(*prev, *next),
            1 <= search_start < search_end <= overlap == h - scroll,
            overlap == self::overlap(*prev, *next, scroll as int),
            search_start == seam_search_start(overlap as int),
            search_end == seam_search_end(overlap as int),
            profile == seam_profile(*prev, *next, scroll as int),
            search_start <= best_row < r <= search_end,
            best_sad == profile[best_row - search_start],
            forall|j: int| 0 <= j < r - search_start ==> best_sad <= #[trigger] profile[j],
            forall|j: int| 0 <= j < best_row - search_start ==> best_sad < #[trigger] profile[j],
        decreases search_end - r,
    {
        let sad = row_sad_full(prev, scroll + r, next, r);
        assert(sad == profile[r - search_start]);
        if sad < best_sad {
            best_sad = sad;
            best_row = r;
        }
        r = r + 1;
    }
    proof {
        assert(is_first_min(profile, best_row - search_start));
        lemma_first_min(profile);
    }
    best_row
}

// Stitching

/// The rows `start..end` of the frame with the index `frame`.
#[derive(Clone, Copy, Debug, PartialEq, Eq)]
pub struct Slice {
    pub frame: usize,
    pub start: usize,
    pub end: usize,
}

/// Why frames were not stitched.
#[derive(Clone, Copy, Debug, PartialEq, Eq)]
pub enum StitchError {
    /// There are no frames to stitch.
    NoFrames,
}

/// The scroll distance from frame `i` to frame `i + 1`. Where none is found it is the one before,
/// or, between the first two frames, a quarter of the first frame's height.
pub open spec fn pair_scroll(frames: Seq<Frame>, i: int) -> int
    decreases i,
{
    match scroll_offset(frames[i], frames[i + 1]) {
        Some(s) => s,
        None => if i <= 0 {
            frame_rows(frames[0]).len() as int / 4
        } else {
            pair_scroll(frames, i - 1)
        },
    }
}

/// The seam between frame `i` and frame `i + 1`, in coordinates of frame `i + 1`.
pub open spec fn pair_seam(frames: Seq<Frame>, i: int) -> int {
    seam_row(frames[i], frames[i + 1], pair_scroll(frames, i))
}

/// The first row that frame `k` contributes: the seam to the frame before.
pub open spec fn slice_start(frames: Seq<Frame>, k: int) -> int {
    if k == 0 {
        0
    } else {
        pair_seam(frames, k - 1)
    }
}

/// The row behind the last one that frame `k` contributes: the seam to the frame after, in
/// coordinates of frame `k`, and never more than the first frame's height.
pub open spec fn slice_end(frames: Seq<Frame>, k: int) -> int {
    let h = frame_rows(frames[0]).len() as int;
    if k == frames.len() - 1 || pair_scroll(frames, k) + pair_seam(frames, k) > h {
        h
    } else {
        pair_scroll(frames, k) + pair_seam(frames, k)
    }
}

/// The number of rows that the slices of the first `k` frames span. One that ends before it starts,
/// because the content moves back from its first seam to its second, counts against it.
pub open spec fn slices_height(frames: Seq<Frame>, k: int) -> int
    decreases k,
{
    if k <= 0 {
        0
    } else {
        slices_height(frames, k - 1) + slice_end(frames, k - 1) - slice_start(frames, k - 1)
    }
}

/// A row cut or filled up with blank pixels to the width `w`.
pub open spec fn fit_row(row: Seq<Rgba8>, w: nat) -> Seq<Rgba8> {
    Seq::new(
        w,
        |x: int|
            if x < row.len() {
                row[x]
            } else {
                blank_pixel()
            },
    )
}

/// The rows `start..end` of a frame, as far as it has them, at the width `w`. There are none where
/// the end lies before the start.
pub open spec fn slice_rows(frame: Frame, start: int, end: int, w: nat) -> Seq<Seq<Rgba8>> {
    let rows = frame_rows(frame);
    let stop = if end <= rows.len() {
        end
    } else {
        rows.len() as int
    };
    Seq::new(
        (if stop >= start {
            stop - start
        } else {
            0
        }) as nat,
        |i: int| fit_row(rows[start + i], w),
    )
}

/// The rows that the first `k` frames contribute, one after another.
pub open spec fn joined_rows(frames: Seq<Frame>, k: int) -> Seq<Seq<Rgba8>>
    decreases k,
{
    if k <= 0 {
        Seq::empty()
    } else {
        joined_rows(frames, k - 1) + slice_rows(
            frames[k - 1],
            slice_start(frames, k - 1),
            slice_end(frames, k - 1),
            frame_width(frames[0]),
        )
    }
}

/// The height of the stitched image. Heights are 32-bit numbers, which wrap around.
pub open spec fn stitched_height(frames: Seq<Frame>) -> int {
    slices_height(frames, frames.len() as int) % 0x1_0000_0000
}

/// The rows of the stitched image: those that the frames contribute, cut off at its height, or
/// blank rows where later frames are too short to fill their slices.
pub open spec fn stitched_rows(frames: Seq<Frame>) -> Seq<Seq<Rgba8>> {
    let joined = joined_rows(frames, frames.len() as int);
    Seq::new(
        stitched_height(frames) as nat,
        |y: int|
            if y < joined.len() {
                joined[y]
            } else {
                blank_row(frame_width(frames[0]))
            },
    )
}

/// `out` is what the frames stitch to. A single frame is its own result.
pub open spec fn is_stitched(frames: Seq<Frame>, out: Frame) -> bool {
    if frames.len() == 1 {
        out == frames[0]
    } else {
        &&& frame_width(out) == frame_width(frames[0])
        &&& frame_rows(out) == stitched_rows(frames)
    }
}

/// The stitched image fits into memory.
pub open spec fn stitchable(frames: Seq<Frame>) -> bool {
    frames.len() >= 2 ==> stitched_height(frames) * frame_width(frames[0]) * 4 <= isize::MAX
}

/// Decides which rows each frame contributes.
pub fn plan_slices(frames: &Vec<Frame>) -> (slices: Vec<Slice>)
    requires
        frames@.len() >= 2,
    ensures
        slices@.len() == frames@.len(),
        forall|k: int|
            0 <= k < frames@.len() ==> (#[trigger] slices@[k]).frame == k && slices@[k].start
                == slice_start(frames@, k) && slices@[k].end == slice_end(frames@, k),
        forall|k: int|
            0 <= k < frames@.len() ==> (#[trigger] slices@[k]).start <= u32::MAX && slices@[k].end
                <= u32::MAX,
{
    let n: usize = frames.len();
    let frame_h: usize = frames[0].height() as usize;
    let mut slices: Vec<Slice> = Vec::new();
    let mut scroll: u32 = frames[0].height() / 4;
    let mut start: usize = 0;
    let mut i: usize = 0;
    while i < n - 1
        invariant
            2 <= n == frames@.len(),
            frame_h == frame_rows(frames@[0]).len(),
            frame_h <= u32::MAX,
            start <= u32::MAX,
            forall|k: int|
                0 <= k < i ==> (#[trigger] slices@[k]).start <= u32::MAX && slices@[k].end
                    <= u32::MAX,
            i <= n - 1,
            slices@.len() == i,
            scroll == if i == 0 {
                frame_h as int / 4
            } else {
                pair_scroll(frames@, i - 1)
            },
            start == slice_start(frames@, i as int),
            forall|k: int|
                0 <= k < i ==> (#[trigger] slices@[k]).frame == k && slices@[k].start
                    == slice_start(frames@, k) && slices@[k].end == slice_end(frames@, k),
        decreases n - i,
    {
        if let Some(s) = find_scroll_offset(&frames[i], &frames[i + 1]) {
            scroll = s;
        }
        assert(scroll == pair_scroll(frames@, i as int));
        let seam = find_seam(&frames[i], &frames[i + 1], scroll);
        proof {
            lemma_seam_row(frames@[i as int], frames@[i + 1], scroll as int);
        }
        let overlap_end: usize = scroll as usize + seam as usize;
        let end: usize = if overlap_end > frame_h {
            frame_h
        } else {
            overlap_end
        };
        slices.push(Slice { frame: i, start, end });
        start = seam as usize;
        i = i + 1;
    }
    slices.push(Slice { frame: i, start, end: frame_h });
    slices
}

/// The height that the slices add up to.
fn total_height(slices: &Vec<Slice>, Ghost(frames): Ghost<Seq<Frame>>) -> (r: u32)
    requires
        slices@.len() == frames.len(),
        forall|k: int|
            0 <= k < frames.len() ==> (#[trigger] slices@[k]).start == slice_start(frames, k)
                && slices@[k].end == slice_end(frames, k) && slices@[k].start <= u32::MAX
                && slices@[k].end <= u32::MAX,
    ensures
        r == stitched_height(frames),
{
    let mut total: u64 = 0;
    let mut k: usize = 0;
    while k < slices.len()
        invariant
            slices@.len() == frames.len(),
            forall|k: int|
                0 <= k < frames.len() ==> (#[trigger] slices@[k]).start == slice_start(frames, k)
                    && slices@[k].end == slice_end(frames, k) && slices@[k].start <= u32::MAX
                    && slices@[k].end <= u32::MAX,
            k <= slices@.len(),
            total == slices_height(frames, k as int) % 0x1_0000_0000,
        decreases slices@.len() - k,
    {
        let start: u64 = slices[k].start as u64;
        let end: u64 = slices[k].end as u64;
        total = (total + end + (0x1_0000_0000 - start)) % 0x1_0000_0000;
        k = k + 1;
    }
    total as u32
}

/// Copies row `r` of `src` over the blank row `y` of `out`.
fn copy_row(src: &Frame, r: u32, out: &mut Frame, y: u32)
    requires
        r < frame_rows(*src).len(),
        y < frame_rows(*old(out)).len(),
        frame_rows(*old(out))[y as int] == blank_row(frame_width(*old(out))),
    ensures
        frame_width(*final(out)) == frame_width(*old(out)),
        frame_rows(*final(out)) == frame_rows(*old(out)).update(
            y as int,
            fit_row(frame_rows(*src)[r as int], frame_width(*old(out))),
        ),
{
    let _ = src.height();
    let w = min_u32(out.width(), src.width());
    let ghost row = frame_rows(*src)[r as int];
    let ghost before = frame_rows(*out);
    let ghost width = frame_width(*out);
    let mut x: u32 = 0;
    assert(fit_row(row.take(0), width) =~= blank_row(width));
    while x < w
        invariant
            r < frame_rows(*src).len(),
            row == frame_rows(*src)[r as int],
            row.len() == frame_width(*src),
            w <= width,
            w <= row.len(),
            frame_width(*out) == width,
            y < before.len(),
            before[y as int] == blank_row(width),
            x <= w,
            frame_rows(*out) =~= before.update(y as int, fit_row(row.take(x as int), width)),
        decreases w - x,
    {
        out.put_pixel(x, y, src.get_pixel(x, r));
        assert(fit_row(row.take(x as int), width).update(x as int, row[x as int]) =~= fit_row(
            row.take(x + 1),
            width,
        ));
        x = x + 1;
    }
    assert(fit_row(row.take(w as int), width) =~= fit_row(row, width));
}

/// Copies the slices one below the other into a new image.
fn assemble(frames: &Vec<Frame>, slices: &Vec<Slice>, height: u32) -> (out: Frame)
    requires
        frames@.len() >= 2,
        slices@.len() == frames@.len(),
        forall|k: int|
            0 <= k < frames@.len() ==> (#[trigger] slices@[k]).frame == k && slices@[k].start
                == slice_start(frames@, k) && slices@[k].end == slice_end(frames@, k),
        height == stitched_height(frames@),
        height * frame_width(frames@[0]) * 4 <= isize::MAX,
    ensures
        frame_width(out) == frame_width(frames@[0]),
        frame_rows(out) == stitched_rows(frames@),
{
    let w = frames[0].width();
    assert(w * height * 4 == height * w * 4) by (nonlinear_arith);
    let mut out = Frame::new(w, height);
    let ghost width = w as nat;
    let mut y_out: u32 = 0;
    let mut k: usize = 0;
    while k < slices.len()
        invariant
            slices@.len() == frames@.len(),
            forall|k: int|
                0 <= k < frames@.len() ==> (#[trigger] slices@[k]).frame == k && slices@[k].start
                    == slice_start(frames@, k) && slices@[k].end == slice_end(frames@, k),
            k <= slices@.len(),
            width == frame_width(frames@[0]),
            frame_width(out) == width,
            frame_rows(out).len() == height,
            y_out <= height,
            y_out <= joined_rows(frames@, k as int).len(),
            y_out < height ==> y_out == joined_rows(frames@, k as int).len(),
            forall|y: int|
                0 <= y < y_out ==> #[trigger] frame_rows(out)[y] == joined_rows(frames@, k as int)[y],
            forall|y: int| y_out <= y < height ==> #[trigger] frame_rows(out)[y] == blank_row(width),
        decreases slices@.len() - k,
    {
        let sl = slices[k];
        let frame = &frames[sl.frame];
        let frame_h: usize = frame.height() as usize;
        let ghost done = joined_rows(frames@, k as int);
        let ghost added = slice_rows(*frame, sl.start as int, sl.end as int, width);
        let ghost all = joined_rows(frames@, k + 1);
        assert(all == done + added);
        let mut r: usize = sl.start;
        while r < sl.end && r < frame_h && y_out < height
            invariant
                frame_h == frame_rows(*frame).len(),
                frame_h <= u32::MAX,
                width == frame_width(out),
                frame_rows(out).len() == height,
                added == slice_rows(*frame, sl.start as int, sl.end as int, width),
                all == done + added,
                y_out <= height,
                sl.start <= r,
                r > sl.start ==> r <= sl.end && r <= frame_h,
                y_out < height ==> y_out == done.len() + (r - sl.start),
                y_out <= all.len(),
                forall|y: int| 0 <= y < y_out ==> #[trigger] frame_rows(out)[y] == all[y],
                forall|y: int|
                    y_out <= y < height ==> #[trigger] frame_rows(out)[y] == blank_row(width),
            decreases sl.end - r,
        {
            let ghost before = frame_rows(out);
            copy_row(frame, r as u32, &mut out, y_out);
            proof {
                assert(all[y_out as int] == added[r - sl.start]);
                assert forall|y: int| 0 <= y < y_out + 1 implies #[trigger] frame_rows(out)[y]
                    == all[y] by {
                    if y < y_out {
                        assert(before[y] == all[y]);
                    }
                }
                assert forall|y: int| y_out + 1 <= y < height implies #[trigger] frame_rows(out)[y]
                    == blank_row(width) by {
                    assert(before[y] == blank_row(width));
                }
            }
            y_out = y_out + 1;
            r = r + 1;
        }
        k = k + 1;
    }
    assert(frame_rows(out) =~= stitched_rows(frames@));
    out
}

/// Stitches the frames, from top to bottom, into one tall image, unless it does not fit into
/// memory.
pub fn try_stitch_frames(frames: Vec<Frame>) -> (r: Option<Result<Frame, StitchError>>)
    ensures
        match r {
            Some(Ok(out)) => stitchable(frames@) && frames@.len() > 0 && is_stitched(frames@, out),
            Some(Err(e)) => frames@.len() == 0 && e == StitchError::NoFrames,
            None => !stitchable(frames@),
        },
{
    let mut frames = frames;
    if frames.len() == 0 {
        return Some(Err(StitchError::NoFrames));
    }
    if frames.len() == 1 {
        return Some(Ok(frames.remove(0)));
    }
    let slices = plan_slices(&frames);
    let height = total_height(&slices, Ghost(frames@));
    let w = frames[0].width();
    assert(0 <= height * w <= u32::MAX * u32::MAX) by (nonlinear_arith)
        requires
            height <= u32::MAX,
            w <= u32::MAX,
    ;
    let bytes: u128 = height as u128 * w as u128 * 4;
    if bytes > isize::MAX as u128 {
        return None;
    }
    Some(Ok(assemble(&frames, &slices, height)))
}

/// Stitches the frames, from top to bottom, into one tall image, which fits into memory.
pub fn stitch_frames(frames: Vec<Frame>) -> (r: Result<Frame, StitchError>)
    requires
        stitchable(frames@),
    ensures
        match r {
            Ok(out) => frames@.len() > 0 && is_stitched(frames@, out),
            Err(e) => frames@.len() == 0 && e == StitchError::NoFrames,
        },
{
    match try_stitch_frames(frames) {
        Some(r) => r,
        // Frames that meet the precondition do not get here.
        None => Err(StitchError::NoFrames),
    }
}

} // verus!
