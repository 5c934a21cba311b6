//! What holds of row distances, of the votes for a scroll distance and of seams, said over the
//! pixels of the frames.

use vstd::prelude::*;
use vstd::set_lib::{lemma_int_range, set_int_range};
use crate::extremum::{
    first_max, first_min, is_first_max, is_first_min, lemma_first_max, lemma_first_min,
};
use crate::frame::{frame_rows, frame_width, Frame, Rgba8};
use crate::stitch::{
    best_match, common_height, common_width, full_sad, lemma_row_distance_nonnegative,
    lemma_row_distance_to_itself, match_profile, overlap, pair_scroll, pixel_distance, row_distance,
    sampled_sad, scroll_offset, scroll_vote, scroll_votes, seam_profile, seam_row,
    seam_search_start, vote_count, vote_tally,
};

verus! {

// Distances

/// Two pixels are as far apart as their red, green and blue values taken together, whatever their
/// alpha values are.
pub proof fn law_pixels_differ_by_their_colours(
    a: Rgba8,
    b: Rgba8,
    red: int,
    green: int,
    blue: int,
)
    requires
        red >= 0,
        green >= 0,
        blue >= 0,
        a.0 - b.0 == red || b.0 - a.0 == red,
        a.1 - b.1 == green || b.1 - a.1 == green,
        a.2 - b.2 == blue || b.2 - a.2 == blue,
    ensures
        pixel_distance(a, b) == red + green + blue,
{
}

/// The colours of two pixels are the same.
pub open spec fn alike(a: Rgba8, b: Rgba8) -> bool {
    a.0 == b.0 && a.1 == b.1 && a.2 == b.2
}

/// Each sampled column adds what it differs by, and no other column adds anything.
proof fn lemma_row_distance_of_a_column(
    a: Seq<Rgba8>,
    b: Seq<Rgba8>,
    step: int,
    n: int,
    x: int,
    p: Rgba8,
)
    requires
        0 <= x < a.len(),
        n <= a.len(),
    ensures
        row_distance(a.update(x, p), b, step, n) - row_distance(a, b, step, n) == if x < n && x
            % step == 0 {
            pixel_distance(p, b[x]) - pixel_distance(a[x], b[x])
        } else {
            0
        },
    decreases n,
{
    if n > 0 {
        lemma_row_distance_of_a_column(a, b, step, n - 1, x, p);
    }
}

/// Rows that are alike in the sampled columns are at no distance, and only those are. No sampled
/// column differs by more than the row.
pub(crate) proof fn lemma_row_distance_of_alike_rows(a: Seq<Rgba8>, b: Seq<Rgba8>, step: int, n: int)
    ensures
        row_distance(a, b, step, n) == 0 <==> forall|x: int|
            0 <= x < n && x % step == 0 ==> alike(#[trigger] a[x], b[x]),
        forall|x: int|
            0 <= x < n && x % step == 0 ==> pixel_distance(#[trigger] a[x], b[x]) <= row_distance(
                a,
                b,
                step,
                n,
            ),
    decreases n,
{
    if n > 0 {
        lemma_row_distance_of_alike_rows(a, b, step, n - 1);
        lemma_row_distance_nonnegative(a, b, step, n - 1);
        if row_distance(a, b, step, n) == 0 {
            assert(row_distance(a, b, step, n - 1) == 0);
            assert forall|x: int| 0 <= x < n && x % step == 0 implies alike(#[trigger] a[x], b[x]) by {
                if x == n - 1 {
                    assert(pixel_distance(a[x], b[x]) == 0);
                }
            }
        }
        if forall|x: int| 0 <= x < n && x % step == 0 ==> alike(#[trigger] a[x], b[x]) {
            assert((n - 1) % step == 0 ==> alike(a[n - 1], b[n - 1]));
        }
    }
}

/// Two rows are as far apart as their pixels: rows with the same colours are at no distance, and
/// where one pixel is replaced, the distance changes by as much as that pixel comes closer or
/// moves away. Pixels that only one of the frames has do not count.
pub proof fn law_full_distance_counts_every_pixel(
    a: Frame,
    changed: Frame,
    ay: int,
    b: Frame,
    by: int,
    x: int,
    p: Rgba8,
)
    requires
        frame_rows(a)[ay].len() == frame_width(a),
        frame_width(changed) == frame_width(a),
        0 <= x < frame_width(a),
        frame_rows(changed)[ay] == frame_rows(a)[ay].update(x, p),
    ensures
        ({
            let (row_a, row_b) = (frame_rows(a)[ay], frame_rows(b)[by]);
            &&& full_sad(a, ay, b, by) == 0 <==> forall|i: int|
                0 <= i < frame_width(a) && i < frame_width(b) ==> alike(#[trigger] row_a[i], row_b[i])
            &&& full_sad(changed, ay, b, by) - full_sad(a, ay, b, by) == if x < frame_width(b) {
                pixel_distance(p, row_b[x]) - pixel_distance(row_a[x], row_b[x])
            } else {
                0
            }
        }),
{
    let (row_a, row_b) = (frame_rows(a)[ay], frame_rows(b)[by]);
    let w = common_width(a, b);
    lemma_row_distance_of_a_column(row_a, row_b, 1, w, x, p);
    lemma_row_distance_of_alike_rows(row_a, row_b, 1, w);
    if full_sad(a, ay, b, by) == 0 {
        assert forall|i: int| 0 <= i < frame_width(a) && i < frame_width(b) implies alike(
            #[trigger] row_a[i],
            row_b[i],
        ) by {
            assert(i % 1 == 0);
        }
    }
}

/// The same of the distance that scroll detection goes by, which looks at every fourth pixel only.
pub proof fn law_sampled_distance_counts_every_fourth_pixel(
    a: Frame,
    changed: Frame,
    ay: int,
    b: Frame,
    by: int,
    x: int,
    p: Rgba8,
)
    requires
        frame_rows(a)[ay].len() == frame_width(a),
        frame_width(changed) == frame_width(a),
        0 <= x < frame_width(a),
        frame_rows(changed)[ay] == frame_rows(a)[ay].update(x, p),
    ensures
        ({
            let (row_a, row_b) = (frame_rows(a)[ay], frame_rows(b)[by]);
            &&& sampled_sad(a, ay, b, by) == 0 <==> forall|i: int|
                0 <= i < frame_width(a) && i < frame_width(b) && i % 4 == 0 ==> alike(
                    #[trigger] row_a[i],
                    row_b[i],
                )
            &&& sampled_sad(changed, ay, b, by) - sampled_sad(a, ay, b, by) == if x < frame_width(b)
                && x % 4 == 0 {
                pixel_distance(p, row_b[x]) - pixel_distance(row_a[x], row_b[x])
            } else {
                0
            }
        }),
{
    let (row_a, row_b) = (frame_rows(a)[ay], frame_rows(b)[by]);
    let w = common_width(a, b);
    lemma_row_distance_of_a_column(row_a, row_b, 4, w, x, p);
    lemma_row_distance_of_alike_rows(row_a, row_b, 4, w);
}

/// A row is at least as far from another as any pixel that is looked at: all of them, or every
/// fourth.
pub proof fn law_no_pixel_differs_by_more_than_its_row(a: Frame, ay: int, b: Frame, by: int, x: int)
    requires
        0 <= x < frame_width(a),
        x < frame_width(b),
    ensures
        full_sad(a, ay, b, by) >= pixel_distance(frame_rows(a)[ay][x], frame_rows(b)[by][x]),
        x % 4 == 0 ==> sampled_sad(a, ay, b, by) >= pixel_distance(
            frame_rows(a)[ay][x],
            frame_rows(b)[by][x],
        ),
{
    let (row_a, row_b) = (frame_rows(a)[ay], frame_rows(b)[by]);
    assert(x % 1 == 0);
    lemma_row_distance_of_alike_rows(row_a, row_b, 1, common_width(a, b));
    lemma_row_distance_of_alike_rows(row_a, row_b, 4, common_width(a, b));
}

// Votes

/// Among the rows that both frames have, row `ny` of `next` is the first of those that are most
/// like row `py` of `prev`.
pub open spec fn is_best_match(prev: Frame, next: Frame, py: int, ny: int) -> bool {
    &&& 0 <= ny < frame_rows(prev).len()
    &&& ny < frame_rows(next).len()
    &&& forall|i: int|
        0 <= i < frame_rows(prev).len() && i < frame_rows(next).len() ==> sampled_sad(prev, py, next, ny)
            <= #[trigger] sampled_sad(prev, py, next, i)
    &&& forall|i: int|
        0 <= i < ny ==> sampled_sad(prev, py, next, ny) < #[trigger] sampled_sad(prev, py, next, i)
}

/// The frames share `4 * q` to `4 * q + 3` columns.
pub open spec fn shares_fours_of_columns(prev: Frame, next: Frame, q: int) -> bool {
    &&& 4 * q <= frame_width(prev)
    &&& 4 * q <= frame_width(next)
    &&& frame_width(prev) < 4 * q + 4 || frame_width(next) < 4 * q + 4
}

/// A row votes for the distance to its best match, if that lies further up and is at a distance
/// of less than one for each colour of every fourth column; and for nothing else.
pub proof fn law_row_votes_for_its_best_match(prev: Frame, next: Frame, py: int, s: int, q: int)
    requires
        0 <= py < frame_rows(prev).len(),
        py < frame_rows(next).len(),
        shares_fours_of_columns(prev, next, q),
    ensures
        scroll_vote(prev, next, py) == Some(s) <==> {
            &&& 0 < s
            &&& is_best_match(prev, next, py, py - s)
            &&& sampled_sad(prev, py, next, py - s) < 3 * q
        },
{
    let profile = match_profile(prev, next, py);
    let ny = best_match(prev, next, py);
    lemma_first_min(profile);
    assert(is_best_match(prev, next, py, ny)) by {
        assert forall|i: int|
            0 <= i < frame_rows(prev).len() && i < frame_rows(next).len() implies sampled_sad(
            prev,
            py,
            next,
            ny,
        ) <= #[trigger] sampled_sad(prev, py, next, i) by {
            assert(profile[ny] <= profile[i]);
        }
        assert forall|i: int| 0 <= i < ny implies sampled_sad(prev, py, next, ny)
            < #[trigger] sampled_sad(prev, py, next, i) by {
            assert(profile[ny] < profile[i]);
        }
    }
    if is_best_match(prev, next, py, py - s) {
        assert(is_first_min(profile, py - s)) by {
            assert forall|j: int| 0 <= j < profile.len() implies profile[py - s]
                <= #[trigger] profile[j] by {
                assert(sampled_sad(prev, py, next, py - s) <= sampled_sad(prev, py, next, j));
            }
            assert forall|j: int| 0 <= j < py - s implies profile[py - s] < #[trigger] profile[j] by {
                assert(sampled_sad(prev, py, next, py - s) < sampled_sad(prev, py, next, j));
            }
        }
    }
    assert(common_width(prev, next) / 4 == q);
}

/// An element of a sequence occurs as often as there are places that hold it.
proof fn lemma_count_is_number_of_places<A>(s: Seq<A>, x: A, places: Set<int>)
    requires
        forall|i: int| #[trigger] places.contains(i) <==> 0 <= i < s.len() && s[i] == x,
    ensures
        places.finite(),
        s.to_multiset().count(x) == places.len(),
    decreases s.len(),
{
    s.to_multiset_ensures();
    if s.len() == 0 {
        assert(places =~= Set::empty());
        assert(s =~= Seq::empty());
        assert(s.to_multiset().len() == 0);
    } else {
        let t = s.drop_last();
        let i = s.len() - 1;
        let before = places.remove(i);
        assert forall|j: int| #[trigger] before.contains(j) <==> 0 <= j < t.len() && t[j] == x by {
            assert(places.contains(j) <==> 0 <= j < s.len() && s[j] == x);
        }
        lemma_count_is_number_of_places(t, x, before);
        vstd::seq_lib::to_multiset_build(t, s.last());
        assert(s =~= t.push(s.last()));
        if places.contains(i) {
            assert(places =~= before.insert(i));
        } else {
            assert(places =~= before);
        }
    }
}

/// A distance has as many votes as there are rows that vote for it.
pub proof fn law_votes_are_counted(prev: Frame, next: Frame, s: int, rows: Set<int>)
    requires
        forall|py: int| #[trigger]
            rows.contains(py) <==> 0 <= py < frame_rows(prev).len() && py < frame_rows(next).len()
                && scroll_vote(prev, next, py) == Some(s),
    ensures
        rows.finite(),
        vote_count(prev, next, s) == rows.len(),
{
    let votes = scroll_votes(prev, next);
    assert forall|i: int| #[trigger] rows.contains(i) <==> 0 <= i < votes.len() && votes[i] == Some(s) by {}
    lemma_count_is_number_of_places(votes, Some(s), rows);
}

/// A distance that has votes is more than zero and less than the height that the frames share.
proof fn lemma_voted_distance_is_in_range(prev: Frame, next: Frame, t: int)
    requires
        vote_count(prev, next, t) > 0,
    ensures
        0 < t < common_height(prev, next),
{
    let votes = scroll_votes(prev, next);
    votes.to_multiset_ensures();
    assert(votes.contains(Some(t)));
    let py = choose|py: int| 0 <= py < votes.len() && votes[py] == Some(t);
    assert(scroll_vote(prev, next, py) == Some(t));
    lemma_first_min(match_profile(prev, next, py));
}

/// The scroll distance between two frames, each of at least 32 rows and 8 columns, is the one that
/// has the most votes, of several such the smallest, if it has at least five. Smaller frames have
/// none.
pub proof fn law_scroll_is_the_most_voted_distance(prev: Frame, next: Frame, s: int)
    ensures
        scroll_offset(prev, next) == Some(s) <==> {
            &&& frame_rows(prev).len() >= 32
            &&& frame_rows(next).len() >= 32
            &&& frame_width(prev) >= 8
            &&& frame_width(next) >= 8
            &&& vote_count(prev, next, s) >= 5
            &&& forall|t: int| #[trigger] vote_count(prev, next, t) <= vote_count(prev, next, s)
            &&& forall|t: int|
                t < s ==> #[trigger] vote_count(prev, next, t) < vote_count(prev, next, s)
        },
{
    let tally = vote_tally(prev, next);
    let h = common_height(prev, next);
    if h >= 32 {
        lemma_first_max(tally);
        if vote_count(prev, next, s) >= 5 {
            lemma_voted_distance_is_in_range(prev, next, s);
        }
        if scroll_offset(prev, next) == Some(s) {
            assert forall|t: int| #[trigger] vote_count(prev, next, t) <= vote_count(prev, next, s) by {
                if vote_count(prev, next, t) > 0 {
                    lemma_voted_distance_is_in_range(prev, next, t);
                    assert(tally[t] <= tally[s]);
                }
            }
            assert forall|t: int| t < s implies #[trigger] vote_count(prev, next, t) < vote_count(
                prev,
                next,
                s,
            ) by {
                if vote_count(prev, next, t) > 0 {
                    lemma_voted_distance_is_in_range(prev, next, t);
                    assert(tally[t] < tally[s]);
                }
            }
        }
        if vote_count(prev, next, s) >= 5 && (forall|t: int| #[trigger]
            vote_count(prev, next, t) <= vote_count(prev, next, s)) && (forall|t: int|
            t < s ==> #[trigger] vote_count(prev, next, t) < vote_count(prev, next, s)) {
            assert(is_first_max(tally, s)) by {
                assert forall|j: int| 0 <= j < tally.len() implies tally[s] >= #[trigger] tally[j] by {
                    assert(vote_count(prev, next, j) <= vote_count(prev, next, s));
                }
                assert forall|j: int| 0 <= j < s implies tally[s] > #[trigger] tally[j] by {
                    assert(vote_count(prev, next, j) < vote_count(prev, next, s));
                }
            }
        }
    }
}

/// Five votes are enough: once a distance has them, a scroll is found, however many rows the
/// frames have, and it has at least as many votes.
pub proof fn law_five_votes_are_enough(prev: Frame, next: Frame, t: int)
    requires
        frame_rows(prev).len() >= 32,
        frame_rows(next).len() >= 32,
        frame_width(prev) >= 8,
        frame_width(next) >= 8,
        vote_count(prev, next, t) >= 5,
    ensures
        scroll_offset(prev, next) is Some,
        vote_count(prev, next, scroll_offset(prev, next)->0) >= vote_count(prev, next, t),
{
    lemma_voted_distance_is_in_range(prev, next, t);
    let tally = vote_tally(prev, next);
    lemma_first_max(tally);
    assert(tally[t] <= tally[first_max(tally)]);
}

/// Five rows that find themselves in the next frame, all the same distance further up, are enough
/// for a scroll to be found, whatever the other rows show.
pub proof fn law_five_matching_rows_are_enough(
    prev: Frame,
    next: Frame,
    s: int,
    q: int,
    rows: Set<int>,
)
    requires
        frame_rows(prev).len() >= 32,
        frame_rows(next).len() >= 32,
        q >= 2,
        shares_fours_of_columns(prev, next, q),
        0 < s,
        rows.finite(),
        rows.len() >= 5,
        forall|py: int| #[trigger]
            rows.contains(py) ==> {
                &&& 0 <= py < frame_rows(prev).len()
                &&& py < frame_rows(next).len()
                &&& is_best_match(prev, next, py, py - s)
                &&& sampled_sad(prev, py, next, py - s) < 3 * q
            },
    ensures
        scroll_offset(prev, next) is Some,
{
    let all = Set::new(
        |py: int|
            0 <= py < frame_rows(prev).len() && py < frame_rows(next).len() && scroll_vote(
                prev,
                next,
                py,
            ) == Some(s),
    );
    law_votes_are_counted(prev, next, s, all);
    assert forall|py: int| #[trigger] rows.contains(py) implies all.contains(py) by {
        law_row_votes_for_its_best_match(prev, next, py, s, q);
    }
    vstd::set_lib::lemma_len_subset(rows, all);
    law_five_votes_are_enough(prev, next, s);
}

/// Content that moves up is recognised however far it moves, as long as five rows of it stay in
/// sight: if `next` shows the rows of `prev` moved up by `s`, none of these looks like another row
/// of `next`, and the rows that have moved out of sight are like no row of `next`, then the scroll
/// distance that is found is `s`.
pub proof fn law_scroll_of_clear_rows_is_found(prev: Frame, next: Frame, h: nat, s: int, q: int)
    requires
        frame_rows(prev).len() == h,
        frame_rows(next).len() == h,
        h >= 32,
        q >= 2,
        shares_fours_of_columns(prev, next, q),
        0 < s <= h - 5,
        forall|i: int| 0 <= i < h - s ==> #[trigger] frame_rows(next)[i] == frame_rows(prev)[i + s],
        forall|py: int, ny: int|
            0 <= py < h && 0 <= ny < h && ny != py - s ==> #[trigger] sampled_sad(prev, py, next, ny)
                >= 3 * q,
    ensures
        scroll_offset(prev, next) == Some(s),
{
    assert forall|py: int| 0 <= py < h implies #[trigger] scroll_vote(prev, next, py) == if py >= s {
        Some(s)
    } else {
        None
    } by {
        law_row_votes_for_its_best_match(prev, next, py, s, q);
        if let Some(t) = scroll_vote(prev, next, py) {
            law_row_votes_for_its_best_match(prev, next, py, t, q);
            assert(sampled_sad(prev, py, next, py - t) < 3 * q);
        }
        if py >= s {
            let ny = py - s;
            assert(frame_rows(next)[ny] == frame_rows(prev)[ny + s]);
            lemma_row_distance_to_itself(frame_rows(prev)[py], 4, common_width(prev, next));
            assert(sampled_sad(prev, py, next, ny) == 0);
            assert(is_best_match(prev, next, py, ny)) by {
                assert forall|i: int| 0 <= i < h implies 0 <= #[trigger] sampled_sad(
                    prev,
                    py,
                    next,
                    i,
                ) by {
                    lemma_row_distance_nonnegative(
                        frame_rows(prev)[py],
                        frame_rows(next)[i],
                        4,
                        common_width(prev, next),
                    );
                }
            }
        }
    }
    let rows = set_int_range(s, h as int);
    lemma_int_range(s, h as int);
    assert forall|py: int| #[trigger] rows.contains(py) <==> 0 <= py < h && scroll_vote(prev, next, py)
        == Some(s) by {}
    law_votes_are_counted(prev, next, s, rows);
    assert forall|t: int| t != s implies #[trigger] vote_count(prev, next, t) == 0 by {
        let none = Set::<int>::empty();
        assert forall|py: int| #[trigger] none.contains(py) <==> 0 <= py < h && scroll_vote(
            prev,
            next,
            py,
        ) == Some(t) by {}
        law_votes_are_counted(prev, next, t, none);
    }
    law_scroll_is_the_most_voted_distance(prev, next, s);
}

// From one frame to the next

/// A scroll that is found is taken as it is, however large it is.
pub proof fn law_found_scroll_is_used(frames: Seq<Frame>, i: int, s: int)
    requires
        0 <= i < frames.len() - 1,
        scroll_offset(frames[i], frames[i + 1]) == Some(s),
    ensures
        pair_scroll(frames, i) == s,
{
}

/// Where no scroll is found it is the one before; between the first two frames it is a quarter of
/// the height.
pub proof fn law_missing_scroll_is_replaced(frames: Seq<Frame>, i: int)
    requires
        0 <= i < frames.len() - 1,
        scroll_offset(frames[i], frames[i + 1]) is None,
    ensures
        i == 0 ==> 4 * pair_scroll(frames, i) <= frame_rows(frames[0]).len() < 4 * pair_scroll(
            frames,
            i,
        ) + 4,
        i > 0 ==> pair_scroll(frames, i) == pair_scroll(frames, i - 1),
{
}

/// The frames overlap in `o` rows after a scroll, of which `m` is a tenth.
pub open spec fn overlaps_in(prev: Frame, next: Frame, scroll: int, o: int, m: int) -> bool {
    &&& scroll + o <= frame_rows(prev).len()
    &&& scroll + o <= frame_rows(next).len()
    &&& scroll + o == frame_rows(prev).len() || scroll + o == frame_rows(next).len()
    &&& 10 * m <= o < 10 * m + 10
}

/// The cut is made in the middle of the overlap, a tenth of it and at least one row away from its
/// upper end and a tenth from its lower: in the row in which the frames are most alike, and in the
/// first of several such.
pub proof fn law_seam_is_the_best_row_of_the_overlap(
    prev: Frame,
    next: Frame,
    scroll: int,
    o: int,
    m: int,
)
    requires
        scroll >= 0,
        o >= 4,
        overlaps_in(prev, next, scroll, o, m),
    ensures
        ({
            let seam = seam_row(prev, next, scroll);
            let best = full_sad(prev, scroll + seam, next, seam);
            &&& 1 <= seam
            &&& m <= seam < o - m
            &&& forall|r: int|
                1 <= r && m <= r < o - m ==> best <= #[trigger] full_sad(prev, scroll + r, next, r)
            &&& forall|r: int|
                1 <= r && m <= r < seam ==> best < #[trigger] full_sad(prev, scroll + r, next, r)
        }),
{
    assert(overlap(prev, next, scroll) == o);
    assert(o / 10 == m);
    let profile = seam_profile(prev, next, scroll);
    let lo = seam_search_start(o);
    lemma_first_min(profile);
    let i = first_min(profile);
    let seam = seam_row(prev, next, scroll);
    assert(profile[i] == full_sad(prev, scroll + seam, next, seam));
    assert forall|r: int| 1 <= r && m <= r < o - m implies profile[i] <= #[trigger] full_sad(
        prev,
        scroll + r,
        next,
        r,
    ) by {
        assert(profile[r - lo] == full_sad(prev, scroll + r, next, r));
    }
    assert forall|r: int| 1 <= r && m <= r < seam implies profile[i] < #[trigger] full_sad(
        prev,
        scroll + r,
        next,
        r,
    ) by {
        assert(profile[r - lo] == full_sad(prev, scroll + r, next, r));
    }
}

/// Frames that overlap in fewer than four rows are joined at the top of the later one.
pub proof fn law_frames_that_hardly_overlap_are_put_together(prev: Frame, next: Frame, scroll: int)
    requires
        scroll >= 0,
        frame_rows(prev).len() < scroll + 4 || frame_rows(next).len() < scroll + 4,
    ensures
        seam_row(prev, next, scroll) == 0,
{
}

} // verus!
