//! Placement of value labels next to chart peaks in exported images.

use vstd::prelude::*;
use crate::raster::{lemma_wrapped_i32, wrapped_i32};

verus! {

/// A rectangle as `(left, top, right, bottom)`.
pub type Rect = (i32, i32, i32, i32);

/// Whether two rectangles share interior area.
pub open spec fn overlaps(a: Rect, b: Rect) -> bool {
    a.0 < b.2 && a.2 > b.0 && a.1 < b.3 && a.3 > b.1
}

/// Whether rectangles `a` and `b` overlap.
pub fn rects_overlap(a: Rect, b: Rect) -> (r: bool)
    ensures
        r == overlaps(a, b),
{
    a.0 < b.2 && a.2 > b.0 && a.1 < b.3 && a.3 > b.1
}

/// `value` limited to `[min, max]`, as `Ord::clamp` gives it.
pub open spec fn clamped(value: int, min: int, max: int) -> int {
    if value < min {
        min
    } else if value > max {
        max
    } else {
        value
    }
}

/// `value` limited to `[min, max]`, as `Ord::clamp` limits it (which panics
/// when `min > max`).
fn clamp_i32(value: i32, min: i32, max: i32) -> (r: i32)
    requires
        min <= max,
    ensures
        r == clamped(value as int, min as int, max as int),
{
    if value < min {
        min
    } else if value > max {
        max
    } else {
        value
    }
}

/// Whether a label of `label_width` x `label_height` fits inside `bounds`
/// with its margins (6 pixels left and right, 5 above and below), without
/// the margin arithmetic overflowing `i32`.
pub open spec fn label_fits(label_width: int, label_height: int, bounds: Rect) -> bool {
    let (left, top, right, bottom) = bounds;
    &&& left + 6 <= right - label_width - 6
    &&& top + 5 <= bottom - label_height - 5
    &&& i32::MIN <= right - label_width <= i32::MAX
    &&& i32::MIN <= bottom - label_height <= i32::MAX
    &&& left + label_width + 6 >= i32::MIN
    &&& top + label_height + 5 >= i32::MIN
}

/// The label position (`label_x`, `label_y`) moved inside `bounds`, and the
/// rectangle the label then covers with its margins.
pub open spec fn clamped_label(label_x: int, label_y: int, label_width: int, label_height: int, bounds: Rect) -> (int, int, (int, int, int, int)) {
    let (left, top, right, bottom) = bounds;
    let x = clamped(label_x, left + 6, right - label_width - 6);
    let y = clamped(label_y, top + 5, bottom - label_height - 5);
    (x, y, (x - 6, y - 5, x + label_width + 6, y + label_height + 5))
}

/// Move a label at (`label_x`, `label_y`) inside `bounds` and return its
/// position with the rectangle it covers, margins included.
pub fn clamp_label_rect(label_x: i32, label_y: i32, label_width: i32, label_height: i32, bounds: Rect) -> (r: (i32, i32, Rect))
    requires
        label_fits(label_width as int, label_height as int, bounds),
    ensures
        ({
            let c = clamped_label(label_x as int, label_y as int, label_width as int, label_height as int, bounds);
            r.0 == c.0 && r.1 == c.1 && r.2.0 == c.2.0 && r.2.1 == c.2.1 && r.2.2 == c.2.2 && r.2.3 == c.2.3
        }),
{
    let (left, top, right, bottom) = bounds;
    let label_x = clamp_i32(label_x, left + 6, right - label_width - 6);
    let label_y = clamp_i32(label_y, top + 5, bottom - label_height - 5);
    (
        label_x,
        label_y,
        (label_x - 6, label_y - 5, label_x + label_width + 6, label_y + label_height + 5),
    )
}

/// The distances from a peak at which label positions are tried.
pub open spec fn candidate_distance(k: int) -> int {
    14 + 20 * (k / 8)
}

/// The `k`-th label position tried for a peak at (`peak_x`, `peak_y`): for each
/// distance, in turn, right and left of the peak at its height, right and
/// left above it, right and left below it, then centred above and below.
pub open spec fn peak_candidate(peak_x: int, peak_y: int, label_width: int, label_height: int, k: int) -> (int, int) {
    let d = candidate_distance(k);
    let v = k % 8;
    if v == 0 {
        (peak_x + d, peak_y - half_toward_zero(label_height))
    } else if v == 1 {
        (peak_x - label_width - d, peak_y - half_toward_zero(label_height))
    } else if v == 2 {
        (peak_x + d, peak_y - label_height - 8)
    } else if v == 3 {
        (peak_x - label_width - d, peak_y - label_height - 8)
    } else if v == 4 {
        (peak_x + d, peak_y + 8)
    } else if v == 5 {
        (peak_x - label_width - d, peak_y + 8)
    } else if v == 6 {
        (peak_x - half_toward_zero(label_width), peak_y - label_height - d)
    } else {
        (peak_x - half_toward_zero(label_width), peak_y + d)
    }
}

/// Half of `v`, rounded toward zero as `i32` division rounds.
pub open spec fn half_toward_zero(v: int) -> int {
    if v >= 0 {
        v / 2
    } else {
        -((-v) / 2)
    }
}

/// Whether `v` fits in an `i32`.
pub open spec fn in_i32(v: int) -> bool {
    i32::MIN <= v <= i32::MAX
}

/// Whether every position tried for a peak, and every value computed on the
/// way to it, fits in an `i32`.
pub open spec fn candidates_fit(peak_x: int, peak_y: int, label_width: int, label_height: int) -> bool {
    &&& in_i32(peak_x + 114)
    &&& in_i32(peak_y + 114)
    &&& in_i32(peak_x - label_width)
    &&& in_i32(peak_x - label_width - 14)
    &&& in_i32(peak_x - label_width - 114)
    &&& in_i32(peak_y - label_height)
    &&& in_i32(peak_y - label_height - 8)
    &&& in_i32(peak_y - label_height - 114)
    &&& in_i32(peak_x - half_toward_zero(label_width))
    &&& in_i32(peak_y - half_toward_zero(label_height))
}

/// Number of label positions tried for a peak.
pub const PEAK_CANDIDATES: usize = 48;

/// The `k`-th tried position moved inside `bounds`, with its rectangle.
pub open spec fn placed_candidate(peak_x: int, peak_y: int, label_width: int, label_height: int, bounds: Rect, k: int) -> (int, int, (int, int, int, int)) {
    let c = peak_candidate(peak_x, peak_y, label_width, label_height, k);
    clamped_label(c.0, c.1, label_width, label_height, bounds)
}

/// Whether rectangle `r` overlaps none of `used`.
pub open spec fn free_of(r: (int, int, int, int), used: Seq<Rect>) -> bool {
    forall|i: int|
        0 <= i < used.len() ==> !(r.0 < used[i].2 && r.2 > used[i].0 && r.1 < used[i].3 && r.3 > used[i].1)
}

/// Whether the `k`-th tried position is clear of the rectangles in `used`.
pub open spec fn candidate_free(peak_x: int, peak_y: int, label_width: int, label_height: int, bounds: Rect, used: Seq<Rect>, k: int) -> bool {
    free_of(placed_candidate(peak_x, peak_y, label_width, label_height, bounds, k).2, used)
}

/// The tried position chosen for a peak: the first one clear of `used`, or
/// the last one tried when none is.
pub open spec fn chosen_candidate(peak_x: int, peak_y: int, label_width: int, label_height: int, bounds: Rect, used: Seq<Rect>, k: int) -> bool {
    if exists|j: int| 0 <= j < PEAK_CANDIDATES && candidate_free(peak_x, peak_y, label_width, label_height, bounds, used, j) {
        &&& 0 <= k < PEAK_CANDIDATES
        &&& candidate_free(peak_x, peak_y, label_width, label_height, bounds, used, k)
        &&& forall|j: int| 0 <= j < k ==> !candidate_free(peak_x, peak_y, label_width, label_height, bounds, used, j)
    } else {
        k == PEAK_CANDIDATES - 1
    }
}

/// The `k`-th label position tried for a peak.
fn peak_label_candidate(peak_x: i32, peak_y: i32, label_width: i32, label_height: i32, k: usize) -> (r: (i32, i32))
    requires
        k < PEAK_CANDIDATES,
        candidates_fit(peak_x as int, peak_y as int, label_width as int, label_height as int),
    ensures
        r.0 == peak_candidate(peak_x as int, peak_y as int, label_width as int, label_height as int, k as int).0,
        r.1 == peak_candidate(peak_x as int, peak_y as int, label_width as int, label_height as int, k as int).1,
{
    let distance: i32 = 14 + 20 * (k / 8) as i32;
    let v = k % 8;
    if v == 0 {
        (peak_x + distance, peak_y - label_height / 2)
    } else if v == 1 {
        (peak_x - label_width - distance, peak_y - label_height / 2)
    } else if v == 2 {
        (peak_x + distance, peak_y - label_height - 8)
    } else if v == 3 {
        (peak_x - label_width - distance, peak_y - label_height - 8)
    } else if v == 4 {
        (peak_x + distance, peak_y + 8)
    } else if v == 5 {
        (peak_x - label_width - distance, peak_y + 8)
    } else if v == 6 {
        (peak_x - label_width / 2, peak_y - label_height - distance)
    } else {
        (peak_x - label_width / 2, peak_y + distance)
    }
}

/// Whether rectangles `a` and `b`, each `(left, top, right, bottom)`, share
/// interior area.
pub open spec fn shares_area(a: (i32, i32, i32, i32), b: (i32, i32, i32, i32)) -> bool {
    a.0 < b.2 && b.0 < a.2 && a.1 < b.3 && b.1 < a.3
}

/// Whether rectangle `r` shares area with none of `rects`, every one of them.
pub open spec fn clear_of(r: (int, int, int, int), rects: Seq<Rect>) -> bool {
    forall|i: int| 0 <= i < rects.len() ==> !(r.0 < rects[i].2 && rects[i].0 < r.2 && r.1 < rects[i].3 && rects[i].1 < r.3)
}

/// When some tried position is clear of every rectangle already used, the
/// chosen label is clear of every one of them too, not only of the latest.
pub proof fn lemma_free_label_avoids_every_used_rect(
    peak_x: int,
    peak_y: int,
    label_width: int,
    label_height: int,
    bounds: Rect,
    used: Seq<Rect>,
)
    ensures
        forall|k: int|
            #[trigger] chosen_candidate(peak_x, peak_y, label_width, label_height, bounds, used, k) && (exists|j: int|
                0 <= j < PEAK_CANDIDATES && #[trigger] clear_of(
                    placed_candidate(peak_x, peak_y, label_width, label_height, bounds, j).2,
                    used,
                )) ==> clear_of(placed_candidate(peak_x, peak_y, label_width, label_height, bounds, k).2, used),
{
    assert forall|k: int|
        #[trigger] chosen_candidate(peak_x, peak_y, label_width, label_height, bounds, used, k) && (exists|j: int|
            0 <= j < PEAK_CANDIDATES && #[trigger] clear_of(
                placed_candidate(peak_x, peak_y, label_width, label_height, bounds, j).2,
                used,
            )) implies clear_of(placed_candidate(peak_x, peak_y, label_width, label_height, bounds, k).2, used) by {
        let j = choose|j: int| 0 <= j < PEAK_CANDIDATES && #[trigger] clear_of(
            placed_candidate(peak_x, peak_y, label_width, label_height, bounds, j).2,
            used,
        );
        assert(candidate_free(peak_x, peak_y, label_width, label_height, bounds, used, j));
    }
}

proof fn lemma_pushed_label_clear(
    peak_x: int,
    peak_y: int,
    label_width: int,
    label_height: int,
    bounds: Rect,
    used: Seq<Rect>,
    k: int,
    rect: Rect,
)
    requires
        chosen_candidate(peak_x, peak_y, label_width, label_height, bounds, used, k),
        placed_candidate(peak_x, peak_y, label_width, label_height, bounds, k).2 == (
            rect.0 as int,
            rect.1 as int,
            rect.2 as int,
            rect.3 as int,
        ),
    ensures
        (exists|j: int| 0 <= j < PEAK_CANDIDATES && #[trigger] clear_of(
            placed_candidate(peak_x, peak_y, label_width, label_height, bounds, j).2,
            used,
        )) ==> forall|i: int| 0 <= i < used.len() ==> !shares_area(rect, #[trigger] used[i]),
{
    lemma_free_label_avoids_every_used_rect(peak_x, peak_y, label_width, label_height, bounds, used);
    if exists|j: int| 0 <= j < PEAK_CANDIDATES && #[trigger] clear_of(
        placed_candidate(peak_x, peak_y, label_width, label_height, bounds, j).2,
        used,
    ) {
        assert(clear_of(placed_candidate(peak_x, peak_y, label_width, label_height, bounds, k).2, used));
    }
}

/// Place the value label of a peak at (`peak_x`, `peak_y`): the first tried
/// position whose rectangle overlaps no rectangle in `used_rects`, or the
/// last one tried when every one overlaps. The chosen rectangle is added to
/// `used_rects`.
pub fn choose_peak_label_position(
    peak_x: i32,
    peak_y: i32,
    label_width: u32,
    label_height: u32,
    bounds: Rect,
    used_rects: &mut Vec<Rect>,
) -> (r: (i32, i32))
    requires
        candidates_fit(peak_x as int, peak_y as int, wrapped_i32(label_width), wrapped_i32(label_height)),
        label_fits(wrapped_i32(label_width), wrapped_i32(label_height), bounds),
    ensures
        exists|k: int| {
            &&& chosen_candidate(peak_x as int, peak_y as int, wrapped_i32(label_width), wrapped_i32(label_height), bounds, old(used_rects)@, k)
            &&& #[trigger] placed_candidate(peak_x as int, peak_y as int, wrapped_i32(label_width), wrapped_i32(label_height), bounds, k) == (
                r.0 as int,
                r.1 as int,
                (
                    final(used_rects)@.last().0 as int,
                    final(used_rects)@.last().1 as int,
                    final(used_rects)@.last().2 as int,
                    final(used_rects)@.last().3 as int,
                ),
            )
        },
        final(used_rects)@.len() == old(used_rects)@.len() + 1,
        final(used_rects)@.drop_last() == old(used_rects)@,
        (exists|j: int| 0 <= j < PEAK_CANDIDATES && #[trigger] clear_of(
            placed_candidate(peak_x as int, peak_y as int, wrapped_i32(label_width), wrapped_i32(label_height), bounds, j).2,
            old(used_rects)@,
        )) ==> forall|i: int| 0 <= i < old(used_rects)@.len() ==> !shares_area(
            final(used_rects)@.last(),
            #[trigger] old(used_rects)@[i],
        ),
{
    let lw = label_width as i32;
    let lh = label_height as i32;
    proof {
        lemma_wrapped_i32(label_width);
        lemma_wrapped_i32(label_height);
    }
    let ghost used = used_rects@;
    let mut fallback: (i32, i32) = (0, 0);
    let mut fallback_rect: Rect = (0, 0, 0, 0);
    let mut k: usize = 0;
    while k < PEAK_CANDIDATES
        invariant
            used_rects@ == used,
            used == old(used_rects)@,
            lw == wrapped_i32(label_width),
            lh == wrapped_i32(label_height),
            k <= PEAK_CANDIDATES,
            candidates_fit(peak_x as int, peak_y as int, lw as int, lh as int),
            label_fits(lw as int, lh as int, bounds),
            forall|j: int| 0 <= j < k ==> !candidate_free(peak_x as int, peak_y as int, lw as int, lh as int, bounds, used, j),
            k > 0 ==> placed_candidate(peak_x as int, peak_y as int, lw as int, lh as int, bounds, k - 1) == (
                fallback.0 as int,
                fallback.1 as int,
                (fallback_rect.0 as int, fallback_rect.1 as int, fallback_rect.2 as int, fallback_rect.3 as int),
            ),
        decreases PEAK_CANDIDATES - k,
    {
        let (candidate_x, candidate_y) = peak_label_candidate(peak_x, peak_y, lw, lh, k);
        let (label_x, label_y, rect) = clamp_label_rect(candidate_x, candidate_y, lw, lh, bounds);
        fallback = (label_x, label_y);
        fallback_rect = rect;

        let mut clear = true;
        let mut i: usize = 0;
        while i < used_rects.len()
            invariant
                used_rects@ == used,
                i <= used_rects.len(),
                clear <==> forall|j: int| 0 <= j < i ==> !overlaps(rect, used[j]),
            decreases used_rects.len() - i,
        {
            if rects_overlap(rect, used_rects[i]) {
                clear = false;
            }
            i += 1;
        }
        if clear {
            used_rects.push(rect);
            assert(candidate_free(peak_x as int, peak_y as int, lw as int, lh as int, bounds, used, k as int));
            assert(used_rects@.last() == rect);
            proof {
                lemma_pushed_label_clear(peak_x as int, peak_y as int, lw as int, lh as int, bounds, used, k as int, rect);
            }
            return (label_x, label_y);
        }
        assert(!candidate_free(peak_x as int, peak_y as int, lw as int, lh as int, bounds, used, k as int));
        k += 1;
    }
    used_rects.push(fallback_rect);
    assert(used_rects@.last() == fallback_rect);
    proof {
        lemma_pushed_label_clear(peak_x as int, peak_y as int, lw as int, lh as int, bounds, used, PEAK_CANDIDATES - 1, fallback_rect);
    }
    assert(chosen_candidate(peak_x as int, peak_y as int, lw as int, lh as int, bounds, used, PEAK_CANDIDATES - 1));
    fallback
}

} // verus!
