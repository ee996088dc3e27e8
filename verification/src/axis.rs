//! Histogram axis ordering and pending axis-label edits.

use vstd::prelude::*;

verus! {

/// Direction in which the bins of a histogram axis are displayed.
#[derive(Clone, Copy, Debug, PartialEq, Eq, Structural)]
pub enum SortOrder {
    Increasing,
    Decreasing,
}

/// The displayed position of bin `index` on an axis of `size` bins.
///
/// A decreasing axis mirrors the index; indices past the end of the axis
/// saturate to the first position.
pub open spec fn sorted_index(index: int, size: int, order: SortOrder) -> int {
    match order {
        SortOrder::Increasing => index,
        SortOrder::Decreasing => if index + 1 <= size { size - 1 - index } else { 0 },
    }
}

/// Apply an axis sort order to a bin index.
pub fn apply_sort_order(index: usize, size: usize, order: SortOrder) -> (r: usize)
    requires
        order == SortOrder::Decreasing ==> index < usize::MAX,
    ensures
        r == sorted_index(index as int, size as int, order),
{
    match order {
        SortOrder::Increasing => index,
        SortOrder::Decreasing => size.saturating_sub(1 + index),
    }
}

/// Mirroring an in-range bin index stays in range and undoes itself.
pub proof fn lemma_sort_order_involution(index: int, size: int, order: SortOrder)
    requires
        0 <= index < size,
    ensures
        0 <= sorted_index(index, size, order) < size,
        sorted_index(sorted_index(index, size, order), size, order) == index,
{
}

/// Two distinct in-range bins are displayed at distinct positions.
pub proof fn lemma_sort_order_injective(i: int, j: int, size: int, order: SortOrder)
    requires
        0 <= i < size,
        0 <= j < size,
        i != j,
    ensures
        sorted_index(i, size, order) != sorted_index(j, size, order),
{
}

/// Which axis label of a histogram is being edited, and the order of each
/// axis.
pub struct AxisLabelEdits {
    pub editing_x_axis_label: Option<usize>,
    pub editing_y_axis_label: Option<usize>,
    pub x_sort_order: SortOrder,
    pub y_sort_order: SortOrder,
}

/// A pending label edit to apply to an axis: the pasted values replace the
/// bin centers from `start_index` on, on an axis of `axis_len` bins.
#[derive(Clone, Copy, Debug, PartialEq, Eq, Structural)]
pub struct AxisCommit {
    pub start_index: usize,
    pub axis_len: usize,
}

/// The edits to apply to the x and y axes.
#[derive(Clone, Copy, Debug, PartialEq, Eq, Structural)]
pub struct LabelCommits {
    pub x: Option<AxisCommit>,
    pub y: Option<AxisCommit>,
}

/// The commit for an axis whose displayed label `editing` is being edited.
pub open spec fn axis_commit(editing: Option<usize>, axis_len: usize, order: SortOrder) -> Option<AxisCommit> {
    match editing {
        Some(label_index) => Some(
            AxisCommit {
                start_index: sorted_index(label_index as int, axis_len as int, order) as usize,
                axis_len,
            },
        ),
        None => None,
    }
}

/// Close the pending axis-label edits of a histogram of `grid_cols` x
/// `grid_rows` bins: each axis whose label is being edited yields the edit to
/// apply (from the bin under the edited label on), and no edit is left open.
pub fn commit_pending_histogram_label_edits(config: &mut AxisLabelEdits, grid_cols: usize, grid_rows: usize) -> (commits: LabelCommits)
    requires
        old(config).x_sort_order == SortOrder::Decreasing ==> (old(config).editing_x_axis_label matches Some(i) ==> i < usize::MAX),
        old(config).y_sort_order == SortOrder::Decreasing ==> (old(config).editing_y_axis_label matches Some(i) ==> i < usize::MAX),
    ensures
        commits.x == axis_commit(old(config).editing_x_axis_label, grid_cols, old(config).x_sort_order),
        commits.y == axis_commit(old(config).editing_y_axis_label, grid_rows, old(config).y_sort_order),
        *final(config) == (AxisLabelEdits { editing_x_axis_label: None, editing_y_axis_label: None, ..*old(config) }),
{
    let x = match config.editing_x_axis_label {
        Some(label_index) => Some(
            AxisCommit { start_index: apply_sort_order(label_index, grid_cols, config.x_sort_order), axis_len: grid_cols },
        ),
        None => None,
    };
    config.editing_x_axis_label = None;
    let y = match config.editing_y_axis_label {
        Some(label_index) => Some(
            AxisCommit { start_index: apply_sort_order(label_index, grid_rows, config.y_sort_order), axis_len: grid_rows },
        ),
        None => None,
    };
    config.editing_y_axis_label = None;
    LabelCommits { x, y }
}

/// Committing closes every pending edit, so committing again applies
/// nothing; and an edit of a displayed label starts at a bin of the axis.
pub proof fn lemma_commit_then_nothing_pending(label_index: usize, axis_len: usize, order: SortOrder)
    ensures
        axis_commit(None, axis_len, order) is None,
        label_index < axis_len ==> axis_commit(Some(label_index), axis_len, order)->0.start_index < axis_len,
{
}

/// The bin centers of an axis of `axis_len` bins before a label edit is
/// written into them: the current custom centers cut to the axis, or
/// completed from the evenly spaced `defaults`; the defaults themselves when
/// there are no custom centers, or when even completed they fall short.
pub open spec fn fitted_centers<T>(current: Option<Seq<T>>, defaults: Seq<T>, axis_len: int) -> Seq<T> {
    match current {
        None => defaults,
        Some(bins) => if bins.len() >= axis_len {
            bins.take(axis_len)
        } else if defaults.len() < axis_len {
            defaults
        } else {
            bins + defaults.skip(bins.len() as int)
        },
    }
}

/// Bring the current custom centers of an axis to `axis_len` bins,
/// completing them from `defaults` (the evenly spaced centers).
pub fn fit_axis_centers<T>(current: Option<Vec<T>>, defaults: Vec<T>, axis_len: usize) -> (centers: Vec<T>)
    ensures
        centers@ == fitted_centers(
            match current {
                Some(v) => Some(v@),
                None => None,
            },
            defaults@,
            axis_len as int,
        ),
{
    match current {
        None => defaults,
        Some(mut bins) => {
            if bins.len() >= axis_len {
                bins.truncate(axis_len);
                bins
            } else if defaults.len() < axis_len {
                defaults
            } else {
                let mut defaults = defaults;
                let mut tail = defaults.split_off(bins.len());
                bins.append(&mut tail);
                bins
            }
        },
    }
}

/// `centers` with the values written from position `start` on, as far as
/// the axis reaches.
pub open spec fn overwritten<T>(centers: Seq<T>, values: Seq<T>, start: int) -> Seq<T> {
    Seq::new(
        centers.len(),
        |i: int| if start <= i < start + values.len() { values[i - start] } else { centers[i] },
    )
}

/// Write the pasted label values into `centers` from position `start` on;
/// values past the end of the axis are dropped.
pub fn write_axis_values<T>(centers: &mut Vec<T>, values: Vec<T>, start: usize)
    ensures
        final(centers)@ == overwritten(old(centers)@, values@, start as int),
{
    let ghost all = values@;
    let ghost original = centers@;
    let mut rest = values;
    let mut offset: usize = 0;
    while rest.len() > 0
        invariant
            offset + rest.len() == all.len(),
            rest@ == all.skip(offset as int),
            centers@.len() == original.len(),
            forall|i: int| 0 <= i < original.len() ==> #[trigger] centers@[i] == if start <= i < start + offset {
                all[i - start]
            } else {
                original[i]
            },
            start + offset <= original.len() || offset == 0,
        ensures
            offset + rest.len() == all.len(),
            centers@.len() == original.len(),
            forall|i: int| 0 <= i < original.len() ==> #[trigger] centers@[i] == if start <= i < start + offset {
                all[i - start]
            } else {
                original[i]
            },
            rest.len() == 0 || start + offset >= original.len(),
        decreases rest.len(),
    {
        if start >= centers.len() || offset >= centers.len() - start {
            break;
        }
        let value = rest.remove(0);
        assert(value == all[offset as int]);
        centers.set(start + offset, value);
        offset += 1;
        assert(rest@ =~= all.skip(offset as int));
    }
    proof {
        let target = overwritten(original, all, start as int);
        assert forall|i: int| 0 <= i < original.len() implies #[trigger] centers@[i] == target[i] by {
            assert(centers@[i] == if start <= i < start + offset { all[i - start] } else { original[i] });
        }
        assert(centers@ =~= target);
    }
}

} // verus!
