//! The histogram view's configuration and the changes its controls make to
//! it in one frame.

use vstd::prelude::*;
use crate::axis::SortOrder;

verus! {

/// What a histogram cell shows.
#[derive(Clone, Copy, Debug, PartialEq, Eq, Structural)]
pub enum HistogramMode {
    /// The number of samples in the cell.
    HitCount,
    /// The average of the z channel over the cell's samples.
    AverageZ,
}

/// How a table pasted from the clipboard combines with the histogram's
/// cell values.
#[derive(Clone, Copy, Debug, PartialEq, Eq, Structural)]
pub enum TableOperation {
    Add,
    Subtract,
    Multiply,
    Divide,
}

/// The configuration the histogram controls edit. The value ranges (`R`),
/// custom bin centers (`B`), selected cell (`C`), pasted table (`T`) and
/// sample filters (`F`) are carried through as they are.
pub struct HistogramControls<R, B, C, T, F> {
    pub x_channel: Option<usize>,
    pub y_channel: Option<usize>,
    pub z_channel: Option<usize>,
    pub mode: HistogramMode,
    pub custom_grid_columns: usize,
    pub custom_grid_rows: usize,
    pub custom_x_bins: Option<B>,
    pub custom_x_bins_text: String,
    pub custom_y_bins: Option<B>,
    pub custom_y_bins_text: String,
    pub decimal_precision: usize,
    pub color_by_count: bool,
    pub min_hits_filter: u32,
    pub custom_x_range: Option<R>,
    pub custom_y_range: Option<R>,
    pub x_sort_order: SortOrder,
    pub y_sort_order: SortOrder,
    pub table_operation: TableOperation,
    pub show_comparison_view: bool,
    pub pasted_table: Option<T>,
    pub selected_cell: Option<C>,
    pub sample_filters: Vec<F>,
}

/// What the user changed with the histogram controls during one frame:
/// `None` (or `false`, or nothing listed) where a control was left alone.
pub struct HistogramUpdates<R, F> {
    pub x_channel: Option<usize>,
    pub y_channel: Option<usize>,
    pub z_channel: Option<usize>,
    pub mode: Option<HistogramMode>,
    /// A new number of columns as the grid control reads it.
    pub grid_columns: Option<i32>,
    /// A new number of rows as the grid control reads it.
    pub grid_rows: Option<i32>,
    pub decimal_precision: Option<usize>,
    pub color_by_count: Option<bool>,
    pub min_hits_filter: Option<u32>,
    pub custom_x_range: Option<Option<R>>,
    pub custom_y_range: Option<Option<R>>,
    pub x_sort_order: Option<SortOrder>,
    pub y_sort_order: Option<SortOrder>,
    pub table_operation: Option<TableOperation>,
    pub show_comparison_view: Option<bool>,
    pub clear_pasted_table: bool,
    /// Filters edited in place, by position, in the order they were edited.
    pub filter_updates: Vec<(usize, F)>,
    /// Positions of filters to delete, in the order they were asked for.
    pub filters_to_remove: Vec<usize>,
    /// A filter to add at the end.
    pub new_filter: Option<F>,
}

/// Fewest columns or rows a histogram grid has.
pub const MIN_GRID_SIZE: i32 = 4;

/// Most columns or rows a histogram grid has.
pub const MAX_GRID_SIZE: i32 = 256;

/// A grid size as the controls read it, brought into
/// `MIN_GRID_SIZE..=MAX_GRID_SIZE`.
pub open spec fn grid_size_of(value: i32) -> usize {
    if value < MIN_GRID_SIZE {
        MIN_GRID_SIZE as usize
    } else if value > MAX_GRID_SIZE {
        MAX_GRID_SIZE as usize
    } else {
        value as usize
    }
}

/// The grid size a control value stands for: the value clamped to
/// `MIN_GRID_SIZE..=MAX_GRID_SIZE`.
pub fn clamp_grid_size(value: i32) -> (size: usize)
    ensures
        size == grid_size_of(value),
        MIN_GRID_SIZE <= size <= MAX_GRID_SIZE,
{
    if value < MIN_GRID_SIZE {
        MIN_GRID_SIZE as usize
    } else if value > MAX_GRID_SIZE {
        MAX_GRID_SIZE as usize
    } else {
        value as usize
    }
}

/// The new grid size an update gives, or the old one without an update.
pub open spec fn grid_after(update: Option<i32>, old: usize) -> usize {
    match update {
        Some(v) => grid_size_of(v),
        None => old,
    }
}

/// The updated value where there is one, the old value otherwise.
pub open spec fn or_keep<A>(update: Option<A>, old: A) -> A {
    match update {
        Some(v) => v,
        None => old,
    }
}

/// Whether the updates change what the histogram's cells are, so that a
/// selected cell no longer means anything: an axis channel, the mode, the
/// grid or a value range changed.
pub open spec fn clears_selection<R, F>(u: HistogramUpdates<R, F>) -> bool {
    ||| u.x_channel is Some
    ||| u.y_channel is Some
    ||| u.z_channel is Some
    ||| u.mode is Some
    ||| u.grid_columns is Some
    ||| u.grid_rows is Some
    ||| u.custom_x_range is Some
    ||| u.custom_y_range is Some
}

/// The filters after the in-place edits `updates`, applied in order; an
/// edit of a position past the end is ignored.
pub open spec fn filters_edited<F>(filters: Seq<F>, updates: Seq<(usize, F)>) -> Seq<F>
    decreases updates.len(),
{
    if updates.len() == 0 {
        filters
    } else {
        let s = filters_edited(filters, updates.drop_last());
        let (i, f) = updates.last();
        if i < s.len() {
            s.update(i as int, f)
        } else {
            s
        }
    }
}

/// The filters after deleting the positions in `indices`, taken from the
/// last one listed to the first; a position past the end is ignored.
pub open spec fn filters_removed<F>(filters: Seq<F>, indices: Seq<usize>) -> Seq<F>
    decreases indices.len(),
{
    if indices.len() == 0 {
        filters
    } else {
        let i = indices.last();
        let s = if i < filters.len() {
            filters.remove(i as int)
        } else {
            filters
        };
        filters_removed(s, indices.drop_last())
    }
}

/// The sample filters after the updates: edits, then deletions, then the
/// new filter at the end.
pub open spec fn filters_after<R, F>(filters: Seq<F>, u: HistogramUpdates<R, F>) -> Seq<F> {
    let s = filters_removed(filters_edited(filters, u.filter_updates@), u.filters_to_remove@);
    match u.new_filter {
        Some(f) => s.push(f),
        None => s,
    }
}

/// The configuration `after` the controls' updates `u` to `before`.
pub open spec fn controls_updated<R, B, C, T, F>(
    before: HistogramControls<R, B, C, T, F>,
    after: HistogramControls<R, B, C, T, F>,
    u: HistogramUpdates<R, F>,
) -> bool {
    &&& after.x_channel == if u.x_channel is Some { u.x_channel } else { before.x_channel }
    &&& after.y_channel == if u.y_channel is Some { u.y_channel } else { before.y_channel }
    &&& after.z_channel == if u.z_channel is Some { u.z_channel } else { before.z_channel }
    &&& after.mode == or_keep(u.mode, before.mode)
    &&& after.custom_grid_columns == grid_after(u.grid_columns, before.custom_grid_columns)
    &&& after.custom_x_bins == if u.grid_columns is Some { None } else { before.custom_x_bins }
    &&& after.custom_x_bins_text@ == if u.grid_columns is Some {
        Seq::<char>::empty()
    } else {
        before.custom_x_bins_text@
    }
    &&& after.custom_grid_rows == grid_after(u.grid_rows, before.custom_grid_rows)
    &&& after.custom_y_bins == if u.grid_rows is Some { None } else { before.custom_y_bins }
    &&& after.custom_y_bins_text@ == if u.grid_rows is Some {
        Seq::<char>::empty()
    } else {
        before.custom_y_bins_text@
    }
    &&& after.decimal_precision == or_keep(u.decimal_precision, before.decimal_precision)
    &&& after.color_by_count == or_keep(u.color_by_count, before.color_by_count)
    &&& after.min_hits_filter == or_keep(u.min_hits_filter, before.min_hits_filter)
    &&& after.custom_x_range == or_keep(u.custom_x_range, before.custom_x_range)
    &&& after.custom_y_range == or_keep(u.custom_y_range, before.custom_y_range)
    &&& after.x_sort_order == or_keep(u.x_sort_order, before.x_sort_order)
    &&& after.y_sort_order == or_keep(u.y_sort_order, before.y_sort_order)
    &&& after.table_operation == or_keep(u.table_operation, before.table_operation)
    &&& after.show_comparison_view == if u.clear_pasted_table {
        false
    } else {
        or_keep(u.show_comparison_view, before.show_comparison_view)
    }
    &&& after.pasted_table == if u.clear_pasted_table { None } else { before.pasted_table }
    &&& after.selected_cell == if clears_selection(u) { None } else { before.selected_cell }
    &&& after.sample_filters@ == filters_after(before.sample_filters@, u)
}

/// A selected cell names a cell of the histogram as it was: changing an axis
/// channel, the mode, the grid or a value range leaves no cell selected, and
/// with none of these changed the selection stays.
pub proof fn lemma_selection_follows_the_histogram<R, B, C, T, F>(
    before: HistogramControls<R, B, C, T, F>,
    u: HistogramUpdates<R, F>,
)
    ensures
        forall|after: HistogramControls<R, B, C, T, F>| #[trigger] controls_updated(before, after, u) ==> {
            &&& u.x_channel is Some ==> after.selected_cell is None
            &&& u.y_channel is Some ==> after.selected_cell is None
            &&& u.z_channel is Some ==> after.selected_cell is None
            &&& u.mode is Some ==> after.selected_cell is None
            &&& u.grid_columns is Some ==> after.selected_cell is None
            &&& u.grid_rows is Some ==> after.selected_cell is None
            &&& u.custom_x_range is Some ==> after.selected_cell is None
            &&& u.custom_y_range is Some ==> after.selected_cell is None
            &&& (u.x_channel is None && u.y_channel is None && u.z_channel is None && u.mode is None
                && u.grid_columns is None && u.grid_rows is None && u.custom_x_range is None
                && u.custom_y_range is None) ==> after.selected_cell == before.selected_cell
        },
{
}

impl<R, B, C, T, F> HistogramControls<R, B, C, T, F> {
    /// Apply what the user changed with the controls this frame. A changed
    /// axis channel, mode, grid or value range drops the selected cell; a
    /// changed grid takes the control's value clamped to
    /// `MIN_GRID_SIZE..=MAX_GRID_SIZE` and drops that axis's custom bins and
    /// their text; clearing
    /// the pasted table also leaves the comparison view. Filters are edited,
    /// then deleted (last listed first), then the new one is added.
    pub fn apply_updates(&mut self, updates: HistogramUpdates<R, F>)
        ensures
            controls_updated(*old(self), *final(self), updates),
            updates.grid_columns is Some ==> MIN_GRID_SIZE <= final(self).custom_grid_columns <= MAX_GRID_SIZE,
            updates.grid_rows is Some ==> MIN_GRID_SIZE <= final(self).custom_grid_rows <= MAX_GRID_SIZE,
            updates.x_channel is Some ==> final(self).selected_cell is None,
            updates.y_channel is Some ==> final(self).selected_cell is None,
            updates.z_channel is Some ==> final(self).selected_cell is None,
            updates.mode is Some ==> final(self).selected_cell is None,
            updates.grid_columns is Some ==> final(self).selected_cell is None,
            updates.grid_rows is Some ==> final(self).selected_cell is None,
            updates.custom_x_range is Some ==> final(self).selected_cell is None,
            updates.custom_y_range is Some ==> final(self).selected_cell is None,
            updates.x_channel is None && updates.y_channel is None && updates.z_channel is None && updates.mode is None
                && updates.grid_columns is None && updates.grid_rows is None && updates.custom_x_range is None
                && updates.custom_y_range is None ==> final(self).selected_cell == old(self).selected_cell,
    {
        proof {
            lemma_selection_follows_the_histogram(*old(self), updates);
        }
        let ghost u = updates;
        let HistogramUpdates {
            x_channel,
            y_channel,
            z_channel,
            mode,
            grid_columns,
            grid_rows,
            decimal_precision,
            color_by_count,
            min_hits_filter,
            custom_x_range,
            custom_y_range,
            x_sort_order,
            y_sort_order,
            table_operation,
            show_comparison_view,
            clear_pasted_table,
            filter_updates,
            filters_to_remove,
            new_filter,
        } = updates;
        let clears = x_channel.is_some() || y_channel.is_some() || z_channel.is_some() || mode.is_some()
            || grid_columns.is_some() || grid_rows.is_some() || custom_x_range.is_some()
            || custom_y_range.is_some();
        self.apply_channel_updates(x_channel, y_channel, z_channel, mode);
        self.apply_grid_updates(grid_columns, grid_rows);
        self.apply_range_updates(custom_x_range, custom_y_range);
        self.apply_display_updates(decimal_precision, color_by_count, min_hits_filter, x_sort_order, y_sort_order);
        self.apply_comparison_updates(table_operation, show_comparison_view, clear_pasted_table);
        if clears {
            self.selected_cell = None;
        }
        self.edit_filters(filter_updates);
        self.remove_filters(&filters_to_remove);
        if let Some(filter) = new_filter {
            self.sample_filters.push(filter);
        }
    }

    fn apply_channel_updates(
        &mut self,
        x_channel: Option<usize>,
        y_channel: Option<usize>,
        z_channel: Option<usize>,
        mode: Option<HistogramMode>,
    )
        ensures
            *final(self) == (HistogramControls {
                x_channel: if x_channel is Some { x_channel } else { old(self).x_channel },
                y_channel: if y_channel is Some { y_channel } else { old(self).y_channel },
                z_channel: if z_channel is Some { z_channel } else { old(self).z_channel },
                mode: or_keep(mode, old(self).mode),
                ..*old(self)
            }),
    {
        if x_channel.is_some() {
            self.x_channel = x_channel;
        }
        if y_channel.is_some() {
            self.y_channel = y_channel;
        }
        if z_channel.is_some() {
            self.z_channel = z_channel;
        }
        if let Some(m) = mode {
            self.mode = m;
        }
    }

    fn apply_grid_updates(&mut self, grid_columns: Option<i32>, grid_rows: Option<i32>)
        ensures
            *final(self) == (HistogramControls {
                custom_grid_columns: grid_after(grid_columns, old(self).custom_grid_columns),
                custom_x_bins: if grid_columns is Some { None } else { old(self).custom_x_bins },
                custom_x_bins_text: final(self).custom_x_bins_text,
                custom_grid_rows: grid_after(grid_rows, old(self).custom_grid_rows),
                custom_y_bins: if grid_rows is Some { None } else { old(self).custom_y_bins },
                custom_y_bins_text: final(self).custom_y_bins_text,
                ..*old(self)
            }),
            final(self).custom_x_bins_text@ == if grid_columns is Some {
                Seq::<char>::empty()
            } else {
                old(self).custom_x_bins_text@
            },
            final(self).custom_y_bins_text@ == if grid_rows is Some {
                Seq::<char>::empty()
            } else {
                old(self).custom_y_bins_text@
            },
    {
        if let Some(cols) = grid_columns {
            self.custom_grid_columns = clamp_grid_size(cols);
            self.custom_x_bins = None;
            self.custom_x_bins_text = String::new();
        }
        if let Some(rows) = grid_rows {
            self.custom_grid_rows = clamp_grid_size(rows);
            self.custom_y_bins = None;
            self.custom_y_bins_text = String::new();
        }
    }

    fn apply_range_updates(&mut self, custom_x_range: Option<Option<R>>, custom_y_range: Option<Option<R>>)
        ensures
            *final(self) == (HistogramControls {
                custom_x_range: or_keep(custom_x_range, old(self).custom_x_range),
                custom_y_range: or_keep(custom_y_range, old(self).custom_y_range),
                ..*old(self)
            }),
    {
        if let Some(range) = custom_x_range {
            self.custom_x_range = range;
        }
        if let Some(range) = custom_y_range {
            self.custom_y_range = range;
        }
    }

    fn apply_display_updates(
        &mut self,
        decimal_precision: Option<usize>,
        color_by_count: Option<bool>,
        min_hits_filter: Option<u32>,
        x_sort_order: Option<SortOrder>,
        y_sort_order: Option<SortOrder>,
    )
        ensures
            *final(self) == (HistogramControls {
                decimal_precision: or_keep(decimal_precision, old(self).decimal_precision),
                color_by_count: or_keep(color_by_count, old(self).color_by_count),
                min_hits_filter: or_keep(min_hits_filter, old(self).min_hits_filter),
                x_sort_order: or_keep(x_sort_order, old(self).x_sort_order),
                y_sort_order: or_keep(y_sort_order, old(self).y_sort_order),
                ..*old(self)
            }),
    {
        if let Some(precision) = decimal_precision {
            self.decimal_precision = precision;
        }
        if let Some(by_count) = color_by_count {
            self.color_by_count = by_count;
        }
        if let Some(min_hits) = min_hits_filter {
            self.min_hits_filter = min_hits;
        }
        if let Some(order) = x_sort_order {
            self.x_sort_order = order;
        }
        if let Some(order) = y_sort_order {
            self.y_sort_order = order;
        }
    }

    fn apply_comparison_updates(
        &mut self,
        table_operation: Option<TableOperation>,
        show_comparison_view: Option<bool>,
        clear_pasted_table: bool,
    )
        ensures
            *final(self) == (HistogramControls {
                table_operation: or_keep(table_operation, old(self).table_operation),
                show_comparison_view: if clear_pasted_table {
                    false
                } else {
                    or_keep(show_comparison_view, old(self).show_comparison_view)
                },
                pasted_table: if clear_pasted_table { None } else { old(self).pasted_table },
                ..*old(self)
            }),
    {
        if let Some(op) = table_operation {
            self.table_operation = op;
        }
        if let Some(show) = show_comparison_view {
            self.show_comparison_view = show;
        }
        if clear_pasted_table {
            self.pasted_table = None;
            self.show_comparison_view = false;
        }
    }

    /// Apply the in-place filter edits, in order.
    fn edit_filters(&mut self, updates: Vec<(usize, F)>)
        ensures
            final(self).sample_filters@ == filters_edited(old(self).sample_filters@, updates@),
            *final(self) == (HistogramControls { sample_filters: final(self).sample_filters, ..*old(self) }),
    {
        let ghost all = updates@;
        let ghost start = self.sample_filters@;
        let mut rest = updates;
        let ghost mut done: int = 0;
        while rest.len() > 0
            invariant
                0 <= done <= all.len(),
                rest@ == all.subrange(done, all.len() as int),
                self.sample_filters@ == filters_edited(start, all.subrange(0, done)),
                *self == (HistogramControls { sample_filters: self.sample_filters, ..*old(self) }),
            decreases rest.len(),
        {
            let (idx, filter) = rest.remove(0);
            proof {
                assert(all.subrange(0, done + 1).drop_last() =~= all.subrange(0, done));
                assert(all.subrange(0, done + 1).last() == all[done]);
                done = done + 1;
            }
            if idx < self.sample_filters.len() {
                self.sample_filters.set(idx, filter);
            }
            assert(rest@ =~= all.subrange(done, all.len() as int));
        }
        assert(all.subrange(0, done) =~= all);
    }

    /// Delete the filters at `indices`, the last listed first.
    fn remove_filters(&mut self, indices: &Vec<usize>)
        ensures
            final(self).sample_filters@ == filters_removed(old(self).sample_filters@, indices@),
            *final(self) == (HistogramControls { sample_filters: final(self).sample_filters, ..*old(self) }),
    {
        let ghost start = self.sample_filters@;
        let mut k: usize = indices.len();
        assert(indices@.subrange(0, k as int) =~= indices@);
        while k > 0
            invariant
                k <= indices.len(),
                filters_removed(start, indices@) == filters_removed(self.sample_filters@, indices@.subrange(0, k as int)),
                *self == (HistogramControls { sample_filters: self.sample_filters, ..*old(self) }),
            decreases k,
        {
            let idx = indices[k - 1];
            let ghost before = self.sample_filters@;
            assert(indices@.subrange(0, k as int).drop_last() =~= indices@.subrange(0, k - 1));
            if idx < self.sample_filters.len() {
                self.sample_filters.remove(idx);
            }
            k -= 1;
        }
    }
}

} // verus!
