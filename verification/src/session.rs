//! The part of the application state that the UI's decisions read and
//! change: open log files, tabs, the chart's channel selection and the
//! computed channels attached to each file.

use vstd::prelude::*;
use std::collections::HashMap;
use vstd::string::StringExecFns;
use crate::text::{decimal, decimal_string};

verus! {

broadcast use vstd::std_specs::hash::group_hash_axioms;

/// Most channels a tab's chart shows at once.
pub const MAX_CHART_CHANNELS: usize = 10;

/// A loaded log file: the names of its channels, in order, the same names
/// as field normalization shows them, and the number of records it holds.
pub struct LogFile {
    pub channel_names: Vec<String>,
    pub display_names: Vec<String>,
    pub record_count: usize,
}

impl LogFile {
    /// Every channel has a display name.
    pub open spec fn wf(&self) -> bool {
        self.display_names.len() == self.channel_names.len()
    }
}

/// Which channels a scatter plot shows, and from which file.
pub struct ScatterPlotConfig {
    pub file_index: Option<usize>,
    pub x_channel: Option<usize>,
    pub y_channel: Option<usize>,
}

/// Where record-rate playback reads its records: the active tab, the file it
/// shows, and how many records that file holds.
#[derive(Clone, Copy, Debug, PartialEq, Eq, Structural)]
pub struct PlaybackTarget {
    pub tab: usize,
    pub file: usize,
    pub record_count: usize,
}

/// One step of record-rate playback.
#[derive(Clone, Copy, Debug, PartialEq, Eq, Structural)]
pub enum RecordStep {
    /// Move the cursor to this record and keep playing.
    Advance { record: usize },
    /// Put the cursor on the last record and stop.
    Finish { record: usize },
}

/// What a chart entry plots: a channel of the log itself, or a computed one.
pub enum Channel {
    Log,
    Computed { name: String, formula: String, unit: String },
}

/// A channel shown on a tab's chart.
pub struct SelectedChannel {
    pub file_index: usize,
    pub channel_index: usize,
    pub channel: Channel,
    pub color_index: usize,
    pub hidden: bool,
}

/// A computed channel attached to a file.
pub struct ComputedChannel {
    pub name: String,
    pub formula: String,
    pub unit: String,
    pub description: String,
}

/// What the chart needs of an analysis result: its name, its unit and the
/// algorithm that produced it.
pub struct AnalysisResult {
    pub name: String,
    pub unit: String,
    pub algorithm: String,
}

/// What became of a request to chart an analysis result.
#[derive(Clone, Copy, Debug, PartialEq, Eq, Structural)]
pub enum AnalysisChartOutcome {
    /// The result became a computed channel and was put on the chart.
    Added,
    /// There was nothing to add: no selected file, no active tab, or no such
    /// result.
    Unavailable,
    /// The result became a computed channel of the selected file, but that
    /// file is not loaded, so nothing was put on the chart.
    FileMissing,
}

/// What became of a request to put a channel on the active tab's chart.
#[derive(Clone, Copy, Debug, PartialEq, Eq, Structural)]
pub enum ChartAddOutcome {
    /// The channel was added.
    Added,
    /// There was nothing to add: no active tab, or no such channel.
    Unavailable,
    /// The channel is on the chart already.
    AlreadyOnChart,
    /// The chart holds the most channels it can.
    MaxChannelsReached,
}

/// The view the main area shows.
#[derive(Clone, Copy, Debug, PartialEq, Eq, Structural)]
pub enum ActiveTool {
    LogViewer,
    ScatterPlot,
    Histogram,
}

/// One open tab: which file it shows and how.
pub struct Tab {
    pub name: String,
    pub file_index: usize,
    pub playback_rate_override: bool,
    pub selected_channels: Vec<SelectedChannel>,
}

/// The application state the UI decisions work on.
pub struct SnowLVApp {
    pub files: Vec<LogFile>,
    pub tabs: Vec<Tab>,
    pub active_tab: Option<usize>,
    pub selected_file: Option<usize>,
    pub file_computed_channels: HashMap<usize, Vec<ComputedChannel>>,
    pub analysis_results: HashMap<usize, Vec<AnalysisResult>>,
    pub palette_len: usize,
    pub field_normalization: bool,
    pub active_tool: ActiveTool,
    pub show_settings_view: bool,
}

/// The name a title shows for channel `channel` of `file`: its display name
/// under field normalization, its own name otherwise, and `---` when there is
/// no such channel.
pub open spec fn title_channel_name(file: LogFile, channel: Option<usize>, normalize: bool) -> Seq<char> {
    match channel {
        Some(i) => if i < file.channel_names.len() {
            if normalize {
                file.display_names[i as int]@
            } else {
                file.channel_names[i as int]@
            }
        } else {
            "---"@
        },
        None => "---"@,
    }
}

/// The record playback starts from: the cursor's record, or the first one,
/// but not past the last of `record_count` records.
pub fn record_rate_start(cursor_record: Option<usize>, record_count: usize) -> (r: usize)
    requires
        record_count > 0,
    ensures
        r == vstd::math::min(
            match cursor_record {
                Some(c) => c as int,
                None => 0,
            },
            record_count - 1,
        ),
{
    let current = match cursor_record {
        Some(c) => c,
        None => 0,
    };
    if current < record_count - 1 {
        current
    } else {
        record_count - 1
    }
}

/// The step of record-rate playback to `new_record` among `record_count`
/// records: reaching the last record finishes playback.
pub fn record_rate_step(new_record: usize, record_count: usize) -> (step: RecordStep)
    requires
        record_count > 0,
    ensures
        step == (if new_record >= record_count - 1 {
            RecordStep::Finish { record: (record_count - 1) as usize }
        } else {
            RecordStep::Advance { record: new_record }
        }),
{
    if new_record >= record_count - 1 {
        RecordStep::Finish { record: record_count - 1 }
    } else {
        RecordStep::Advance { record: new_record }
    }
}

/// The name a scatter plot title shows for `channel` of `file`.
fn channel_title_name(file: &LogFile, channel: Option<usize>, normalize: bool) -> (r: String)
    requires
        file.wf(),
    ensures
        r@ == title_channel_name(*file, channel, normalize),
{
    match channel {
        Some(idx) => {
            if idx < file.channel_names.len() {
                if normalize {
                    file.display_names[idx].clone()
                } else {
                    file.channel_names[idx].clone()
                }
            } else {
                String::from_str("---")
            }
        },
        None => String::from_str("---"),
    }
}

/// Whether charting analysis result `result_index` gets as far as the active
/// tab's chart: there is a selected file that is loaded, an active tab, and
/// such a result.
pub open spec fn analysis_reaches_chart(app: SnowLVApp, result_index: usize) -> bool {
    &&& app.selected_file matches Some(f)
    &&& f < app.files.len()
    &&& app.active_tab is Some
    &&& app.analysis_results@.contains_key(f)
    &&& result_index < app.analysis_results@[f].len()
}

/// The virtual channel index of a new computed channel of the selected file
/// fits in a `usize`.
pub open spec fn computed_index_fits(app: SnowLVApp) -> bool {
    app.selected_file matches Some(f) ==> (f < app.files.len() ==> app.files[f as int].channel_names.len()
        + (if app.file_computed_channels@.contains_key(f) {
        app.file_computed_channels@[f].len() as int
    } else {
        0int
    }) + 1 <= usize::MAX)
}

/// What charting analysis result `result_index` of the selected file does to
/// the application state, with the outcome reported.
pub open spec fn charts_analysis_result(before: SnowLVApp, after: SnowLVApp, result_index: usize, outcome: AnalysisChartOutcome) -> bool {
    &&& after.files == before.files
    &&& after.active_tab == before.active_tab
    &&& after.selected_file == before.selected_file
    &&& after.analysis_results == before.analysis_results
    &&& after.palette_len == before.palette_len
    &&& after.field_normalization == before.field_normalization
    &&& after.active_tool == before.active_tool
    &&& after.show_settings_view == before.show_settings_view
    &&& after.tabs.len() == before.tabs.len()
    &&& ({
                    let available = before.selected_file is Some && before.active_tab is Some
                        && before.analysis_results@.contains_key(before.selected_file->0)
                        && result_index < before.analysis_results@[before.selected_file->0].len();
                    if !available {
                        &&& outcome == AnalysisChartOutcome::Unavailable
                        &&& after.tabs == before.tabs
                        &&& after.file_computed_channels == before.file_computed_channels
                    } else {
                        let f = before.selected_file->0;
                        let t = before.active_tab->0;
                        let result = before.analysis_results@[f][result_index as int];
                        let list_before: Seq<ComputedChannel> = if before.file_computed_channels@.contains_key(f) {
                            before.file_computed_channels@[f]@
                        } else {
                            Seq::empty()
                        };
                        let list_after = after.file_computed_channels@[f]@;
                        let computed = list_after.last();
                        &&& after.file_computed_channels@.contains_key(f)
                        &&& after.file_computed_channels@.remove(f) =~= before.file_computed_channels@.remove(f)
                        &&& list_after.len() == list_before.len() + 1
                        &&& list_after.drop_last() =~= list_before
                        &&& computed.name == result.name
                        &&& computed.formula@ == "_analysis_result_"@ + decimal(result_index as nat)
                        &&& computed.unit == result.unit
                        &&& computed.description@ == "Analysis result: "@ + result.algorithm@
                        &&& if f >= before.files.len() {
                            outcome == AnalysisChartOutcome::FileMissing && after.tabs == before.tabs
                        } else {
                            let tab = before.tabs[t as int];
                            let shown = tab.selected_channels@;
                            let added = after.tabs[t as int].selected_channels@.last();
                            &&& outcome == AnalysisChartOutcome::Added
                            &&& forall|i: int| 0 <= i < before.tabs.len() && i != t ==> after.tabs[i] == before.tabs[i]
                            &&& after.tabs[t as int].name == tab.name
                            &&& after.tabs[t as int].file_index == tab.file_index
                            &&& after.tabs[t as int].playback_rate_override == tab.playback_rate_override
                            &&& after.tabs[t as int].selected_channels@.len() == shown.len() + 1
                            &&& after.tabs[t as int].selected_channels@.drop_last() =~= shown
                            &&& added.file_index == f
                            &&& added.channel_index == before.files[f as int].channel_names.len() + list_after.len() - 1
                            &&& added.channel == (Channel::Computed {
                                name: computed.name,
                                formula: computed.formula,
                                unit: computed.unit,
                            })
                            &&& is_first_free_color(shown, before.palette_len as int, added.color_index as int)
                            &&& !added.hidden
                        }
                    }
                })
}

impl SnowLVApp {
    /// The active tab, when there is one, is one of the open tabs.
    pub open spec fn wf(&self) -> bool {
        self.active_tab matches Some(t) ==> t < self.tabs.len()
    }

    /// Whether the active tab plays back at a fixed record rate.
    pub fn playback_rate_override_enabled(&self) -> (r: bool)
        requires
            self.wf(),
        ensures
            r == (self.active_tab matches Some(t) && self.tabs[t as int].playback_rate_override),
    {
        match self.active_tab {
            Some(idx) => self.tabs[idx].playback_rate_override,
            None => false,
        }
    }

    /// Make tab `index` the active one and select the file it shows.
    pub fn activate_tab(&mut self, index: usize)
        requires
            index < old(self).tabs.len(),
        ensures
            *final(self) == (SnowLVApp {
                active_tab: Some(index),
                selected_file: Some(old(self).tabs[index as int].file_index),
                ..*old(self)
            }),
            final(self).wf(),
    {
        self.active_tab = Some(index);
        self.selected_file = Some(self.tabs[index].file_index);
    }
}

/// Whether some channel in `channels` is drawn with color `color`.
pub open spec fn color_in_use(channels: Seq<SelectedChannel>, color: int) -> bool {
    exists|k: int| 0 <= k < channels.len() && channels[k].color_index == color
}

/// `color` is the first palette color no channel uses, or `0` when every
/// palette color is in use.
pub open spec fn is_first_free_color(channels: Seq<SelectedChannel>, palette_len: int, color: int) -> bool {
    if exists|c: int| 0 <= c < palette_len && !color_in_use(channels, c) {
        &&& 0 <= color < palette_len
        &&& !color_in_use(channels, color)
        &&& forall|c: int| 0 <= c < color ==> color_in_use(channels, c)
    } else {
        color == 0
    }
}

/// Whether `channels` shows channel `channel_index` of file `file_index`.
pub open spec fn shows_channel(channels: Seq<SelectedChannel>, file_index: int, channel_index: int) -> bool {
    exists|k: int|
        0 <= k < channels.len() && channels[k].file_index == file_index && channels[k].channel_index
            == channel_index
}

/// Whether a chart's channels are within the channel limit and show no
/// channel twice.
pub open spec fn selection_ok(channels: Seq<SelectedChannel>) -> bool {
    &&& channels.len() <= MAX_CHART_CHANNELS
    &&& forall|i: int, j: int|
        0 <= i < j < channels.len() ==> !(channels[i].file_index == channels[j].file_index
            && channels[i].channel_index == channels[j].channel_index)
}

/// The first palette color that no channel in `channels` uses, or `0`.
pub fn first_unused_color(channels: &Vec<SelectedChannel>, palette_len: usize) -> (color: usize)
    ensures
        is_first_free_color(channels@, palette_len as int, color as int),
{
    let mut c: usize = 0;
    while c < palette_len
        invariant
            c <= palette_len,
            forall|d: int| 0 <= d < c ==> color_in_use(channels@, d),
        decreases palette_len - c,
    {
        let mut used = false;
        let mut k: usize = 0;
        while k < channels.len()
            invariant
                k <= channels.len(),
                used <==> exists|j: int| 0 <= j < k && channels@[j].color_index == c,
            decreases channels.len() - k,
        {
            if channels[k].color_index == c {
                used = true;
            }
            k += 1;
        }
        if !used {
            assert(!color_in_use(channels@, c as int));
            return c;
        }
        c += 1;
    }
    proof {
        assert forall|d: int| 0 <= d < palette_len implies color_in_use(channels@, d) by {}
    }
    0
}

/// Whether `channels` shows channel `channel_index` of file `file_index`.
fn has_channel(channels: &Vec<SelectedChannel>, file_index: usize, channel_index: usize) -> (r: bool)
    ensures
        r == shows_channel(channels@, file_index as int, channel_index as int),
{
    let mut k: usize = 0;
    while k < channels.len()
        invariant
            k <= channels.len(),
            forall|j: int|
                0 <= j < k ==> !(channels@[j].file_index == file_index && channels@[j].channel_index
                    == channel_index),
        decreases channels.len() - k,
    {
        if channels[k].file_index == file_index && channels[k].channel_index == channel_index {
            return true;
        }
        k += 1;
    }
    false
}

/// The position of the first entry of `channels` that shows channel
/// `channel_index` of file `file_index`, if any.
pub open spec fn first_selected(channels: Seq<SelectedChannel>, file_index: int, channel_index: int) -> Option<int>
    decreases channels.len(),
{
    if channels.len() == 0 {
        None
    } else {
        match first_selected(channels.drop_last(), file_index, channel_index) {
            Some(i) => Some(i),
            None => if channels.last().file_index == file_index && channels.last().channel_index == channel_index {
                Some(channels.len() - 1)
            } else {
                None
            },
        }
    }
}

/// What a click on a channel of the channel list does.
#[derive(Clone, Copy, Debug, PartialEq, Eq, Structural)]
pub enum ChannelToggle {
    /// Take this entry off the chart.
    Remove { selected_index: usize },
    /// Put this channel on the chart.
    Add { file_index: usize, channel_index: usize },
}

/// What clicking channel `channel_index` of file `file_index` in the channel
/// list does: a channel on the chart comes off (its first entry), any other
/// goes on.
pub fn channel_click(selected: &Vec<SelectedChannel>, file_index: usize, channel_index: usize) -> (r: ChannelToggle)
    ensures
        r == match first_selected(selected@, file_index as int, channel_index as int) {
            Some(i) => ChannelToggle::Remove { selected_index: i as usize },
            None => ChannelToggle::Add { file_index, channel_index },
        },
        r is Remove <==> shows_channel(selected@, file_index as int, channel_index as int),
        r matches ChannelToggle::Remove { selected_index } ==> selected_index < selected.len()
            && selected@[selected_index as int].file_index == file_index
            && selected@[selected_index as int].channel_index == channel_index,
{
    proof {
        lemma_first_selected_shows(selected@, file_index as int, channel_index as int);
    }
    let mut k: usize = 0;
    while k < selected.len()
        invariant
            k <= selected.len(),
            first_selected(selected@.subrange(0, k as int), file_index as int, channel_index as int) is None,
        decreases selected.len() - k,
    {
        assert(selected@.subrange(0, k + 1).drop_last() =~= selected@.subrange(0, k as int));
        if selected[k].file_index == file_index && selected[k].channel_index == channel_index {
            proof {
                lemma_first_selected_prefix(selected@, file_index as int, channel_index as int, k + 1);
            }
            return ChannelToggle::Remove { selected_index: k };
        }
        k += 1;
    }
    assert(selected@.subrange(0, selected.len() as int) =~= selected@);
    ChannelToggle::Add { file_index, channel_index }
}

/// The first entry showing a channel exists exactly when the list shows the
/// channel, and it does show it.
proof fn lemma_first_selected_shows(channels: Seq<SelectedChannel>, file_index: int, channel_index: int)
    ensures
        first_selected(channels, file_index, channel_index) is Some <==> shows_channel(channels, file_index, channel_index),
        first_selected(channels, file_index, channel_index) matches Some(i) ==> 0 <= i < channels.len()
            && channels[i].file_index == file_index && channels[i].channel_index == channel_index,
    decreases channels.len(),
{
    if channels.len() > 0 {
        let rest = channels.drop_last();
        lemma_first_selected_shows(rest, file_index, channel_index);
        if shows_channel(rest, file_index, channel_index) {
            let k = choose|k: int| 0 <= k < rest.len() && rest[k].file_index == file_index && rest[k].channel_index == channel_index;
            assert(channels[k] == rest[k]);
        }
        if shows_channel(channels, file_index, channel_index) && !shows_channel(rest, file_index, channel_index) {
            let k = choose|k: int| 0 <= k < channels.len() && channels[k].file_index == file_index && channels[k].channel_index == channel_index;
            if k < rest.len() {
                assert(channels[k] == rest[k]);
            }
        }
    }
}

/// An entry found in a prefix is the first entry of the whole list.
proof fn lemma_first_selected_prefix(channels: Seq<SelectedChannel>, file_index: int, channel_index: int, n: int)
    requires
        0 <= n <= channels.len(),
        first_selected(channels.subrange(0, n), file_index, channel_index) is Some,
    ensures
        first_selected(channels, file_index, channel_index) == first_selected(channels.subrange(0, n), file_index, channel_index),
    decreases channels.len() - n,
{
    if n < channels.len() {
        assert(channels.subrange(0, n + 1).drop_last() =~= channels.subrange(0, n));
        lemma_first_selected_prefix(channels, file_index, channel_index, n + 1);
    } else {
        assert(channels.subrange(0, n) =~= channels);
    }
}

impl SnowLVApp {
    /// Put computed channel `computed_idx` of the active tab's file on that
    /// tab's chart, in the first free palette color. Computed channels are
    /// numbered after the file's own channels.
    pub fn add_computed_channel_to_chart(&mut self, computed_idx: usize) -> (outcome: ChartAddOutcome)
        requires
            old(self).wf(),
            old(self).active_tab matches Some(t) ==> {
                let f = old(self).tabs[t as int].file_index;
                old(self).file_computed_channels@.contains_key(f)
                    && computed_idx < old(self).file_computed_channels@[f].len() ==> {
                    &&& f < old(self).files.len()
                    &&& old(self).files[f as int].channel_names.len() + computed_idx <= usize::MAX
                }
            },
        ensures
            final(self).wf(),
            final(self).files == old(self).files,
            final(self).active_tab == old(self).active_tab,
            final(self).selected_file == old(self).selected_file,
            final(self).file_computed_channels == old(self).file_computed_channels,
            final(self).palette_len == old(self).palette_len,
            final(self).analysis_results == old(self).analysis_results,
            final(self).field_normalization == old(self).field_normalization,
            final(self).active_tool == old(self).active_tool,
            final(self).show_settings_view == old(self).show_settings_view,
            final(self).tabs.len() == old(self).tabs.len(),
            old(self).active_tab matches Some(t) ==> (selection_ok(old(self).tabs[t as int].selected_channels@)
                ==> selection_ok(final(self).tabs[t as int].selected_channels@)),
            match old(self).active_tab {
                None => outcome == ChartAddOutcome::Unavailable && final(self).tabs == old(self).tabs,
                Some(t) => {
                    let tab = old(self).tabs[t as int];
                    let f = tab.file_index;
                    let shown = tab.selected_channels@;
                    if !old(self).file_computed_channels@.contains_key(f)
                        || computed_idx >= old(self).file_computed_channels@[f].len() {
                        outcome == ChartAddOutcome::Unavailable && final(self).tabs == old(self).tabs
                    } else {
                        let computed = old(self).file_computed_channels@[f][computed_idx as int];
                        let virtual_index = old(self).files[f as int].channel_names.len() + computed_idx;
                        if shows_channel(shown, f as int, virtual_index) {
                            outcome == ChartAddOutcome::AlreadyOnChart && final(self).tabs == old(self).tabs
                        } else if shown.len() >= MAX_CHART_CHANNELS {
                            outcome == ChartAddOutcome::MaxChannelsReached && final(self).tabs == old(self).tabs
                        } else {
                            let added = final(self).tabs[t as int].selected_channels@.last();
                            &&& outcome == ChartAddOutcome::Added
                            &&& forall|i: int| 0 <= i < old(self).tabs.len() && i != t ==> final(self).tabs[i] == old(self).tabs[i]
                            &&& final(self).tabs[t as int].name == tab.name
                            &&& final(self).tabs[t as int].file_index == f
                            &&& final(self).tabs[t as int].playback_rate_override == tab.playback_rate_override
                            &&& final(self).tabs[t as int].selected_channels@.len() == shown.len() + 1
                            &&& final(self).tabs[t as int].selected_channels@.drop_last() == shown
                            &&& added.file_index == f
                            &&& added.channel_index == virtual_index
                            &&& added.channel == (Channel::Computed {
                                name: computed.name,
                                formula: computed.formula,
                                unit: computed.unit,
                            })
                            &&& is_first_free_color(shown, old(self).palette_len as int, added.color_index as int)
                            &&& !added.hidden
                        }
                    }
                },
            },
    {
        let tab_idx = match self.active_tab {
            Some(idx) => idx,
            None => return ChartAddOutcome::Unavailable,
        };
        let file_idx = self.tabs[tab_idx].file_index;
        let computed_channels = match self.file_computed_channels.get(&file_idx) {
            Some(c) => c,
            None => return ChartAddOutcome::Unavailable,
        };
        if computed_idx >= computed_channels.len() {
            return ChartAddOutcome::Unavailable;
        }
        let computed = &computed_channels[computed_idx];
        let regular_count = self.files[file_idx].channel_names.len();
        let virtual_channel_index = regular_count + computed_idx;

        if has_channel(&self.tabs[tab_idx].selected_channels, file_idx, virtual_channel_index) {
            return ChartAddOutcome::AlreadyOnChart;
        }
        if self.tabs[tab_idx].selected_channels.len() >= MAX_CHART_CHANNELS {
            return ChartAddOutcome::MaxChannelsReached;
        }
        let color_index = first_unused_color(&self.tabs[tab_idx].selected_channels, self.palette_len);
        let channel = Channel::Computed {
            name: computed.name.clone(),
            formula: computed.formula.clone(),
            unit: computed.unit.clone(),
        };
        let entry = SelectedChannel {
            file_index: file_idx,
            channel_index: virtual_channel_index,
            channel,
            color_index,
            hidden: false,
        };
        let ghost shown = self.tabs[tab_idx as int].selected_channels@;
        self.tabs[tab_idx].selected_channels.push(entry);
        proof {
            let after = self.tabs[tab_idx as int].selected_channels@;
            if selection_ok(shown) {
                assert forall|i: int, j: int| 0 <= i < j < after.len() implies !(after[i].file_index == after[j].file_index
                    && after[i].channel_index == after[j].channel_index) by {
                    if j == shown.len() {
                        assert(after[i] == shown[i]);
                    } else {
                        assert(after[i] == shown[i] && after[j] == shown[j]);
                    }
                }
            }
        }
        ChartAddOutcome::Added
    }

    /// Turn analysis result `result_index` of the selected file into a
    /// computed channel of that file and put it on the active tab's chart, in
    /// the first free palette color.
    pub fn add_analysis_result_to_chart(&mut self, result_index: usize) -> (outcome: AnalysisChartOutcome)
        requires
            analysis_reaches_chart(*old(self), result_index) ==> old(self).active_tab->0 < old(self).tabs.len(),
            computed_index_fits(*old(self)),
        ensures
            charts_analysis_result(*old(self), *final(self), result_index, outcome),
    {
        let file_idx = match self.selected_file {
            Some(idx) => idx,
            None => return AnalysisChartOutcome::Unavailable,
        };
        let tab_idx = match self.active_tab {
            Some(idx) => idx,
            None => return AnalysisChartOutcome::Unavailable,
        };
        let result = match self.analysis_results.get(&file_idx) {
            Some(results) => {
                if result_index < results.len() {
                    &results[result_index]
                } else {
                    return AnalysisChartOutcome::Unavailable;
                }
            },
            None => return AnalysisChartOutcome::Unavailable,
        };

        let mut formula = String::from_str("_analysis_result_");
        let index_text = decimal_string(result_index);
        formula.append(index_text.as_str());
        let mut description = String::from_str("Analysis result: ");
        description.append(result.algorithm.as_str());
        let computed = ComputedChannel {
            name: result.name.clone(),
            formula,
            unit: result.unit.clone(),
            description,
        };
        let channel = Channel::Computed {
            name: computed.name.clone(),
            formula: computed.formula.clone(),
            unit: computed.unit.clone(),
        };

        let mut computed_channels = match self.file_computed_channels.remove(&file_idx) {
            Some(list) => list,
            None => Vec::new(),
        };
        computed_channels.push(computed);
        let computed_count = computed_channels.len();
        self.file_computed_channels.insert(file_idx, computed_channels);

        if file_idx >= self.files.len() {
            return AnalysisChartOutcome::FileMissing;
        }
        let base_channel_count = self.files[file_idx].channel_names.len();
        let virtual_channel_index = base_channel_count + computed_count - 1;

        let color_index = first_unused_color(&self.tabs[tab_idx].selected_channels, self.palette_len);
        let entry = SelectedChannel {
            file_index: file_idx,
            channel_index: virtual_channel_index,
            channel,
            color_index,
            hidden: false,
        };
        self.tabs[tab_idx].selected_channels.push(entry);
        AnalysisChartOutcome::Added
    }

    /// The file whose data previews a formula: the active tab's, when it is
    /// loaded.
    pub fn formula_preview_file(&self) -> (r: Option<usize>)
        requires
            self.wf(),
        ensures
            r == (match self.active_tab {
                Some(t) => if self.tabs[t as int].file_index < self.files.len() {
                    Some(self.tabs[t as int].file_index)
                } else {
                    None
                },
                None => None,
            }),
    {
        match self.active_tab {
            Some(tab_idx) => {
                let file_idx = self.tabs[tab_idx].file_index;
                if file_idx < self.files.len() {
                    Some(file_idx)
                } else {
                    None
                }
            },
            None => None,
        }
    }

    /// Where record-rate playback reads its records; `None` (playback stops)
    /// without an active tab, when its file is not loaded, or when the file
    /// holds no record.
    pub fn record_rate_playback_target(&self) -> (r: Option<PlaybackTarget>)
        requires
            self.wf(),
        ensures
            r == (match self.active_tab {
                Some(t) => {
                    let f = self.tabs[t as int].file_index;
                    if f < self.files.len() && self.files[f as int].record_count > 0 {
                        Some(PlaybackTarget { tab: t, file: f, record_count: self.files[f as int].record_count })
                    } else {
                        None
                    }
                },
                None => None,
            }),
    {
        let tab_idx = match self.active_tab {
            Some(t) => t,
            None => return None,
        };
        let file_index = self.tabs[tab_idx].file_index;
        if file_index >= self.files.len() {
            return None;
        }
        let record_count = self.files[file_index].record_count;
        if record_count == 0 {
            return None;
        }
        Some(PlaybackTarget { tab: tab_idx, file: file_index, record_count })
    }

    /// The title of a scatter plot of `config` on file `file_idx`: its y and x
    /// channel names, then "Hits"; "No Data" when the file is not loaded.
    pub fn get_scatter_plot_title(&self, config: &ScatterPlotConfig, file_idx: usize) -> (title: String)
        requires
            file_idx < self.files.len() ==> self.files[file_idx as int].wf(),
        ensures
            title@ == (if file_idx >= self.files.len() {
                "No Data"@
            } else {
                let file = self.files[file_idx as int];
                title_channel_name(file, config.y_channel, self.field_normalization) + " vs "@
                    + title_channel_name(file, config.x_channel, self.field_normalization) + " vs Hits"@
            }),
    {
        if file_idx >= self.files.len() {
            return String::from_str("No Data");
        }
        let file = &self.files[file_idx];
        let x_name = channel_title_name(file, config.x_channel, self.field_normalization);
        let y_name = channel_title_name(file, config.y_channel, self.field_normalization);
        let mut title = y_name;
        title.append(" vs ");
        title.append(x_name.as_str());
        title.append(" vs Hits");
        title
    }

    /// Switch the main area to `tool`, leaving the settings view.
    pub fn select_tool(&mut self, tool: ActiveTool)
        ensures
            *final(self) == (SnowLVApp { active_tool: tool, show_settings_view: false, ..*old(self) }),
    {
        self.active_tool = tool;
        self.show_settings_view = false;
    }

    /// Keep the result of an analysis run on the selected file as that file's
    /// newest result, and return its index; without a selected file nothing
    /// is kept.
    pub fn store_analysis_result(&mut self, result: AnalysisResult) -> (stored: Option<usize>)
        ensures
            stores_analysis_result(*old(self), *final(self), result, stored),
    {
        let file_idx = match self.selected_file {
            Some(idx) => idx,
            None => return None,
        };
        let mut results = match self.analysis_results.remove(&file_idx) {
            Some(list) => list,
            None => Vec::new(),
        };
        results.push(result);
        let result_idx = results.len() - 1;
        self.analysis_results.insert(file_idx, results);
        Some(result_idx)
    }

    /// Keep the result of an analysis run on the selected file, then chart
    /// it as the newest result of that file. Without a selected file nothing
    /// is kept.
    pub fn store_and_chart_analysis_result(&mut self, result: AnalysisResult) -> (outcome: AnalysisChartOutcome)
        requires
            old(self).selected_file matches Some(f) && f < old(self).files.len() && old(self).active_tab is Some
                ==> old(self).active_tab->0 < old(self).tabs.len(),
            computed_index_fits(*old(self)),
        ensures
            old(self).selected_file is None ==> outcome == AnalysisChartOutcome::Unavailable && *final(self) == *old(self),
            old(self).selected_file is Some ==> {
                let stored = (SnowLVApp { analysis_results: final(self).analysis_results, ..*old(self) });
                let index = (results_of(old(self).analysis_results@, old(self).selected_file->0).len()) as usize;
                &&& stores_analysis_result(*old(self), stored, result, Some(index))
                &&& charts_analysis_result(stored, *final(self), index, outcome)
            },
    {
        let ghost start = *self;
        match self.store_analysis_result(result) {
            None => AnalysisChartOutcome::Unavailable,
            Some(result_idx) => {
                let ghost stored = *self;
                let outcome = self.add_analysis_result_to_chart(result_idx);
                assert(stored == (SnowLVApp { analysis_results: self.analysis_results, ..start }));
                outcome
            },
        }
    }
}

/// The results kept for file `f`, in the order they were produced.
pub open spec fn results_of(results: Map<usize, Vec<AnalysisResult>>, f: usize) -> Seq<AnalysisResult> {
    if results.contains_key(f) {
        results[f]@
    } else {
        Seq::empty()
    }
}

/// What keeping analysis result `result` does: without a selected file
/// nothing changes and nothing is stored; otherwise the result becomes the
/// newest of the selected file's results, at index `stored`, and nothing
/// else changes.
pub open spec fn stores_analysis_result(
    before: SnowLVApp,
    after: SnowLVApp,
    result: AnalysisResult,
    stored: Option<usize>,
) -> bool {
    match before.selected_file {
        None => stored is None && after == before,
        Some(f) => {
            &&& stored == Some(results_of(before.analysis_results@, f).len() as usize)
            &&& after == (SnowLVApp { analysis_results: after.analysis_results, ..before })
            &&& after.analysis_results@.contains_key(f)
            &&& after.analysis_results@[f]@ =~= results_of(before.analysis_results@, f).push(result)
            &&& after.analysis_results@.remove(f) =~= before.analysis_results@.remove(f)
        },
    }
}

} // verus!
