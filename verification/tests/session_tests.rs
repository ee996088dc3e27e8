use std::collections::HashMap;

use snowlv::session::{
    channel_click, first_unused_color, ActiveTool, ChannelToggle, record_rate_start, record_rate_step, AnalysisChartOutcome, AnalysisResult,
    Channel, ChartAddOutcome, ComputedChannel, LogFile, PlaybackTarget, RecordStep,
    ScatterPlotConfig, SelectedChannel, SnowLVApp, Tab,
};

fn names(list: &[&str]) -> Vec<String> {
    list.iter().map(|s| s.to_string()).collect()
}

fn log_file(channels: &[&str], display: &[&str], records: usize) -> LogFile {
    LogFile { channel_names: names(channels), display_names: names(display), record_count: records }
}

fn tab(file_index: usize) -> Tab {
    Tab {
        name: format!("tab {}", file_index),
        file_index,
        playback_rate_override: false,
        selected_channels: Vec::new(),
    }
}

fn selected(file_index: usize, channel_index: usize, color_index: usize) -> SelectedChannel {
    SelectedChannel { file_index, channel_index, channel: Channel::Log, color_index, hidden: false }
}

fn computed(name: &str) -> ComputedChannel {
    ComputedChannel {
        name: name.to_string(),
        formula: format!("{} * 2", name),
        unit: "kPa".to_string(),
        description: String::new(),
    }
}

fn app() -> SnowLVApp {
    SnowLVApp {
        files: vec![
            log_file(&["RPM", "MAP", "TPS"], &["Engine Speed", "MAP", "Throttle"], 100),
            log_file(&["Lambda"], &["AFR"], 0),
        ],
        tabs: vec![tab(0), tab(1), tab(5)],
        active_tab: Some(0),
        selected_file: Some(0),
        file_computed_channels: HashMap::new(),
        analysis_results: HashMap::new(),
        palette_len: 4,
        field_normalization: false,
        active_tool: ActiveTool::LogViewer,
        show_settings_view: false,
    }
}

#[test]
fn activate_tab_selects_its_file() {
    let mut a = app();
    a.activate_tab(1);
    assert_eq!(a.active_tab, Some(1));
    assert_eq!(a.selected_file, Some(1));
}

#[test]
fn playback_override_follows_active_tab() {
    let mut a = app();
    assert!(!a.playback_rate_override_enabled());
    a.tabs[0].playback_rate_override = true;
    assert!(a.playback_rate_override_enabled());
    a.active_tab = None;
    assert!(!a.playback_rate_override_enabled());
}

#[test]
fn first_unused_color_picks_lowest_free() {
    let chans = vec![selected(0, 0, 0), selected(0, 1, 2)];
    assert_eq!(first_unused_color(&chans, 4), 1);
    let full = vec![selected(0, 0, 0), selected(0, 1, 1)];
    assert_eq!(first_unused_color(&full, 2), 0);
    assert_eq!(first_unused_color(&Vec::new(), 0), 0);
}

#[test]
fn computed_channel_is_added_after_log_channels() {
    let mut a = app();
    a.tabs[0].selected_channels.push(selected(0, 0, 0));
    a.file_computed_channels.insert(0, vec![computed("Boost"), computed("Load")]);
    assert_eq!(a.add_computed_channel_to_chart(1), ChartAddOutcome::Added);
    let added = a.tabs[0].selected_channels.last().unwrap();
    assert_eq!(added.file_index, 0);
    assert_eq!(added.channel_index, 4);
    assert_eq!(added.color_index, 1);
    assert!(!added.hidden);
    match &added.channel {
        Channel::Computed { name, formula, unit } => {
            assert_eq!(name, "Load");
            assert_eq!(formula, "Load * 2");
            assert_eq!(unit, "kPa");
        }
        Channel::Log => panic!("expected a computed channel"),
    }
    assert_eq!(a.add_computed_channel_to_chart(1), ChartAddOutcome::AlreadyOnChart);
    assert_eq!(a.tabs[0].selected_channels.len(), 2);
}

#[test]
fn computed_channel_respects_the_channel_limit() {
    let mut a = app();
    for i in 0..10 {
        a.tabs[0].selected_channels.push(selected(0, 20 + i, i));
    }
    a.file_computed_channels.insert(0, vec![computed("Boost")]);
    assert_eq!(a.add_computed_channel_to_chart(0), ChartAddOutcome::MaxChannelsReached);
    assert_eq!(a.tabs[0].selected_channels.len(), 10);
}

#[test]
fn computed_channel_needs_a_tab_and_a_channel() {
    let mut a = app();
    assert_eq!(a.add_computed_channel_to_chart(0), ChartAddOutcome::Unavailable);
    a.file_computed_channels.insert(0, vec![computed("Boost")]);
    assert_eq!(a.add_computed_channel_to_chart(1), ChartAddOutcome::Unavailable);
    a.active_tab = None;
    assert_eq!(a.add_computed_channel_to_chart(0), ChartAddOutcome::Unavailable);
}

#[test]
fn analysis_result_becomes_a_charted_computed_channel() {
    let mut a = app();
    a.analysis_results.insert(
        0,
        vec![
            AnalysisResult { name: "Smooth".into(), unit: "rpm".into(), algorithm: "EMA".into() },
            AnalysisResult { name: "Rate".into(), unit: "rpm/s".into(), algorithm: "derivative".into() },
        ],
    );
    a.file_computed_channels.insert(0, vec![computed("Boost")]);
    assert_eq!(a.add_analysis_result_to_chart(1), AnalysisChartOutcome::Added);
    let list = &a.file_computed_channels[&0];
    assert_eq!(list.len(), 2);
    assert_eq!(list[1].name, "Rate");
    assert_eq!(list[1].formula, "_analysis_result_1");
    assert_eq!(list[1].unit, "rpm/s");
    assert_eq!(list[1].description, "Analysis result: derivative");
    let added = a.tabs[0].selected_channels.last().unwrap();
    assert_eq!(added.channel_index, 3 + 2 - 1);
    assert_eq!(added.color_index, 0);
}

#[test]
fn analysis_result_for_unloaded_file_is_kept_but_not_charted() {
    let mut a = app();
    a.selected_file = Some(7);
    a.analysis_results.insert(
        7,
        vec![AnalysisResult { name: "X".into(), unit: String::new(), algorithm: "A".into() }],
    );
    assert_eq!(a.add_analysis_result_to_chart(0), AnalysisChartOutcome::FileMissing);
    assert_eq!(a.file_computed_channels[&7].len(), 1);
    assert!(a.tabs[0].selected_channels.is_empty());
    assert_eq!(a.add_analysis_result_to_chart(3), AnalysisChartOutcome::Unavailable);
}

#[test]
fn scatter_title_names_both_axes() {
    let mut a = app();
    let config = ScatterPlotConfig { file_index: None, x_channel: Some(0), y_channel: Some(1) };
    assert_eq!(a.get_scatter_plot_title(&config, 0), "MAP vs RPM vs Hits");
    a.field_normalization = true;
    assert_eq!(a.get_scatter_plot_title(&config, 0), "MAP vs Engine Speed vs Hits");
    let partial = ScatterPlotConfig { file_index: None, x_channel: None, y_channel: Some(9) };
    assert_eq!(a.get_scatter_plot_title(&partial, 0), "--- vs --- vs Hits");
    assert_eq!(a.get_scatter_plot_title(&config, 2), "No Data");
}

#[test]
fn record_rate_playback_bounds() {
    assert_eq!(record_rate_start(None, 10), 0);
    assert_eq!(record_rate_start(Some(4), 10), 4);
    assert_eq!(record_rate_start(Some(40), 10), 9);
    assert_eq!(record_rate_step(3, 10), RecordStep::Advance { record: 3 });
    assert_eq!(record_rate_step(9, 10), RecordStep::Finish { record: 9 });
    assert_eq!(record_rate_step(20, 10), RecordStep::Finish { record: 9 });
}

#[test]
fn record_rate_target_needs_loaded_records() {
    let mut a = app();
    assert_eq!(
        a.record_rate_playback_target(),
        Some(PlaybackTarget { tab: 0, file: 0, record_count: 100 })
    );
    a.active_tab = Some(1);
    assert_eq!(a.record_rate_playback_target(), None);
    a.active_tab = Some(2);
    assert_eq!(a.record_rate_playback_target(), None);
    a.active_tab = None;
    assert_eq!(a.record_rate_playback_target(), None);
}

#[test]
fn formula_preview_uses_loaded_active_file() {
    let mut a = app();
    assert_eq!(a.formula_preview_file(), Some(0));
    a.active_tab = Some(2);
    assert_eq!(a.formula_preview_file(), None);
}

#[test]
fn selecting_a_tool_leaves_the_settings_view() {
    let mut a = app();
    a.show_settings_view = true;
    a.select_tool(ActiveTool::Histogram);
    assert_eq!(a.active_tool, ActiveTool::Histogram);
    assert!(!a.show_settings_view);
    assert_eq!(a.tabs.len(), 3);
    assert_eq!(a.active_tab, Some(0));
}

#[test]
fn stored_analysis_result_is_kept_and_charted() {
    let mut a = app();
    a.analysis_results.insert(
        0,
        vec![AnalysisResult { name: "Smooth".into(), unit: "rpm".into(), algorithm: "EMA".into() }],
    );
    let outcome = a.store_and_chart_analysis_result(AnalysisResult {
        name: "Rate".into(),
        unit: "rpm/s".into(),
        algorithm: "derivative".into(),
    });
    assert_eq!(outcome, AnalysisChartOutcome::Added);
    assert_eq!(a.analysis_results[&0].len(), 2);
    assert_eq!(a.analysis_results[&0][1].name, "Rate");
    let list = &a.file_computed_channels[&0];
    assert_eq!(list.len(), 1);
    assert_eq!(list[0].formula, "_analysis_result_1");
    assert_eq!(a.tabs[0].selected_channels.len(), 1);
    assert_eq!(a.tabs[0].selected_channels[0].channel_index, 3);
}

#[test]
fn stored_analysis_result_needs_a_selected_file() {
    let mut a = app();
    a.selected_file = None;
    let outcome = a.store_and_chart_analysis_result(AnalysisResult {
        name: "Rate".into(),
        unit: String::new(),
        algorithm: "derivative".into(),
    });
    assert_eq!(outcome, AnalysisChartOutcome::Unavailable);
    assert!(a.analysis_results.is_empty());
}

#[test]
fn clicking_a_charted_channel_removes_it() {
    let chans = vec![selected(0, 2, 0), selected(1, 4, 1), selected(1, 4, 2)];
    assert_eq!(channel_click(&chans, 1, 4), ChannelToggle::Remove { selected_index: 1 });
    assert_eq!(channel_click(&chans, 0, 2), ChannelToggle::Remove { selected_index: 0 });
    assert_eq!(channel_click(&chans, 0, 4), ChannelToggle::Add { file_index: 0, channel_index: 4 });
    assert_eq!(channel_click(&Vec::new(), 3, 3), ChannelToggle::Add { file_index: 3, channel_index: 3 });
}

#[test]
fn storing_a_result_appends_to_the_selected_file() {
    let mut a = app();
    let r = |name: &str| AnalysisResult { name: name.into(), unit: String::new(), algorithm: "A".into() };
    assert_eq!(a.store_analysis_result(r("first")), Some(0));
    assert_eq!(a.store_analysis_result(r("second")), Some(1));
    assert_eq!(a.analysis_results[&0][1].name, "second");
    a.selected_file = Some(1);
    assert_eq!(a.store_analysis_result(r("other")), Some(0));
    assert_eq!(a.analysis_results[&0].len(), 2);
    a.selected_file = None;
    assert_eq!(a.store_analysis_result(r("lost")), None);
    assert_eq!(a.analysis_results.len(), 2);
}
