use snowlv::analysis::{
    check_channels_available, formula_needs_statistics, get_analyzer_params,
    resolve_channel_parameter, AnalyzerConfig, ParamDef, ParamType,
};

fn param(key: &str, kind: ParamType) -> ParamDef {
    ParamDef { key: key.to_string(), label: format!("{}:", key), param_type: kind, tooltip: None }
}

fn config(pairs: &[(&str, &str)]) -> AnalyzerConfig {
    AnalyzerConfig { parameters: pairs.iter().map(|(k, v)| (k.to_string(), v.to_string())).collect() }
}

#[test]
fn channels_found_by_raw_or_display_name() {
    let defs = vec![param("channel", ParamType::Channel), param("window_size", ParamType::Integer { min: 2, max: 100 })];
    let raw = vec!["Wideband O2 Overall".to_string(), "RPM".to_string()];
    let display = vec!["AFR".to_string(), "RPM".to_string()];
    assert!(check_channels_available(&config(&[("channel", "afr")]), &defs, &raw, &display));
    assert!(check_channels_available(&config(&[("channel", "wideband o2 overall")]), &defs, &raw, &display));
    assert!(!check_channels_available(&config(&[("channel", "Boost")]), &defs, &raw, &display));
}

#[test]
fn unset_or_empty_channels_pass() {
    let defs = vec![param("channel_x", ParamType::Channel), param("channel_y", ParamType::Channel)];
    let raw = vec!["RPM".to_string()];
    assert!(check_channels_available(&config(&[]), &defs, &raw, &raw));
    assert!(check_channels_available(&config(&[("channel_x", ""), ("channel_y", "rpm")]), &defs, &raw, &raw));
    assert!(!check_channels_available(&config(&[("channel_x", "rpm"), ("channel_y", "MAP")]), &defs, &raw, &raw));
}

#[test]
fn non_channel_parameters_are_not_checked() {
    let defs = vec![param("alpha", ParamType::Decimal { min_hundredths: 1, max_hundredths: 100 }), param("time_based", ParamType::Boolean)];
    assert!(check_channels_available(&config(&[("alpha", "0.5"), ("time_based", "yes")]), &defs, &[], &[]));
}

#[test]
fn statistics_variables_are_detected() {
    assert!(formula_needs_statistics("(RPM - RPM_mean_) / RPM_stdev_"));
    assert!(formula_needs_statistics("MAP_range_"));
    assert!(formula_needs_statistics("x_min_ + x_max_"));
    assert!(!formula_needs_statistics("RPM * 2 + mean"));
}

fn value_of(config: &AnalyzerConfig, key: &str) -> Option<String> {
    config.parameters.iter().find(|(k, _)| k == key).map(|(_, v)| v.clone())
}

#[test]
fn analyzer_parameters_follow_the_analyzer() {
    let params = get_analyzer_params("butterworth_lowpass");
    let keys: Vec<&str> = params.iter().map(|p| p.key.as_str()).collect();
    assert_eq!(keys, vec!["channel", "cutoff_normalized", "order"]);
    assert_eq!(params[0].param_type, ParamType::Channel);
    assert_eq!(params[1].param_type, ParamType::Decimal { min_hundredths: 1, max_hundredths: 49 });
    assert_eq!(params[2].param_type, ParamType::Integer { min: 1, max: 8 });
    assert_eq!(params[2].label, "Order:");
    assert!(params[0].tooltip.as_deref().unwrap().starts_with("Channel to filter."));
}

#[test]
fn analyzer_parameters_of_every_known_analyzer() {
    let counts = [
        ("moving_average", 2),
        ("exponential_moving_average", 2),
        ("median_filter", 2),
        ("butterworth_lowpass", 3),
        ("butterworth_highpass", 3),
        ("descriptive_stats", 1),
        ("correlation", 2),
        ("rate_of_change", 2),
        ("fuel_trim_drift", 4),
        ("rich_lean_zone", 4),
        ("afr_deviation", 2),
        ("volumetric_efficiency", 5),
        ("injector_duty_cycle", 2),
        ("lambda_calculator", 2),
    ];
    for (id, n) in counts {
        assert_eq!(get_analyzer_params(id).len(), n, "{}", id);
    }
    assert!(get_analyzer_params("unknown").is_empty());
    let ve = get_analyzer_params("volumetric_efficiency");
    assert_eq!(ve[3].param_type, ParamType::Decimal { min_hundredths: 10, max_hundredths: 1000 });
    assert_eq!(ve[4].param_type, ParamType::Boolean);
}

#[test]
fn setting_a_parameter_replaces_or_adds_it() {
    let mut c = config(&[("channel", "RPM"), ("window_size", "5")]);
    c.set_parameter("channel".to_string(), "MAP".to_string());
    assert_eq!(value_of(&c, "channel"), Some("MAP".to_string()));
    assert_eq!(value_of(&c, "window_size"), Some("5".to_string()));
    assert_eq!(c.parameters.len(), 2);
    c.set_parameter("alpha".to_string(), "0.5".to_string());
    assert_eq!(value_of(&c, "alpha"), Some("0.5".to_string()));
    assert_eq!(c.parameters.len(), 3);
}

#[test]
fn display_name_in_config_is_rewritten_to_raw_name() {
    let raw = vec!["Wideband O2 Overall".to_string(), "RPM".to_string()];
    let display = vec!["AFR".to_string(), "Engine Speed".to_string()];
    let mut c = config(&[("channel", "afr")]);
    let r = resolve_channel_parameter(&mut c, &"channel".to_string(), &raw, &display);
    assert_eq!(r.raw, "Wideband O2 Overall");
    assert_eq!(r.display, "AFR");
    assert!(r.config_updated);
    assert_eq!(value_of(&c, "channel"), Some("Wideband O2 Overall".to_string()));
    let again = resolve_channel_parameter(&mut c, &"channel".to_string(), &raw, &display);
    assert!(!again.config_updated);
    assert_eq!((again.raw.as_str(), again.display.as_str()), ("Wideband O2 Overall", "AFR"));
}

#[test]
fn raw_name_in_config_is_shown_by_display_name() {
    let raw = vec!["Wideband O2 Overall".to_string(), "RPM".to_string()];
    let display = vec!["AFR".to_string()];
    let mut c = config(&[("channel", "rpm")]);
    let r = resolve_channel_parameter(&mut c, &"channel".to_string(), &raw, &display);
    assert_eq!(r.raw, "RPM");
    assert_eq!(r.display, "rpm");
    assert!(!r.config_updated);
    let r = resolve_channel_parameter(&mut c, &"other".to_string(), &raw, &display);
    assert_eq!((r.raw.as_str(), r.display.as_str(), r.config_updated), ("", "", false));
    let mut c = config(&[("channel", "WIDEBAND o2 overall")]);
    let r = resolve_channel_parameter(&mut c, &"channel".to_string(), &raw, &display);
    assert_eq!((r.raw.as_str(), r.display.as_str()), ("Wideband O2 Overall", "AFR"));
    assert_eq!(value_of(&c, "channel"), Some("WIDEBAND o2 overall".to_string()));
}

#[test]
fn setting_parameters_keeps_keys_unique() {
    let mut c = config(&[("a", "1"), ("b", "2")]);
    c.set_parameter("b".to_string(), "3".to_string());
    c.set_parameter("c".to_string(), "4".to_string());
    c.set_parameter("a".to_string(), "5".to_string());
    let mut keys: Vec<&str> = c.parameters.iter().map(|(k, _)| k.as_str()).collect();
    keys.sort();
    keys.dedup();
    assert_eq!(keys.len(), c.parameters.len());
}
