//! Analyzer parameters and computed-channel templates: which channels an
//! analyzer's configuration names, and which formulas need channel statistics.

use vstd::prelude::*;
use crate::text::{contains_seq, contains_str, eq_ignore_ascii_case, equal_ignoring_ascii_case};

verus! {

/// The kind of value an analyzer parameter takes.
#[derive(Clone, Copy, Debug, PartialEq, Eq, Structural)]
pub enum ParamType {
    /// The name of a log channel.
    Channel,
    /// A whole number within bounds.
    Integer { min: i32, max: i32 },
    /// A decimal number within bounds, the bounds given in hundredths.
    Decimal { min_hundredths: i32, max_hundredths: i32 },
    /// A yes/no switch.
    Boolean,
}

/// An analyzer parameter: the key it is stored under, the label and the
/// tooltip it is shown with, and its kind.
pub struct ParamDef {
    pub key: String,
    pub label: String,
    pub param_type: ParamType,
    pub tooltip: Option<String>,
}

/// A parameter definition as the contracts see it: key, label, kind and
/// tooltip.
pub type ParamView = (Seq<char>, Seq<char>, ParamType, Option<Seq<char>>);

/// The view of a parameter definition.
pub open spec fn param_view(d: ParamDef) -> ParamView {
    (d.key@, d.label@, d.param_type, match d.tooltip {
        Some(t) => Some(t@),
        None => None,
    })
}

/// A parameter with a tooltip.
pub open spec fn described(key: Seq<char>, label: Seq<char>, kind: ParamType, tooltip: Seq<char>) -> ParamView {
    (key, label, kind, Some(tooltip))
}

/// The parameters each analyzer takes, by the analyzer's id, in the order
/// they are shown; none for an unknown id.
pub open spec fn analyzer_params(id: Seq<char>) -> Seq<ParamView> {
    if id == "moving_average"@ {
        seq![
            described("channel"@, "Channel:"@, ParamType::Channel, "Any numeric channel to smooth"@),
            described("window_size"@, "Window:"@, ParamType::Integer { min: 2, max: 100 }, "Number of samples to average (larger = smoother)"@),
        ]
    } else if id == "exponential_moving_average"@ {
        seq![
            described("channel"@, "Channel:"@, ParamType::Channel, "Any numeric channel to smooth"@),
            described("alpha"@, "Alpha:"@, ParamType::Decimal { min_hundredths: 1, max_hundredths: 100 }, "Smoothing factor: 0.1 = very smooth, 0.5 = moderate, 0.9 = responsive"@),
        ]
    } else if id == "median_filter"@ {
        seq![
            described("channel"@, "Channel:"@, ParamType::Channel, "Channel with spike noise to remove"@),
            described("window_size"@, "Window:"@, ParamType::Integer { min: 3, max: 51 }, "Must be odd number. Larger = removes wider spikes"@),
        ]
    } else if id == "butterworth_lowpass"@ {
        seq![
            described("channel"@, "Channel:"@, ParamType::Channel, "Channel to filter. Common: RPM, MAP, TPS, AFR, Knock"@),
            described("cutoff_normalized"@, "Cutoff:"@, ParamType::Decimal { min_hundredths: 1, max_hundredths: 49 }, "Normalized cutoff (0-0.5). 0.1 = 10% of sample rate. Lower = more smoothing"@),
            described("order"@, "Order:"@, ParamType::Integer { min: 1, max: 8 }, "Filter order (1-8). Higher = sharper cutoff but more ringing. 2-4 recommended"@),
        ]
    } else if id == "butterworth_highpass"@ {
        seq![
            described("channel"@, "Channel:"@, ParamType::Channel, "Channel to remove DC/drift from. Common: Knock sensor, vibration data"@),
            described("cutoff_normalized"@, "Cutoff:"@, ParamType::Decimal { min_hundredths: 1, max_hundredths: 49 }, "Normalized cutoff (0-0.5). Frequencies below this are removed"@),
            described("order"@, "Order:"@, ParamType::Integer { min: 1, max: 8 }, "Filter order (1-8). Higher = sharper cutoff. 2-4 recommended"@),
        ]
    } else if id == "descriptive_stats"@ {
        seq![
            described("channel"@, "Channel:"@, ParamType::Channel, "Any channel to compute min/max/mean/stdev statistics"@),
        ]
    } else if id == "correlation"@ {
        seq![
            described("channel_x"@, "Channel X:"@, ParamType::Channel, "First channel (e.g., RPM, TPS, MAP)"@),
            described("channel_y"@, "Channel Y:"@, ParamType::Channel, "Second channel to correlate (e.g., AFR, Fuel Trim)"@),
        ]
    } else if id == "rate_of_change"@ {
        seq![
            described("channel"@, "Channel:"@, ParamType::Channel, "Channel to differentiate. Common: RPM (acceleration), TPS (throttle rate)"@),
            described("time_based"@, "Per second:"@, ParamType::Boolean, "If checked, rate is per second. Otherwise, per sample"@),
        ]
    } else if id == "fuel_trim_drift"@ {
        seq![
            described("channel"@, "Fuel Trim:"@, ParamType::Channel, "Fuel trim channel. Common names: LTFT, STFT, Long Term FT, Short Term FT, Fuel Trim, FT Bank1"@),
            described("k"@, "Sensitivity (k):"@, ParamType::Decimal { min_hundredths: 10, max_hundredths: 1000 }, "CUSUM slack parameter. Lower = more sensitive to small drifts. Default 2.5"@),
            described("h"@, "Threshold (h):"@, ParamType::Decimal { min_hundredths: 100, max_hundredths: 10000 }, "Detection threshold. Lower = faster detection, more false alarms. Default 20"@),
            described("baseline_pct"@, "Baseline %:"@, ParamType::Decimal { min_hundredths: 100, max_hundredths: 5000 }, "% of data from start to use as baseline. Default 10%"@),
        ]
    } else if id == "rich_lean_zone"@ {
        seq![
            described("channel"@, "AFR/Lambda:"@, ParamType::Channel, "AFR or Lambda channel. Auto-detects unit type. Common: AFR, Lambda, Wideband O2, O2"@),
            described("target"@, "Target:"@, ParamType::Decimal { min_hundredths: 0, max_hundredths: 2000 }, "Target value. Set to 0 for auto-detect (AFR: 14.7, Lambda: 1.0). Or set manually."@),
            described("rich_threshold"@, "Rich threshold:"@, ParamType::Decimal { min_hundredths: 0, max_hundredths: 300 }, "Set to 0 for auto-detect (AFR: 0.5, Lambda: 0.03). Rich = below (target - threshold)"@),
            described("lean_threshold"@, "Lean threshold:"@, ParamType::Decimal { min_hundredths: 0, max_hundredths: 300 }, "Set to 0 for auto-detect (AFR: 0.5, Lambda: 0.03). Lean = above (target + threshold)"@),
        ]
    } else if id == "afr_deviation"@ {
        seq![
            described("channel"@, "AFR/Lambda:"@, ParamType::Channel, "AFR or Lambda channel. Auto-detects unit type. Common: AFR, Lambda, Wideband O2, O2"@),
            described("target"@, "Target:"@, ParamType::Decimal { min_hundredths: 0, max_hundredths: 2000 }, "Target value. Set to 0 for auto-detect (AFR: 14.7, Lambda: 1.0). Or set manually."@),
        ]
    } else if id == "volumetric_efficiency"@ {
        seq![
            described("rpm_channel"@, "RPM:"@, ParamType::Channel, "Engine RPM channel. Common names: RPM, Engine Speed, Engine RPM"@),
            described("map_channel"@, "MAP (kPa):"@, ParamType::Channel, "Manifold Absolute Pressure in kPa. Common names: MAP, Manifold Pressure, Boost"@),
            described("iat_channel"@, "IAT:"@, ParamType::Channel, "Intake Air Temp in °C. Common names: IAT, Intake Temp, Air Temp, ACT"@),
            described("displacement_l"@, "Displacement (L):"@, ParamType::Decimal { min_hundredths: 10, max_hundredths: 1000 }, "Engine displacement in liters. E.g., 2.0, 3.5, 5.7"@),
            described("is_iat_kelvin"@, "IAT in Kelvin:"@, ParamType::Boolean, "Check if your IAT channel is already in Kelvin (rare). Usually °C."@),
        ]
    } else if id == "injector_duty_cycle"@ {
        seq![
            described("pulse_width_channel"@, "Pulse Width (ms):"@, ParamType::Channel, "Injector pulse width in milliseconds. Common names: IPW, Inj PW, Pulse Width, Fuel PW, Inj DC"@),
            described("rpm_channel"@, "RPM:"@, ParamType::Channel, "Engine RPM channel. Common names: RPM, Engine Speed, Engine RPM"@),
        ]
    } else if id == "lambda_calculator"@ {
        seq![
            described("afr_channel"@, "AFR Channel:"@, ParamType::Channel, "Air-Fuel Ratio channel. Common names: AFR, O2, Wideband, A/F Ratio"@),
            described("stoich_afr"@, "Stoich AFR:"@, ParamType::Decimal { min_hundredths: 500, max_hundredths: 2000 }, "Stoichiometric AFR for your fuel. Gasoline: 14.7, E85: 9.8, E10: 14.1, Methanol: 6.4"@),
        ]
    } else {
        Seq::empty()
    }
}

proof fn lemma_params_of_moving_average()
    ensures
        analyzer_params("moving_average"@).len() == 2,
        analyzer_params("moving_average"@)[0].0 == "channel"@ && analyzer_params("moving_average"@)[0].2 == (ParamType::Channel),
        analyzer_params("moving_average"@)[1].0 == "window_size"@ && analyzer_params("moving_average"@)[1].2 == (ParamType::Integer { min: 2, max: 100 }),
{
    reveal_strlit("moving_average");
}

proof fn lemma_params_of_exponential_moving_average()
    ensures
        analyzer_params("exponential_moving_average"@).len() == 2,
        analyzer_params("exponential_moving_average"@)[0].0 == "channel"@ && analyzer_params("exponential_moving_average"@)[0].2 == (ParamType::Channel),
        analyzer_params("exponential_moving_average"@)[1].0 == "alpha"@ && analyzer_params("exponential_moving_average"@)[1].2 == (ParamType::Decimal { min_hundredths: 1, max_hundredths: 100 }),
{
    reveal_strlit("moving_average");
    reveal_strlit("exponential_moving_average");
    assert("exponential_moving_average"@[0] != "moving_average"@[0]);
}

proof fn lemma_params_of_median_filter()
    ensures
        analyzer_params("median_filter"@).len() == 2,
        analyzer_params("median_filter"@)[0].0 == "channel"@ && analyzer_params("median_filter"@)[0].2 == (ParamType::Channel),
        analyzer_params("median_filter"@)[1].0 == "window_size"@ && analyzer_params("median_filter"@)[1].2 == (ParamType::Integer { min: 3, max: 51 }),
{
    reveal_strlit("moving_average");
    reveal_strlit("exponential_moving_average");
    reveal_strlit("median_filter");
    assert("median_filter"@[1] != "moving_average"@[1]);
    assert("median_filter"@[0] != "exponential_moving_average"@[0]);
}

proof fn lemma_params_of_butterworth_lowpass()
    ensures
        analyzer_params("butterworth_lowpass"@).len() == 3,
        analyzer_params("butterworth_lowpass"@)[0].0 == "channel"@ && analyzer_params("butterworth_lowpass"@)[0].2 == (ParamType::Channel),
        analyzer_params("butterworth_lowpass"@)[1].0 == "cutoff_normalized"@ && analyzer_params("butterworth_lowpass"@)[1].2 == (ParamType::Decimal { min_hundredths: 1, max_hundredths: 49 }),
        analyzer_params("butterworth_lowpass"@)[2].0 == "order"@ && analyzer_params("butterworth_lowpass"@)[2].2 == (ParamType::Integer { min: 1, max: 8 }),
{
    reveal_strlit("moving_average");
    reveal_strlit("exponential_moving_average");
    reveal_strlit("median_filter");
    reveal_strlit("butterworth_lowpass");
    assert("butterworth_lowpass"@[0] != "moving_average"@[0]);
    assert("butterworth_lowpass"@[0] != "exponential_moving_average"@[0]);
    assert("butterworth_lowpass"@[0] != "median_filter"@[0]);
}

proof fn lemma_params_of_butterworth_highpass()
    ensures
        analyzer_params("butterworth_highpass"@).len() == 3,
        analyzer_params("butterworth_highpass"@)[0].0 == "channel"@ && analyzer_params("butterworth_highpass"@)[0].2 == (ParamType::Channel),
        analyzer_params("butterworth_highpass"@)[1].0 == "cutoff_normalized"@ && analyzer_params("butterworth_highpass"@)[1].2 == (ParamType::Decimal { min_hundredths: 1, max_hundredths: 49 }),
        analyzer_params("butterworth_highpass"@)[2].0 == "order"@ && analyzer_params("butterworth_highpass"@)[2].2 == (ParamType::Integer { min: 1, max: 8 }),
{
    reveal_strlit("moving_average");
    reveal_strlit("exponential_moving_average");
    reveal_strlit("median_filter");
    reveal_strlit("butterworth_lowpass");
    reveal_strlit("butterworth_highpass");
    assert("butterworth_highpass"@[0] != "moving_average"@[0]);
    assert("butterworth_highpass"@[0] != "exponential_moving_average"@[0]);
    assert("butterworth_highpass"@[0] != "median_filter"@[0]);
    assert("butterworth_highpass"@[12] != "butterworth_lowpass"@[12]);
}

proof fn lemma_params_of_descriptive_stats()
    ensures
        analyzer_params("descriptive_stats"@).len() == 1,
        analyzer_params("descriptive_stats"@)[0].0 == "channel"@ && analyzer_params("descriptive_stats"@)[0].2 == (ParamType::Channel),
{
    reveal_strlit("moving_average");
    reveal_strlit("exponential_moving_average");
    reveal_strlit("median_filter");
    reveal_strlit("butterworth_lowpass");
    reveal_strlit("butterworth_highpass");
    reveal_strlit("descriptive_stats");
    assert("descriptive_stats"@[0] != "moving_average"@[0]);
    assert("descriptive_stats"@[0] != "exponential_moving_average"@[0]);
    assert("descriptive_stats"@[0] != "median_filter"@[0]);
    assert("descriptive_stats"@[0] != "butterworth_lowpass"@[0]);
    assert("descriptive_stats"@[0] != "butterworth_highpass"@[0]);
}

proof fn lemma_params_of_correlation()
    ensures
        analyzer_params("correlation"@).len() == 2,
        analyzer_params("correlation"@)[0].0 == "channel_x"@ && analyzer_params("correlation"@)[0].2 == (ParamType::Channel),
        analyzer_params("correlation"@)[1].0 == "channel_y"@ && analyzer_params("correlation"@)[1].2 == (ParamType::Channel),
{
    reveal_strlit("moving_average");
    reveal_strlit("exponential_moving_average");
    reveal_strlit("median_filter");
    reveal_strlit("butterworth_lowpass");
    reveal_strlit("butterworth_highpass");
    reveal_strlit("descriptive_stats");
    reveal_strlit("correlation");
    assert("correlation"@[0] != "moving_average"@[0]);
    assert("correlation"@[0] != "exponential_moving_average"@[0]);
    assert("correlation"@[0] != "median_filter"@[0]);
    assert("correlation"@[0] != "butterworth_lowpass"@[0]);
    assert("correlation"@[0] != "butterworth_highpass"@[0]);
    assert("correlation"@[0] != "descriptive_stats"@[0]);
}

proof fn lemma_params_of_rate_of_change()
    ensures
        analyzer_params("rate_of_change"@).len() == 2,
        analyzer_params("rate_of_change"@)[0].0 == "channel"@ && analyzer_params("rate_of_change"@)[0].2 == (ParamType::Channel),
        analyzer_params("rate_of_change"@)[1].0 == "time_based"@ && analyzer_params("rate_of_change"@)[1].2 == (ParamType::Boolean),
{
    reveal_strlit("moving_average");
    reveal_strlit("exponential_moving_average");
    reveal_strlit("median_filter");
    reveal_strlit("butterworth_lowpass");
    reveal_strlit("butterworth_highpass");
    reveal_strlit("descriptive_stats");
    reveal_strlit("correlation");
    reveal_strlit("rate_of_change");
    assert("rate_of_change"@[0] != "moving_average"@[0]);
    assert("rate_of_change"@[0] != "exponential_moving_average"@[0]);
    assert("rate_of_change"@[0] != "median_filter"@[0]);
    assert("rate_of_change"@[0] != "butterworth_lowpass"@[0]);
    assert("rate_of_change"@[0] != "butterworth_highpass"@[0]);
    assert("rate_of_change"@[0] != "descriptive_stats"@[0]);
    assert("rate_of_change"@[0] != "correlation"@[0]);
}

proof fn lemma_params_of_fuel_trim_drift()
    ensures
        analyzer_params("fuel_trim_drift"@).len() == 4,
        analyzer_params("fuel_trim_drift"@)[0].0 == "channel"@ && analyzer_params("fuel_trim_drift"@)[0].2 == (ParamType::Channel),
        analyzer_params("fuel_trim_drift"@)[1].0 == "k"@ && analyzer_params("fuel_trim_drift"@)[1].2 == (ParamType::Decimal { min_hundredths: 10, max_hundredths: 1000 }),
        analyzer_params("fuel_trim_drift"@)[2].0 == "h"@ && analyzer_params("fuel_trim_drift"@)[2].2 == (ParamType::Decimal { min_hundredths: 100, max_hundredths: 10000 }),
        analyzer_params("fuel_trim_drift"@)[3].0 == "baseline_pct"@ && analyzer_params("fuel_trim_drift"@)[3].2 == (ParamType::Decimal { min_hundredths: 100, max_hundredths: 5000 }),
{
    reveal_strlit("moving_average");
    reveal_strlit("exponential_moving_average");
    reveal_strlit("median_filter");
    reveal_strlit("butterworth_lowpass");
    reveal_strlit("butterworth_highpass");
    reveal_strlit("descriptive_stats");
    reveal_strlit("correlation");
    reveal_strlit("rate_of_change");
    reveal_strlit("fuel_trim_drift");
    assert("fuel_trim_drift"@[0] != "moving_average"@[0]);
    assert("fuel_trim_drift"@[0] != "exponential_moving_average"@[0]);
    assert("fuel_trim_drift"@[0] != "median_filter"@[0]);
    assert("fuel_trim_drift"@[0] != "butterworth_lowpass"@[0]);
    assert("fuel_trim_drift"@[0] != "butterworth_highpass"@[0]);
    assert("fuel_trim_drift"@[0] != "descriptive_stats"@[0]);
    assert("fuel_trim_drift"@[0] != "correlation"@[0]);
    assert("fuel_trim_drift"@[0] != "rate_of_change"@[0]);
}

proof fn lemma_params_of_rich_lean_zone()
    ensures
        analyzer_params("rich_lean_zone"@).len() == 4,
        analyzer_params("rich_lean_zone"@)[0].0 == "channel"@ && analyzer_params("rich_lean_zone"@)[0].2 == (ParamType::Channel),
        analyzer_params("rich_lean_zone"@)[1].0 == "target"@ && analyzer_params("rich_lean_zone"@)[1].2 == (ParamType::Decimal { min_hundredths: 0, max_hundredths: 2000 }),
        analyzer_params("rich_lean_zone"@)[2].0 == "rich_threshold"@ && analyzer_params("rich_lean_zone"@)[2].2 == (ParamType::Decimal { min_hundredths: 0, max_hundredths: 300 }),
        analyzer_params("rich_lean_zone"@)[3].0 == "lean_threshold"@ && analyzer_params("rich_lean_zone"@)[3].2 == (ParamType::Decimal { min_hundredths: 0, max_hundredths: 300 }),
{
    reveal_strlit("moving_average");
    reveal_strlit("exponential_moving_average");
    reveal_strlit("median_filter");
    reveal_strlit("butterworth_lowpass");
    reveal_strlit("butterworth_highpass");
    reveal_strlit("descriptive_stats");
    reveal_strlit("correlation");
    reveal_strlit("rate_of_change");
    reveal_strlit("fuel_trim_drift");
    reveal_strlit("rich_lean_zone");
    assert("rich_lean_zone"@[0] != "moving_average"@[0]);
    assert("rich_lean_zone"@[0] != "exponential_moving_average"@[0]);
    assert("rich_lean_zone"@[0] != "median_filter"@[0]);
    assert("rich_lean_zone"@[0] != "butterworth_lowpass"@[0]);
    assert("rich_lean_zone"@[0] != "butterworth_highpass"@[0]);
    assert("rich_lean_zone"@[0] != "descriptive_stats"@[0]);
    assert("rich_lean_zone"@[0] != "correlation"@[0]);
    assert("rich_lean_zone"@[1] != "rate_of_change"@[1]);
    assert("rich_lean_zone"@[0] != "fuel_trim_drift"@[0]);
}

proof fn lemma_params_of_afr_deviation()
    ensures
        analyzer_params("afr_deviation"@).len() == 2,
        analyzer_params("afr_deviation"@)[0].0 == "channel"@ && analyzer_params("afr_deviation"@)[0].2 == (ParamType::Channel),
        analyzer_params("afr_deviation"@)[1].0 == "target"@ && analyzer_params("afr_deviation"@)[1].2 == (ParamType::Decimal { min_hundredths: 0, max_hundredths: 2000 }),
{
    reveal_strlit("moving_average");
    reveal_strlit("exponential_moving_average");
    reveal_strlit("median_filter");
    reveal_strlit("butterworth_lowpass");
    reveal_strlit("butterworth_highpass");
    reveal_strlit("descriptive_stats");
    reveal_strlit("correlation");
    reveal_strlit("rate_of_change");
    reveal_strlit("fuel_trim_drift");
    reveal_strlit("rich_lean_zone");
    reveal_strlit("afr_deviation");
    assert("afr_deviation"@[0] != "moving_average"@[0]);
    assert("afr_deviation"@[0] != "exponential_moving_average"@[0]);
    assert("afr_deviation"@[0] != "median_filter"@[0]);
    assert("afr_deviation"@[0] != "butterworth_lowpass"@[0]);
    assert("afr_deviation"@[0] != "butterworth_highpass"@[0]);
    assert("afr_deviation"@[0] != "descriptive_stats"@[0]);
    assert("afr_deviation"@[0] != "correlation"@[0]);
    assert("afr_deviation"@[0] != "rate_of_change"@[0]);
    assert("afr_deviation"@[0] != "fuel_trim_drift"@[0]);
    assert("afr_deviation"@[0] != "rich_lean_zone"@[0]);
}

proof fn lemma_params_of_volumetric_efficiency()
    ensures
        analyzer_params("volumetric_efficiency"@).len() == 5,
        analyzer_params("volumetric_efficiency"@)[0].0 == "rpm_channel"@ && analyzer_params("volumetric_efficiency"@)[0].2 == (ParamType::Channel),
        analyzer_params("volumetric_efficiency"@)[1].0 == "map_channel"@ && analyzer_params("volumetric_efficiency"@)[1].2 == (ParamType::Channel),
        analyzer_params("volumetric_efficiency"@)[2].0 == "iat_channel"@ && analyzer_params("volumetric_efficiency"@)[2].2 == (ParamType::Channel),
        analyzer_params("volumetric_efficiency"@)[3].0 == "displacement_l"@ && analyzer_params("volumetric_efficiency"@)[3].2 == (ParamType::Decimal { min_hundredths: 10, max_hundredths: 1000 }),
        analyzer_params("volumetric_efficiency"@)[4].0 == "is_iat_kelvin"@ && analyzer_params("volumetric_efficiency"@)[4].2 == (ParamType::Boolean),
{
    reveal_strlit("moving_average");
    reveal_strlit("exponential_moving_average");
    reveal_strlit("median_filter");
    reveal_strlit("butterworth_lowpass");
    reveal_strlit("butterworth_highpass");
    reveal_strlit("descriptive_stats");
    reveal_strlit("correlation");
    reveal_strlit("rate_of_change");
    reveal_strlit("fuel_trim_drift");
    reveal_strlit("rich_lean_zone");
    reveal_strlit("afr_deviation");
    reveal_strlit("volumetric_efficiency");
    assert("volumetric_efficiency"@[0] != "moving_average"@[0]);
    assert("volumetric_efficiency"@[0] != "exponential_moving_average"@[0]);
    assert("volumetric_efficiency"@[0] != "median_filter"@[0]);
    assert("volumetric_efficiency"@[0] != "butterworth_lowpass"@[0]);
    assert("volumetric_efficiency"@[0] != "butterworth_highpass"@[0]);
    assert("volumetric_efficiency"@[0] != "descriptive_stats"@[0]);
    assert("volumetric_efficiency"@[0] != "correlation"@[0]);
    assert("volumetric_efficiency"@[0] != "rate_of_change"@[0]);
    assert("volumetric_efficiency"@[0] != "fuel_trim_drift"@[0]);
    assert("volumetric_efficiency"@[0] != "rich_lean_zone"@[0]);
    assert("volumetric_efficiency"@[0] != "afr_deviation"@[0]);
}

proof fn lemma_params_of_injector_duty_cycle()
    ensures
        analyzer_params("injector_duty_cycle"@).len() == 2,
        analyzer_params("injector_duty_cycle"@)[0].0 == "pulse_width_channel"@ && analyzer_params("injector_duty_cycle"@)[0].2 == (ParamType::Channel),
        analyzer_params("injector_duty_cycle"@)[1].0 == "rpm_channel"@ && analyzer_params("injector_duty_cycle"@)[1].2 == (ParamType::Channel),
{
    reveal_strlit("moving_average");
    reveal_strlit("exponential_moving_average");
    reveal_strlit("median_filter");
    reveal_strlit("butterworth_lowpass");
    reveal_strlit("butterworth_highpass");
    reveal_strlit("descriptive_stats");
    reveal_strlit("correlation");
    reveal_strlit("rate_of_change");
    reveal_strlit("fuel_trim_drift");
    reveal_strlit("rich_lean_zone");
    reveal_strlit("afr_deviation");
    reveal_strlit("volumetric_efficiency");
    reveal_strlit("injector_duty_cycle");
    assert("injector_duty_cycle"@[0] != "moving_average"@[0]);
    assert("injector_duty_cycle"@[0] != "exponential_moving_average"@[0]);
    assert("injector_duty_cycle"@[0] != "median_filter"@[0]);
    assert("injector_duty_cycle"@[0] != "butterworth_lowpass"@[0]);
    assert("injector_duty_cycle"@[0] != "butterworth_highpass"@[0]);
    assert("injector_duty_cycle"@[0] != "descriptive_stats"@[0]);
    assert("injector_duty_cycle"@[0] != "correlation"@[0]);
    assert("injector_duty_cycle"@[0] != "rate_of_change"@[0]);
    assert("injector_duty_cycle"@[0] != "fuel_trim_drift"@[0]);
    assert("injector_duty_cycle"@[0] != "rich_lean_zone"@[0]);
    assert("injector_duty_cycle"@[0] != "afr_deviation"@[0]);
    assert("injector_duty_cycle"@[0] != "volumetric_efficiency"@[0]);
}

proof fn lemma_params_of_lambda_calculator()
    ensures
        analyzer_params("lambda_calculator"@).len() == 2,
        analyzer_params("lambda_calculator"@)[0].0 == "afr_channel"@ && analyzer_params("lambda_calculator"@)[0].2 == (ParamType::Channel),
        analyzer_params("lambda_calculator"@)[1].0 == "stoich_afr"@ && analyzer_params("lambda_calculator"@)[1].2 == (ParamType::Decimal { min_hundredths: 500, max_hundredths: 2000 }),
{
    reveal_strlit("moving_average");
    reveal_strlit("exponential_moving_average");
    reveal_strlit("median_filter");
    reveal_strlit("butterworth_lowpass");
    reveal_strlit("butterworth_highpass");
    reveal_strlit("descriptive_stats");
    reveal_strlit("correlation");
    reveal_strlit("rate_of_change");
    reveal_strlit("fuel_trim_drift");
    reveal_strlit("rich_lean_zone");
    reveal_strlit("afr_deviation");
    reveal_strlit("volumetric_efficiency");
    reveal_strlit("injector_duty_cycle");
    reveal_strlit("lambda_calculator");
    assert("lambda_calculator"@[0] != "moving_average"@[0]);
    assert("lambda_calculator"@[0] != "exponential_moving_average"@[0]);
    assert("lambda_calculator"@[0] != "median_filter"@[0]);
    assert("lambda_calculator"@[0] != "butterworth_lowpass"@[0]);
    assert("lambda_calculator"@[0] != "butterworth_highpass"@[0]);
    assert("lambda_calculator"@[0] != "descriptive_stats"@[0]);
    assert("lambda_calculator"@[0] != "correlation"@[0]);
    assert("lambda_calculator"@[0] != "rate_of_change"@[0]);
    assert("lambda_calculator"@[0] != "fuel_trim_drift"@[0]);
    assert("lambda_calculator"@[0] != "rich_lean_zone"@[0]);
    assert("lambda_calculator"@[0] != "afr_deviation"@[0]);
    assert("lambda_calculator"@[0] != "volumetric_efficiency"@[0]);
    assert("lambda_calculator"@[0] != "injector_duty_cycle"@[0]);
}

proof fn lemma_params_of_unknown()
    ensures
        analyzer_params("unknown"@).len() == 0,
{
    reveal_strlit("moving_average");
    reveal_strlit("exponential_moving_average");
    reveal_strlit("median_filter");
    reveal_strlit("butterworth_lowpass");
    reveal_strlit("butterworth_highpass");
    reveal_strlit("descriptive_stats");
    reveal_strlit("correlation");
    reveal_strlit("rate_of_change");
    reveal_strlit("fuel_trim_drift");
    reveal_strlit("rich_lean_zone");
    reveal_strlit("afr_deviation");
    reveal_strlit("volumetric_efficiency");
    reveal_strlit("injector_duty_cycle");
    reveal_strlit("lambda_calculator");
    reveal_strlit("unknown");
    assert("unknown"@[0] != "moving_average"@[0]);
    assert("unknown"@[0] != "exponential_moving_average"@[0]);
    assert("unknown"@[0] != "median_filter"@[0]);
    assert("unknown"@[0] != "butterworth_lowpass"@[0]);
    assert("unknown"@[0] != "butterworth_highpass"@[0]);
    assert("unknown"@[0] != "descriptive_stats"@[0]);
    assert("unknown"@[0] != "correlation"@[0]);
    assert("unknown"@[0] != "rate_of_change"@[0]);
    assert("unknown"@[0] != "fuel_trim_drift"@[0]);
    assert("unknown"@[0] != "rich_lean_zone"@[0]);
    assert("unknown"@[0] != "afr_deviation"@[0]);
    assert("unknown"@[0] != "volumetric_efficiency"@[0]);
    assert("unknown"@[0] != "injector_duty_cycle"@[0]);
    assert("unknown"@[0] != "lambda_calculator"@[0]);
}

/// The parameters of each known analyzer, by key and kind, in the order
/// they are shown: which channels it reads and the bounds of each number it
/// takes. An unknown analyzer takes none.
pub proof fn lemma_analyzer_parameter_kinds()
    ensures
        analyzer_params("moving_average"@).len() == 2,
        analyzer_params("moving_average"@)[0].0 == "channel"@ && analyzer_params("moving_average"@)[0].2 == (ParamType::Channel),
        analyzer_params("moving_average"@)[1].0 == "window_size"@ && analyzer_params("moving_average"@)[1].2 == (ParamType::Integer { min: 2, max: 100 }),
        analyzer_params("exponential_moving_average"@).len() == 2,
        analyzer_params("exponential_moving_average"@)[0].0 == "channel"@ && analyzer_params("exponential_moving_average"@)[0].2 == (ParamType::Channel),
        analyzer_params("exponential_moving_average"@)[1].0 == "alpha"@ && analyzer_params("exponential_moving_average"@)[1].2 == (ParamType::Decimal { min_hundredths: 1, max_hundredths: 100 }),
        analyzer_params("median_filter"@).len() == 2,
        analyzer_params("median_filter"@)[0].0 == "channel"@ && analyzer_params("median_filter"@)[0].2 == (ParamType::Channel),
        analyzer_params("median_filter"@)[1].0 == "window_size"@ && analyzer_params("median_filter"@)[1].2 == (ParamType::Integer { min: 3, max: 51 }),
        analyzer_params("butterworth_lowpass"@).len() == 3,
        analyzer_params("butterworth_lowpass"@)[0].0 == "channel"@ && analyzer_params("butterworth_lowpass"@)[0].2 == (ParamType::Channel),
        analyzer_params("butterworth_lowpass"@)[1].0 == "cutoff_normalized"@ && analyzer_params("butterworth_lowpass"@)[1].2 == (ParamType::Decimal { min_hundredths: 1, max_hundredths: 49 }),
        analyzer_params("butterworth_lowpass"@)[2].0 == "order"@ && analyzer_params("butterworth_lowpass"@)[2].2 == (ParamType::Integer { min: 1, max: 8 }),
        analyzer_params("butterworth_highpass"@).len() == 3,
        analyzer_params("butterworth_highpass"@)[0].0 == "channel"@ && analyzer_params("butterworth_highpass"@)[0].2 == (ParamType::Channel),
        analyzer_params("butterworth_highpass"@)[1].0 == "cutoff_normalized"@ && analyzer_params("butterworth_highpass"@)[1].2 == (ParamType::Decimal { min_hundredths: 1, max_hundredths: 49 }),
        analyzer_params("butterworth_highpass"@)[2].0 == "order"@ && analyzer_params("butterworth_highpass"@)[2].2 == (ParamType::Integer { min: 1, max: 8 }),
        analyzer_params("descriptive_stats"@).len() == 1,
        analyzer_params("descriptive_stats"@)[0].0 == "channel"@ && analyzer_params("descriptive_stats"@)[0].2 == (ParamType::Channel),
        analyzer_params("correlation"@).len() == 2,
        analyzer_params("correlation"@)[0].0 == "channel_x"@ && analyzer_params("correlation"@)[0].2 == (ParamType::Channel),
        analyzer_params("correlation"@)[1].0 == "channel_y"@ && analyzer_params("correlation"@)[1].2 == (ParamType::Channel),
        analyzer_params("rate_of_change"@).len() == 2,
        analyzer_params("rate_of_change"@)[0].0 == "channel"@ && analyzer_params("rate_of_change"@)[0].2 == (ParamType::Channel),
        analyzer_params("rate_of_change"@)[1].0 == "time_based"@ && analyzer_params("rate_of_change"@)[1].2 == (ParamType::Boolean),
        analyzer_params("fuel_trim_drift"@).len() == 4,
        analyzer_params("fuel_trim_drift"@)[0].0 == "channel"@ && analyzer_params("fuel_trim_drift"@)[0].2 == (ParamType::Channel),
        analyzer_params("fuel_trim_drift"@)[1].0 == "k"@ && analyzer_params("fuel_trim_drift"@)[1].2 == (ParamType::Decimal { min_hundredths: 10, max_hundredths: 1000 }),
        analyzer_params("fuel_trim_drift"@)[2].0 == "h"@ && analyzer_params("fuel_trim_drift"@)[2].2 == (ParamType::Decimal { min_hundredths: 100, max_hundredths: 10000 }),
        analyzer_params("fuel_trim_drift"@)[3].0 == "baseline_pct"@ && analyzer_params("fuel_trim_drift"@)[3].2 == (ParamType::Decimal { min_hundredths: 100, max_hundredths: 5000 }),
        analyzer_params("rich_lean_zone"@).len() == 4,
        analyzer_params("rich_lean_zone"@)[0].0 == "channel"@ && analyzer_params("rich_lean_zone"@)[0].2 == (ParamType::Channel),
        analyzer_params("rich_lean_zone"@)[1].0 == "target"@ && analyzer_params("rich_lean_zone"@)[1].2 == (ParamType::Decimal { min_hundredths: 0, max_hundredths: 2000 }),
        analyzer_params("rich_lean_zone"@)[2].0 == "rich_threshold"@ && analyzer_params("rich_lean_zone"@)[2].2 == (ParamType::Decimal { min_hundredths: 0, max_hundredths: 300 }),
        analyzer_params("rich_lean_zone"@)[3].0 == "lean_threshold"@ && analyzer_params("rich_lean_zone"@)[3].2 == (ParamType::Decimal { min_hundredths: 0, max_hundredths: 300 }),
        analyzer_params("afr_deviation"@).len() == 2,
        analyzer_params("afr_deviation"@)[0].0 == "channel"@ && analyzer_params("afr_deviation"@)[0].2 == (ParamType::Channel),
        analyzer_params("afr_deviation"@)[1].0 == "target"@ && analyzer_params("afr_deviation"@)[1].2 == (ParamType::Decimal { min_hundredths: 0, max_hundredths: 2000 }),
        analyzer_params("volumetric_efficiency"@).len() == 5,
        analyzer_params("volumetric_efficiency"@)[0].0 == "rpm_channel"@ && analyzer_params("volumetric_efficiency"@)[0].2 == (ParamType::Channel),
        analyzer_params("volumetric_efficiency"@)[1].0 == "map_channel"@ && analyzer_params("volumetric_efficiency"@)[1].2 == (ParamType::Channel),
        analyzer_params("volumetric_efficiency"@)[2].0 == "iat_channel"@ && analyzer_params("volumetric_efficiency"@)[2].2 == (ParamType::Channel),
        analyzer_params("volumetric_efficiency"@)[3].0 == "displacement_l"@ && analyzer_params("volumetric_efficiency"@)[3].2 == (ParamType::Decimal { min_hundredths: 10, max_hundredths: 1000 }),
        analyzer_params("volumetric_efficiency"@)[4].0 == "is_iat_kelvin"@ && analyzer_params("volumetric_efficiency"@)[4].2 == (ParamType::Boolean),
        analyzer_params("injector_duty_cycle"@).len() == 2,
        analyzer_params("injector_duty_cycle"@)[0].0 == "pulse_width_channel"@ && analyzer_params("injector_duty_cycle"@)[0].2 == (ParamType::Channel),
        analyzer_params("injector_duty_cycle"@)[1].0 == "rpm_channel"@ && analyzer_params("injector_duty_cycle"@)[1].2 == (ParamType::Channel),
        analyzer_params("lambda_calculator"@).len() == 2,
        analyzer_params("lambda_calculator"@)[0].0 == "afr_channel"@ && analyzer_params("lambda_calculator"@)[0].2 == (ParamType::Channel),
        analyzer_params("lambda_calculator"@)[1].0 == "stoich_afr"@ && analyzer_params("lambda_calculator"@)[1].2 == (ParamType::Decimal { min_hundredths: 500, max_hundredths: 2000 }),
        analyzer_params("unknown"@).len() == 0,
{
    lemma_params_of_moving_average();
    lemma_params_of_exponential_moving_average();
    lemma_params_of_median_filter();
    lemma_params_of_butterworth_lowpass();
    lemma_params_of_butterworth_highpass();
    lemma_params_of_descriptive_stats();
    lemma_params_of_correlation();
    lemma_params_of_rate_of_change();
    lemma_params_of_fuel_trim_drift();
    lemma_params_of_rich_lean_zone();
    lemma_params_of_afr_deviation();
    lemma_params_of_volumetric_efficiency();
    lemma_params_of_injector_duty_cycle();
    lemma_params_of_lambda_calculator();
    lemma_params_of_unknown();
}

fn described_param(key: &str, label: &str, kind: ParamType, tooltip: &str) -> (d: ParamDef)
    ensures
        param_view(d) == described(key@, label@, kind, tooltip@),
{
    ParamDef {
        key: String::from_str(key),
        label: String::from_str(label),
        param_type: kind,
        tooltip: Some(String::from_str(tooltip)),
    }
}

/// The parameter definitions of the analyzer with id `analyzer_id`.
pub fn get_analyzer_params(analyzer_id: &str) -> (params: Vec<ParamDef>)
    ensures
        params@.map_values(|d: ParamDef| param_view(d)) == analyzer_params(analyzer_id@),
{
    let id = String::from_str(analyzer_id);
    let params = if id == String::from_str("moving_average") {
            vec![
                described_param("channel", "Channel:", ParamType::Channel, "Any numeric channel to smooth"),
                described_param("window_size", "Window:", ParamType::Integer { min: 2, max: 100 }, "Number of samples to average (larger = smoother)"),
            ]
        } else if id == String::from_str("exponential_moving_average") {
            vec![
                described_param("channel", "Channel:", ParamType::Channel, "Any numeric channel to smooth"),
                described_param("alpha", "Alpha:", ParamType::Decimal { min_hundredths: 1, max_hundredths: 100 }, "Smoothing factor: 0.1 = very smooth, 0.5 = moderate, 0.9 = responsive"),
            ]
        } else if id == String::from_str("median_filter") {
            vec![
                described_param("channel", "Channel:", ParamType::Channel, "Channel with spike noise to remove"),
                described_param("window_size", "Window:", ParamType::Integer { min: 3, max: 51 }, "Must be odd number. Larger = removes wider spikes"),
            ]
        } else if id == String::from_str("butterworth_lowpass") {
            vec![
                described_param("channel", "Channel:", ParamType::Channel, "Channel to filter. Common: RPM, MAP, TPS, AFR, Knock"),
                described_param("cutoff_normalized", "Cutoff:", ParamType::Decimal { min_hundredths: 1, max_hundredths: 49 }, "Normalized cutoff (0-0.5). 0.1 = 10% of sample rate. Lower = more smoothing"),
                described_param("order", "Order:", ParamType::Integer { min: 1, max: 8 }, "Filter order (1-8). Higher = sharper cutoff but more ringing. 2-4 recommended"),
            ]
        } else if id == String::from_str("butterworth_highpass") {
            vec![
                described_param("channel", "Channel:", ParamType::Channel, "Channel to remove DC/drift from. Common: Knock sensor, vibration data"),
                described_param("cutoff_normalized", "Cutoff:", ParamType::Decimal { min_hundredths: 1, max_hundredths: 49 }, "Normalized cutoff (0-0.5). Frequencies below this are removed"),
                described_param("order", "Order:", ParamType::Integer { min: 1, max: 8 }, "Filter order (1-8). Higher = sharper cutoff. 2-4 recommended"),
            ]
        } else if id == String::from_str("descriptive_stats") {
            vec![
                described_param("channel", "Channel:", ParamType::Channel, "Any channel to compute min/max/mean/stdev statistics"),
            ]
        } else if id == String::from_str("correlation") {
            vec![
                described_param("channel_x", "Channel X:", ParamType::Channel, "First channel (e.g., RPM, TPS, MAP)"),
                described_param("channel_y", "Channel Y:", ParamType::Channel, "Second channel to correlate (e.g., AFR, Fuel Trim)"),
            ]
        } else if id == String::from_str("rate_of_change") {
            vec![
                described_param("channel", "Channel:", ParamType::Channel, "Channel to differentiate. Common: RPM (acceleration), TPS (throttle rate)"),
                described_param("time_based", "Per second:", ParamType::Boolean, "If checked, rate is per second. Otherwise, per sample"),
            ]
        } else if id == String::from_str("fuel_trim_drift") {
            vec![
                described_param("channel", "Fuel Trim:", ParamType::Channel, "Fuel trim channel. Common names: LTFT, STFT, Long Term FT, Short Term FT, Fuel Trim, FT Bank1"),
                described_param("k", "Sensitivity (k):", ParamType::Decimal { min_hundredths: 10, max_hundredths: 1000 }, "CUSUM slack parameter. Lower = more sensitive to small drifts. Default 2.5"),
                described_param("h", "Threshold (h):", ParamType::Decimal { min_hundredths: 100, max_hundredths: 10000 }, "Detection threshold. Lower = faster detection, more false alarms. Default 20"),
                described_param("baseline_pct", "Baseline %:", ParamType::Decimal { min_hundredths: 100, max_hundredths: 5000 }, "% of data from start to use as baseline. Default 10%"),
            ]
        } else if id == String::from_str("rich_lean_zone") {
            vec![
                described_param("channel", "AFR/Lambda:", ParamType::Channel, "AFR or Lambda channel. Auto-detects unit type. Common: AFR, Lambda, Wideband O2, O2"),
                described_param("target", "Target:", ParamType::Decimal { min_hundredths: 0, max_hundredths: 2000 }, "Target value. Set to 0 for auto-detect (AFR: 14.7, Lambda: 1.0). Or set manually."),
                described_param("rich_threshold", "Rich threshold:", ParamType::Decimal { min_hundredths: 0, max_hundredths: 300 }, "Set to 0 for auto-detect (AFR: 0.5, Lambda: 0.03). Rich = below (target - threshold)"),
                described_param("lean_threshold", "Lean threshold:", ParamType::Decimal { min_hundredths: 0, max_hundredths: 300 }, "Set to 0 for auto-detect (AFR: 0.5, Lambda: 0.03). Lean = above (target + threshold)"),
            ]
        } else if id == String::from_str("afr_deviation") {
            vec![
                described_param("channel", "AFR/Lambda:", ParamType::Channel, "AFR or Lambda channel. Auto-detects unit type. Common: AFR, Lambda, Wideband O2, O2"),
                described_param("target", "Target:", ParamType::Decimal { min_hundredths: 0, max_hundredths: 2000 }, "Target value. Set to 0 for auto-detect (AFR: 14.7, Lambda: 1.0). Or set manually."),
            ]
        } else if id == String::from_str("volumetric_efficiency") {
            vec![
                described_param("rpm_channel", "RPM:", ParamType::Channel, "Engine RPM channel. Common names: RPM, Engine Speed, Engine RPM"),
                described_param("map_channel", "MAP (kPa):", ParamType::Channel, "Manifold Absolute Pressure in kPa. Common names: MAP, Manifold Pressure, Boost"),
                described_param("iat_channel", "IAT:", ParamType::Channel, "Intake Air Temp in °C. Common names: IAT, Intake Temp, Air Temp, ACT"),
                described_param("displacement_l", "Displacement (L):", ParamType::Decimal { min_hundredths: 10, max_hundredths: 1000 }, "Engine displacement in liters. E.g., 2.0, 3.5, 5.7"),
                described_param("is_iat_kelvin", "IAT in Kelvin:", ParamType::Boolean, "Check if your IAT channel is already in Kelvin (rare). Usually °C."),
            ]
        } else if id == String::from_str("injector_duty_cycle") {
            vec![
                described_param("pulse_width_channel", "Pulse Width (ms):", ParamType::Channel, "Injector pulse width in milliseconds. Common names: IPW, Inj PW, Pulse Width, Fuel PW, Inj DC"),
                described_param("rpm_channel", "RPM:", ParamType::Channel, "Engine RPM channel. Common names: RPM, Engine Speed, Engine RPM"),
            ]
        } else if id == String::from_str("lambda_calculator") {
            vec![
                described_param("afr_channel", "AFR Channel:", ParamType::Channel, "Air-Fuel Ratio channel. Common names: AFR, O2, Wideband, A/F Ratio"),
                described_param("stoich_afr", "Stoich AFR:", ParamType::Decimal { min_hundredths: 500, max_hundredths: 2000 }, "Stoichiometric AFR for your fuel. Gasoline: 14.7, E85: 9.8, E10: 14.1, Methanol: 6.4"),
            ]
        } else {
            Vec::new()
        };
    assert(params@.map_values(|d: ParamDef| param_view(d)) =~= analyzer_params(analyzer_id@));
    params
}

/// An analyzer's configured parameter values, by key.
pub struct AnalyzerConfig {
    pub parameters: Vec<(String, String)>,
}

/// The value configured for `key` among `parameters`, if any.
pub open spec fn configured_value(parameters: Seq<(String, String)>, key: Seq<char>) -> Option<Seq<char>>
    decreases parameters.len(),
{
    if parameters.len() == 0 {
        None
    } else if parameters[0].0@ == key {
        Some(parameters[0].1@)
    } else {
        configured_value(parameters.drop_first(), key)
    }
}

/// Looking a key up after appending a pair finds what it found before, or
/// else the appended pair when it has that key.
proof fn lemma_configured_value_push(parameters: Seq<(String, String)>, pair: (String, String), key: Seq<char>)
    ensures
        configured_value(parameters.push(pair), key) == match configured_value(parameters, key) {
            Some(v) => Some(v),
            None => if pair.0@ == key {
                Some(pair.1@)
            } else {
                None
            },
        },
    decreases parameters.len(),
{
    let pushed = parameters.push(pair);
    if parameters.len() > 0 {
        assert(pushed[0] == parameters[0]);
        assert(pushed.drop_first() =~= parameters.drop_first().push(pair));
        lemma_configured_value_push(parameters.drop_first(), pair, key);
    } else {
        assert(pushed[0] == pair);
        assert(pushed.drop_first() =~= Seq::<(String, String)>::empty());
        assert(configured_value(pushed.drop_first(), key) is None);
    }
}

/// Replacing the first pair with a given key changes the lookup of that key
/// alone.
proof fn lemma_configured_value_update(parameters: Seq<(String, String)>, i: int, pair: (String, String), key: Seq<char>)
    requires
        0 <= i < parameters.len(),
        parameters[i].0@ == pair.0@,
        forall|j: int| 0 <= j < i ==> parameters[j].0@ != pair.0@,
    ensures
        configured_value(parameters.update(i, pair), key) == if key == pair.0@ {
            Some(pair.1@)
        } else {
            configured_value(parameters, key)
        },
    decreases i,
{
    if i > 0 {
        assert(parameters.update(i, pair).drop_first() =~= parameters.drop_first().update(i - 1, pair));
        lemma_configured_value_update(parameters.drop_first(), i - 1, pair, key);
    } else {
        assert(parameters.update(i, pair).drop_first() =~= parameters.drop_first());
    }
}

/// Whether no key occurs twice among `parameters`, as in a map.
pub open spec fn keys_unique(parameters: Seq<(String, String)>) -> bool {
    forall|i: int, j: int| 0 <= i < j < parameters.len() ==> parameters[i].0@ != parameters[j].0@
}

impl AnalyzerConfig {
    /// Store `value` under `key`, replacing the value stored there before.
    /// A configuration in which no key occurs twice keeps that property.
    pub fn set_parameter(&mut self, key: String, value: String)
        ensures
            keys_unique(old(self).parameters@) ==> keys_unique(final(self).parameters@),
            forall|k: Seq<char>|
                #[trigger] configured_value(final(self).parameters@, k) == if k == key@ {
                    Some(value@)
                } else {
                    configured_value(old(self).parameters@, k)
                },
    {
        let mut i: usize = 0;
        while i < self.parameters.len()
            invariant
                i <= self.parameters.len(),
                self.parameters@ == old(self).parameters@,
                forall|j: int| 0 <= j < i ==> self.parameters@[j].0@ != key@,
            decreases self.parameters.len() - i,
        {
            if self.parameters[i].0 == key {
                let ghost before = self.parameters@;
                let ghost pair = (key, value);
                self.parameters.set(i, (key, value));
                proof {
                    assert forall|k: Seq<char>| #[trigger] configured_value(self.parameters@, k) == if k == pair.0@ {
                        Some(pair.1@)
                    } else {
                        configured_value(before, k)
                    } by {
                        lemma_configured_value_update(before, i as int, pair, k);
                    }
                }
                return;
            }
            i += 1;
        }
        let ghost before = self.parameters@;
        let ghost pair = (key, value);
        self.parameters.push((key, value));
        proof {
            assert forall|k: Seq<char>| #[trigger] configured_value(self.parameters@, k) == if k == pair.0@ {
                Some(pair.1@)
            } else {
                configured_value(before, k)
            } by {
                lemma_configured_value_push(before, pair, k);
                if k == pair.0@ {
                    lemma_no_pair_with_key(before, k);
                }
            }
        }
    }
}

/// A key that no pair has is not found.
proof fn lemma_no_pair_with_key(parameters: Seq<(String, String)>, key: Seq<char>)
    requires
        forall|j: int| 0 <= j < parameters.len() ==> parameters[j].0@ != key,
    ensures
        configured_value(parameters, key) is None,
    decreases parameters.len(),
{
    if parameters.len() > 0 {
        lemma_no_pair_with_key(parameters.drop_first(), key);
    }
}

/// The position of the first of `names` that equals `name` up to ASCII
/// letter case, if any.
pub open spec fn first_match(names: Seq<String>, name: Seq<char>) -> Option<int>
    decreases names.len(),
{
    if names.len() == 0 {
        None
    } else {
        match first_match(names.drop_last(), name) {
            Some(i) => Some(i),
            None => if equal_ignoring_ascii_case(names.last()@, name) {
                Some(names.len() - 1)
            } else {
                None
            },
        }
    }
}

/// The position of the first of `names` that equals `name` up to ASCII
/// letter case.
fn position_ignoring_ascii_case(names: &[String], name: &String) -> (r: Option<usize>)
    ensures
        match r {
            Some(i) => i < names.len() && first_match(names@, name@) == Some(i as int),
            None => first_match(names@, name@) is None,
        },
{
    let mut i: usize = 0;
    while i < names.len()
        invariant
            i <= names.len(),
            first_match(names@.subrange(0, i as int), name@) is None,
        decreases names.len() - i,
    {
        assert(names@.subrange(0, i + 1).drop_last() =~= names@.subrange(0, i as int));
        if eq_ignore_ascii_case(names[i].as_str(), name.as_str()) {
            proof {
                lemma_first_match_prefix(names@, name@, i as int + 1);
            }
            return Some(i);
        }
        i += 1;
    }
    assert(names@.subrange(0, names.len() as int) =~= names@);
    None
}

/// A match found in a prefix is the first match of the whole list.
proof fn lemma_first_match_prefix(names: Seq<String>, name: Seq<char>, n: int)
    requires
        0 <= n <= names.len(),
        first_match(names.subrange(0, n), name) is Some,
    ensures
        first_match(names, name) == first_match(names.subrange(0, n), name),
    decreases names.len() - n,
{
    if n < names.len() {
        assert(names.subrange(0, n + 1).drop_last() =~= names.subrange(0, n));
        lemma_first_match_prefix(names, name, n + 1);
    } else {
        assert(names.subrange(0, n) =~= names);
    }
}

/// A raw channel name of the log is found among the raw names, at or before
/// its own position; so a configuration that resolution rewrote to a raw name
/// resolves again without being rewritten.
pub proof fn lemma_raw_name_resolves(names: Seq<String>, i: int)
    requires
        0 <= i < names.len(),
    ensures
        first_match(names, names[i]@) matches Some(j) && 0 <= j <= i && equal_ignoring_ascii_case(names[j]@, names[i]@),
    decreases names.len(),
{
    if i < names.len() - 1 {
        lemma_raw_name_resolves(names.drop_last(), i);
        assert(names.drop_last()[i] == names[i]);
        let j = first_match(names.drop_last(), names[i]@)->0;
        assert(names.drop_last()[j] == names[j]);
    } else {
        lemma_first_match_bounds(names.drop_last(), names[i]@);
        if let Some(j) = first_match(names.drop_last(), names[i]@) {
            assert(names.drop_last()[j] == names[j]);
        }
    }
}

/// A match lies within the list and matches.
proof fn lemma_first_match_bounds(names: Seq<String>, name: Seq<char>)
    ensures
        first_match(names, name) matches Some(j) ==> 0 <= j < names.len() && equal_ignoring_ascii_case(names[j]@, name),
    decreases names.len(),
{
    if names.len() > 0 {
        lemma_first_match_bounds(names.drop_last(), name);
        if let Some(j) = first_match(names.drop_last(), name) {
            assert(names.drop_last()[j] == names[j]);
        }
    }
}

/// The channel a channel parameter shows: the raw name it stands for, the
/// name it is displayed with, and whether the configuration was rewritten to
/// the raw name.
pub struct ResolvedChannel {
    pub raw: String,
    pub display: String,
    pub config_updated: bool,
}

/// The value configured for `key`, or the empty text.
pub open spec fn configured_or_empty(parameters: Seq<(String, String)>, key: Seq<char>) -> Seq<char> {
    match configured_value(parameters, key) {
        Some(v) => v,
        None => Seq::empty(),
    }
}

/// Resolve the channel configured for parameter `key` against the log's
/// channels, ignoring ASCII case: a raw channel name is kept and shown by its
/// display name; a display name is shown as it is, and the configuration is
/// rewritten to the raw name behind it; anything else is kept and shown as it
/// is.
pub fn resolve_channel_parameter(
    config: &mut AnalyzerConfig,
    key: &String,
    channel_names: &[String],
    channel_display_names: &[String],
) -> (r: ResolvedChannel)
    ensures
        keys_unique(old(config).parameters@) ==> keys_unique(final(config).parameters@),
        ({
            let value = configured_or_empty(old(config).parameters@, key@);
            match first_match(channel_names@, value) {
                Some(i) => {
                    &&& r.raw@ == channel_names@[i]@
                    &&& r.display@ == if i < channel_display_names.len() {
                        channel_display_names@[i]@
                    } else {
                        value
                    }
                    &&& !r.config_updated
                    &&& final(config).parameters@ == old(config).parameters@
                },
                None => match first_match(channel_display_names@, value) {
                    Some(i) => {
                        &&& r.raw@ == if i < channel_names.len() {
                            channel_names@[i]@
                        } else {
                            value
                        }
                        &&& r.display@ == channel_display_names@[i]@
                        &&& r.config_updated
                        &&& forall|k: Seq<char>|
                            #[trigger] configured_value(final(config).parameters@, k) == if k == key@ {
                                Some(r.raw@)
                            } else {
                                configured_value(old(config).parameters@, k)
                            }
                    },
                    None => {
                        &&& r.raw@ == value
                        &&& r.display@ == value
                        &&& !r.config_updated
                        &&& final(config).parameters@ == old(config).parameters@
                    },
                },
            }
        }),
{
    let config_value = match find_parameter(&config.parameters, key) {
        Some(v) => v.clone(),
        None => String::new(),
    };
    match position_ignoring_ascii_case(channel_names, &config_value) {
        Some(idx) => {
            let display = if idx < channel_display_names.len() {
                channel_display_names[idx].clone()
            } else {
                config_value.clone()
            };
            ResolvedChannel { raw: channel_names[idx].clone(), display, config_updated: false }
        },
        None => match position_ignoring_ascii_case(channel_display_names, &config_value) {
            Some(idx) => {
                let raw = if idx < channel_names.len() {
                    channel_names[idx].clone()
                } else {
                    config_value.clone()
                };
                let display = channel_display_names[idx].clone();
                config.set_parameter(key.clone(), raw.clone());
                ResolvedChannel { raw, display, config_updated: true }
            },
            None => ResolvedChannel { raw: config_value.clone(), display: config_value, config_updated: false },
        },
    }
}

/// Whether `name` matches one of `names` up to ASCII letter case.
pub open spec fn names_include(names: Seq<String>, name: Seq<char>) -> bool {
    exists|i: int| 0 <= i < names.len() && equal_ignoring_ascii_case(#[trigger] names[i]@, name)
}

/// Whether every channel parameter that is configured with a non-empty name
/// names a channel of the log, by its raw or its display name.
pub open spec fn channels_available(
    parameters: Seq<(String, String)>,
    param_defs: Seq<ParamDef>,
    channel_names: Seq<String>,
    channel_display_names: Seq<String>,
) -> bool {
    forall|p: int|
        0 <= p < param_defs.len() && param_defs[p].param_type == ParamType::Channel ==> match #[trigger] configured_value(
            parameters,
            param_defs[p].key@,
        ) {
            Some(v) => v.len() == 0 || names_include(channel_names, v) || names_include(channel_display_names, v),
            None => true,
        }
}

/// The value configured for `key`, if any.
fn find_parameter<'a>(parameters: &'a Vec<(String, String)>, key: &String) -> (r: Option<&'a String>)
    ensures
        match r {
            Some(v) => configured_value(parameters@, key@) == Some(v@),
            None => configured_value(parameters@, key@) is None,
        },
{
    let mut i: usize = 0;
    assert(parameters@.subrange(0, parameters.len() as int) =~= parameters@);
    while i < parameters.len()
        invariant
            i <= parameters.len(),
            configured_value(parameters@, key@) == configured_value(parameters@.subrange(i as int, parameters.len() as int), key@),
        decreases parameters.len() - i,
    {
        let ghost rest = parameters@.subrange(i as int, parameters.len() as int);
        assert(rest.drop_first() =~= parameters@.subrange(i + 1, parameters.len() as int));
        if parameters[i].0 == *key {
            return Some(&parameters[i].1);
        }
        i += 1;
    }
    None
}

/// Whether `names` holds `name` up to ASCII letter case.
fn any_name_matches(names: &[String], name: &String) -> (r: bool)
    ensures
        r == names_include(names@, name@),
{
    let mut i: usize = 0;
    while i < names.len()
        invariant
            i <= names.len(),
            forall|j: int| 0 <= j < i ==> !equal_ignoring_ascii_case(#[trigger] names@[j]@, name@),
        decreases names.len() - i,
    {
        if eq_ignore_ascii_case(names[i].as_str(), name.as_str()) {
            return true;
        }
        i += 1;
    }
    false
}

/// Whether channel parameter `p` of `param_defs` is configured with a
/// non-empty name that matches, ignoring ASCII case, neither a raw channel
/// name nor a display name of the log.
pub open spec fn names_missing_channel(
    parameters: Seq<(String, String)>,
    param_defs: Seq<ParamDef>,
    channel_names: Seq<String>,
    channel_display_names: Seq<String>,
    p: int,
) -> bool {
    &&& 0 <= p < param_defs.len()
    &&& param_defs[p].param_type == ParamType::Channel
    &&& configured_value(parameters, param_defs[p].key@) matches Some(v)
    &&& v.len() > 0
    &&& forall|n: int| 0 <= n < channel_names.len() ==> !equal_ignoring_ascii_case(#[trigger] channel_names[n]@, v)
    &&& forall|n: int| 0 <= n < channel_display_names.len() ==> !equal_ignoring_ascii_case(#[trigger] channel_display_names[n]@, v)
}

/// The channels of a configuration are available exactly when no channel
/// parameter, at whatever position among the parameters, names a channel
/// missing from the log.
pub proof fn lemma_missing_channel_fails(
    parameters: Seq<(String, String)>,
    param_defs: Seq<ParamDef>,
    channel_names: Seq<String>,
    channel_display_names: Seq<String>,
)
    ensures
        channels_available(parameters, param_defs, channel_names, channel_display_names) <==> !exists|p: int|
            names_missing_channel(parameters, param_defs, channel_names, channel_display_names, p),
{
    if exists|p: int| names_missing_channel(parameters, param_defs, channel_names, channel_display_names, p) {
        let p = choose|p: int| names_missing_channel(parameters, param_defs, channel_names, channel_display_names, p);
        let v = configured_value(parameters, param_defs[p].key@)->0;
        assert(!names_include(channel_names, v));
        assert(!names_include(channel_display_names, v));
    }
    if !channels_available(parameters, param_defs, channel_names, channel_display_names) {
        let p = choose|p: int| !(0 <= p < param_defs.len() && param_defs[p].param_type == ParamType::Channel ==> match #[trigger] configured_value(
            parameters,
            param_defs[p].key@,
        ) {
            Some(v) => v.len() == 0 || names_include(channel_names, v) || names_include(channel_display_names, v),
            None => true,
        });
        assert(names_missing_channel(parameters, param_defs, channel_names, channel_display_names, p));
    }
}

/// Check that the channels an analyzer's configuration names exist in the
/// log: each channel parameter configured with a non-empty name must match a
/// raw channel name or a normalized display name, ignoring ASCII case.
pub fn check_channels_available(
    config: &AnalyzerConfig,
    param_defs: &[ParamDef],
    channel_names: &[String],
    channel_display_names: &[String],
) -> (r: bool)
    ensures
        r == channels_available(config.parameters@, param_defs@, channel_names@, channel_display_names@),
        r <==> !exists|p: int| names_missing_channel(config.parameters@, param_defs@, channel_names@, channel_display_names@, p),
{
    proof {
        lemma_missing_channel_fails(config.parameters@, param_defs@, channel_names@, channel_display_names@);
    }
    let mut p: usize = 0;
    while p < param_defs.len()
        invariant
            p <= param_defs.len(),
            forall|q: int|
                0 <= q < p && param_defs@[q].param_type == ParamType::Channel ==> match #[trigger] configured_value(
                    config.parameters@,
                    param_defs@[q].key@,
                ) {
                    Some(v) => v.len() == 0 || names_include(channel_names@, v) || names_include(channel_display_names@, v),
                    None => true,
                },
        decreases param_defs.len() - p,
    {
        let param = &param_defs[p];
        if param.param_type == ParamType::Channel {
            if let Some(ch) = find_parameter(&config.parameters, &param.key) {
                if !ch.as_str().is_empty() {
                    let found_in_raw = any_name_matches(channel_names, ch);
                    let found_in_display = any_name_matches(channel_display_names, ch);
                    if !found_in_raw && !found_in_display {
                        assert(names_missing_channel(config.parameters@, param_defs@, channel_names@, channel_display_names@, p as int));
                        return false;
                    }
                }
            }
        }
        p += 1;
    }
    true
}

/// Whether a formula uses the per-channel statistics variables (`_mean_`,
/// `_stdev_`, `_min_`, `_max_` or `_range_`), which must be computed before
/// the formula is evaluated.
pub open spec fn uses_statistics(formula: Seq<char>) -> bool {
    ||| contains_seq(formula, "_mean_"@)
    ||| contains_seq(formula, "_stdev_"@)
    ||| contains_seq(formula, "_min_"@)
    ||| contains_seq(formula, "_max_"@)
    ||| contains_seq(formula, "_range_"@)
}

/// Whether applying a template with `formula` needs channel statistics.
pub fn formula_needs_statistics(formula: &str) -> (r: bool)
    ensures
        r == uses_statistics(formula@),
{
    contains_str(formula, "_mean_") || contains_str(formula, "_stdev_") || contains_str(formula, "_min_")
        || contains_str(formula, "_max_") || contains_str(formula, "_range_")
}

} // verus!
