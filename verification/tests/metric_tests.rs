use bevy_benchy::extract::{get_fps, metric_from_groups};
use bevy_benchy::metric::{parse_metric, ExtractError, Metric, Trend};
use bevy_benchy::text::{decimal_string, digit_str, join};

fn metric(hundredths: u64) -> Metric {
    Metric { hundredths }
}

#[test]
fn last_match_wins() {
    assert_eq!(get_fps("fps avg 10.0\nfps avg 42.5"), Ok(metric(4250)));
}

#[test]
fn no_match_fails() {
    assert_eq!(get_fps("no metrics here"), Err(ExtractError::NoMetricFound));
    assert_eq!(get_fps(""), Err(ExtractError::NoMetricFound));
}

#[test]
fn figure_is_taken_from_a_log_line() {
    let log = "INFO diagnostic: fps        :   59.870000   (avg 60.125000)\n";
    assert_eq!(get_fps(log), Ok(metric(6013)));
}

#[test]
fn figure_that_is_no_number_is_malformed() {
    assert_eq!(get_fps("fps avg 1.2.3"), Err(ExtractError::MalformedMetric));
    assert_eq!(get_fps("fps avg ..."), Err(ExtractError::MalformedMetric));
    assert_eq!(get_fps("fps avg ٣"), Err(ExtractError::MalformedMetric));
    assert_eq!(get_fps("fps avg 10.0\nfps avg ."), Err(ExtractError::MalformedMetric));
}

#[test]
fn the_last_captured_figure_counts() {
    let groups = Some(vec![Some("10.0".to_string()), Some("42.5".to_string())]);
    assert_eq!(metric_from_groups(&groups), Ok(metric(4250)));
    let none_last = Some(vec![Some("10.0".to_string()), None]);
    assert_eq!(metric_from_groups(&none_last), Err(ExtractError::MalformedMetric));
    assert_eq!(metric_from_groups(&Some(vec![])), Err(ExtractError::NoMetricFound));
    assert_eq!(metric_from_groups(&None), Err(ExtractError::NoMetricFound));
}

#[test]
fn numerals_are_read_in_hundredths() {
    assert_eq!(parse_metric("42.5"), Ok(metric(4250)));
    assert_eq!(parse_metric("60"), Ok(metric(6000)));
    assert_eq!(parse_metric(".75"), Ok(metric(75)));
    assert_eq!(parse_metric("1."), Ok(metric(100)));
    assert_eq!(parse_metric("0"), Ok(metric(0)));
    assert_eq!(parse_metric("007.10"), Ok(metric(710)));
}

#[test]
fn the_third_decimal_rounds_half_up() {
    assert_eq!(parse_metric("0.994"), Ok(metric(99)));
    assert_eq!(parse_metric("0.995"), Ok(metric(100)));
    assert_eq!(parse_metric("1.23499999"), Ok(metric(123)));
    assert_eq!(parse_metric("1.235"), Ok(metric(124)));
}

#[test]
fn other_texts_are_malformed() {
    for text in ["", ".", "1.2.3", "12a", "-1", "1e3", " 1", "٣"] {
        assert_eq!(parse_metric(text), Err(ExtractError::MalformedMetric), "{:?}", text);
    }
}

#[test]
fn a_numeral_beyond_the_range_is_malformed() {
    assert_eq!(parse_metric("184467440737095516.15"), Ok(metric(u64::MAX)));
    assert_eq!(parse_metric("184467440737095516.154"), Ok(metric(u64::MAX)));
    assert_eq!(parse_metric("184467440737095516.155"), Err(ExtractError::MalformedMetric));
    assert_eq!(parse_metric("184467440737095516.16"), Err(ExtractError::MalformedMetric));
    assert_eq!(
        parse_metric("99999999999999999999999999999999999999999999"),
        Err(ExtractError::MalformedMetric)
    );
}

#[test]
fn metric_is_written_with_two_decimals() {
    assert_eq!(metric(10000).text(), "100.00");
    assert_eq!(metric(4250).text(), "42.50");
    assert_eq!(metric(5).text(), "0.05");
    assert_eq!(metric(0).text(), "0.00");
    assert_eq!(metric(u64::MAX).text(), "184467440737095516.15");
}

#[test]
fn delta_sign_and_glyph() {
    let base = metric(10000);
    let value = metric(10100);
    assert_eq!(value.trend(&base), Trend::Up);
    assert_eq!(value.trend(&base).glyph(), "🟩");
    assert_eq!(value.change(&base), "+1.0%");
    assert_eq!(value.cell(1, &base), "101.00 🟩 +1.0%");
}

#[test]
fn neutral_zone_ends_at_one_percent() {
    let base = metric(1000000);
    assert_eq!(metric(1009900).trend(&base), Trend::Neutral);
    assert_eq!(metric(1010000).trend(&base), Trend::Up);
    assert_eq!(metric(1010100).trend(&base), Trend::Up);
    assert_eq!(metric(990100).trend(&base), Trend::Neutral);
    assert_eq!(metric(990000).trend(&base), Trend::Down);
    assert_eq!(metric(989900).trend(&base), Trend::Down);
    assert_eq!(metric(1000000).trend(&base), Trend::Neutral);
    assert_eq!(Trend::Neutral.glyph(), "⬜");
    assert_eq!(Trend::Down.glyph(), "🟥");
}

#[test]
fn change_is_a_percentage_with_one_decimal() {
    let base = metric(10000);
    assert_eq!(metric(11000).change(&base), "+10.0%");
    assert_eq!(metric(9750).change(&base), "-2.5%");
    assert_eq!(metric(10000).change(&base), "0.0%");
    assert_eq!(metric(10004).change(&base), "+0.0%");
    assert_eq!(metric(10005).change(&base), "+0.1%");
    assert_eq!(metric(9999).change(&base), "-0.0%");
    assert_eq!(metric(30000).change(&base), "+200.0%");
    assert_eq!(metric(0).change(&base), "-100.0%");
    assert_eq!(metric(u64::MAX).change(&metric(1)), "+1844674407370955161400.0%");
}

#[test]
fn zero_baseline_has_no_finite_change() {
    let zero = metric(0);
    assert_eq!(metric(100).trend(&zero), Trend::Up);
    assert_eq!(metric(100).change(&zero), "+inf%");
    assert_eq!(metric(0).change(&zero), "NaN%");
    assert_eq!(metric(0).cell(1, &zero), "0.00 🟩 NaN%");
}

#[test]
fn baseline_row_has_no_trend_suffix() {
    assert_eq!(metric(11000).cell(0, &metric(10000)), "110.00");
    assert_eq!(metric(11000).cell(0, &metric(0)), "110.00");
    assert_eq!(metric(9000).cell(2, &metric(10000)), "90.00 🟥 -10.0%");
    assert_eq!(metric(10050).cell(3, &metric(10000)), "100.50 ⬜ +0.5%");
}

#[test]
fn join_puts_the_separator_between_parts() {
    let parts = vec!["a".to_string(), "".to_string(), "c".to_string()];
    assert_eq!(join(&parts, ", "), "a, , c");
    assert_eq!(join(&vec!["x".to_string()], "|"), "x");
    assert_eq!(join(&vec![], "|"), "");
}

#[test]
fn decimal_numerals() {
    assert_eq!(decimal_string(0), "0");
    assert_eq!(decimal_string(7), "7");
    assert_eq!(decimal_string(1234567890), "1234567890");
    assert_eq!(decimal_string(u128::MAX), u128::MAX.to_string());
    for d in 0..10u8 {
        assert_eq!(digit_str(d), d.to_string());
    }
}

#[test]
fn what_is_written_is_read_back() {
    for hundredths in [0u64, 5, 99, 100, 4250, 10000, 123456789, u64::MAX] {
        let text = metric(hundredths).text();
        assert_eq!(parse_metric(&text), Ok(metric(hundredths)), "{}", text);
    }
}
