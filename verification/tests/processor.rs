use sensor_guard::models::{elapsed_whole_seconds, ReadingQuality, SensorReading, INSTANT_BOUND};
use sensor_guard::processor::{Aggregate, Alert, ParamState, Processor, Recorded};

const S: i128 = 1_000_000_000;

fn reading(param: &str, value: f64, t: i128) -> SensorReading<f64> {
    SensorReading {
        source: "test".to_string(),
        parameter: param.to_string(),
        value,
        unit: "u".to_string(),
        quality: ReadingQuality::Good,
        timestamp: t,
    }
}

fn processor(window: Option<u128>, duration: Option<i64>, delta: Option<f64>, heartbeat: Option<i64>) -> Processor<f64> {
    Processor::new(vec![("temp".to_string(), 70.0, 85.0, window, duration, delta, heartbeat)])
}

fn mean(vs: &[f64]) -> f64 {
    vs.iter().sum::<f64>() / vs.len() as f64
}

#[test]
fn unmonitored_parameter_changes_nothing() {
    let mut p = processor(None, None, None, None);
    match p.record(&reading("pressure", 1.0, 0)) {
        Recorded::Unmonitored => {}
        _ => panic!("expected an unmonitored reading"),
    }
    assert_eq!(p.states.len(), 0);
    assert!(p.evaluate("pressure", 0, true, true).is_none());
}

#[test]
fn window_average_drops_stale_samples() {
    let mut p = processor(Some(10 * S as u128), None, None, None);
    p.record(&reading("temp", 1.0, 0));
    p.record(&reading("temp", 3.0, 5 * S));
    match p.record(&reading("temp", 5.0, 12 * S)) {
        Recorded::Aggregated { aggregate: Aggregate::Mean(vs), .. } => {
            assert_eq!(vs, vec![3.0, 5.0]);
            assert_eq!(mean(&vs), 4.0);
        }
        _ => panic!("expected a windowed mean"),
    }
}

#[test]
fn window_keeps_sample_exactly_at_cutoff() {
    let mut p = processor(Some(10 * S as u128), None, None, None);
    p.record(&reading("temp", 2.0, 0));
    match p.record(&reading("temp", 4.0, 10 * S)) {
        Recorded::Aggregated { aggregate: Aggregate::Mean(vs), .. } => assert_eq!(vs, vec![2.0, 4.0]),
        _ => panic!("expected a windowed mean"),
    }
}

#[test]
fn without_window_latest_value_stands() {
    let mut p = processor(None, None, None, None);
    p.record(&reading("temp", 1.0, 0));
    match p.record(&reading("temp", 9.5, S)) {
        Recorded::Aggregated { aggregate: Aggregate::Latest(v), rule, .. } => {
            assert_eq!(v, 9.5);
            assert_eq!(rule.threshold_critical, 85.0);
        }
        _ => panic!("expected the latest value"),
    }
    assert_eq!(p.states.entry(0).1.samples.len(), 1);
}

#[test]
fn delta_check_never_applies_while_recording() {
    let mut p = processor(None, None, Some(1.0), None);
    p.record(&reading("temp", 10.0, 0));
    match p.record(&reading("temp", 50.0, 120 * S)) {
        Recorded::Aggregated { delta, .. } => assert!(delta.is_none()),
        _ => panic!("expected an aggregate"),
    }
}

#[test]
fn delta_check_applies_after_a_whole_second() {
    let mut st: ParamState<f64> = ParamState::new(0);
    st.add_sample(0, 10.0, None);
    let rule = processor(None, None, Some(2.5), None).rules.entry(0).1;
    assert_eq!(st.check_delta(&rule, S), Some((10.0, 2.5)));
    assert_eq!(st.check_delta(&rule, S - 1), None);
    let no_delta = processor(None, None, None, None).rules.entry(0).1;
    assert_eq!(st.check_delta(&no_delta, 10 * S), None);
}

#[test]
fn sustained_critical_alert_after_duration() {
    let mut p = processor(None, Some(10), None, None);
    p.record(&reading("temp", 90.0, 0));
    assert_eq!(p.evaluate("temp", 0, true, true), Some(Alert::Pending));
    p.record(&reading("temp", 90.0, 5 * S));
    assert_eq!(p.evaluate("temp", 5 * S, true, true), Some(Alert::Pending));
    p.record(&reading("temp", 90.0, 10 * S));
    assert_eq!(p.evaluate("temp", 10 * S, true, true), Some(Alert::CriticalSustained));
    // firing clears the timer: the next exceeding reading starts it anew
    p.record(&reading("temp", 90.0, 11 * S));
    assert_eq!(p.evaluate("temp", 11 * S, true, true), Some(Alert::Pending));
}

#[test]
fn sustained_warning_and_reset() {
    let mut p = processor(None, Some(3), None, None);
    p.record(&reading("temp", 75.0, 0));
    assert_eq!(p.evaluate("temp", 0, false, true), Some(Alert::Pending));
    // a normal reading clears the warning timer
    p.record(&reading("temp", 60.0, 2 * S));
    assert_eq!(p.evaluate("temp", 2 * S, false, false), Some(Alert::Pending));
    p.record(&reading("temp", 75.0, 4 * S));
    assert_eq!(p.evaluate("temp", 4 * S, false, true), Some(Alert::Pending));
    p.record(&reading("temp", 75.0, 7 * S));
    assert_eq!(p.evaluate("temp", 7 * S, false, true), Some(Alert::WarningSustained));
}

#[test]
fn immediate_classification_without_duration() {
    let mut p = processor(None, None, None, None);
    p.record(&reading("temp", 90.0, 0));
    assert_eq!(p.evaluate("temp", 0, true, true), Some(Alert::Critical));
    assert_eq!(p.evaluate("temp", 0, false, true), Some(Alert::Warning));
    assert_eq!(p.evaluate("temp", 0, false, false), Some(Alert::Normal));
}

#[test]
fn evaluate_before_any_reading_is_none() {
    let mut p = processor(None, Some(5), None, None);
    assert_eq!(p.evaluate("temp", 0, true, true), None);
}

#[test]
fn unknown_severity_never_fires() {
    let mut st: ParamState<f64> = ParamState::new(0);
    assert!(!st.update_duration_alert(0, true, 0, "info"));
    assert!(st.warning_start.is_none() && st.critical_start.is_none());
    assert!(!st.update_duration_alert(0, true, 0, "critical"));
    assert_eq!(st.critical_start, Some(0));
    assert!(st.update_duration_alert(S, true, 1, "critical"));
    assert_eq!(st.critical_start, None);
}

#[test]
fn heartbeat_failure_after_silence() {
    let mut p = processor(None, None, None, Some(30));
    p.record(&reading("temp", 1.0, 0));
    assert!(p.check_heartbeats(30 * S).is_empty());
    let failures = p.check_heartbeats(31 * S);
    assert_eq!(failures.len(), 1);
    assert_eq!(failures[0].parameter, "temp");
    assert_eq!(failures[0].elapsed_secs, 31);
    assert_eq!(failures[0].heartbeat_secs, 30);
}

#[test]
fn later_rule_entry_wins() {
    let p: Processor<f64> = Processor::new(vec![
        ("temp".to_string(), 1.0, 2.0, None, None, None, None),
        ("press".to_string(), 3.0, 4.0, None, None, None, None),
        ("temp".to_string(), 5.0, 6.0, None, Some(7), None, None),
    ]);
    assert_eq!(p.rules.len(), 2);
    let r = p.rules.get("temp").unwrap();
    assert_eq!(r.threshold_warning, 5.0);
    assert_eq!(r.duration_secs, Some(7));
    assert_eq!(p.rules.get("press").unwrap().threshold_critical, 4.0);
}

#[test]
fn whole_seconds_truncate_toward_zero() {
    assert_eq!(elapsed_whole_seconds(3 * S / 2, 0), 1);
    assert_eq!(elapsed_whole_seconds(0, 3 * S / 2), -1);
    assert_eq!(elapsed_whole_seconds(INSTANT_BOUND, -INSTANT_BOUND), 2_417_851_639_229_258);
    assert_eq!(elapsed_whole_seconds(-INSTANT_BOUND, INSTANT_BOUND), -2_417_851_639_229_258);
}

#[test]
fn ordered_run_keeps_exactly_the_recent_readings() {
    let mut p = processor(Some(10 * S as u128), None, None, None);
    let times = [0, 3, 8, 12, 15, 21, 21, 30];
    let mut last = None;
    for (i, t) in times.iter().enumerate() {
        last = Some(p.record(&reading("temp", i as f64, t * S)));
    }
    match last.unwrap() {
        Recorded::Aggregated { aggregate: Aggregate::Mean(vs), .. } => {
            // readings at 21, 21 and 30 lie within 10 s of the newest
            assert_eq!(vs, vec![5.0, 6.0, 7.0]);
        }
        _ => panic!("expected a windowed mean"),
    }
}

#[test]
fn very_long_window_keeps_everything() {
    let mut p = processor(Some(u128::MAX), None, None, None);
    p.record(&reading("temp", 1.0, -INSTANT_BOUND));
    match p.record(&reading("temp", 2.0, INSTANT_BOUND)) {
        Recorded::Aggregated { aggregate: Aggregate::Mean(vs), .. } => assert_eq!(vs, vec![1.0, 2.0]),
        _ => panic!("expected a windowed mean"),
    }
}
