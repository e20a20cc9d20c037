use sensor_guard::models::ReadingQuality;
use sensor_guard::simulator::{
    next_delay_ms, parameter_table, pick_parameter, pick_sensor_id, sensor_data, simulated_reading, simulator_rng, value_range,
};
use sensor_guard::table::Table;
use sensor_guard::text::{decimal_string, str_eq};
use sensor_guard::ui::{footer, is_quit_key, status_for, Dashboard, Status};

#[test]
fn simulator_picks_known_parameters() {
    let table = parameter_table();
    let mut rng = simulator_rng();
    let mut seen = std::collections::HashSet::new();
    for _ in 0..200 {
        let p = pick_parameter(&mut rng);
        assert!(table.contains(&p));
        seen.insert(p.0);
    }
    assert_eq!(seen.len(), 3);
}

#[test]
fn simulator_is_repeatable() {
    let mut a = simulator_rng();
    let mut b = simulator_rng();
    for _ in 0..20 {
        assert_eq!(pick_parameter(&mut a), pick_parameter(&mut b));
        assert_eq!(next_delay_ms(&mut a), next_delay_ms(&mut b));
    }
}

#[test]
fn delays_in_range_and_varied() {
    let mut rng = simulator_rng();
    let mut distinct = std::collections::HashSet::new();
    for _ in 0..200 {
        let d = next_delay_ms(&mut rng);
        assert!((300..800).contains(&d));
        distinct.insert(d);
    }
    assert!(distinct.len() > 10);
}

#[test]
fn value_ranges() {
    assert_eq!(value_range("bearing_vibration_x"), Some((1, 8)));
    assert_eq!(value_range("bearing_temperature"), Some((60, 90)));
    assert_eq!(value_range("motor_current"), Some((8, 16)));
    assert_eq!(value_range("other"), None);
}

#[test]
fn simulated_reading_fields() {
    let r = simulated_reading("motor_current", "A", 12.5f64, 99);
    assert_eq!(r.source, "simulator");
    assert_eq!(r.parameter, "motor_current");
    assert_eq!(r.unit, "A");
    assert_eq!(r.value, 12.5);
    assert_eq!(r.quality, ReadingQuality::Good);
    assert_eq!(r.timestamp, 99);
}

#[test]
fn producer_sensor_ids() {
    let mut rng = simulator_rng();
    for _ in 0..50 {
        let id = pick_sensor_id(&mut rng);
        assert!(["temp-001", "press-002", "vibro-003"].contains(&id.as_str()));
    }
    let d = sensor_data("temp-001".to_string(), 71.0f64, 5);
    assert_eq!((d.sensor_id.as_str(), d.value, d.timestamp), ("temp-001", 71.0, 5));
}

#[test]
fn statuses() {
    assert_eq!(status_for(true, true), Status::Critical);
    assert_eq!(status_for(true, false), Status::Critical);
    assert_eq!(status_for(false, true), Status::Warning);
    assert_eq!(status_for(false, false), Status::Normal);
    assert_eq!(Status::Critical.label(), "CRITICAL");
    assert_eq!(Status::Warning.label(), "WARNING");
    assert_eq!(Status::Normal.label(), "NORMAL");
}

#[test]
fn footers() {
    assert_eq!(footer(3, 0), "Press Ctrl+C to exit | Total sensors: 3");
    assert_eq!(footer(0, 17), "Press Ctrl+C to exit | Total sensors: 0 | Skipped messages: 17");
}

#[test]
fn dashboard_rows() {
    let mut d: Dashboard<f64> = Dashboard::new();
    d.show_raw("temp".to_string(), 80.0, "°C".to_string());
    d.show_raw("press".to_string(), 2.0, "bar".to_string());
    d.show_aggregated("temp".to_string(), 78.5, "°C".to_string());
    d.show_raw("temp".to_string(), 81.0, "°C".to_string());
    d.note_skipped(4);
    d.note_skipped(2);
    assert_eq!(d.skipped, 6);
    assert_eq!(d.sensor_count(), 2);
    let mut th: Table<(f64, f64)> = Table::new();
    th.insert("temp".to_string(), (70.0, 85.0));
    let rows = d.rows(&th, (0.0, 0.0));
    assert_eq!(rows.len(), 2);
    assert_eq!(rows[0].parameter, "temp");
    assert_eq!((rows[0].raw, rows[0].aggregated), (81.0, 78.5));
    assert_eq!(rows[0].thresholds, (70.0, 85.0));
    assert_eq!(rows[0].status_inputs(), (81.0, 70.0, 85.0));
    assert_eq!(rows[1].parameter, "press");
    assert_eq!((rows[1].raw, rows[1].aggregated), (2.0, 2.0));
    assert_eq!(rows[1].thresholds, (0.0, 0.0));
    assert_eq!(rows[1].status_inputs(), (2.0, 0.0, 0.0));
}

#[test]
fn decimals_and_equality() {
    assert_eq!(decimal_string(0), "0");
    assert_eq!(decimal_string(1234567890), "1234567890");
    assert_eq!(decimal_string(u64::MAX), u64::MAX.to_string());
    assert!(str_eq("°C", "°C"));
    assert!(!str_eq("a", "ab"));
    assert!(!str_eq("ab", "ac"));
}

#[test]
fn table_replaces_in_place() {
    let mut t: Table<u32> = Table::new();
    t.insert("a".to_string(), 1);
    t.insert("b".to_string(), 2);
    t.insert("a".to_string(), 3);
    assert_eq!(t.len(), 2);
    assert_eq!(t.position("a"), Some(0));
    assert_eq!(t.get("a"), Some(&3));
    assert!(t.contains("b") && !t.contains("c"));
    assert_eq!(t.get("c"), None);
}

#[test]
fn quit_key() {
    assert!(is_quit_key(Some('c'), true));
    assert!(!is_quit_key(Some('c'), false));
    assert!(!is_quit_key(Some('C'), true));
    assert!(!is_quit_key(None, true));
}
