use sensor_guard::modbus_connector::{
    coils_to_words, modbus_reading, reading_source, register_kind, Action, ConnectorMachine, Event, ModbusConnector, Phase, RegisterKind,
};

fn connector() -> ModbusConnector {
    ModbusConnector {
        addr: "127.0.0.1:502".to_string(),
        registers: vec![
            (40001, "temp".to_string(), "°C".to_string(), "holding".to_string()),
            (7, "valve".to_string(), "".to_string(), "coil".to_string()),
            (30002, "flow".to_string(), "l/s".to_string(), "input".to_string()),
        ],
        interval_secs: 5,
    }
}

#[test]
fn backoff_doubles_up_to_cap() {
    let (mut m, first) = ConnectorMachine::start(connector());
    assert!(matches!(first, Action::Connect));
    let mut waits = Vec::new();
    for _ in 0..7 {
        match m.step(Event::ConnectFailed) {
            Action::SleepThenConnect(d) => waits.push(d),
            _ => panic!("expected a wait"),
        }
    }
    assert_eq!(waits, vec![1, 2, 4, 8, 16, 30, 30]);
    assert!(matches!(m.step(Event::Connected), Action::StartPolling(5)));
    assert_eq!(m.retry_delay_secs, 1);
}

#[test]
fn polls_registers_in_order_and_publishes_first_word() {
    let (mut m, _) = ConnectorMachine::start(connector());
    m.step(Event::Connected);
    match m.step(Event::Ticked) {
        Action::Read { index: 0, kind: RegisterKind::Holding, address: 40001 } => {}
        _ => panic!("expected the first register"),
    }
    match m.step(Event::ReadSucceeded(vec![42, 7])) {
        Action::Publish { index, source, parameter, unit, raw } => {
            assert_eq!(index, 0);
            assert_eq!(source, "modbus:127.0.0.1:502/register/40001/holding");
            assert_eq!(parameter, "temp");
            assert_eq!(unit, "°C");
            assert_eq!(raw, 42);
        }
        _ => panic!("expected a publish"),
    }
    match m.step(Event::Sent) {
        Action::Read { index: 1, kind: RegisterKind::Coil, address: 7 } => {}
        _ => panic!("expected the coil"),
    }
    // an empty answer publishes nothing and moves on
    match m.step(Event::ReadSucceeded(vec![])) {
        Action::Read { index: 2, kind: RegisterKind::Input, address: 30002 } => {}
        _ => panic!("expected the input register"),
    }
    assert!(matches!(m.step(Event::ReadSucceeded(vec![3])), Action::Publish { index: 2, raw: 3, .. }));
    assert!(matches!(m.step(Event::Sent), Action::WaitTick));
    assert_eq!(m.phase, Phase::WaitingTick);
}

#[test]
fn failed_read_reconnects_after_backoff() {
    let (mut m, _) = ConnectorMachine::start(connector());
    m.step(Event::ConnectFailed);
    m.step(Event::ConnectFailed);
    m.step(Event::Connected);
    m.step(Event::Ticked);
    assert!(matches!(m.step(Event::ReadFailed), Action::SleepThenConnect(1)));
    assert_eq!(m.phase, Phase::Connecting);
    assert_eq!(m.retry_delay_secs, 2);
}

#[test]
fn closed_channel_stops_for_good() {
    let (mut m, _) = ConnectorMachine::start(connector());
    m.step(Event::Connected);
    m.step(Event::Ticked);
    m.step(Event::ReadSucceeded(vec![1]));
    assert!(matches!(m.step(Event::SendFailed), Action::Stop));
    assert!(matches!(m.step(Event::Ticked), Action::Stop));
    assert!(matches!(m.step(Event::Connected), Action::Stop));
    assert_eq!(m.phase, Phase::Stopped);
}

#[test]
fn events_out_of_turn_change_nothing() {
    let (mut m, _) = ConnectorMachine::start(connector());
    assert!(matches!(m.step(Event::Ticked), Action::Unexpected));
    assert_eq!(m.phase, Phase::Connecting);
    assert_eq!(m.retry_delay_secs, 1);
}

#[test]
fn no_registers_just_waits() {
    let (mut m, _) = ConnectorMachine::start(ModbusConnector { addr: "h:1".to_string(), registers: vec![], interval_secs: 1 });
    m.step(Event::Connected);
    assert!(matches!(m.step(Event::Ticked), Action::WaitTick));
}

#[test]
fn register_types() {
    assert_eq!(register_kind("input"), RegisterKind::Input);
    assert_eq!(register_kind("coil"), RegisterKind::Coil);
    assert_eq!(register_kind("holding"), RegisterKind::Holding);
    assert_eq!(register_kind("Input"), RegisterKind::Holding);
    assert_eq!(register_kind(""), RegisterKind::Holding);
}

#[test]
fn coils_as_words() {
    assert_eq!(coils_to_words(&vec![true, false, true]), vec![1, 0, 1]);
    assert!(coils_to_words(&vec![]).is_empty());
}

#[test]
fn source_labels() {
    assert_eq!(reading_source("10.0.0.2:502", 0, "input"), "modbus:10.0.0.2:502/register/0/input");
    assert_eq!(reading_source("x", 65535, "coil"), "modbus:x/register/65535/coil");
}

#[test]
fn published_readings_are_good() {
    let r = modbus_reading("modbus:h/register/1/input".to_string(), "flow".to_string(), "l/s".to_string(), 7.0f64, 123);
    assert_eq!(r.quality, sensor_guard::models::ReadingQuality::Good);
    assert_eq!((r.source.as_str(), r.parameter.as_str(), r.unit.as_str()), ("modbus:h/register/1/input", "flow", "l/s"));
    assert_eq!((r.value, r.timestamp), (7.0, 123));
}
