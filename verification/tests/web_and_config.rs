use sensor_guard::config::{check_mode, connector_from_config, default_register_type, runs_modbus, runs_simulator, ConfigError, RegisterConfig};
use sensor_guard::error::ServiceError;
use sensor_guard::web_dashboard::{mime_for, not_found_body, static_file_path, INDEX_FILE};

#[test]
fn content_types() {
    assert_eq!(mime_for(INDEX_FILE), "text/html; charset=utf-8");
    assert_eq!(mime_for("css/app.min.css"), "text/css; charset=utf-8");
    assert_eq!(mime_for("app.js"), "application/javascript; charset=utf-8");
    assert_eq!(mime_for("logo.svg"), "image/svg+xml");
    assert_eq!(mime_for("a.png"), "image/png");
    assert_eq!(mime_for("favicon.ico"), "image/x-icon");
    assert_eq!(mime_for("data.json"), "application/json");
    assert_eq!(mime_for("data.JSON"), "application/octet-stream");
    assert_eq!(mime_for("archive.tar.gz"), "application/octet-stream");
    assert_eq!(mime_for("html"), "text/html; charset=utf-8");
    assert_eq!(mime_for(""), "application/octet-stream");
    assert_eq!(mime_for("dir.d/file"), "application/octet-stream");
}

#[test]
fn static_paths() {
    assert_eq!(static_file_path("//css/app.css"), "css/app.css");
    assert_eq!(static_file_path("index.html"), "index.html");
    assert_eq!(static_file_path("/"), "");
    assert_eq!(not_found_body("x/y.txt"), "Not found: x/y.txt");
}

#[test]
fn register_type_default() {
    assert_eq!(default_register_type(), "holding");
}

#[test]
fn modes() {
    assert!(runs_simulator("simulator") && runs_simulator("both") && !runs_simulator("modbus"));
    assert!(runs_modbus("modbus") && runs_modbus("both") && !runs_modbus("simulator"));
    assert!(check_mode("simulator", false).is_ok());
    assert!(check_mode("both", true).is_ok());
    match check_mode("modbus", false) {
        Err(e) => {
            assert!(matches!(&e, ConfigError::MissingModbusSection(m) if m == "modbus"));
            assert_eq!(e.message(), "Mode 'modbus' requires a 'modbus' section in config.yaml");
        }
        Ok(()) => panic!("expected a missing section"),
    }
}

#[test]
fn connector_from_section() {
    let regs = vec![
        RegisterConfig { address: 1, parameter: "a".to_string(), unit: "V".to_string(), register_type: "input".to_string() },
        RegisterConfig { address: 2, parameter: "b".to_string(), unit: "A".to_string(), register_type: default_register_type() },
    ];
    let c = connector_from_config("127.0.0.1:502", 3, &regs);
    assert_eq!(c.addr, "127.0.0.1:502");
    assert_eq!(c.interval_secs, 3);
    assert_eq!(c.registers, vec![
        (1, "a".to_string(), "V".to_string(), "input".to_string()),
        (2, "b".to_string(), "A".to_string(), "holding".to_string()),
    ]);
}

#[test]
fn service_error_text() {
    assert_eq!(ServiceError::ChannelSend("closed".to_string()).message(), "Channel send error: closed");
}
