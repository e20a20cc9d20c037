//! Monitoring logic for industrial sensor readings: rule evaluation per
//! parameter (smoothing windows, sustained threshold alerts, heartbeats),
//! the Modbus polling schedule, the simulator's parameter table, and the
//! small pieces of dashboard and configuration logic around them.
pub mod text;
pub mod table;
pub mod models;
pub mod processor;
pub mod processor_laws;
pub mod modbus_connector;
pub mod web_dashboard;
pub mod error;
pub mod config;
pub mod simulator;
pub mod ui;
