//! Sensor telemetry simulator: the verified core.
//!
//! The library holds the decisions of a terminal dashboard that simulates
//! sensors, keeps a one-minute window of their readings and shows the data
//! that a database returns: key handling and sensor selection, the sliding
//! window, the store of sensor data windows, and the texts that are shown
//! or sent as queries.
pub mod decimal;
pub mod window;
pub mod app;
pub mod sensors;
pub mod queries;
pub mod ui;
