//! Hardware control logic for a Linux laptop: fan-curve evaluation,
//! hwmon discovery, configuration handling, and the decision logic of the
//! root daemon and of the desktop client.
//!
//! Temperatures are carried as millidegrees Celsius, the unit in which the
//! kernel's hwmon `temp*_input` files report them.

pub mod config;
pub mod curve;
pub mod daemon;
pub mod gui;
pub mod hwmon;
pub mod ipc;
pub mod search;
pub mod sort;
pub mod text;

pub use config::{Config, CurvePoint, FanConfig, FanCurve, GpuConfig, GpuMode};
pub use curve::interpolate_speed;
pub use daemon::{CleanupStep, DaemonState, FanCommand, RequestAction, Telemetry, TickOutcome, TickPlan};
pub use gui::{AppUi, Tab};
pub use hwmon::{
    assemble_device, classify_hwmon_file, companion_file_name, discover_controls, parse_temp_reading,
    DeviceEntry, DiscoveredControls, HwmonDevice, HwmonFile, PwmControl, TempSensor,
};
pub use ipc::{IpcRequest, IpcResponse, SystemStatus};
