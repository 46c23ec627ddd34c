use vstd::prelude::*;

use crate::config::{CurvePoint, GpuMode};

verus! {

/// A request from the desktop client to the daemon.
#[derive(Debug, Clone, PartialEq)]
pub enum IpcRequest {
    GetStatus,
    SetGpuMode(GpuMode),
    /// Replace the points of the curve called `name` ("cpu" or "gpu").
    SetFanCurve { name: String, points: Vec<CurvePoint> },
    Uninstall,
}

/// The daemon's answer to a request.
#[derive(Debug, Clone, PartialEq)]
pub enum IpcResponse {
    Status(SystemStatus),
    /// The request was carried out.
    Success,
    Error(String),
}

/// What the daemon reports of the machine and of its settings.
/// Temperatures are in millidegrees Celsius; fan speeds are PWM duty
/// cycles (0-255).
#[derive(Debug, Clone, PartialEq)]
pub struct SystemStatus {
    pub current_gpu_mode: GpuMode,
    pub cpu_temp: Option<i32>,
    pub gpu_temp: Option<i32>,
    pub cpu_fan_speed: Option<u8>,
    pub gpu_fan_speed: Option<u8>,
    pub cpu_curve: Vec<CurvePoint>,
    pub gpu_curve: Vec<CurvePoint>,
}

} // verus!
