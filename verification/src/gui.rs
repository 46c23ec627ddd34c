use vstd::prelude::*;

use crate::config::{copy_points, CurvePoint, GpuMode};
use crate::curve::temps_increasing;
use crate::ipc::{IpcRequest, IpcResponse, SystemStatus};
use crate::text::{join_text, same_text};

verus! {

/// The fan curve shown in the editor.
#[derive(Debug, Clone, Copy, PartialEq, Eq, Structural)]
pub enum Tab {
    CpuCurve,
    GpuCurve,
}

/// The desktop client's state, apart from what drawing needs.
#[derive(Debug, Clone, PartialEq)]
pub struct AppUi {
    pub status: Option<SystemStatus>,
    pub error_message: Option<String>,
    pub active_tab: Tab,
    pub cpu_curve_edit: Vec<CurvePoint>,
    pub gpu_curve_edit: Vec<CurvePoint>,
    /// The point of the active curve being dragged.
    pub drag_index: Option<usize>,
    pub unsaved_cpu_changes: bool,
    pub unsaved_gpu_changes: bool,
    pub daemon_connected: bool,
    pub confirm_uninstall: bool,
}

/// The lowest temperature (millidegrees Celsius) a point can be dragged to,
/// and the highest.
pub open spec fn drag_limits(curve: Seq<CurvePoint>, idx: int) -> (int, int) {
    let lo = if idx > 0 { curve[idx - 1].temp + 1000 } else { 0 };
    let hi = if idx < curve.len() - 1 { curve[idx + 1].temp - 1000 } else { 100_000 };
    (lo, hi)
}

/// `x` brought into `[lo, hi]`.
pub open spec fn clamp(x: int, lo: int, hi: int) -> int {
    if x < lo { lo } else if x > hi { hi } else { x }
}

/// Point `idx` of `curve` moved towards (`raw_temp`, `raw_speed`): its
/// temperature stays at least one degree away from its neighbours and in
/// 0..=100 degrees at the ends, and its speed stays in 0..=255.
pub open spec fn dragged_curve(curve: Seq<CurvePoint>, idx: int, raw_temp: int, raw_speed: int) -> Seq<CurvePoint> {
    let (lo, hi) = drag_limits(curve, idx);
    curve.update(idx, CurvePoint {
        temp: clamp(raw_temp, lo, hi) as i32,
        speed: clamp(raw_speed, 0, 255) as u8,
    })
}

/// The edited curve of tab `t`.
pub open spec fn edited_curve(ui: AppUi, t: Tab) -> Seq<CurvePoint> {
    match t {
        Tab::CpuCurve => ui.cpu_curve_edit@,
        Tab::GpuCurve => ui.gpu_curve_edit@,
    }
}

/// A drag of point `idx` of the active curve can be applied: the point
/// exists and its limits do not cross.
pub open spec fn drag_possible(ui: AppUi, idx: int) -> bool {
    let curve = edited_curve(ui, ui.active_tab);
    &&& 0 <= idx < curve.len()
    &&& drag_limits(curve, idx).0 <= drag_limits(curve, idx).1
}

impl Default for AppUi {
    fn default() -> (ui: Self)
        ensures
            ui.status is None,
            ui.error_message is None,
            ui.active_tab == Tab::CpuCurve,
            ui.cpu_curve_edit@.len() == 0,
            ui.gpu_curve_edit@.len() == 0,
            ui.drag_index is None,
            !ui.unsaved_cpu_changes,
            !ui.unsaved_gpu_changes,
            !ui.daemon_connected,
            !ui.confirm_uninstall,
    {
        AppUi {
            status: None,
            error_message: None,
            active_tab: Tab::CpuCurve,
            cpu_curve_edit: Vec::new(),
            gpu_curve_edit: Vec::new(),
            drag_index: None,
            unsaved_cpu_changes: false,
            unsaved_gpu_changes: false,
            daemon_connected: false,
            confirm_uninstall: false,
        }
    }
}

impl AppUi {
    /// A client that has not heard from the daemon yet.
    pub fn new() -> (ui: Self)
        ensures
            ui.status is None,
            ui.error_message is None,
            ui.active_tab == Tab::CpuCurve,
            ui.cpu_curve_edit@.len() == 0,
            ui.gpu_curve_edit@.len() == 0,
            ui.drag_index is None,
            !ui.unsaved_cpu_changes,
            !ui.unsaved_gpu_changes,
            !ui.daemon_connected,
            !ui.confirm_uninstall,
    {
        Self::default()
    }

    /// Whether the daemon is to be polled now: while there is no status,
    /// or when more than one and a half seconds (`elapsed_nanos`
    /// nanoseconds) went by since the last poll.
    pub fn poll_due(&self, elapsed_nanos: u64) -> (due: bool)
        ensures
            due == (self.status is None || elapsed_nanos > 1_500_000_000),
    {
        self.status.is_none() || elapsed_nanos > 1_500_000_000
    }

    /// The "Uninstall Application" button was pressed: ask for
    /// confirmation.
    pub fn request_uninstall(&mut self)
        ensures
            *final(self) == (AppUi { confirm_uninstall: true, ..*old(self) }),
    {
        self.confirm_uninstall = true;
    }

    /// The confirmation was cancelled.
    pub fn cancel_uninstall(&mut self)
        ensures
            *final(self) == (AppUi { confirm_uninstall: false, ..*old(self) }),
    {
        self.confirm_uninstall = false;
    }

    /// The "Yes, Uninstall" button was pressed: the request to send, which
    /// exists only once the uninstall was asked for.
    pub fn confirm_uninstall_request(&self) -> (r: Option<IpcRequest>)
        ensures
            r == (if self.confirm_uninstall { Some(IpcRequest::Uninstall) } else { None::<IpcRequest> }),
    {
        if self.confirm_uninstall {
            Some(IpcRequest::Uninstall)
        } else {
            None
        }
    }

    /// The GPU mode to show as selected: the daemon's, or hybrid while
    /// there is no status.
    pub fn shown_gpu_mode(&self) -> (m: GpuMode)
        ensures
            m == match self.status {
                Some(s) => s.current_gpu_mode,
                None => GpuMode::Hybrid,
            },
    {
        match &self.status {
            Some(s) => s.current_gpu_mode,
            None => GpuMode::Hybrid,
        }
    }

    /// Takes in the answer to a status poll. A status is shown and, unless
    /// a point is being dragged, replaces each edited curve that has no
    /// unsaved changes; anything else is shown as an error and marks the
    /// daemon as disconnected (a failed connection also drops the status).
    pub fn on_poll_response(&mut self, result: Result<IpcResponse, String>)
        ensures
            final(self).active_tab == old(self).active_tab,
            final(self).drag_index == old(self).drag_index,
            final(self).unsaved_cpu_changes == old(self).unsaved_cpu_changes,
            final(self).unsaved_gpu_changes == old(self).unsaved_gpu_changes,
            final(self).confirm_uninstall == old(self).confirm_uninstall,
            match result {
                Ok(IpcResponse::Status(st)) => {
                    &&& final(self).status == Some(st)
                    &&& final(self).error_message is None
                    &&& final(self).daemon_connected
                    &&& final(self).cpu_curve_edit@ == (if old(self).drag_index is None
                        && !old(self).unsaved_cpu_changes { st.cpu_curve@ } else { old(self).cpu_curve_edit@ })
                    &&& final(self).gpu_curve_edit@ == (if old(self).drag_index is None
                        && !old(self).unsaved_gpu_changes { st.gpu_curve@ } else { old(self).gpu_curve_edit@ })
                },
                Ok(IpcResponse::Error(e)) => {
                    &&& final(self).status == old(self).status
                    &&& final(self).error_message matches Some(m) && m@ == "Daemon reported error: "@ + e@
                    &&& !final(self).daemon_connected
                    &&& final(self).cpu_curve_edit == old(self).cpu_curve_edit
                    &&& final(self).gpu_curve_edit == old(self).gpu_curve_edit
                },
                Ok(IpcResponse::Success) => {
                    &&& final(self).status == old(self).status
                    &&& final(self).error_message matches Some(m) && m@ == "Unexpected response from daemon"@
                    &&& !final(self).daemon_connected
                    &&& final(self).cpu_curve_edit == old(self).cpu_curve_edit
                    &&& final(self).gpu_curve_edit == old(self).gpu_curve_edit
                },
                Err(e) => {
                    &&& final(self).status is None
                    &&& final(self).error_message matches Some(m) && m@ == e@
                    &&& !final(self).daemon_connected
                    &&& final(self).cpu_curve_edit == old(self).cpu_curve_edit
                    &&& final(self).gpu_curve_edit == old(self).gpu_curve_edit
                },
            },
    {
        match result {
            Ok(IpcResponse::Status(status)) => {
                if self.drag_index.is_none() {
                    if !self.unsaved_cpu_changes {
                        self.cpu_curve_edit = copy_points(&status.cpu_curve);
                    }
                    if !self.unsaved_gpu_changes {
                        self.gpu_curve_edit = copy_points(&status.gpu_curve);
                    }
                }
                self.status = Some(status);
                self.error_message = None;
                self.daemon_connected = true;
            },
            Ok(IpcResponse::Error(err)) => {
                self.error_message = Some(join_text("Daemon reported error: ", err.as_str()));
                self.daemon_connected = false;
            },
            Ok(IpcResponse::Success) => {
                self.error_message = Some(String::from_str("Unexpected response from daemon"));
                self.daemon_connected = false;
            },
            Err(err) => {
                self.error_message = Some(err);
                self.daemon_connected = false;
                self.status = None;
            },
        }
    }

    /// Takes in the answer to a GPU mode change; `true` when the daemon
    /// should be polled again (the change succeeded). Failures are shown.
    pub fn on_gpu_mode_response(&mut self, result: Result<IpcResponse, String>) -> (poll: bool)
        ensures
            poll == (result == Ok::<IpcResponse, String>(IpcResponse::Success)),
            final(self).status == old(self).status,
            final(self).active_tab == old(self).active_tab,
            final(self).cpu_curve_edit == old(self).cpu_curve_edit,
            final(self).gpu_curve_edit == old(self).gpu_curve_edit,
            final(self).drag_index == old(self).drag_index,
            final(self).unsaved_cpu_changes == old(self).unsaved_cpu_changes,
            final(self).unsaved_gpu_changes == old(self).unsaved_gpu_changes,
            final(self).daemon_connected == old(self).daemon_connected,
            final(self).confirm_uninstall == old(self).confirm_uninstall,
            match result {
                Ok(IpcResponse::Success) => final(self).error_message == old(self).error_message,
                Ok(IpcResponse::Error(e)) => final(self).error_message matches Some(m)
                    && m@ == "Failed to switch GPU mode: "@ + e@,
                Ok(IpcResponse::Status(_)) => final(self).error_message matches Some(m)
                    && m@ == "Unexpected response from daemon"@,
                Err(e) => final(self).error_message matches Some(m)
                    && m@ == "IPC connection failed: "@ + e@,
            },
    {
        match result {
            Ok(IpcResponse::Success) => true,
            Ok(IpcResponse::Error(err)) => {
                self.error_message = Some(join_text("Failed to switch GPU mode: ", err.as_str()));
                false
            },
            Ok(IpcResponse::Status(_)) => {
                self.error_message = Some(String::from_str("Unexpected response from daemon"));
                false
            },
            Err(err) => {
                self.error_message = Some(join_text("IPC connection failed: ", err.as_str()));
                false
            },
        }
    }

    /// The request that applies the edited curve `name`: the CPU edits for
    /// "cpu", the GPU edits for any other name.
    pub fn fan_curve_request(&self, name: &str) -> (r: IpcRequest)
        ensures
            r matches IpcRequest::SetFanCurve { name: n, points } && n@ == name@
                && points@ == (if name@ == "cpu"@ { self.cpu_curve_edit@ } else { self.gpu_curve_edit@ }),
    {
        let points = if same_text(name, "cpu") {
            copy_points(&self.cpu_curve_edit)
        } else {
            copy_points(&self.gpu_curve_edit)
        };
        IpcRequest::SetFanCurve { name: String::from_str(name), points }
    }

    /// Takes in the answer to applying curve `name`; `true` when the daemon
    /// should be polled again. On success the curve ("cpu", else the GPU
    /// curve) no longer has unsaved changes; failures are shown.
    pub fn on_fan_curve_response(&mut self, name: &str, result: Result<IpcResponse, String>) -> (poll: bool)
        ensures
            poll == (result == Ok::<IpcResponse, String>(IpcResponse::Success)),
            final(self).status == old(self).status,
            final(self).active_tab == old(self).active_tab,
            final(self).cpu_curve_edit == old(self).cpu_curve_edit,
            final(self).gpu_curve_edit == old(self).gpu_curve_edit,
            final(self).drag_index == old(self).drag_index,
            final(self).daemon_connected == old(self).daemon_connected,
            final(self).confirm_uninstall == old(self).confirm_uninstall,
            match result {
                Ok(IpcResponse::Success) => {
                    &&& final(self).error_message == old(self).error_message
                    &&& final(self).unsaved_cpu_changes == (old(self).unsaved_cpu_changes && name@ != "cpu"@)
                    &&& final(self).unsaved_gpu_changes == (old(self).unsaved_gpu_changes && name@ == "cpu"@)
                },
                Ok(IpcResponse::Error(e)) => {
                    &&& final(self).error_message matches Some(m) && m@ == "Failed to update fan curve: "@ + e@
                    &&& final(self).unsaved_cpu_changes == old(self).unsaved_cpu_changes
                    &&& final(self).unsaved_gpu_changes == old(self).unsaved_gpu_changes
                },
                Ok(IpcResponse::Status(_)) => {
                    &&& final(self).error_message matches Some(m) && m@ == "Unexpected response from daemon"@
                    &&& final(self).unsaved_cpu_changes == old(self).unsaved_cpu_changes
                    &&& final(self).unsaved_gpu_changes == old(self).unsaved_gpu_changes
                },
                Err(e) => {
                    &&& final(self).error_message matches Some(m) && m@ == "IPC connection failed: "@ + e@
                    &&& final(self).unsaved_cpu_changes == old(self).unsaved_cpu_changes
                    &&& final(self).unsaved_gpu_changes == old(self).unsaved_gpu_changes
                },
            },
    {
        match result {
            Ok(IpcResponse::Success) => {
                if same_text(name, "cpu") {
                    self.unsaved_cpu_changes = false;
                } else {
                    self.unsaved_gpu_changes = false;
                }
                true
            },
            Ok(IpcResponse::Error(err)) => {
                self.error_message = Some(join_text("Failed to update fan curve: ", err.as_str()));
                false
            },
            Ok(IpcResponse::Status(_)) => {
                self.error_message = Some(String::from_str("Unexpected response from daemon"));
                false
            },
            Err(err) => {
                self.error_message = Some(join_text("IPC connection failed: ", err.as_str()));
                false
            },
        }
    }

    /// Drops the unsaved edits of both curves; the next poll brings back
    /// the daemon's curves.
    pub fn discard_changes(&mut self)
        ensures
            !final(self).unsaved_cpu_changes,
            !final(self).unsaved_gpu_changes,
            final(self).status == old(self).status,
            final(self).error_message == old(self).error_message,
            final(self).active_tab == old(self).active_tab,
            final(self).cpu_curve_edit == old(self).cpu_curve_edit,
            final(self).gpu_curve_edit == old(self).gpu_curve_edit,
            final(self).drag_index == old(self).drag_index,
            final(self).daemon_connected == old(self).daemon_connected,
            final(self).confirm_uninstall == old(self).confirm_uninstall,
    {
        self.unsaved_cpu_changes = false;
        self.unsaved_gpu_changes = false;
    }

    /// Whether `drag_to` may be called: no point is dragged, or the dragged
    /// point exists in the active curve and its limits do not cross.
    pub fn can_drag(&self) -> (r: bool)
        ensures
            r == (self.drag_index matches Some(i) ==> drag_possible(*self, i as int)),
    {
        match self.drag_index {
            None => true,
            Some(idx) => {
                let curve = match self.active_tab {
                    Tab::CpuCurve => &self.cpu_curve_edit,
                    Tab::GpuCurve => &self.gpu_curve_edit,
                };
                let n = curve.len();
                if idx >= n {
                    return false;
                }
                let lo: i64 = if idx > 0 { curve[idx - 1].temp as i64 + 1000 } else { 0 };
                let hi: i64 = if idx < n - 1 { curve[idx + 1].temp as i64 - 1000 } else { 100_000 };
                lo <= hi
            },
        }
    }

    /// Moves the dragged point of the active curve towards (`raw_temp`
    /// millidegrees, `raw_speed`) within its limits, and marks that curve
    /// as changed. Nothing happens while no point is dragged.
    pub fn drag_to(&mut self, raw_temp: i32, raw_speed: i32)
        requires
            old(self).drag_index matches Some(i) ==> drag_possible(*old(self), i as int),
        ensures
            final(self).status == old(self).status,
            final(self).error_message == old(self).error_message,
            final(self).active_tab == old(self).active_tab,
            final(self).drag_index == old(self).drag_index,
            final(self).daemon_connected == old(self).daemon_connected,
            final(self).confirm_uninstall == old(self).confirm_uninstall,
            match old(self).drag_index {
                None => *final(self) == *old(self),
                Some(i) => match old(self).active_tab {
                    Tab::CpuCurve => {
                        &&& final(self).cpu_curve_edit@ == dragged_curve(old(self).cpu_curve_edit@, i as int, raw_temp as int, raw_speed as int)
                        &&& final(self).gpu_curve_edit == old(self).gpu_curve_edit
                        &&& final(self).unsaved_cpu_changes
                        &&& final(self).unsaved_gpu_changes == old(self).unsaved_gpu_changes
                    },
                    Tab::GpuCurve => {
                        &&& final(self).gpu_curve_edit@ == dragged_curve(old(self).gpu_curve_edit@, i as int, raw_temp as int, raw_speed as int)
                        &&& final(self).cpu_curve_edit == old(self).cpu_curve_edit
                        &&& final(self).unsaved_gpu_changes
                        &&& final(self).unsaved_cpu_changes == old(self).unsaved_cpu_changes
                    },
                },
            },
    {
        match self.drag_index {
            None => {},
            Some(idx) => {
                match self.active_tab {
                    Tab::CpuCurve => {
                        drag_point(&mut self.cpu_curve_edit, idx, raw_temp, raw_speed);
                        self.unsaved_cpu_changes = true;
                    },
                    Tab::GpuCurve => {
                        drag_point(&mut self.gpu_curve_edit, idx, raw_temp, raw_speed);
                        self.unsaved_gpu_changes = true;
                    },
                }
            },
        }
    }
}

/// Moves point `idx` of `curve` as `dragged_curve` describes.
fn drag_point(curve: &mut Vec<CurvePoint>, idx: usize, raw_temp: i32, raw_speed: i32)
    requires
        idx < old(curve)@.len(),
        drag_limits(old(curve)@, idx as int).0 <= drag_limits(old(curve)@, idx as int).1,
    ensures
        final(curve)@ == dragged_curve(old(curve)@, idx as int, raw_temp as int, raw_speed as int),
{
    let n = curve.len();
    let lo: i64 = if idx > 0 { curve[idx - 1].temp as i64 + 1000 } else { 0 };
    let hi: i64 = if idx < n - 1 { curve[idx + 1].temp as i64 - 1000 } else { 100_000 };
    let t: i64 = raw_temp as i64;
    let temp: i64 = if t < lo { lo } else if t > hi { hi } else { t };
    let speed: u8 = if raw_speed < 0 { 0 } else if raw_speed > 255 { 255 } else { raw_speed as u8 };
    curve.set(idx, CurvePoint { temp: temp as i32, speed });
}

/// Dragging keeps a curve in order: on a curve whose temperatures strictly
/// increase, moving a point within its limits leaves them strictly
/// increasing.
pub proof fn lemma_drag_keeps_curve_sorted(curve: Seq<CurvePoint>, idx: int, raw_temp: int, raw_speed: int)
    requires
        temps_increasing(curve),
        0 <= idx < curve.len(),
        drag_limits(curve, idx).0 <= drag_limits(curve, idx).1,
    ensures
        temps_increasing(dragged_curve(curve, idx, raw_temp, raw_speed)),
{
    let (lo, hi) = drag_limits(curve, idx);
    let c = clamp(raw_temp, lo, hi);
    assert(lo <= c <= hi);
    if idx > 0 {
        assert(curve[idx - 1].temp < curve[idx].temp);
    }
    if idx < curve.len() - 1 {
        assert(curve[idx].temp < curve[idx + 1].temp);
    }
    assert(i32::MIN <= c <= i32::MAX);
    let new = dragged_curve(curve, idx, raw_temp, raw_speed);
    assert(new[idx].temp == c);
    assert forall|i: int, j: int| 0 <= i < j < new.len() implies #[trigger] new[i].temp < #[trigger] new[j].temp by {
        if i == idx {
            assert(curve[idx + 1].temp <= curve[j].temp);
        } else if j == idx {
            assert(curve[i].temp <= curve[idx - 1].temp);
        } else {
            assert(curve[i].temp < curve[j].temp);
        }
    }
}

} // verus!
