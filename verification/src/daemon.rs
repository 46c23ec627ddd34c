use vstd::prelude::*;

use crate::config::{copy_points, Config, CurvePoint, FanCurve, GpuMode};
use crate::curve::{curve_speed, interpolate_speed};
use crate::hwmon::{copy_controls, copy_pwm, DiscoveredControls, PwmControl};
use crate::ipc::{IpcRequest, IpcResponse, SystemStatus};
use crate::search::{
    first_index, is_first_index, is_last_index, last_index, lemma_first_index_is,
    lemma_first_index_none, lemma_last_index_is, lemma_last_index_none,
};
use crate::sort::{is_stable_sort_of, stable_sort_by_key};
use crate::text::{join_text, same_text};

verus! {

/// Work on a fan that the daemon hands to the hardware layer.
#[derive(Debug, Clone, PartialEq, Eq)]
pub enum FanCommand {
    /// Switch the fan to manual (software) control.
    EnableManual(PwmControl),
    /// Give the fan back to the firmware's automatic control.
    RestoreAuto(PwmControl),
    /// Set the fan's PWM duty cycle.
    SetSpeed(PwmControl, u8),
}

/// The daemon's shared state.
#[derive(Debug, Clone, PartialEq)]
pub struct DaemonState {
    pub config: Config,
    pub controls: DiscoveredControls,
    pub current_gpu_mode: GpuMode,
    pub cpu_fan_speed: Option<u8>,
    pub gpu_fan_speed: Option<u8>,
    /// Last CPU temperature read, in millidegrees Celsius.
    pub cpu_temp: Option<i32>,
    /// Last GPU temperature read, in millidegrees Celsius.
    pub gpu_temp: Option<i32>,
}

/// What one control cycle read and set.
#[derive(Debug, Clone, Copy, PartialEq, Eq, Structural)]
pub struct Telemetry {
    pub cpu_temp: Option<i32>,
    pub gpu_temp: Option<i32>,
    pub cpu_fan_speed: Option<u8>,
    pub gpu_fan_speed: Option<u8>,
}

/// What a control cycle works from, taken from the state at its start.
#[derive(Debug, Clone, PartialEq)]
pub struct TickPlan {
    pub poll_interval_secs: u64,
    pub cpu_curve: Vec<CurvePoint>,
    pub gpu_curve: Vec<CurvePoint>,
    pub controls: DiscoveredControls,
}

/// The outcome of a control cycle: what to record, and the fan speeds to set.
#[derive(Debug, Clone, PartialEq)]
pub struct TickOutcome {
    pub telemetry: Telemetry,
    pub commands: Vec<FanCommand>,
}

/// What the daemon does with a request.
#[derive(Debug, Clone, PartialEq)]
pub enum RequestAction {
    /// Answer at once.
    Reply(IpcResponse),
    /// Switch the GPU to this mode, then report the result to
    /// `DaemonState::finish_gpu_switch`.
    SwitchGpu(GpuMode),
    /// Save the configuration, then report the result to `fan_curve_saved`.
    SaveConfig,
    /// Uninstall the application: carry out the fan commands, then the
    /// clean-up steps in order, then answer.
    Uninstall { commands: Vec<FanCommand>, cleanup: Vec<CleanupStep>, reply: IpcResponse },
}

/// A step of removing the application from the system.
#[derive(Debug, Clone, Copy, PartialEq, Eq, Structural)]
pub enum CleanupStep {
    /// Disable the application's systemd services.
    DisableServices,
    /// Remove the installed programs, service units and desktop launcher.
    RemoveInstalledFiles,
    /// Remove the configuration file.
    RemoveConfiguration,
}

/// The clean-up of an uninstall: the services are disabled first, then the
/// installed files and the configuration are removed.
pub open spec fn uninstall_cleanup() -> Seq<CleanupStep> {
    seq![CleanupStep::DisableServices, CleanupStep::RemoveInstalledFiles, CleanupStep::RemoveConfiguration]
}

/// The fans that were discovered: the CPU fan, then the GPU fan.
pub open spec fn fans_of(c: DiscoveredControls) -> Seq<PwmControl> {
    (match c.cpu_fan {
        Some(f) => seq![f],
        None => Seq::<PwmControl>::empty(),
    }) + (match c.gpu_fan {
        Some(f) => seq![f],
        None => Seq::<PwmControl>::empty(),
    })
}

/// The commands that switch every discovered fan to manual control.
pub open spec fn manual_commands(c: DiscoveredControls) -> Seq<FanCommand> {
    fans_of(c).map_values(|f: PwmControl| FanCommand::EnableManual(f))
}

/// The commands that give every discovered fan back to the firmware.
pub open spec fn restore_commands(c: DiscoveredControls) -> Seq<FanCommand> {
    fans_of(c).map_values(|f: PwmControl| FanCommand::RestoreAuto(f))
}

/// The curve is called `name`.
pub open spec fn curve_named(name: Seq<char>) -> spec_fn(FanCurve) -> bool {
    |c: FanCurve| c.name@ == name
}

/// The points of the first curve called `name`, or none.
pub open spec fn first_curve_points(curves: Seq<FanCurve>, name: Seq<char>) -> Seq<CurvePoint> {
    match first_index(curves, curve_named(name)) {
        Some(i) => curves[i].points@,
        None => Seq::<CurvePoint>::empty(),
    }
}

/// The points of the last curve called `name`, or none.
pub open spec fn last_curve_points(curves: Seq<FanCurve>, name: Seq<char>) -> Seq<CurvePoint> {
    match last_index(curves, curve_named(name)) {
        Some(i) => curves[i].points@,
        None => Seq::<CurvePoint>::empty(),
    }
}

/// `new` is `old` with the points of its first curve called `name`
/// replaced by `points` sorted by temperature, when there is such a curve.
pub open spec fn curve_replaced(
    old: Seq<FanCurve>,
    new: Seq<FanCurve>,
    name: Seq<char>,
    points: Seq<CurvePoint>,
) -> bool {
    match first_index(old, curve_named(name)) {
        Some(i) => {
            &&& new.len() == old.len()
            &&& forall|j: int| 0 <= j < old.len() && j != i ==> #[trigger] new[j] == old[j]
            &&& new[i].name == old[i].name
            &&& is_stable_sort_of(new[i].points@, points)
        },
        None => new == old,
    }
}

/// The fan speed a control cycle sets for a fan: known only when the fan
/// exists and its temperature was read.
pub open spec fn planned_speed(
    reading: Option<i32>,
    fan: Option<PwmControl>,
    curve: Seq<CurvePoint>,
) -> Option<u8> {
    match (reading, fan) {
        (Some(t), Some(_)) => Some(curve_speed(t as int, curve) as u8),
        _ => None,
    }
}

/// The speed command for a fan, if a speed was planned for it.
pub open spec fn speed_command(fan: Option<PwmControl>, speed: Option<u8>) -> Seq<FanCommand> {
    match (fan, speed) {
        (Some(f), Some(s)) => seq![FanCommand::SetSpeed(f, s)],
        _ => Seq::<FanCommand>::empty(),
    }
}

/// A reading counts only for a sensor that exists.
pub open spec fn sensor_reading(sensor_present: bool, reading: Option<i32>) -> Option<i32> {
    if sensor_present { reading } else { None }
}

/// The position of the first curve called `name`.
fn find_first_curve(curves: &Vec<FanCurve>, name: &str) -> (r: Option<usize>)
    ensures
        match r {
            Some(i) => first_index(curves@, curve_named(name@)) == Some(i as int),
            None => first_index(curves@, curve_named(name@)) == None::<int>,
        },
{
    let mut i: usize = 0;
    while i < curves.len()
        invariant
            i <= curves@.len(),
            forall|j: int| 0 <= j < i ==> !#[trigger] curve_named(name@)(curves@[j]),
        decreases curves@.len() - i,
    {
        if same_text(curves[i].name.as_str(), name) {
            proof {
                lemma_first_index_is(curves@, curve_named(name@), i as int);
            }
            return Some(i);
        }
        i = i + 1;
    }
    proof {
        lemma_first_index_none(curves@, curve_named(name@));
    }
    None
}

/// The points of the first curve called `name`, or none.
fn first_curve_points_of(curves: &Vec<FanCurve>, name: &str) -> (r: Vec<CurvePoint>)
    ensures
        r@ == first_curve_points(curves@, name@),
{
    match find_first_curve(curves, name) {
        Some(i) => copy_points(&curves[i].points),
        None => Vec::new(),
    }
}

/// The points of the last curve called `name`, or none.
fn last_curve_points_of(curves: &Vec<FanCurve>, name: &str) -> (r: Vec<CurvePoint>)
    ensures
        r@ == last_curve_points(curves@, name@),
{
    let ghost p = curve_named(name@);
    let mut found: Option<usize> = None;
    let mut i: usize = 0;
    while i < curves.len()
        invariant
            i <= curves@.len(),
            p == curve_named(name@),
            match found {
                Some(k) => is_last_index(curves@.take(i as int), p, k as int),
                None => forall|j: int| 0 <= j < i ==> !#[trigger] p(curves@[j]),
            },
        decreases curves@.len() - i,
    {
        let ghost prev = curves@.take(i as int);
        let hit = same_text(curves[i].name.as_str(), name);
        proof {
            let next = curves@.take(i + 1);
            assert(next =~= prev.push(curves@[i as int]));
            if hit {
                assert(is_last_index(next, p, i as int));
            } else {
                match found {
                    Some(k) => {
                        assert forall|j: int| k < j < next.len() implies !p(#[trigger] next[j]) by {
                            if j < i {
                                assert(next[j] == prev[j]);
                            }
                        }
                        assert(next[k as int] == prev[k as int]);
                    },
                    None => {},
                }
            }
        }
        if hit {
            found = Some(i);
        }
        i = i + 1;
    }
    assert(curves@.take(curves@.len() as int) =~= curves@);
    match found {
        Some(k) => {
            proof {
                lemma_last_index_is(curves@, p, k as int);
            }
            copy_points(&curves[k].points)
        },
        None => {
            proof {
                lemma_last_index_none(curves@, p);
            }
            Vec::new()
        },
    }
}

/// Computes the fan speeds of one control cycle from the temperatures that
/// were read (`None` where there is no sensor or the read failed).
pub fn plan_fan_speeds(plan: &TickPlan, cpu_reading: Option<i32>, gpu_reading: Option<i32>) -> (out: TickOutcome)
    ensures
        out.telemetry.cpu_temp == sensor_reading(plan.controls.cpu_temp is Some, cpu_reading),
        out.telemetry.gpu_temp == sensor_reading(plan.controls.gpu_temp is Some, gpu_reading),
        out.telemetry.cpu_fan_speed == planned_speed(out.telemetry.cpu_temp, plan.controls.cpu_fan, plan.cpu_curve@),
        out.telemetry.gpu_fan_speed == planned_speed(out.telemetry.gpu_temp, plan.controls.gpu_fan, plan.gpu_curve@),
        out.commands@ == speed_command(plan.controls.cpu_fan, out.telemetry.cpu_fan_speed)
            + speed_command(plan.controls.gpu_fan, out.telemetry.gpu_fan_speed),
        // every planned speed is sent to its fan, whatever its value
        out.commands@.len() == (if out.telemetry.cpu_fan_speed is Some { 1int } else { 0int })
            + (if out.telemetry.gpu_fan_speed is Some { 1int } else { 0int }),
        out.telemetry.cpu_fan_speed matches Some(s) ==> plan.controls.cpu_fan matches Some(f)
            && out.commands@[0] == FanCommand::SetSpeed(f, s),
        out.telemetry.gpu_fan_speed matches Some(s) ==> plan.controls.gpu_fan matches Some(f)
            && out.commands@.last() == FanCommand::SetSpeed(f, s),
{
    let cpu_temp = if plan.controls.cpu_temp.is_some() { cpu_reading } else { None };
    let gpu_temp = if plan.controls.gpu_temp.is_some() { gpu_reading } else { None };
    let mut commands: Vec<FanCommand> = Vec::new();
    let cpu_fan_speed = match (cpu_temp, &plan.controls.cpu_fan) {
        (Some(t), Some(fan)) => {
            let speed = interpolate_speed(t, plan.cpu_curve.as_slice());
            commands.push(FanCommand::SetSpeed(copy_pwm(fan), speed));
            Some(speed)
        },
        _ => None,
    };
    let ghost after_cpu = commands@;
    let gpu_fan_speed = match (gpu_temp, &plan.controls.gpu_fan) {
        (Some(t), Some(fan)) => {
            let speed = interpolate_speed(t, plan.gpu_curve.as_slice());
            commands.push(FanCommand::SetSpeed(copy_pwm(fan), speed));
            Some(speed)
        },
        _ => None,
    };
    assert(commands@ =~= speed_command(plan.controls.cpu_fan, cpu_fan_speed)
        + speed_command(plan.controls.gpu_fan, gpu_fan_speed));
    TickOutcome {
        telemetry: Telemetry { cpu_temp, gpu_temp, cpu_fan_speed, gpu_fan_speed },
        commands,
    }
}

/// The answer to a request that was not valid JSON.
pub fn invalid_request(detail: &str) -> (r: IpcResponse)
    ensures
        r matches IpcResponse::Error(m) && m@ == "Invalid request JSON: "@ + detail@,
{
    IpcResponse::Error(join_text("Invalid request JSON: ", detail))
}

/// The answer once the configuration was saved after a curve change:
/// success, or the save error.
pub fn fan_curve_saved(result: Result<(), String>) -> (r: IpcResponse)
    ensures
        match result {
            Ok(()) => r == IpcResponse::Success,
            Err(e) => r matches IpcResponse::Error(m) && m@ == "Failed to save configuration: "@ + e@,
        },
{
    match result {
        Ok(()) => IpcResponse::Success,
        Err(e) => IpcResponse::Error(join_text("Failed to save configuration: ", e.as_str())),
    }
}

/// The commands for the discovered fans, in order: give them back to the
/// firmware when `restore`, else switch them to manual control.
fn fan_commands(c: &DiscoveredControls, restore: bool) -> (r: Vec<FanCommand>)
    ensures
        r@ == (if restore { restore_commands(*c) } else { manual_commands(*c) }),
{
    let mut r: Vec<FanCommand> = Vec::new();
    match &c.cpu_fan {
        Some(f) => {
            let f2 = copy_pwm(f);
            r.push(if restore { FanCommand::RestoreAuto(f2) } else { FanCommand::EnableManual(f2) });
        },
        None => {},
    }
    match &c.gpu_fan {
        Some(f) => {
            let f2 = copy_pwm(f);
            r.push(if restore { FanCommand::RestoreAuto(f2) } else { FanCommand::EnableManual(f2) });
        },
        None => {},
    }
    assert(r@ =~= (if restore { restore_commands(*c) } else { manual_commands(*c) }));
    r
}

impl DaemonState {
    /// The state at start-up: the configured GPU mode, and nothing read yet.
    pub fn new(config: Config, controls: DiscoveredControls) -> (s: Self)
        ensures
            s.config == config,
            s.controls == controls,
            s.current_gpu_mode == config.gpu.default_mode,
            s.cpu_fan_speed is None,
            s.gpu_fan_speed is None,
            s.cpu_temp is None,
            s.gpu_temp is None,
    {
        let mode = config.gpu.default_mode;
        DaemonState {
            config,
            controls,
            current_gpu_mode: mode,
            cpu_fan_speed: None,
            gpu_fan_speed: None,
            cpu_temp: None,
            gpu_temp: None,
        }
    }

    /// At start-up, every discovered fan is switched to manual control.
    pub fn startup_commands(&self) -> (r: Vec<FanCommand>)
        ensures
            r@ == manual_commands(self.controls),
    {
        fan_commands(&self.controls, false)
    }

    /// At shutdown, every discovered fan is given back to the firmware.
    pub fn shutdown_commands(&self) -> (r: Vec<FanCommand>)
        ensures
            r@ == restore_commands(self.controls),
    {
        fan_commands(&self.controls, true)
    }

    /// What a control cycle works from: the poll interval, the last curves
    /// called "cpu" and "gpu" (no points where there is none), and the
    /// discovered controls.
    pub fn tick_plan(&self) -> (p: TickPlan)
        ensures
            p.poll_interval_secs == self.config.fan.poll_interval_secs,
            p.cpu_curve@ == last_curve_points(self.config.fan.curves@, "cpu"@),
            p.gpu_curve@ == last_curve_points(self.config.fan.curves@, "gpu"@),
            p.controls == self.controls,
    {
        TickPlan {
            poll_interval_secs: self.config.fan.poll_interval_secs,
            cpu_curve: last_curve_points_of(&self.config.fan.curves, "cpu"),
            gpu_curve: last_curve_points_of(&self.config.fan.curves, "gpu"),
            controls: copy_controls(&self.controls),
        }
    }

    /// Records what a control cycle read and set.
    pub fn record_telemetry(&mut self, t: Telemetry)
        ensures
            final(self).cpu_temp == t.cpu_temp,
            final(self).gpu_temp == t.gpu_temp,
            final(self).cpu_fan_speed == t.cpu_fan_speed,
            final(self).gpu_fan_speed == t.gpu_fan_speed,
            final(self).config == old(self).config,
            final(self).controls == old(self).controls,
            final(self).current_gpu_mode == old(self).current_gpu_mode,
    {
        self.cpu_temp = t.cpu_temp;
        self.gpu_temp = t.gpu_temp;
        self.cpu_fan_speed = t.cpu_fan_speed;
        self.gpu_fan_speed = t.gpu_fan_speed;
    }

    /// The status report: GPU mode, last readings and speeds, and the
    /// first curves called "cpu" and "gpu" (no points where there is none).
    pub fn status(&self) -> (s: SystemStatus)
        ensures
            s.current_gpu_mode == self.current_gpu_mode,
            s.cpu_temp == self.cpu_temp,
            s.gpu_temp == self.gpu_temp,
            s.cpu_fan_speed == self.cpu_fan_speed,
            s.gpu_fan_speed == self.gpu_fan_speed,
            s.cpu_curve@ == first_curve_points(self.config.fan.curves@, "cpu"@),
            s.gpu_curve@ == first_curve_points(self.config.fan.curves@, "gpu"@),
    {
        SystemStatus {
            current_gpu_mode: self.current_gpu_mode,
            cpu_temp: self.cpu_temp,
            gpu_temp: self.gpu_temp,
            cpu_fan_speed: self.cpu_fan_speed,
            gpu_fan_speed: self.gpu_fan_speed,
            cpu_curve: first_curve_points_of(&self.config.fan.curves, "cpu"),
            gpu_curve: first_curve_points_of(&self.config.fan.curves, "gpu"),
        }
    }

    /// Makes `mode` the current GPU mode and the configured default.
    pub fn apply_gpu_mode(&mut self, mode: GpuMode)
        ensures
            final(self).current_gpu_mode == mode,
            final(self).config.gpu.default_mode == mode,
            final(self).config.fan == old(self).config.fan,
            final(self).controls == old(self).controls,
            final(self).cpu_temp == old(self).cpu_temp,
            final(self).gpu_temp == old(self).gpu_temp,
            final(self).cpu_fan_speed == old(self).cpu_fan_speed,
            final(self).gpu_fan_speed == old(self).gpu_fan_speed,
    {
        self.current_gpu_mode = mode;
        self.config.gpu.default_mode = mode;
    }

    /// Replaces the points of the first curve called `name` by `points`
    /// sorted by temperature; `false` (and no change) when no curve has
    /// that name.
    pub fn set_fan_curve(&mut self, name: &str, points: Vec<CurvePoint>) -> (found: bool)
        ensures
            found == first_index(old(self).config.fan.curves@, curve_named(name@)) is Some,
            curve_replaced(old(self).config.fan.curves@, final(self).config.fan.curves@, name@, points@),
            final(self).config.gpu == old(self).config.gpu,
            final(self).config.fan.poll_interval_secs == old(self).config.fan.poll_interval_secs,
            final(self).controls == old(self).controls,
            final(self).current_gpu_mode == old(self).current_gpu_mode,
            final(self).cpu_temp == old(self).cpu_temp,
            final(self).gpu_temp == old(self).gpu_temp,
            final(self).cpu_fan_speed == old(self).cpu_fan_speed,
            final(self).gpu_fan_speed == old(self).gpu_fan_speed,
    {
        let mut sorted = points;
        stable_sort_by_key(&mut sorted);
        match find_first_curve(&self.config.fan.curves, name) {
            Some(i) => {
                let curve_name = self.config.fan.curves[i].name.clone();
                self.config.fan.curves.set(i, FanCurve { name: curve_name, points: sorted });
                true
            },
            None => false,
        }
    }

    /// Decides what to do with a request. A status request is answered at
    /// once; a GPU mode change goes to the GPU switch; a curve change
    /// updates the configuration and then saves it, or is refused when no
    /// curve has that name; uninstalling gives the fans back to the
    /// firmware, disables the services and removes the installed files and
    /// the configuration.
    pub fn handle_request(&mut self, req: IpcRequest) -> (a: RequestAction)
        ensures
            match req {
                IpcRequest::GetStatus => {
                    &&& *final(self) == *old(self)
                    &&& a matches RequestAction::Reply(IpcResponse::Status(st))
                    &&& st.current_gpu_mode == old(self).current_gpu_mode
                    &&& st.cpu_temp == old(self).cpu_temp
                    &&& st.gpu_temp == old(self).gpu_temp
                    &&& st.cpu_fan_speed == old(self).cpu_fan_speed
                    &&& st.gpu_fan_speed == old(self).gpu_fan_speed
                    &&& st.cpu_curve@ == first_curve_points(old(self).config.fan.curves@, "cpu"@)
                    &&& st.gpu_curve@ == first_curve_points(old(self).config.fan.curves@, "gpu"@)
                },
                IpcRequest::SetGpuMode(m) => *final(self) == *old(self) && a == RequestAction::SwitchGpu(m),
                IpcRequest::SetFanCurve { name, points } => {
                    &&& curve_replaced(old(self).config.fan.curves@, final(self).config.fan.curves@, name@, points@)
                    &&& final(self).config.gpu == old(self).config.gpu
                    &&& final(self).config.fan.poll_interval_secs == old(self).config.fan.poll_interval_secs
                    &&& final(self).controls == old(self).controls
                    &&& final(self).current_gpu_mode == old(self).current_gpu_mode
                    &&& final(self).cpu_temp == old(self).cpu_temp
                    &&& final(self).gpu_temp == old(self).gpu_temp
                    &&& final(self).cpu_fan_speed == old(self).cpu_fan_speed
                    &&& final(self).gpu_fan_speed == old(self).gpu_fan_speed
                    &&& if first_index(old(self).config.fan.curves@, curve_named(name@)) is Some {
                        a == RequestAction::SaveConfig
                    } else {
                        a matches RequestAction::Reply(IpcResponse::Error(m))
                            && m@ == "Fan curve name '"@ + name@ + "' not found in configuration"@
                    }
                },
                IpcRequest::Uninstall => {
                    &&& *final(self) == *old(self)
                    &&& a matches RequestAction::Uninstall { commands, cleanup, reply }
                    &&& commands@ == restore_commands(old(self).controls)
                    &&& cleanup@ == uninstall_cleanup()
                    &&& reply == IpcResponse::Success
                },
            },
    {
        match req {
            IpcRequest::GetStatus => RequestAction::Reply(IpcResponse::Status(self.status())),
            IpcRequest::SetGpuMode(m) => RequestAction::SwitchGpu(m),
            IpcRequest::SetFanCurve { name, points } => {
                if self.set_fan_curve(name.as_str(), points) {
                    RequestAction::SaveConfig
                } else {
                    let head = join_text("Fan curve name '", name.as_str());
                    let msg = join_text(head.as_str(), "' not found in configuration");
                    RequestAction::Reply(IpcResponse::Error(msg))
                }
            },
            IpcRequest::Uninstall => {
                let cleanup = vec![
                    CleanupStep::DisableServices,
                    CleanupStep::RemoveInstalledFiles,
                    CleanupStep::RemoveConfiguration,
                ];
                assert(cleanup@ =~= uninstall_cleanup());
                RequestAction::Uninstall {
                    commands: self.shutdown_commands(),
                    cleanup,
                    reply: IpcResponse::Success,
                }
            },
        }
    }

    /// Completes a GPU mode change once the GPU switch reported `result`:
    /// on success the mode becomes current and the configured default, and
    /// the configuration is to be saved (the second result); on failure the
    /// error is the answer and nothing changes.
    pub fn finish_gpu_switch(&mut self, mode: GpuMode, result: Result<(), String>) -> (r: (IpcResponse, bool))
        ensures
            match result {
                Ok(()) => {
                    &&& r == (IpcResponse::Success, true)
                    &&& final(self).current_gpu_mode == mode
                    &&& final(self).config.gpu.default_mode == mode
                    &&& final(self).config.fan == old(self).config.fan
                    &&& final(self).controls == old(self).controls
                    &&& final(self).cpu_temp == old(self).cpu_temp
                    &&& final(self).gpu_temp == old(self).gpu_temp
                    &&& final(self).cpu_fan_speed == old(self).cpu_fan_speed
                    &&& final(self).gpu_fan_speed == old(self).gpu_fan_speed
                },
                Err(e) => {
                    &&& *final(self) == *old(self)
                    &&& r.1 == false
                    &&& r.0 matches IpcResponse::Error(m) && m@ == e@
                },
            },
    {
        match result {
            Ok(()) => {
                self.apply_gpu_mode(mode);
                (IpcResponse::Success, true)
            },
            Err(e) => (IpcResponse::Error(e), false),
        }
    }
}

/// The daemon hands every fan it took over back to the firmware: the
/// shutdown commands restore, one for one and in the same order, exactly
/// the fans that the start-up commands switched to manual control.
pub proof fn lemma_shutdown_restores_started_fans(c: DiscoveredControls)
    ensures
        restore_commands(c).len() == manual_commands(c).len(),
        forall|i: int| 0 <= i < manual_commands(c).len() ==>
            (#[trigger] manual_commands(c)[i] matches FanCommand::EnableManual(f)
                && restore_commands(c)[i] == FanCommand::RestoreAuto(f)),
{
}

/// What a client sets is what it reads back: after a curve change that
/// found its curve, the status reports the new points (sorted by
/// temperature) for that name.
pub proof fn lemma_status_reports_set_curve(
    old: Seq<FanCurve>,
    new: Seq<FanCurve>,
    name: Seq<char>,
    points: Seq<CurvePoint>,
)
    requires
        curve_replaced(old, new, name, points),
        first_index(old, curve_named(name)) is Some,
    ensures
        is_stable_sort_of(first_curve_points(new, name), points),
{
    let p = curve_named(name);
    crate::search::lemma_first_index_sound(old, p);
    let i = first_index(old, p)->0;
    assert(is_first_index(new, p, i)) by {
        assert forall|j: int| 0 <= j < i implies !p(#[trigger] new[j]) by {
            assert(new[j] == old[j]);
        }
    }
    lemma_first_index_is(new, p, i);
}

/// A curve change never adds, removes or renames curves.
pub proof fn lemma_curve_change_keeps_names(
    old: Seq<FanCurve>,
    new: Seq<FanCurve>,
    name: Seq<char>,
    points: Seq<CurvePoint>,
)
    requires
        curve_replaced(old, new, name, points),
    ensures
        new.len() == old.len(),
        forall|j: int| 0 <= j < old.len() ==> #[trigger] new[j].name == old[j].name,
{
}

/// Every discovered fan is handed over: start-up switches each fan that
/// was found (the CPU fan first, then the GPU fan) to manual control, and
/// shutdown gives each of them back to the firmware; no other command is
/// issued.
pub proof fn lemma_every_fan_handed_over(c: DiscoveredControls)
    ensures
        manual_commands(c).len() == (if c.cpu_fan is Some { 1int } else { 0int })
            + (if c.gpu_fan is Some { 1int } else { 0int }),
        restore_commands(c).len() == manual_commands(c).len(),
        c.cpu_fan matches Some(f) ==> manual_commands(c)[0] == FanCommand::EnableManual(f)
            && restore_commands(c)[0] == FanCommand::RestoreAuto(f),
        c.gpu_fan matches Some(g) ==> manual_commands(c).last() == FanCommand::EnableManual(g)
            && restore_commands(c).last() == FanCommand::RestoreAuto(g),
{
}

/// A speed that a control cycle plans for a fan is always sent to that
/// fan, as exactly one command, for every duty cycle (0 included).
pub proof fn lemma_planned_speed_is_sent(fan: PwmControl, s: u8)
    ensures
        speed_command(Some(fan), Some(s)) == seq![FanCommand::SetSpeed(fan, s)],
{
}

/// A control cycle counts a reading only where the sensor exists, and
/// plans a speed only where the temperature was read and the fan exists:
/// the speed the curve gives at that temperature.
pub proof fn lemma_planned_speed_follows_curve(t: i32, reading: Option<i32>, f: PwmControl, curve: Seq<CurvePoint>)
    ensures
        sensor_reading(true, reading) == reading,
        sensor_reading(false, reading) is None,
        planned_speed(Some(t), Some(f), curve) == Some(curve_speed(t as int, curve) as u8),
        planned_speed(None, Some(f), curve) is None,
        planned_speed(reading, None, curve) is None,
{
}

/// The status reports the points of the first curve with the name, the
/// control cycle uses those of the last; a name that no curve has gives
/// no points.
pub proof fn lemma_curve_lookup(curves: Seq<FanCurve>, name: Seq<char>, i: int)
    ensures
        (0 <= i < curves.len() && curves[i].name@ == name
            && forall|j: int| 0 <= j < i ==> (#[trigger] curves[j]).name@ != name)
            ==> first_curve_points(curves, name) == curves[i].points@,
        (0 <= i < curves.len() && curves[i].name@ == name
            && forall|j: int| i < j < curves.len() ==> (#[trigger] curves[j]).name@ != name)
            ==> last_curve_points(curves, name) == curves[i].points@,
        (forall|j: int| 0 <= j < curves.len() ==> (#[trigger] curves[j]).name@ != name)
            ==> first_curve_points(curves, name).len() == 0 && last_curve_points(curves, name).len() == 0,
{
    let p = curve_named(name);
    if 0 <= i < curves.len() && curves[i].name@ == name
        && forall|j: int| 0 <= j < i ==> (#[trigger] curves[j]).name@ != name {
        assert forall|j: int| 0 <= j < i implies !p(#[trigger] curves[j]) by {
            assert(curves[j].name@ != name);
        }
        lemma_first_index_is(curves, p, i);
    }
    if 0 <= i < curves.len() && curves[i].name@ == name
        && forall|j: int| i < j < curves.len() ==> (#[trigger] curves[j]).name@ != name {
        assert forall|j: int| i < j < curves.len() implies !p(#[trigger] curves[j]) by {
            assert(curves[j].name@ != name);
        }
        lemma_last_index_is(curves, p, i);
    }
    if forall|j: int| 0 <= j < curves.len() ==> (#[trigger] curves[j]).name@ != name {
        assert forall|j: int| 0 <= j < curves.len() implies !p(#[trigger] curves[j]) by {
            assert(curves[j].name@ != name);
        }
        lemma_first_index_none(curves, p);
        lemma_last_index_none(curves, p);
    }
}

} // verus!
