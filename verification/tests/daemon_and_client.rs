use hw_control::config::{Config, CurvePoint, FanConfig, FanCurve, GpuConfig, GpuMode};
use hw_control::daemon::{CleanupStep, fan_curve_saved, invalid_request, plan_fan_speeds, DaemonState, FanCommand, RequestAction, Telemetry};
use hw_control::gui::{AppUi, Tab};
use hw_control::hwmon::{DiscoveredControls, PwmControl, TempSensor};
use hw_control::ipc::{IpcRequest, IpcResponse, SystemStatus};

fn pt(temp: i32, speed: u8) -> CurvePoint {
    CurvePoint { temp, speed }
}

fn curve(name: &str, points: Vec<CurvePoint>) -> FanCurve {
    FanCurve { name: name.to_string(), points }
}

fn pwm(index: u32) -> PwmControl {
    PwmControl { pwm_file: format!("/sys/x/pwm{}", index), enable_file: format!("/sys/x/pwm{}_enable", index), index }
}

fn sensor(index: u32) -> TempSensor {
    TempSensor { input_file: format!("/sys/x/temp{}_input", index), label: None, index }
}

fn controls(cpu_fan: bool, gpu_fan: bool) -> DiscoveredControls {
    DiscoveredControls {
        cpu_temp: Some(sensor(1)),
        cpu_fan: if cpu_fan { Some(pwm(1)) } else { None },
        gpu_temp: Some(sensor(2)),
        gpu_fan: if gpu_fan { Some(pwm(2)) } else { None },
    }
}

fn config(curves: Vec<FanCurve>) -> Config {
    Config { gpu: GpuConfig { default_mode: GpuMode::Dedicated }, fan: FanConfig { poll_interval_secs: 5, curves } }
}

#[test]
fn default_config_has_builtin_curves() {
    let c = Config::default();
    assert_eq!(c.gpu.default_mode, GpuMode::Hybrid);
    assert_eq!(c.fan.poll_interval_secs, 2);
    assert_eq!(c.fan.curves.len(), 2);
    assert_eq!(c.fan.curves[0].name, "cpu");
    assert_eq!(c.fan.curves[0].points, vec![pt(30_000, 50), pt(50_000, 100), pt(70_000, 180), pt(85_000, 255)]);
    assert_eq!(c.fan.curves[1].name, "gpu");
    assert_eq!(c.fan.curves[1].points, vec![pt(35_000, 0), pt(55_000, 90), pt(75_000, 170), pt(85_000, 255)]);
}

#[test]
fn loaded_config_gets_sorted_curves() {
    let loaded = config(vec![
        curve("cpu", vec![pt(70_000, 200), pt(30_000, 50), pt(50_000, 100), pt(30_000, 60)]),
        curve("gpu", vec![]),
    ]);
    let c = Config::from_loaded(Some(loaded));
    assert_eq!(c.gpu.default_mode, GpuMode::Dedicated);
    assert_eq!(c.fan.poll_interval_secs, 5);
    assert_eq!(c.fan.curves[0].name, "cpu");
    assert_eq!(c.fan.curves[0].points, vec![pt(30_000, 50), pt(30_000, 60), pt(50_000, 100), pt(70_000, 200)]);
    assert_eq!(c.fan.curves[1].points, vec![]);
    assert_eq!(Config::from_loaded(None), Config::default());
}

#[test]
fn gpu_mode_names() {
    assert_eq!(GpuMode::Integrated.to_display_string(), "Integrated");
    assert_eq!(GpuMode::Hybrid.to_display_string(), "Hybrid");
    assert_eq!(GpuMode::Dedicated.to_display_string(), "Dedicated");
}

#[test]
fn daemon_starts_in_configured_mode_and_restores_fans() {
    let s = DaemonState::new(config(vec![]), controls(true, true));
    assert_eq!(s.current_gpu_mode, GpuMode::Dedicated);
    assert_eq!(s.cpu_temp, None);
    assert_eq!(s.startup_commands(), vec![FanCommand::EnableManual(pwm(1)), FanCommand::EnableManual(pwm(2))]);
    assert_eq!(s.shutdown_commands(), vec![FanCommand::RestoreAuto(pwm(1)), FanCommand::RestoreAuto(pwm(2))]);
    let s = DaemonState::new(config(vec![]), controls(false, true));
    assert_eq!(s.startup_commands(), vec![FanCommand::EnableManual(pwm(2))]);
    assert_eq!(s.shutdown_commands(), vec![FanCommand::RestoreAuto(pwm(2))]);
}

#[test]
fn control_cycle_uses_last_curve_of_each_name() {
    let s = DaemonState::new(
        config(vec![
            curve("cpu", vec![pt(0, 10)]),
            curve("gpu", vec![pt(0, 20)]),
            curve("cpu", vec![pt(30_000, 50), pt(50_000, 100)]),
        ]),
        controls(true, true),
    );
    let plan = s.tick_plan();
    assert_eq!(plan.poll_interval_secs, 5);
    assert_eq!(plan.cpu_curve, vec![pt(30_000, 50), pt(50_000, 100)]);
    assert_eq!(plan.gpu_curve, vec![pt(0, 20)]);
    let out = plan_fan_speeds(&plan, Some(40_000), Some(60_000));
    assert_eq!(out.telemetry, Telemetry { cpu_temp: Some(40_000), gpu_temp: Some(60_000), cpu_fan_speed: Some(75), gpu_fan_speed: Some(20) });
    assert_eq!(out.commands, vec![FanCommand::SetSpeed(pwm(1), 75), FanCommand::SetSpeed(pwm(2), 20)]);
}

#[test]
fn control_cycle_without_reading_or_fan_sets_nothing() {
    let s = DaemonState::new(config(vec![curve("cpu", vec![pt(30_000, 50)])]), controls(false, true));
    let plan = s.tick_plan();
    assert_eq!(plan.gpu_curve, vec![]);
    let out = plan_fan_speeds(&plan, Some(45_000), None);
    assert_eq!(out.telemetry, Telemetry { cpu_temp: Some(45_000), gpu_temp: None, cpu_fan_speed: None, gpu_fan_speed: None });
    assert_eq!(out.commands, vec![]);
    let mut s = s;
    s.record_telemetry(out.telemetry);
    assert_eq!(s.cpu_temp, Some(45_000));
    assert_eq!(s.cpu_fan_speed, None);
}

#[test]
fn reading_without_sensor_is_ignored() {
    let mut c = controls(true, true);
    c.gpu_temp = None;
    let s = DaemonState::new(config(vec![curve("gpu", vec![pt(0, 99)])]), c);
    let out = plan_fan_speeds(&s.tick_plan(), None, Some(50_000));
    assert_eq!(out.telemetry.gpu_temp, None);
    assert_eq!(out.telemetry.gpu_fan_speed, None);
    assert_eq!(out.commands, vec![]);
}

#[test]
fn status_reports_first_curve_of_each_name() {
    let mut s = DaemonState::new(
        config(vec![curve("cpu", vec![pt(1, 1)]), curve("cpu", vec![pt(2, 2)])]),
        controls(true, false),
    );
    s.record_telemetry(Telemetry { cpu_temp: Some(51_500), gpu_temp: None, cpu_fan_speed: Some(90), gpu_fan_speed: None });
    match s.handle_request(IpcRequest::GetStatus) {
        RequestAction::Reply(IpcResponse::Status(st)) => {
            assert_eq!(
                st,
                SystemStatus {
                    current_gpu_mode: GpuMode::Dedicated,
                    cpu_temp: Some(51_500),
                    gpu_temp: None,
                    cpu_fan_speed: Some(90),
                    gpu_fan_speed: None,
                    cpu_curve: vec![pt(1, 1)],
                    gpu_curve: vec![],
                }
            );
        },
        other => panic!("unexpected action {:?}", other),
    }
}

#[test]
fn set_fan_curve_then_status_reads_it_back_sorted() {
    let mut s = DaemonState::new(Config::default(), controls(true, true));
    let action = s.handle_request(IpcRequest::SetFanCurve {
        name: "gpu".to_string(),
        points: vec![pt(60_000, 120), pt(40_000, 40)],
    });
    assert_eq!(action, RequestAction::SaveConfig);
    assert_eq!(s.config.fan.curves[0].points, Config::default().fan.curves[0].points);
    let st = s.status();
    assert_eq!(st.gpu_curve, vec![pt(40_000, 40), pt(60_000, 120)]);
    assert_eq!(fan_curve_saved(Ok(())), IpcResponse::Success);
    assert_eq!(
        fan_curve_saved(Err("permission denied".to_string())),
        IpcResponse::Error("Failed to save configuration: permission denied".to_string())
    );
}

#[test]
fn set_unknown_fan_curve_is_refused() {
    let mut s = DaemonState::new(Config::default(), controls(true, true));
    let before = s.clone();
    let action = s.handle_request(IpcRequest::SetFanCurve { name: "case".to_string(), points: vec![pt(1, 1)] });
    assert_eq!(
        action,
        RequestAction::Reply(IpcResponse::Error("Fan curve name 'case' not found in configuration".to_string()))
    );
    assert_eq!(s, before);
}

#[test]
fn gpu_mode_change_goes_through_the_switch() {
    let mut s = DaemonState::new(Config::default(), controls(true, true));
    assert_eq!(s.handle_request(IpcRequest::SetGpuMode(GpuMode::Integrated)), RequestAction::SwitchGpu(GpuMode::Integrated));
    assert_eq!(s.current_gpu_mode, GpuMode::Hybrid);
    let (reply, save) = s.finish_gpu_switch(GpuMode::Integrated, Err("no MUX".to_string()));
    assert_eq!(reply, IpcResponse::Error("no MUX".to_string()));
    assert!(!save);
    assert_eq!(s.current_gpu_mode, GpuMode::Hybrid);
    let (reply, save) = s.finish_gpu_switch(GpuMode::Integrated, Ok(()));
    assert_eq!(reply, IpcResponse::Success);
    assert!(save);
    assert_eq!(s.current_gpu_mode, GpuMode::Integrated);
    assert_eq!(s.config.gpu.default_mode, GpuMode::Integrated);
    assert_eq!(s.status().current_gpu_mode, GpuMode::Integrated);
}

#[test]
fn uninstall_restores_fans_and_cleans_up() {
    let mut s = DaemonState::new(Config::default(), controls(true, true));
    assert_eq!(
        s.handle_request(IpcRequest::Uninstall),
        RequestAction::Uninstall {
            commands: vec![FanCommand::RestoreAuto(pwm(1)), FanCommand::RestoreAuto(pwm(2))],
            cleanup: vec![CleanupStep::DisableServices, CleanupStep::RemoveInstalledFiles, CleanupStep::RemoveConfiguration],
            reply: IpcResponse::Success,
        }
    );
}

#[test]
fn invalid_json_is_answered_with_error() {
    assert_eq!(invalid_request("expected value"), IpcResponse::Error("Invalid request JSON: expected value".to_string()));
}

fn status_with(cpu: Vec<CurvePoint>, gpu: Vec<CurvePoint>) -> SystemStatus {
    SystemStatus {
        current_gpu_mode: GpuMode::Integrated,
        cpu_temp: Some(40_000),
        gpu_temp: None,
        cpu_fan_speed: Some(80),
        gpu_fan_speed: None,
        cpu_curve: cpu,
        gpu_curve: gpu,
    }
}

#[test]
fn client_poll_syncs_curves_without_unsaved_edits() {
    let mut ui = AppUi::new();
    assert_eq!(ui.shown_gpu_mode(), GpuMode::Hybrid);
    ui.gpu_curve_edit = vec![pt(1, 1)];
    ui.unsaved_gpu_changes = true;
    ui.on_poll_response(Ok(IpcResponse::Status(status_with(vec![pt(30_000, 50)], vec![pt(35_000, 0)]))));
    assert!(ui.daemon_connected);
    assert_eq!(ui.error_message, None);
    assert_eq!(ui.cpu_curve_edit, vec![pt(30_000, 50)]);
    assert_eq!(ui.gpu_curve_edit, vec![pt(1, 1)]);
    assert_eq!(ui.shown_gpu_mode(), GpuMode::Integrated);

    ui.drag_index = Some(0);
    ui.unsaved_gpu_changes = false;
    ui.on_poll_response(Ok(IpcResponse::Status(status_with(vec![pt(10, 10)], vec![pt(20, 20)]))));
    assert_eq!(ui.cpu_curve_edit, vec![pt(30_000, 50)]);
    assert_eq!(ui.gpu_curve_edit, vec![pt(1, 1)]);
}

#[test]
fn client_poll_failures() {
    let mut ui = AppUi::new();
    ui.on_poll_response(Ok(IpcResponse::Status(status_with(vec![], vec![]))));
    ui.on_poll_response(Ok(IpcResponse::Error("busy".to_string())));
    assert_eq!(ui.error_message, Some("Daemon reported error: busy".to_string()));
    assert!(!ui.daemon_connected);
    assert!(ui.status.is_some());
    ui.on_poll_response(Ok(IpcResponse::Success));
    assert_eq!(ui.error_message, Some("Unexpected response from daemon".to_string()));
    ui.on_poll_response(Err("Could not connect".to_string()));
    assert_eq!(ui.error_message, Some("Could not connect".to_string()));
    assert!(ui.status.is_none());
}

#[test]
fn client_gpu_mode_responses() {
    let mut ui = AppUi::new();
    assert!(ui.on_gpu_mode_response(Ok(IpcResponse::Success)));
    assert!(!ui.on_gpu_mode_response(Ok(IpcResponse::Error("no MUX".to_string()))));
    assert_eq!(ui.error_message, Some("Failed to switch GPU mode: no MUX".to_string()));
    assert!(!ui.on_gpu_mode_response(Err("timeout".to_string())));
    assert_eq!(ui.error_message, Some("IPC connection failed: timeout".to_string()));
    assert!(!ui.on_gpu_mode_response(Ok(IpcResponse::Status(status_with(vec![], vec![])))));
    assert_eq!(ui.error_message, Some("Unexpected response from daemon".to_string()));
}

#[test]
fn client_applies_and_discards_curves() {
    let mut ui = AppUi::new();
    ui.cpu_curve_edit = vec![pt(30_000, 60)];
    ui.gpu_curve_edit = vec![pt(35_000, 10)];
    ui.unsaved_cpu_changes = true;
    ui.unsaved_gpu_changes = true;
    assert_eq!(ui.fan_curve_request("cpu"), IpcRequest::SetFanCurve { name: "cpu".to_string(), points: vec![pt(30_000, 60)] });
    assert_eq!(ui.fan_curve_request("gpu"), IpcRequest::SetFanCurve { name: "gpu".to_string(), points: vec![pt(35_000, 10)] });
    assert!(!ui.on_fan_curve_response("cpu", Ok(IpcResponse::Error("disk full".to_string()))));
    assert_eq!(ui.error_message, Some("Failed to update fan curve: disk full".to_string()));
    assert!(ui.unsaved_cpu_changes);
    assert!(ui.on_fan_curve_response("cpu", Ok(IpcResponse::Success)));
    assert!(!ui.unsaved_cpu_changes);
    assert!(ui.unsaved_gpu_changes);
    ui.discard_changes();
    assert!(!ui.unsaved_gpu_changes);
}

#[test]
fn dragging_keeps_points_apart_and_in_range() {
    let mut ui = AppUi::new();
    ui.cpu_curve_edit = vec![pt(30_000, 50), pt(50_000, 100), pt(70_000, 180)];
    ui.active_tab = Tab::CpuCurve;
    ui.drag_to(10_000, 10);
    assert_eq!(ui.cpu_curve_edit[0], pt(30_000, 50));
    assert!(!ui.unsaved_cpu_changes);
    ui.drag_index = Some(1);
    ui.drag_to(20_000, 300);
    assert_eq!(ui.cpu_curve_edit[1], pt(31_000, 255));
    assert!(ui.unsaved_cpu_changes);
    ui.drag_to(90_000, -4);
    assert_eq!(ui.cpu_curve_edit[1], pt(69_000, 0));
    ui.drag_index = Some(2);
    ui.drag_to(120_000, 200);
    assert_eq!(ui.cpu_curve_edit[2], pt(100_000, 200));
    ui.drag_index = Some(0);
    ui.drag_to(-5_000, 7);
    assert_eq!(ui.cpu_curve_edit[0], pt(0, 7));
    ui.active_tab = Tab::GpuCurve;
    ui.gpu_curve_edit = vec![pt(35_000, 0), pt(55_000, 90)];
    ui.drag_to(44_500, 30);
    assert_eq!(ui.gpu_curve_edit[0], pt(44_500, 30));
    assert!(ui.unsaved_gpu_changes);
}

#[test]
fn drag_guard_detects_crossing_limits() {
    let mut ui = AppUi::new();
    assert!(ui.can_drag());
    ui.cpu_curve_edit = vec![pt(30_000, 50), pt(31_000, 60), pt(31_500, 70)];
    ui.drag_index = Some(1);
    // neighbours 1.5 degrees apart leave no room for the middle point
    assert!(!ui.can_drag());
    ui.drag_index = Some(0);
    assert!(ui.can_drag());
    ui.drag_index = Some(3);
    assert!(!ui.can_drag());
    ui.active_tab = Tab::GpuCurve;
    ui.drag_index = Some(0);
    assert!(!ui.can_drag());
}

#[test]
fn dragging_never_unsorts_a_curve() {
    let mut ui = AppUi::new();
    ui.cpu_curve_edit = vec![pt(30_000, 50), pt(50_000, 100), pt(70_000, 180), pt(85_000, 255)];
    let moves = [(0, 90_000, 20), (1, -3_000, 300), (2, 10_000, 0), (3, 0, 128), (1, 84_000, 90), (2, 99_000, 1)];
    for (idx, t, s) in moves {
        ui.drag_index = Some(idx);
        assert!(ui.can_drag());
        ui.drag_to(t, s);
        for w in ui.cpu_curve_edit.windows(2) {
            assert!(w[0].temp < w[1].temp, "curve out of order: {:?}", ui.cpu_curve_edit);
        }
    }
}

#[test]
fn curve_change_keeps_curve_names() {
    let mut s = DaemonState::new(Config::default(), controls(true, true));
    let _ = s.set_fan_curve("cpu", vec![pt(10_000, 10)]);
    let names: Vec<&str> = s.config.fan.curves.iter().map(|c| c.name.as_str()).collect();
    assert_eq!(names, vec!["cpu", "gpu"]);
    assert_eq!(s.config.fan.curves[0].points, vec![pt(10_000, 10)]);
}

#[test]
fn client_polls_when_status_missing_or_stale() {
    let mut ui = AppUi::new();
    assert!(ui.poll_due(0));
    ui.on_poll_response(Ok(IpcResponse::Status(status_with(vec![], vec![]))));
    assert!(!ui.poll_due(0));
    assert!(!ui.poll_due(1_500_000_000));
    assert!(ui.poll_due(1_500_000_001));
}

#[test]
fn client_uninstall_needs_confirmation() {
    let mut ui = AppUi::new();
    assert_eq!(ui.confirm_uninstall_request(), None);
    ui.request_uninstall();
    assert!(ui.confirm_uninstall);
    assert_eq!(ui.confirm_uninstall_request(), Some(IpcRequest::Uninstall));
    ui.cancel_uninstall();
    assert!(!ui.confirm_uninstall);
    assert_eq!(ui.confirm_uninstall_request(), None);
}

#[test]
fn sorted_configuration_loads_back_unchanged() {
    let saved = config(vec![
        curve("cpu", vec![pt(30_000, 50), pt(30_000, 60), pt(70_000, 200)]),
        curve("gpu", vec![pt(35_000, 0), pt(85_000, 255)]),
    ]);
    assert_eq!(Config::from_loaded(Some(saved.clone())), saved);
    assert_eq!(Config::from_loaded(Some(Config::default())), Config::default());
}
