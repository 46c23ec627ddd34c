use hw_control::hwmon::{label_mentions_package, name_fits_role, DeviceRole};
use hw_control::hwmon::{
    classify_hwmon_file, discover_controls, parse_temp_reading, DiscoveredControls, HwmonDevice,
    HwmonFile, PwmControl, TempSensor,
};
use hw_control::sort::stable_sort_by_key;
use hw_control::text::{contains_text, decimal_text, parse_i32, parse_u32, trim_text};
use hw_control::hwmon::{assemble_device, companion_file_name, DeviceEntry};

fn sensor(dev: &str, index: u32, label: Option<&str>) -> TempSensor {
    TempSensor {
        input_file: format!("/sys/class/hwmon/{}/temp{}_input", dev, index),
        label: label.map(|l| l.to_string()),
        index,
    }
}

fn pwm(dev: &str, index: u32) -> PwmControl {
    PwmControl {
        pwm_file: format!("/sys/class/hwmon/{}/pwm{}", dev, index),
        enable_file: format!("/sys/class/hwmon/{}/pwm{}_enable", dev, index),
        index,
    }
}

fn device(dir: &str, name: &str, pwms: Vec<PwmControl>, sensors: Vec<TempSensor>) -> HwmonDevice {
    HwmonDevice {
        path: format!("/sys/class/hwmon/{}", dir),
        name: name.to_string(),
        pwm_controls: pwms,
        temp_sensors: sensors,
    }
}

#[test]
fn classifies_pwm_and_temperature_files() {
    assert_eq!(classify_hwmon_file("pwm1"), Some(HwmonFile::Pwm(1)));
    assert_eq!(classify_hwmon_file("pwm12"), Some(HwmonFile::Pwm(12)));
    assert_eq!(classify_hwmon_file("pwm+2"), Some(HwmonFile::Pwm(2)));
    assert_eq!(classify_hwmon_file("pwm1_enable"), None);
    assert_eq!(classify_hwmon_file("pwm"), None);
    assert_eq!(classify_hwmon_file("pwmx"), None);
    assert_eq!(classify_hwmon_file("pwm4294967296"), None);
    assert_eq!(classify_hwmon_file("pwm4294967295"), Some(HwmonFile::Pwm(4294967295)));
    assert_eq!(classify_hwmon_file("temp3_input"), Some(HwmonFile::TempInput(3)));
    assert_eq!(classify_hwmon_file("temp12abc_input"), Some(HwmonFile::TempInput(12)));
    assert_eq!(classify_hwmon_file("temp_input"), None);
    assert_eq!(classify_hwmon_file("temp1_label"), None);
    assert_eq!(classify_hwmon_file("fan1_input"), None);
    assert_eq!(classify_hwmon_file("name"), None);
}

#[test]
fn parses_sensor_readings() {
    assert_eq!(parse_temp_reading("45000\n"), Some(45000));
    assert_eq!(parse_temp_reading("  -1500 \t"), Some(-1500));
    assert_eq!(parse_temp_reading("+7"), Some(7));
    assert_eq!(parse_temp_reading("-2147483648"), Some(i32::MIN));
    assert_eq!(parse_temp_reading("2147483647"), Some(i32::MAX));
    assert_eq!(parse_temp_reading("2147483648"), None);
    assert_eq!(parse_temp_reading("4 5"), None);
    assert_eq!(parse_temp_reading("abc"), None);
    assert_eq!(parse_temp_reading(""), None);
    assert_eq!(parse_temp_reading("-"), None);
}

#[test]
fn text_helpers_follow_std() {
    for s in ["", "+", "-", "0", "+0", "-0", "42", "-42", "4294967295", "4294967296", "1_0", " 1", "٣"] {
        assert_eq!(parse_u32(s), s.parse::<u32>().ok(), "u32 {:?}", s);
        assert_eq!(parse_i32(s), s.parse::<i32>().ok(), "i32 {:?}", s);
    }
    for s in ["", "  a b  ", "\u{a0}abc\u{3000}", "\t\n x\r", "\u{200b}y"] {
        assert_eq!(trim_text(s), s.trim());
    }
    assert!(contains_text("coretemp", "temp"));
    assert!(contains_text("abc", ""));
    assert!(!contains_text("", "a"));
    assert!(!contains_text("k10tem", "k10temp"));
}

#[test]
fn cpu_sensor_prefers_package_label() {
    let devs = vec![
        device("hwmon0", "acpitz", vec![], vec![sensor("hwmon0", 1, None)]),
        device(
            "hwmon1",
            "coretemp",
            vec![],
            vec![sensor("hwmon1", 2, Some("Core 0")), sensor("hwmon1", 1, Some("Package id 0"))],
        ),
    ];
    let c = discover_controls(&devs);
    assert_eq!(c.cpu_temp, Some(sensor("hwmon1", 1, Some("Package id 0"))));
    assert_eq!(c.gpu_temp, None);
    assert_eq!(c.cpu_fan, None);
    assert_eq!(c.gpu_fan, None);
}

#[test]
fn device_names_match_regardless_of_case() {
    let devs = vec![
        device("hwmon0", "CoreTemp", vec![], vec![sensor("hwmon0", 1, Some("CORE 0")), sensor("hwmon0", 2, Some("PACKAGE"))]),
        device("hwmon1", "AMDGPU", vec![pwm("hwmon1", 1)], vec![sensor("hwmon1", 1, None)]),
    ];
    let c = discover_controls(&devs);
    assert_eq!(c.cpu_temp, Some(sensor("hwmon0", 2, Some("PACKAGE"))));
    assert_eq!(c.gpu_temp, Some(sensor("hwmon1", 1, None)));
    assert_eq!(c.gpu_fan, Some(pwm("hwmon1", 1)));
    // no platform fan: the CPU falls back to the first fan of any device
    assert_eq!(c.cpu_fan, Some(pwm("hwmon1", 1)));
}

#[test]
fn cpu_sensor_without_package_takes_first() {
    let devs = vec![device("hwmon3", "k10temp", vec![], vec![sensor("hwmon3", 1, Some("Tctl")), sensor("hwmon3", 3, Some("Tccd1"))])];
    let c = discover_controls(&devs);
    assert_eq!(c.cpu_temp, Some(sensor("hwmon3", 1, Some("Tctl"))));
}

#[test]
fn cpu_sensor_device_without_sensors_is_skipped() {
    let devs = vec![
        device("hwmon0", "coretemp", vec![], vec![]),
        device("hwmon1", "zenpower", vec![], vec![sensor("hwmon1", 1, None)]),
    ];
    let c = discover_controls(&devs);
    assert_eq!(c.cpu_temp, Some(sensor("hwmon1", 1, None)));
}

#[test]
fn cpu_sensor_fallbacks() {
    let devs = vec![
        device("hwmon0", "nvme", vec![], vec![sensor("hwmon0", 1, None)]),
        device("hwmon1", "acpitz", vec![], vec![sensor("hwmon1", 1, None)]),
    ];
    assert_eq!(discover_controls(&devs).cpu_temp, Some(sensor("hwmon1", 1, None)));
    let devs = vec![
        device("hwmon0", "nvme", vec![], vec![]),
        device("hwmon1", "BAT0", vec![], vec![sensor("hwmon1", 4, None)]),
    ];
    assert_eq!(discover_controls(&devs).cpu_temp, Some(sensor("hwmon1", 4, None)));
}

#[test]
fn platform_driver_with_two_fans() {
    let devs = vec![
        device("hwmon2", "amdgpu", vec![pwm("hwmon2", 1)], vec![sensor("hwmon2", 1, Some("edge"))]),
        device("hwmon5", "asus", vec![pwm("hwmon5", 1), pwm("hwmon5", 2)], vec![]),
    ];
    let c = discover_controls(&devs);
    assert_eq!(c.cpu_fan, Some(pwm("hwmon5", 1)));
    assert_eq!(c.gpu_fan, Some(pwm("hwmon5", 2)));
    assert_eq!(c.gpu_temp, Some(sensor("hwmon2", 1, Some("edge"))));
    // no CPU sensor driver and no "cpu" device: the first sensor of any device
    assert_eq!(c.cpu_temp, Some(sensor("hwmon2", 1, Some("edge"))));
}

#[test]
fn platform_driver_with_one_fan_and_gpu_driver_fan() {
    let devs = vec![
        device("hwmon1", "thinkpad", vec![pwm("hwmon1", 1)], vec![]),
        device("hwmon2", "nouveau", vec![pwm("hwmon2", 1)], vec![]),
    ];
    let c = discover_controls(&devs);
    assert_eq!(c.cpu_fan, Some(pwm("hwmon1", 1)));
    assert_eq!(c.gpu_fan, Some(pwm("hwmon2", 1)));
}

#[test]
fn platform_driver_without_fans_is_skipped() {
    let devs = vec![
        device("hwmon1", "dell_smm", vec![], vec![]),
        device("hwmon2", "it87", vec![pwm("hwmon2", 3)], vec![]),
    ];
    let c = discover_controls(&devs);
    assert_eq!(c.cpu_fan, Some(pwm("hwmon2", 3)));
    assert_eq!(c.gpu_fan, None);
}

#[test]
fn nothing_found_on_empty_system() {
    let c = discover_controls(&[]);
    assert_eq!(c, DiscoveredControls { cpu_temp: None, cpu_fan: None, gpu_temp: None, gpu_fan: None });
}

#[test]
fn controls_sort_by_index_keeping_equal_order() {
    let mut pwms = vec![pwm("a", 3), pwm("a", 1), pwm("b", 3), pwm("a", 2)];
    stable_sort_by_key(&mut pwms);
    assert_eq!(pwms, vec![pwm("a", 1), pwm("a", 2), pwm("a", 3), pwm("b", 3)]);
    let mut sensors = vec![sensor("x", 10, None), sensor("x", 2, None)];
    stable_sort_by_key(&mut sensors);
    assert_eq!(sensors, vec![sensor("x", 2, None), sensor("x", 10, None)]);
}

#[test]
fn lowered_names_match_roles() {
    assert!(name_fits_role(DeviceRole::CpuSensor, "coretemp", true, false));
    assert!(!name_fits_role(DeviceRole::CpuSensor, "coretemp", false, true));
    assert!(!name_fits_role(DeviceRole::CpuSensor, "CoreTemp", true, false));
    assert!(name_fits_role(DeviceRole::CpuSensorFallback, "acpitz", true, false));
    assert!(name_fits_role(DeviceRole::GpuSensor, "nvidia_gpu", true, false));
    assert!(name_fits_role(DeviceRole::PlatformFans, "hp_wmi", false, true));
    assert!(!name_fits_role(DeviceRole::PlatformFans, "nvme", false, true));
    assert!(name_fits_role(DeviceRole::GpuFan, "nouveau", false, true));
    assert!(!name_fits_role(DeviceRole::GpuFan, "nvidia", false, true));
    assert!(name_fits_role(DeviceRole::AnySensor, "", true, false));
    assert!(!name_fits_role(DeviceRole::AnyFan, "asus", true, false));
    assert!(label_mentions_package("package id 0"));
    assert!(!label_mentions_package("Package id 0"));
    assert!(!label_mentions_package("core 0"));
}

#[test]
fn decimal_text_matches_display() {
    for n in [0u32, 7, 10, 42, 1000, 4294967295] {
        assert_eq!(decimal_text(n), n.to_string());
    }
    assert_eq!(companion_file_name(HwmonFile::Pwm(12)), "pwm12_enable");
    assert_eq!(companion_file_name(HwmonFile::TempInput(3)), "temp3_label");
}

fn entry(name: &str, label: Option<&str>) -> DeviceEntry {
    DeviceEntry { file_name: name.to_string(), label: label.map(|l| l.to_string()) }
}

#[test]
fn device_is_assembled_from_its_files() {
    let dir = "/sys/devices/platform/asus-nb-wmi/hwmon/hwmon5";
    let entries = vec![
        entry("name", None),
        entry("pwm2", None),
        entry("temp2_input", Some("  Core 1\n")),
        entry("pwm1_enable", None),
        entry("pwm1", None),
        entry("temp1_input", None),
        entry("temp1_label", None),
        entry("fan1_input", None),
    ];
    let d = assemble_device(dir, "asus\n", &entries);
    assert_eq!(d.path, dir);
    assert_eq!(d.name, "asus");
    assert_eq!(
        d.pwm_controls,
        vec![
            PwmControl { pwm_file: format!("{}/pwm1", dir), enable_file: format!("{}/pwm1_enable", dir), index: 1 },
            PwmControl { pwm_file: format!("{}/pwm2", dir), enable_file: format!("{}/pwm2_enable", dir), index: 2 },
        ]
    );
    assert_eq!(
        d.temp_sensors,
        vec![
            TempSensor { input_file: format!("{}/temp1_input", dir), label: None, index: 1 },
            TempSensor { input_file: format!("{}/temp2_input", dir), label: Some("Core 1".to_string()), index: 2 },
        ]
    );
}
