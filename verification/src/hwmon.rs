use vstd::prelude::*;
use vstd::string::*;

use crate::search::{
    first_index, lemma_first_index_exists, lemma_first_index_is, lemma_first_index_none,
    lemma_first_index_sound,
};
use crate::sort::{is_stable_sort_of, stable_sort_by_key, SortKey};
use crate::text::{
    contains_seq, contains_text, ends_with_seq, ends_with_text, leading_digits,
    leading_digits_from, lowercase, parse_i32, parse_i32_spec, parse_u32, parse_u32_spec,
    starts_with_seq, starts_with_text, to_lowercase, trim_text, trimmed, decimal, decimal_text,
    join_text,
};

verus! {

/// A PWM fan control of an hwmon device.
#[derive(Debug, Clone, PartialEq, Eq)]
pub struct PwmControl {
    /// The `pwm<N>` file that takes the duty cycle.
    pub pwm_file: String,
    /// The `pwm<N>_enable` file that selects manual or automatic control.
    pub enable_file: String,
    pub index: u32,
}

/// A temperature sensor of an hwmon device.
#[derive(Debug, Clone, PartialEq, Eq)]
pub struct TempSensor {
    /// The `temp<N>_input` file that reports millidegrees Celsius.
    pub input_file: String,
    pub label: Option<String>,
    pub index: u32,
}

/// One directory of `/sys/class/hwmon`.
#[derive(Debug, Clone, PartialEq, Eq)]
pub struct HwmonDevice {
    pub path: String,
    pub name: String,
    pub pwm_controls: Vec<PwmControl>,
    pub temp_sensors: Vec<TempSensor>,
}

/// The sensors and fans chosen to drive the CPU and GPU fan curves.
#[derive(Debug, Clone, PartialEq, Eq)]
pub struct DiscoveredControls {
    pub cpu_temp: Option<TempSensor>,
    pub cpu_fan: Option<PwmControl>,
    pub gpu_temp: Option<TempSensor>,
    pub gpu_fan: Option<PwmControl>,
}

impl SortKey for PwmControl {
    open spec fn key(&self) -> int {
        self.index as int
    }

    fn sort_key(&self) -> (k: i64) {
        self.index as i64
    }
}

impl SortKey for TempSensor {
    open spec fn key(&self) -> int {
        self.index as int
    }

    fn sort_key(&self) -> (k: i64) {
        self.index as i64
    }
}

// ---------------------------------------------------------------------------
// Which devices serve which purpose

/// The roles a device can be picked for, in the order the search runs.
#[derive(Debug, Clone, Copy, PartialEq, Eq, Structural)]
pub enum DeviceRole {
    /// A coretemp / k10temp / zenpower device with a temperature sensor.
    CpuSensor,
    /// A "cpu" or "acpitz" device with a temperature sensor.
    CpuSensorFallback,
    /// An amdgpu / nouveau / nvidia device with a temperature sensor.
    GpuSensor,
    /// A platform fan driver (asus, thinkpad, dell, hp, f71882fg, nct6779,
    /// it87, applesmc) with at least one PWM control.
    PlatformFans,
    /// An amdgpu / nouveau device with a PWM control.
    GpuFan,
    /// Any device with a temperature sensor.
    AnySensor,
    /// Any device with a PWM control.
    AnyFan,
}

/// Whether a device whose lower-cased name is `lower`, and which has a
/// temperature sensor (`has_sensor`) and a PWM control (`has_fan`) or not,
/// qualifies for `role`.
pub open spec fn fits_role_lowered(role: DeviceRole, lower: Seq<char>, has_sensor: bool, has_fan: bool) -> bool {
    let has = |pat: Seq<char>| contains_seq(lower, pat);
    match role {
        DeviceRole::CpuSensor => has_sensor && (has("coretemp"@) || has("k10temp"@) || has("zenpower"@)),
        DeviceRole::CpuSensorFallback => has_sensor && (has("cpu"@) || has("acpitz"@)),
        DeviceRole::GpuSensor => has_sensor && (has("amdgpu"@) || has("nouveau"@) || has("nvidia"@)),
        DeviceRole::PlatformFans => has_fan && (has("asus"@) || has("thinkpad"@) || has("dell"@)
            || has("hp"@) || has("f71882fg"@) || has("nct6779"@) || has("it87"@) || has("applesmc"@)),
        DeviceRole::GpuFan => has_fan && (has("amdgpu"@) || has("nouveau"@)),
        DeviceRole::AnySensor => has_sensor,
        DeviceRole::AnyFan => has_fan,
    }
}

/// Whether device `d` qualifies for `role`, its name lower-cased.
pub open spec fn fits_role(role: DeviceRole, d: HwmonDevice) -> bool {
    fits_role_lowered(role, lowercase(d.name@), d.temp_sensors@.len() > 0, d.pwm_controls@.len() > 0)
}

pub open spec fn role_pred(role: DeviceRole) -> spec_fn(HwmonDevice) -> bool {
    |d: HwmonDevice| fits_role(role, d)
}

/// The first device that qualifies for `role`.
pub open spec fn first_for(devs: Seq<HwmonDevice>, role: DeviceRole) -> Option<int> {
    first_index(devs, role_pred(role))
}

/// The sensor's label, lower-cased, mentions "package".
pub open spec fn is_package_sensor(s: TempSensor) -> bool {
    match s.label {
        Some(l) => contains_seq(lowercase(l@), "package"@),
        None => false,
    }
}

pub open spec fn package_pred() -> spec_fn(TempSensor) -> bool {
    |s: TempSensor| is_package_sensor(s)
}

/// The sensor of a CPU temperature device: the first "package" sensor,
/// else the first sensor.
pub open spec fn preferred_cpu_sensor(d: HwmonDevice) -> TempSensor {
    match first_index(d.temp_sensors@, package_pred()) {
        Some(j) => d.temp_sensors@[j],
        None => d.temp_sensors@[0],
    }
}

/// The CPU temperature sensor: the preferred sensor of the first CPU
/// sensor device; else the first sensor of the first "cpu"/"acpitz"
/// device; else the first sensor of the first device that has any.
pub open spec fn chosen_cpu_temp(devs: Seq<HwmonDevice>) -> Option<TempSensor> {
    match first_for(devs, DeviceRole::CpuSensor) {
        Some(i) => Some(preferred_cpu_sensor(devs[i])),
        None => match first_for(devs, DeviceRole::CpuSensorFallback) {
            Some(i) => Some(devs[i].temp_sensors@[0]),
            None => match first_for(devs, DeviceRole::AnySensor) {
                Some(i) => Some(devs[i].temp_sensors@[0]),
                None => None,
            },
        },
    }
}

/// The GPU temperature sensor: the first sensor of the first GPU device
/// that has one.
pub open spec fn chosen_gpu_temp(devs: Seq<HwmonDevice>) -> Option<TempSensor> {
    match first_for(devs, DeviceRole::GpuSensor) {
        Some(i) => Some(devs[i].temp_sensors@[0]),
        None => None,
    }
}

/// The CPU fan: the first PWM of the first platform fan device; else the
/// first PWM of the first device that has any.
pub open spec fn chosen_cpu_fan(devs: Seq<HwmonDevice>) -> Option<PwmControl> {
    match first_for(devs, DeviceRole::PlatformFans) {
        Some(i) => Some(devs[i].pwm_controls@[0]),
        None => match first_for(devs, DeviceRole::AnyFan) {
            Some(i) => Some(devs[i].pwm_controls@[0]),
            None => None,
        },
    }
}

/// The GPU fan: the second PWM of the first platform fan device when it
/// has two or more; when that device has only one, or there is no platform
/// fan device, the first PWM of the first amdgpu/nouveau device that has
/// one.
pub open spec fn chosen_gpu_fan(devs: Seq<HwmonDevice>) -> Option<PwmControl> {
    let platform = match first_for(devs, DeviceRole::PlatformFans) {
        Some(i) => if devs[i].pwm_controls@.len() >= 2 {
            Some(devs[i].pwm_controls@[1])
        } else {
            None
        },
        None => None,
    };
    match platform {
        Some(f) => Some(f),
        None => match first_for(devs, DeviceRole::GpuFan) {
            Some(i) => Some(devs[i].pwm_controls@[0]),
            None => None,
        },
    }
}

// ---------------------------------------------------------------------------
// Executable search

/// Whether a device whose lower-cased name is `lower`, with or without a
/// temperature sensor and a PWM control, qualifies for `role`.
pub fn name_fits_role(role: DeviceRole, lower: &str, has_sensor: bool, has_fan: bool) -> (r: bool)
    ensures
        r == fits_role_lowered(role, lower@, has_sensor, has_fan),
{
    match role {
        DeviceRole::CpuSensor => has_sensor && (contains_text(lower, "coretemp")
            || contains_text(lower, "k10temp") || contains_text(lower, "zenpower")),
        DeviceRole::CpuSensorFallback => has_sensor && (contains_text(lower, "cpu")
            || contains_text(lower, "acpitz")),
        DeviceRole::GpuSensor => has_sensor && (contains_text(lower, "amdgpu")
            || contains_text(lower, "nouveau") || contains_text(lower, "nvidia")),
        DeviceRole::PlatformFans => has_fan && (contains_text(lower, "asus")
            || contains_text(lower, "thinkpad") || contains_text(lower, "dell")
            || contains_text(lower, "hp") || contains_text(lower, "f71882fg")
            || contains_text(lower, "nct6779") || contains_text(lower, "it87")
            || contains_text(lower, "applesmc")),
        DeviceRole::GpuFan => has_fan && (contains_text(lower, "amdgpu")
            || contains_text(lower, "nouveau")),
        DeviceRole::AnySensor => has_sensor,
        DeviceRole::AnyFan => has_fan,
    }
}

/// Whether device `d` qualifies for `role`.
pub fn device_fits(role: DeviceRole, d: &HwmonDevice) -> (r: bool)
    ensures
        r == fits_role(role, *d),
{
    let lower = to_lowercase(d.name.as_str());
    name_fits_role(role, lower.as_str(), d.temp_sensors.len() > 0, d.pwm_controls.len() > 0)
}

/// The position of the first device that qualifies for `role`.
pub fn find_device(devices: &[HwmonDevice], role: DeviceRole) -> (r: Option<usize>)
    ensures
        match r {
            Some(i) => first_for(devices@, role) == Some(i as int),
            None => first_for(devices@, role) == None::<int>,
        },
{
    let mut i: usize = 0;
    while i < devices.len()
        invariant
            i <= devices@.len(),
            forall|j: int| 0 <= j < i ==> !#[trigger] role_pred(role)(devices@[j]),
        decreases devices@.len() - i,
    {
        if device_fits(role, &devices[i]) {
            proof {
                lemma_first_index_is(devices@, role_pred(role), i as int);
            }
            return Some(i);
        }
        i = i + 1;
    }
    proof {
        lemma_first_index_none(devices@, role_pred(role));
    }
    None
}

/// Whether a lower-cased sensor label mentions "package".
pub fn label_mentions_package(lower: &str) -> (r: bool)
    ensures
        r == contains_seq(lower@, "package"@),
{
    contains_text(lower, "package")
}

/// Whether the sensor's label, lower-cased, mentions "package".
fn sensor_is_package(s: &TempSensor) -> (r: bool)
    ensures
        r == is_package_sensor(*s),
{
    match &s.label {
        Some(l) => {
            let lower = to_lowercase(l.as_str());
            label_mentions_package(lower.as_str())
        },
        None => false,
    }
}

pub(crate) fn copy_sensor(s: &TempSensor) -> (r: TempSensor)
    ensures
        r == *s,
{
    let label = match &s.label {
        Some(l) => Some(l.clone()),
        None => None,
    };
    TempSensor { input_file: s.input_file.clone(), label, index: s.index }
}

pub(crate) fn copy_pwm(c: &PwmControl) -> (r: PwmControl)
    ensures
        r == *c,
{
    PwmControl { pwm_file: c.pwm_file.clone(), enable_file: c.enable_file.clone(), index: c.index }
}

pub(crate) fn copy_controls(c: &DiscoveredControls) -> (r: DiscoveredControls)
    ensures
        r == *c,
{
    DiscoveredControls {
        cpu_temp: match &c.cpu_temp {
            Some(s) => Some(copy_sensor(s)),
            None => None,
        },
        cpu_fan: match &c.cpu_fan {
            Some(f) => Some(copy_pwm(f)),
            None => None,
        },
        gpu_temp: match &c.gpu_temp {
            Some(s) => Some(copy_sensor(s)),
            None => None,
        },
        gpu_fan: match &c.gpu_fan {
            Some(f) => Some(copy_pwm(f)),
            None => None,
        },
    }
}

/// The CPU sensor of a CPU temperature device.
fn preferred_sensor_of(d: &HwmonDevice) -> (r: TempSensor)
    requires
        d.temp_sensors@.len() > 0,
    ensures
        r == preferred_cpu_sensor(*d),
{
    let sensors = &d.temp_sensors;
    let mut j: usize = 0;
    while j < sensors.len()
        invariant
            j <= sensors@.len(),
            sensors@ == d.temp_sensors@,
            forall|k: int| 0 <= k < j ==> !#[trigger] package_pred()(sensors@[k]),
        decreases sensors@.len() - j,
    {
        if sensor_is_package(&sensors[j]) {
            proof {
                lemma_first_index_is(sensors@, package_pred(), j as int);
            }
            return copy_sensor(&sensors[j]);
        }
        j = j + 1;
    }
    proof {
        lemma_first_index_none(sensors@, package_pred());
    }
    copy_sensor(&sensors[0])
}

/// Picks the CPU and GPU temperature sensors and fan controls among the
/// hwmon devices: well-known CPU and GPU sensor drivers first, platform fan
/// drivers for the fans (the first PWM for the CPU, the second, if any,
/// for the GPU), GPU drivers as the GPU fan's fallback, and as a last
/// resort the first sensor and the first fan of any device for the CPU.
pub fn discover_controls(devices: &[HwmonDevice]) -> (c: DiscoveredControls)
    ensures
        c.cpu_temp == chosen_cpu_temp(devices@),
        c.gpu_temp == chosen_gpu_temp(devices@),
        c.cpu_fan == chosen_cpu_fan(devices@),
        c.gpu_fan == chosen_gpu_fan(devices@),
{
    proof {
        lemma_first_index_sound(devices@, role_pred(DeviceRole::CpuSensor));
        lemma_first_index_sound(devices@, role_pred(DeviceRole::CpuSensorFallback));
        lemma_first_index_sound(devices@, role_pred(DeviceRole::GpuSensor));
        lemma_first_index_sound(devices@, role_pred(DeviceRole::PlatformFans));
        lemma_first_index_sound(devices@, role_pred(DeviceRole::GpuFan));
        lemma_first_index_sound(devices@, role_pred(DeviceRole::AnySensor));
        lemma_first_index_sound(devices@, role_pred(DeviceRole::AnyFan));
    }
    // 1. CPU temperature: well-known CPU sensor drivers, then fallbacks.
    let cpu_temp = match find_device(devices, DeviceRole::CpuSensor) {
        Some(i) => Some(preferred_sensor_of(&devices[i])),
        None => match find_device(devices, DeviceRole::CpuSensorFallback) {
            Some(i) => Some(copy_sensor(&devices[i].temp_sensors[0])),
            None => match find_device(devices, DeviceRole::AnySensor) {
                Some(i) => Some(copy_sensor(&devices[i].temp_sensors[0])),
                None => None,
            },
        },
    };
    // 2. GPU temperature.
    let gpu_temp = match find_device(devices, DeviceRole::GpuSensor) {
        Some(i) => Some(copy_sensor(&devices[i].temp_sensors[0])),
        None => None,
    };
    // 3. Fans of a platform driver: pwm1 is the CPU fan, pwm2 the GPU fan.
    let (platform_cpu, platform_gpu) = match find_device(devices, DeviceRole::PlatformFans) {
        Some(i) => {
            let pwms = &devices[i].pwm_controls;
            let first = copy_pwm(&pwms[0]);
            if pwms.len() >= 2 {
                (Some(first), Some(copy_pwm(&pwms[1])))
            } else {
                (Some(first), None)
            }
        },
        None => (None, None),
    };
    // 4. GPU fan from a GPU driver when the platform driver has none.
    let gpu_fan = match platform_gpu {
        Some(f) => Some(f),
        None => match find_device(devices, DeviceRole::GpuFan) {
            Some(i) => Some(copy_pwm(&devices[i].pwm_controls[0])),
            None => None,
        },
    };
    // 5. Last resort for the CPU fan: the first fan of any device.
    let cpu_fan = match platform_cpu {
        Some(f) => Some(f),
        None => match find_device(devices, DeviceRole::AnyFan) {
            Some(i) => Some(copy_pwm(&devices[i].pwm_controls[0])),
            None => None,
        },
    };
    DiscoveredControls { cpu_temp, cpu_fan, gpu_temp, gpu_fan }
}

// ---------------------------------------------------------------------------
// Files of an hwmon directory

/// What a file of an hwmon directory is, by its name.
#[derive(Debug, Clone, Copy, PartialEq, Eq, Structural)]
pub enum HwmonFile {
    /// `pwm<N>`: the duty cycle of PWM control `N`.
    Pwm(u32),
    /// `temp<N>_input`: the reading of temperature sensor `N`.
    TempInput(u32),
}

/// The kind of hwmon file that `name` names: `pwm` followed by a number
/// (and no underscore) is a PWM control; `temp`, a number, anything, and
/// `_input` at the end is a temperature input; anything else is neither.
pub open spec fn hwmon_file_kind(name: Seq<char>) -> Option<HwmonFile> {
    if starts_with_seq(name, "pwm"@) && !contains_seq(name, "_"@) {
        match parse_u32_spec(name.skip(3)) {
            Some(n) => Some(HwmonFile::Pwm(n)),
            None => None,
        }
    } else if starts_with_seq(name, "temp"@) && ends_with_seq(name, "_input"@) {
        match parse_u32_spec(leading_digits(name.skip(4))) {
            Some(n) => Some(HwmonFile::TempInput(n)),
            None => None,
        }
    } else {
        None
    }
}

/// Classifies a file of an hwmon directory by its name.
pub fn classify_hwmon_file(name: &str) -> (r: Option<HwmonFile>)
    ensures
        r == hwmon_file_kind(name@),
{
    proof {
        reveal_strlit("pwm");
        reveal_strlit("temp");
    }
    let n = name.unicode_len();
    if starts_with_text(name, "pwm") && !contains_text(name, "_") {
        let digits = name.substring_char(3, n);
        assert(digits@ =~= name@.skip(3));
        match parse_u32(digits) {
            Some(i) => Some(HwmonFile::Pwm(i)),
            None => None,
        }
    } else if starts_with_text(name, "temp") && ends_with_text(name, "_input") {
        let digits = leading_digits_from(name, 4);
        match parse_u32(digits.as_str()) {
            Some(i) => Some(HwmonFile::TempInput(i)),
            None => None,
        }
    } else {
        None
    }
}

/// The millidegrees Celsius that the content of a `temp<N>_input` file
/// reports: the content without surrounding white space, read as an `i32`;
/// `None` when it is not a number.
pub fn parse_temp_reading(content: &str) -> (r: Option<i32>)
    ensures
        r == parse_i32_spec(trimmed(content@)),
{
    let t = trim_text(content);
    parse_i32(t.as_str())
}

// ---------------------------------------------------------------------------
// Laws of discovery

/// `s` is one of the temperature sensors of the devices.
pub open spec fn is_sensor_of(devs: Seq<HwmonDevice>, s: TempSensor) -> bool {
    exists|i: int, j: int|
        0 <= i < devs.len() && 0 <= j < devs[i].temp_sensors@.len() && #[trigger] devs[i].temp_sensors@[j] == s
}

/// `f` is one of the PWM controls of the devices.
pub open spec fn is_fan_of(devs: Seq<HwmonDevice>, f: PwmControl) -> bool {
    exists|i: int, j: int|
        0 <= i < devs.len() && 0 <= j < devs[i].pwm_controls@.len() && #[trigger] devs[i].pwm_controls@[j] == f
}

/// Discovery only picks sensors and fans that the devices have.
pub proof fn lemma_discovered_controls_belong_to_devices(devs: Seq<HwmonDevice>)
    ensures
        chosen_cpu_temp(devs) matches Some(s) ==> is_sensor_of(devs, s),
        chosen_gpu_temp(devs) matches Some(s) ==> is_sensor_of(devs, s),
        chosen_cpu_fan(devs) matches Some(f) ==> is_fan_of(devs, f),
        chosen_gpu_fan(devs) matches Some(f) ==> is_fan_of(devs, f),
{
    lemma_first_index_sound(devs, role_pred(DeviceRole::CpuSensor));
    lemma_first_index_sound(devs, role_pred(DeviceRole::CpuSensorFallback));
    lemma_first_index_sound(devs, role_pred(DeviceRole::GpuSensor));
    lemma_first_index_sound(devs, role_pred(DeviceRole::PlatformFans));
    lemma_first_index_sound(devs, role_pred(DeviceRole::GpuFan));
    lemma_first_index_sound(devs, role_pred(DeviceRole::AnySensor));
    lemma_first_index_sound(devs, role_pred(DeviceRole::AnyFan));
    match first_for(devs, DeviceRole::CpuSensor) {
        Some(i) => {
            let d = devs[i];
            lemma_first_index_sound(d.temp_sensors@, package_pred());
            match first_index(d.temp_sensors@, package_pred()) {
                Some(j) => assert(is_sensor_of(devs, devs[i].temp_sensors@[j])),
                None => assert(is_sensor_of(devs, devs[i].temp_sensors@[0])),
            }
        },
        None => match first_for(devs, DeviceRole::CpuSensorFallback) {
            Some(i) => assert(is_sensor_of(devs, devs[i].temp_sensors@[0])),
            None => match first_for(devs, DeviceRole::AnySensor) {
                Some(i) => assert(is_sensor_of(devs, devs[i].temp_sensors@[0])),
                None => {},
            },
        },
    }
    match first_for(devs, DeviceRole::GpuSensor) {
        Some(i) => assert(is_sensor_of(devs, devs[i].temp_sensors@[0])),
        None => {},
    }
    match first_for(devs, DeviceRole::PlatformFans) {
        Some(i) => {
            assert(is_fan_of(devs, devs[i].pwm_controls@[0]));
            if devs[i].pwm_controls@.len() >= 2 {
                assert(is_fan_of(devs, devs[i].pwm_controls@[1]));
            }
        },
        None => {},
    }
    match first_for(devs, DeviceRole::AnyFan) {
        Some(i) => assert(is_fan_of(devs, devs[i].pwm_controls@[0])),
        None => {},
    }
    match first_for(devs, DeviceRole::GpuFan) {
        Some(i) => assert(is_fan_of(devs, devs[i].pwm_controls@[0])),
        None => {},
    }
}

/// The CPU always gets a temperature sensor when any device has one, and
/// a fan when any device has one.
pub proof fn lemma_cpu_controls_found_when_present(devs: Seq<HwmonDevice>)
    ensures
        (exists|i: int| 0 <= i < devs.len() && #[trigger] devs[i].temp_sensors@.len() > 0)
            ==> chosen_cpu_temp(devs) is Some,
        (exists|i: int| 0 <= i < devs.len() && #[trigger] devs[i].pwm_controls@.len() > 0)
            ==> chosen_cpu_fan(devs) is Some,
{
    if exists|i: int| 0 <= i < devs.len() && #[trigger] devs[i].temp_sensors@.len() > 0 {
        let i = choose|i: int| 0 <= i < devs.len() && #[trigger] devs[i].temp_sensors@.len() > 0;
        assert(role_pred(DeviceRole::AnySensor)(devs[i]));
        lemma_first_index_exists(devs, role_pred(DeviceRole::AnySensor), i);
    }
    if exists|i: int| 0 <= i < devs.len() && #[trigger] devs[i].pwm_controls@.len() > 0 {
        let i = choose|i: int| 0 <= i < devs.len() && #[trigger] devs[i].pwm_controls@.len() > 0;
        assert(role_pred(DeviceRole::AnyFan)(devs[i]));
        lemma_first_index_exists(devs, role_pred(DeviceRole::AnyFan), i);
    }
}

// ---------------------------------------------------------------------------
// Assembling a device from its directory

/// A file of an hwmon directory, with the content of its label file
/// (`temp<N>_label` for `temp<N>_input`) where that was read.
#[derive(Debug, Clone, PartialEq, Eq)]
pub struct DeviceEntry {
    pub file_name: String,
    pub label: Option<String>,
}

/// The path of file `name` in directory `dir`.
pub open spec fn join_path(dir: Seq<char>, name: Seq<char>) -> Seq<char> {
    dir + "/"@ + name
}

/// The name of the file that belongs with an hwmon file: `pwm<N>_enable`
/// for `pwm<N>`, `temp<N>_label` for `temp<N>_input`.
pub open spec fn companion_name(kind: HwmonFile) -> Seq<char> {
    match kind {
        HwmonFile::Pwm(n) => "pwm"@ + decimal(n as nat) + "_enable"@,
        HwmonFile::TempInput(n) => "temp"@ + decimal(n as nat) + "_label"@,
    }
}

/// `c` is the PWM control of directory `dir` that entry `e` names.
pub open spec fn is_pwm_control_for(dir: Seq<char>, e: DeviceEntry, c: PwmControl) -> bool {
    &&& hwmon_file_kind(e.file_name@) == Some(HwmonFile::Pwm(c.index))
    &&& c.pwm_file@ == join_path(dir, e.file_name@)
    &&& c.enable_file@ == join_path(dir, companion_name(HwmonFile::Pwm(c.index)))
}

/// `s` is the temperature sensor of directory `dir` that entry `e` names,
/// with the entry's label text without surrounding white space.
pub open spec fn is_sensor_for(dir: Seq<char>, e: DeviceEntry, s: TempSensor) -> bool {
    &&& hwmon_file_kind(e.file_name@) == Some(HwmonFile::TempInput(s.index))
    &&& s.input_file@ == join_path(dir, e.file_name@)
    &&& match e.label {
        Some(raw) => s.label matches Some(l) && l@ == trimmed(raw@),
        None => s.label is None,
    }
}

/// `u` holds, in entry order, the PWM controls that the entries name.
pub open spec fn pwm_controls_in(dir: Seq<char>, entries: Seq<DeviceEntry>, u: Seq<PwmControl>) -> bool
    decreases entries.len(),
{
    if entries.len() == 0 {
        u.len() == 0
    } else if hwmon_file_kind(entries.last().file_name@) matches Some(HwmonFile::Pwm(_)) {
        &&& u.len() > 0
        &&& is_pwm_control_for(dir, entries.last(), u.last())
        &&& pwm_controls_in(dir, entries.drop_last(), u.drop_last())
    } else {
        pwm_controls_in(dir, entries.drop_last(), u)
    }
}

/// `u` holds, in entry order, the temperature sensors that the entries name.
pub open spec fn sensors_in(dir: Seq<char>, entries: Seq<DeviceEntry>, u: Seq<TempSensor>) -> bool
    decreases entries.len(),
{
    if entries.len() == 0 {
        u.len() == 0
    } else if hwmon_file_kind(entries.last().file_name@) matches Some(HwmonFile::TempInput(_)) {
        &&& u.len() > 0
        &&& is_sensor_for(dir, entries.last(), u.last())
        &&& sensors_in(dir, entries.drop_last(), u.drop_last())
    } else {
        sensors_in(dir, entries.drop_last(), u)
    }
}

/// The name of the file that belongs with an hwmon file.
pub fn companion_file_name(kind: HwmonFile) -> (r: String)
    ensures
        r@ == companion_name(kind),
{
    match kind {
        HwmonFile::Pwm(n) => {
            let head = join_text("pwm", decimal_text(n).as_str());
            join_text(head.as_str(), "_enable")
        },
        HwmonFile::TempInput(n) => {
            let head = join_text("temp", decimal_text(n).as_str());
            join_text(head.as_str(), "_label")
        },
    }
}

fn path_in(dir: &str, name: &str) -> (r: String)
    ensures
        r@ == join_path(dir@, name@),
{
    let head = join_text(dir, "/");
    join_text(head.as_str(), name)
}

/// The hwmon device of directory `dir`: its name is the content of its
/// `name` file (`raw_name`) without surrounding white space; its PWM
/// controls and temperature sensors are those that the directory's
/// entries name, each sorted by index (entries of equal index keep their
/// order).
pub fn assemble_device(dir: &str, raw_name: &str, entries: &Vec<DeviceEntry>) -> (d: HwmonDevice)
    ensures
        d.path@ == dir@,
        d.name@ == trimmed(raw_name@),
        exists|u: Seq<PwmControl>| pwm_controls_in(dir@, entries@, u) && is_stable_sort_of(d.pwm_controls@, u),
        exists|u: Seq<TempSensor>| sensors_in(dir@, entries@, u) && is_stable_sort_of(d.temp_sensors@, u),
{
    let mut pwms: Vec<PwmControl> = Vec::new();
    let mut sensors: Vec<TempSensor> = Vec::new();
    let mut i: usize = 0;
    while i < entries.len()
        invariant
            i <= entries@.len(),
            pwm_controls_in(dir@, entries@.take(i as int), pwms@),
            sensors_in(dir@, entries@.take(i as int), sensors@),
        decreases entries@.len() - i,
    {
        let e = &entries[i];
        let ghost prev_pwms = pwms@;
        let ghost prev_sensors = sensors@;
        let ghost next = entries@.take(i + 1);
        assert(next.drop_last() =~= entries@.take(i as int));
        assert(next.last() == *e);
        match classify_hwmon_file(e.file_name.as_str()) {
            Some(HwmonFile::Pwm(n)) => {
                let enable = companion_file_name(HwmonFile::Pwm(n));
                pwms.push(PwmControl {
                    pwm_file: path_in(dir, e.file_name.as_str()),
                    enable_file: path_in(dir, enable.as_str()),
                    index: n,
                });
                assert(pwms@.drop_last() =~= prev_pwms);
            },
            Some(HwmonFile::TempInput(n)) => {
                let label = match &e.label {
                    Some(raw) => Some(trim_text(raw.as_str())),
                    None => None,
                };
                sensors.push(TempSensor { input_file: path_in(dir, e.file_name.as_str()), label, index: n });
                assert(sensors@.drop_last() =~= prev_sensors);
            },
            None => {},
        }
        i = i + 1;
    }
    assert(entries@.take(entries@.len() as int) =~= entries@);
    let ghost unsorted_pwms = pwms@;
    let ghost unsorted_sensors = sensors@;
    stable_sort_by_key(&mut pwms);
    stable_sort_by_key(&mut sensors);
    let d = HwmonDevice {
        path: String::from_str(dir),
        name: trim_text(raw_name),
        pwm_controls: pwms,
        temp_sensors: sensors,
    };
    assert(pwm_controls_in(dir@, entries@, unsorted_pwms) && is_stable_sort_of(d.pwm_controls@, unsorted_pwms));
    assert(sensors_in(dir@, entries@, unsorted_sensors) && is_stable_sort_of(d.temp_sensors@, unsorted_sensors));
    d
}

// ---------------------------------------------------------------------------
// Laws of the driver lists

/// The roles by driver name: coretemp, k10temp and zenpower are the CPU
/// temperature drivers; cpu and acpitz the CPU fallbacks; amdgpu, nouveau
/// and nvidia the GPU temperature drivers; asus, thinkpad, dell, hp,
/// f71882fg, nct6779, it87 and applesmc the platform fan drivers; amdgpu
/// and nouveau the GPU fan drivers. Sensor roles need a sensor, fan roles
/// a PWM control.
pub proof fn lemma_role_driver_names(lower: Seq<char>, has_sensor: bool, has_fan: bool)
    ensures
        fits_role_lowered(DeviceRole::CpuSensor, lower, has_sensor, has_fan) == (has_sensor && (
            contains_seq(lower, "coretemp"@) || contains_seq(lower, "k10temp"@) || contains_seq(lower, "zenpower"@))),
        fits_role_lowered(DeviceRole::CpuSensorFallback, lower, has_sensor, has_fan) == (has_sensor && (
            contains_seq(lower, "cpu"@) || contains_seq(lower, "acpitz"@))),
        fits_role_lowered(DeviceRole::GpuSensor, lower, has_sensor, has_fan) == (has_sensor && (
            contains_seq(lower, "amdgpu"@) || contains_seq(lower, "nouveau"@) || contains_seq(lower, "nvidia"@))),
        fits_role_lowered(DeviceRole::PlatformFans, lower, has_sensor, has_fan) == (has_fan && (
            contains_seq(lower, "asus"@) || contains_seq(lower, "thinkpad"@) || contains_seq(lower, "dell"@)
            || contains_seq(lower, "hp"@) || contains_seq(lower, "f71882fg"@) || contains_seq(lower, "nct6779"@)
            || contains_seq(lower, "it87"@) || contains_seq(lower, "applesmc"@))),
        fits_role_lowered(DeviceRole::GpuFan, lower, has_sensor, has_fan) == (has_fan && (
            contains_seq(lower, "amdgpu"@) || contains_seq(lower, "nouveau"@))),
        fits_role_lowered(DeviceRole::AnySensor, lower, has_sensor, has_fan) == has_sensor,
        fits_role_lowered(DeviceRole::AnyFan, lower, has_sensor, has_fan) == has_fan,
{
}

/// The GPU temperature is the first sensor of the first GPU temperature
/// device, and there is none when no device is one.
pub proof fn lemma_gpu_temp_is_first_sensor_of_first_gpu_device(devs: Seq<HwmonDevice>)
    ensures
        match chosen_gpu_temp(devs) {
            Some(s) => exists|i: int| {
                &&& 0 <= i < devs.len()
                &&& #[trigger] fits_role(DeviceRole::GpuSensor, devs[i])
                &&& devs[i].temp_sensors@.len() > 0
                &&& s == devs[i].temp_sensors@[0]
                &&& forall|j: int| 0 <= j < i ==> !fits_role(DeviceRole::GpuSensor, #[trigger] devs[j])
            },
            None => forall|i: int| 0 <= i < devs.len() ==> !fits_role(DeviceRole::GpuSensor, #[trigger] devs[i]),
        },
{
    lemma_first_index_sound(devs, role_pred(DeviceRole::GpuSensor));
    match first_for(devs, DeviceRole::GpuSensor) {
        Some(i) => {
            assert(role_pred(DeviceRole::GpuSensor)(devs[i]));
            assert forall|j: int| 0 <= j < i implies !fits_role(DeviceRole::GpuSensor, #[trigger] devs[j]) by {
                assert(!role_pred(DeviceRole::GpuSensor)(devs[j]));
            }
        },
        None => {
            assert forall|i: int| 0 <= i < devs.len() implies !fits_role(DeviceRole::GpuSensor, #[trigger] devs[i]) by {
                if fits_role(DeviceRole::GpuSensor, devs[i]) {
                    assert(role_pred(DeviceRole::GpuSensor)(devs[i]));
                    lemma_first_index_exists(devs, role_pred(DeviceRole::GpuSensor), i);
                }
            }
        },
    }
}

/// The first platform fan device drives both fans: its first PWM control
/// is the CPU fan, and its second, when it has one, the GPU fan.
pub proof fn lemma_platform_device_drives_both_fans(devs: Seq<HwmonDevice>, i: int)
    requires
        0 <= i < devs.len(),
        fits_role(DeviceRole::PlatformFans, devs[i]),
        forall|j: int| 0 <= j < i ==> !fits_role(DeviceRole::PlatformFans, #[trigger] devs[j]),
    ensures
        devs[i].pwm_controls@.len() > 0,
        chosen_cpu_fan(devs) == Some(devs[i].pwm_controls@[0]),
        devs[i].pwm_controls@.len() >= 2 ==> chosen_gpu_fan(devs) == Some(devs[i].pwm_controls@[1]),
{
    let p = role_pred(DeviceRole::PlatformFans);
    assert forall|j: int| 0 <= j < i implies !p(#[trigger] devs[j]) by {
        assert(!fits_role(DeviceRole::PlatformFans, devs[j]));
    }
    lemma_first_index_is(devs, p, i);
}

/// The CPU temperature comes from the first CPU temperature device when
/// there is one: its first "package" sensor, else its first sensor.
pub proof fn lemma_cpu_temp_from_first_cpu_device(devs: Seq<HwmonDevice>, i: int)
    requires
        0 <= i < devs.len(),
        fits_role(DeviceRole::CpuSensor, devs[i]),
        forall|j: int| 0 <= j < i ==> !fits_role(DeviceRole::CpuSensor, #[trigger] devs[j]),
    ensures
        chosen_cpu_temp(devs) matches Some(s) && exists|k: int| {
            &&& 0 <= k < devs[i].temp_sensors@.len()
            &&& #[trigger] devs[i].temp_sensors@[k] == s
            &&& (is_package_sensor(s) || k == 0)
            &&& forall|m: int| 0 <= m < k ==> !is_package_sensor(#[trigger] devs[i].temp_sensors@[m])
        },
{
    let p = role_pred(DeviceRole::CpuSensor);
    assert forall|j: int| 0 <= j < i implies !p(#[trigger] devs[j]) by {
        assert(!fits_role(DeviceRole::CpuSensor, devs[j]));
    }
    lemma_first_index_is(devs, p, i);
    let sensors = devs[i].temp_sensors@;
    lemma_first_index_sound(sensors, package_pred());
    match first_index(sensors, package_pred()) {
        Some(k) => {
            assert(package_pred()(sensors[k]));
            assert forall|m: int| 0 <= m < k implies !is_package_sensor(#[trigger] sensors[m]) by {
                assert(!package_pred()(sensors[m]));
            }
            assert(devs[i].temp_sensors@[k] == preferred_cpu_sensor(devs[i]));
        },
        None => {
            assert(devs[i].temp_sensors@[0] == preferred_cpu_sensor(devs[i]));
        },
    }
}

/// Device `i` is the first device that qualifies for `role`.
pub open spec fn first_device_for(devs: Seq<HwmonDevice>, role: DeviceRole, i: int) -> bool {
    &&& 0 <= i < devs.len()
    &&& fits_role(role, devs[i])
    &&& forall|j: int| 0 <= j < i ==> !fits_role(role, #[trigger] devs[j])
}

/// No device qualifies for `role`.
pub open spec fn no_device_for(devs: Seq<HwmonDevice>, role: DeviceRole) -> bool {
    forall|j: int| 0 <= j < devs.len() ==> !fits_role(role, #[trigger] devs[j])
}

proof fn lemma_first_for_is(devs: Seq<HwmonDevice>, role: DeviceRole, i: int)
    requires
        first_device_for(devs, role, i),
    ensures
        first_for(devs, role) == Some(i),
{
    let p = role_pred(role);
    assert forall|j: int| 0 <= j < i implies !p(#[trigger] devs[j]) by {
        assert(!fits_role(role, devs[j]));
    }
    lemma_first_index_is(devs, p, i);
}

proof fn lemma_first_for_none(devs: Seq<HwmonDevice>, role: DeviceRole)
    requires
        no_device_for(devs, role),
    ensures
        first_for(devs, role) == None::<int>,
{
    let p = role_pred(role);
    assert forall|j: int| 0 <= j < devs.len() implies !p(#[trigger] devs[j]) by {
        assert(!fits_role(role, devs[j]));
    }
    lemma_first_index_none(devs, p);
}

/// The CPU temperature's fallbacks: without a CPU temperature device, the
/// first sensor of the first "cpu"/"acpitz" device; without that either,
/// the first sensor of the first device that has a sensor; with no sensor
/// anywhere, none.
pub proof fn lemma_cpu_temp_fallbacks(devs: Seq<HwmonDevice>, i: int)
    requires
        no_device_for(devs, DeviceRole::CpuSensor),
    ensures
        first_device_for(devs, DeviceRole::CpuSensorFallback, i)
            ==> chosen_cpu_temp(devs) == Some(devs[i].temp_sensors@[0]),
        no_device_for(devs, DeviceRole::CpuSensorFallback) && first_device_for(devs, DeviceRole::AnySensor, i)
            ==> chosen_cpu_temp(devs) == Some(devs[i].temp_sensors@[0]),
        no_device_for(devs, DeviceRole::CpuSensorFallback) && no_device_for(devs, DeviceRole::AnySensor)
            ==> chosen_cpu_temp(devs) is None,
{
    lemma_first_for_none(devs, DeviceRole::CpuSensor);
    if first_device_for(devs, DeviceRole::CpuSensorFallback, i) {
        lemma_first_for_is(devs, DeviceRole::CpuSensorFallback, i);
    }
    if no_device_for(devs, DeviceRole::CpuSensorFallback) {
        lemma_first_for_none(devs, DeviceRole::CpuSensorFallback);
        if first_device_for(devs, DeviceRole::AnySensor, i) {
            lemma_first_for_is(devs, DeviceRole::AnySensor, i);
        }
        if no_device_for(devs, DeviceRole::AnySensor) {
            lemma_first_for_none(devs, DeviceRole::AnySensor);
        }
    }
}

/// The fans' fallbacks: without a platform fan device, the CPU fan is the
/// first PWM control of the first device that has one (none if no device
/// has one); the GPU fan, when the platform device gives no second PWM
/// control, is the first PWM control of the first GPU fan device (none if
/// there is no such device).
pub proof fn lemma_fan_fallbacks(devs: Seq<HwmonDevice>, i: int)
    ensures
        no_device_for(devs, DeviceRole::PlatformFans) && first_device_for(devs, DeviceRole::AnyFan, i)
            ==> chosen_cpu_fan(devs) == Some(devs[i].pwm_controls@[0]),
        no_device_for(devs, DeviceRole::PlatformFans) && no_device_for(devs, DeviceRole::AnyFan)
            ==> chosen_cpu_fan(devs) is None,
        (no_device_for(devs, DeviceRole::PlatformFans) || exists|k: int|
            first_device_for(devs, DeviceRole::PlatformFans, k) && #[trigger] devs[k].pwm_controls@.len() < 2)
            ==> {
                &&& first_device_for(devs, DeviceRole::GpuFan, i)
                    ==> chosen_gpu_fan(devs) == Some(devs[i].pwm_controls@[0])
                &&& no_device_for(devs, DeviceRole::GpuFan) ==> chosen_gpu_fan(devs) is None
            },
{
    if no_device_for(devs, DeviceRole::PlatformFans) {
        lemma_first_for_none(devs, DeviceRole::PlatformFans);
        if first_device_for(devs, DeviceRole::AnyFan, i) {
            lemma_first_for_is(devs, DeviceRole::AnyFan, i);
        }
        if no_device_for(devs, DeviceRole::AnyFan) {
            lemma_first_for_none(devs, DeviceRole::AnyFan);
        }
    }
    if exists|k: int| first_device_for(devs, DeviceRole::PlatformFans, k) && #[trigger] devs[k].pwm_controls@.len() < 2 {
        let k = choose|k: int| first_device_for(devs, DeviceRole::PlatformFans, k) && #[trigger] devs[k].pwm_controls@.len() < 2;
        lemma_first_for_is(devs, DeviceRole::PlatformFans, k);
    }
    if first_device_for(devs, DeviceRole::GpuFan, i) {
        lemma_first_for_is(devs, DeviceRole::GpuFan, i);
    }
    if no_device_for(devs, DeviceRole::GpuFan) {
        lemma_first_for_none(devs, DeviceRole::GpuFan);
    }
}

} // verus!
