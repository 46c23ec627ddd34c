use vstd::prelude::*;
use vstd::string::*;

use crate::curve::temps_nondecreasing;
use crate::sort::{SortKey, is_stable_sort_of, lemma_stable_sort_of_sorted, sorted_by_key, stable_sort_by_key};

verus! {

/// How the laptop's GPUs are wired to the display.
#[derive(Debug, Clone, Copy, PartialEq, Eq, Structural)]
pub enum GpuMode {
    Integrated,
    Hybrid,
    Dedicated,
}

/// The name under which a GPU mode is shown to the user.
pub open spec fn gpu_mode_name(m: GpuMode) -> Seq<char> {
    match m {
        GpuMode::Integrated => "Integrated"@,
        GpuMode::Hybrid => "Hybrid"@,
        GpuMode::Dedicated => "Dedicated"@,
    }
}

impl GpuMode {
    /// The mode's display name ("Integrated", "Hybrid" or "Dedicated").
    pub fn to_display_string(&self) -> (s: String)
        ensures
            s@ == gpu_mode_name(*self),
    {
        match self {
            GpuMode::Integrated => String::from_str("Integrated"),
            GpuMode::Hybrid => String::from_str("Hybrid"),
            GpuMode::Dedicated => String::from_str("Dedicated"),
        }
    }
}

/// GPU settings.
#[derive(Debug, Clone, Copy, PartialEq, Eq, Structural)]
pub struct GpuConfig {
    pub default_mode: GpuMode,
}

/// One point of a fan curve: at `temp` millidegrees Celsius the fan runs at
/// PWM duty cycle `speed` (0-255).
#[derive(Debug, Clone, Copy, PartialEq, Eq, Structural)]
pub struct CurvePoint {
    pub temp: i32,
    pub speed: u8,
}

impl SortKey for CurvePoint {
    open spec fn key(&self) -> int {
        self.temp as int
    }

    fn sort_key(&self) -> (k: i64) {
        self.temp as i64
    }
}

/// A named fan curve ("cpu" or "gpu").
#[derive(Debug, Clone, PartialEq)]
pub struct FanCurve {
    pub name: String,
    pub points: Vec<CurvePoint>,
}

/// Fan control settings.
#[derive(Debug, Clone, PartialEq)]
pub struct FanConfig {
    pub poll_interval_secs: u64,
    pub curves: Vec<FanCurve>,
}

/// The daemon's configuration.
#[derive(Debug, Clone, PartialEq)]
pub struct Config {
    pub gpu: GpuConfig,
    pub fan: FanConfig,
}

/// The points of the built-in CPU fan curve.
pub open spec fn default_cpu_points() -> Seq<CurvePoint> {
    seq![
        CurvePoint { temp: 30_000, speed: 50 },
        CurvePoint { temp: 50_000, speed: 100 },
        CurvePoint { temp: 70_000, speed: 180 },
        CurvePoint { temp: 85_000, speed: 255 },
    ]
}

/// The points of the built-in GPU fan curve.
pub open spec fn default_gpu_points() -> Seq<CurvePoint> {
    seq![
        CurvePoint { temp: 35_000, speed: 0 },
        CurvePoint { temp: 55_000, speed: 90 },
        CurvePoint { temp: 75_000, speed: 170 },
        CurvePoint { temp: 85_000, speed: 255 },
    ]
}

/// `c` is the built-in configuration: hybrid GPU mode, a two-second poll
/// interval, and the built-in "cpu" and "gpu" curves, in that order.
pub open spec fn is_default_config(c: Config) -> bool {
    &&& c.gpu.default_mode == GpuMode::Hybrid
    &&& c.fan.poll_interval_secs == 2
    &&& c.fan.curves@.len() == 2
    &&& c.fan.curves@[0].name@ == "cpu"@
    &&& c.fan.curves@[0].points@ == default_cpu_points()
    &&& c.fan.curves@[1].name@ == "gpu"@
    &&& c.fan.curves@[1].points@ == default_gpu_points()
}

/// `new` holds the curves of `old`, in the same order and under the same
/// names, each with its points stably sorted by temperature.
pub open spec fn curves_sorted_from(new: Seq<FanCurve>, old: Seq<FanCurve>) -> bool {
    &&& new.len() == old.len()
    &&& forall|i: int| 0 <= i < new.len() ==> {
        &&& (#[trigger] new[i]).name == old[i].name
        &&& is_stable_sort_of(new[i].points@, old[i].points@)
    }
}

impl Default for Config {
    fn default() -> (c: Self)
        ensures
            is_default_config(c),
    {
        let cpu_points = vec![
            CurvePoint { temp: 30_000, speed: 50 },
            CurvePoint { temp: 50_000, speed: 100 },
            CurvePoint { temp: 70_000, speed: 180 },
            CurvePoint { temp: 85_000, speed: 255 },
        ];
        let gpu_points = vec![
            CurvePoint { temp: 35_000, speed: 0 },
            CurvePoint { temp: 55_000, speed: 90 },
            CurvePoint { temp: 75_000, speed: 170 },
            CurvePoint { temp: 85_000, speed: 255 },
        ];
        assert(cpu_points@ =~= default_cpu_points());
        assert(gpu_points@ =~= default_gpu_points());
        let curves = vec![
            FanCurve { name: String::from_str("cpu"), points: cpu_points },
            FanCurve { name: String::from_str("gpu"), points: gpu_points },
        ];
        Config {
            gpu: GpuConfig { default_mode: GpuMode::Hybrid },
            fan: FanConfig { poll_interval_secs: 2, curves },
        }
    }
}

impl Config {
    /// The configuration with the points of every curve sorted by
    /// temperature (points of equal temperature keep their order), as
    /// linear interpolation expects them.
    pub fn with_sorted_curves(self) -> (c: Config)
        ensures
            c.gpu == self.gpu,
            c.fan.poll_interval_secs == self.fan.poll_interval_secs,
            curves_sorted_from(c.fan.curves@, self.fan.curves@),
    {
        let Config { gpu, fan } = self;
        let FanConfig { poll_interval_secs, curves } = fan;
        let ghost orig = curves@;
        let mut rest = curves;
        let mut out: Vec<FanCurve> = Vec::new();
        while rest.len() > 0
            invariant
                out@.len() + rest@.len() == orig.len(),
                rest@ == orig.skip(out@.len() as int),
                forall|i: int| 0 <= i < out@.len() ==> {
                    &&& (#[trigger] out@[i]).name == orig[i].name
                    &&& is_stable_sort_of(out@[i].points@, orig[i].points@)
                },
            decreases rest@.len(),
        {
            let ghost k = out@.len() as int;
            let mut curve = rest.remove(0);
            assert(curve == orig[k]) by {
                assert(orig.skip(k)[0] == orig[k]);
            }
            stable_sort_by_key(&mut curve.points);
            out.push(curve);
            assert(rest@ =~= orig.skip(k + 1));
        }
        assert(curves_sorted_from(out@, orig));
        Config { gpu, fan: FanConfig { poll_interval_secs, curves: out } }
    }

    /// The configuration to run with, given what was read from the
    /// configuration file: the file's configuration with its curves sorted,
    /// or the built-in configuration when the file is missing, unreadable
    /// or not a valid configuration (`None`).
    pub fn from_loaded(loaded: Option<Config>) -> (c: Config)
        ensures
            match loaded {
                Some(l) => {
                    &&& c.gpu == l.gpu
                    &&& c.fan.poll_interval_secs == l.fan.poll_interval_secs
                    &&& curves_sorted_from(c.fan.curves@, l.fan.curves@)
                },
                None => is_default_config(c),
            },
    {
        match loaded {
            Some(l) => l.with_sorted_curves(),
            None => Config::default(),
        }
    }
}

/// A copy of the points `v`.
pub(crate) fn copy_points(v: &Vec<CurvePoint>) -> (r: Vec<CurvePoint>)
    ensures
        r@ == v@,
{
    let mut r: Vec<CurvePoint> = Vec::new();
    let mut i: usize = 0;
    while i < v.len()
        invariant
            i <= v@.len(),
            r@ == v@.take(i as int),
        decreases v@.len() - i,
    {
        r.push(v[i]);
        i = i + 1;
        assert(r@ =~= v@.take(i as int));
    }
    assert(v@.take(v@.len() as int) =~= v@);
    r
}

/// Loaded curves are ready for interpolation: once a configuration's
/// curves are sorted, the temperatures of every curve never decrease.
pub proof fn lemma_sorted_curves_ready_for_interpolation(new: Seq<FanCurve>, old: Seq<FanCurve>)
    requires
        curves_sorted_from(new, old),
    ensures
        forall|i: int| 0 <= i < new.len() ==> temps_nondecreasing(#[trigger] new[i].points@),
{
    assert forall|i: int| 0 <= i < new.len() implies temps_nondecreasing(#[trigger] new[i].points@) by {
        let pts = new[i].points@;
        assert(sorted_by_key(pts));
        assert forall|a: int, b: int| 0 <= a <= b < pts.len() implies #[trigger] pts[a].temp <= #[trigger] pts[b].temp by {
            assert(pts[a].key() <= pts[b].key());
        }
    }
}

/// What was saved loads back unchanged: when every curve of a configuration
/// is already sorted by temperature, sorting the loaded curves (as
/// `Config::from_loaded` does) keeps every curve's name and points.
pub proof fn lemma_sorted_curves_load_unchanged(new: Seq<FanCurve>, old: Seq<FanCurve>)
    requires
        curves_sorted_from(new, old),
        forall|i: int| 0 <= i < old.len() ==> temps_nondecreasing(#[trigger] old[i].points@),
    ensures
        new.len() == old.len(),
        forall|i: int| 0 <= i < new.len() ==> {
            &&& (#[trigger] new[i]).name == old[i].name
            &&& new[i].points@ == old[i].points@
        },
{
    assert forall|i: int| 0 <= i < new.len() implies (#[trigger] new[i]).points@ == old[i].points@ by {
        let pts = old[i].points@;
        assert(temps_nondecreasing(pts));
        assert forall|a: int, b: int| 0 <= a <= b < pts.len() implies #[trigger] pts[a].key() <= #[trigger] pts[b].key() by {
            assert(pts[a].temp <= pts[b].temp);
        }
        lemma_stable_sort_of_sorted(new[i].points@, pts);
    }
}

} // verus!
