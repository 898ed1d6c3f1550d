//! Which hardware sensors the system-info widgets read: the labels that
//! name CPU and GPU temperatures, the Linux DRM and hwmon file names, and the
//! order in which GPU readings are preferred.
//!
//! The readings themselves are the host's (floating-point values behind a
//! type parameter); here are only the choices.
use vstd::prelude::*;

use crate::names::{lowercase, to_lowercase};
use crate::text::{contains_exec, contains_seq, str_chars, string_from_chars};

verus! {

/// `label` contains `word`.
pub open spec fn has(label: Seq<char>, word: &'static str) -> bool {
    contains_seq(label, word@)
}

/// Whether `s` contains `word`.
fn str_has(s: &Vec<char>, word: &'static str) -> (b: bool)
    ensures
        b == has(s@, word),
{
    let w = str_chars(word);
    contains_exec(s, &w)
}

/// A lowercase sensor label that names a CPU temperature.
pub open spec fn is_cpu_temp_label_spec(label: Seq<char>) -> bool {
    has(label, "core") || has(label, "tctl") || has(label, "cpu") || has(label, "package")
}

/// Whether a lowercase sensor label names a CPU temperature: a core, the
/// AMD control temperature, the CPU or the package.
pub fn is_cpu_temp_label(label: &str) -> (b: bool)
    ensures
        b == is_cpu_temp_label_spec(label@),
        b <==> (has(label@, "core") || has(label@, "tctl") || has(label@, "cpu") || has(
            label@,
            "package",
        )),
{
    let l = str_chars(label);
    str_has(&l, "core") || str_has(&l, "tctl") || str_has(&l, "cpu") || str_has(&l, "package")
}

/// Every lowercase label that mentions a core, the AMD control
/// temperature (`tctl`), the CPU or the package (such as Intel's
/// `package id 0`) is a CPU temperature label, and no other label is.
pub proof fn lemma_cpu_temp_labels(label: Seq<char>)
    ensures
        has(label, "core") ==> is_cpu_temp_label_spec(label),
        has(label, "tctl") ==> is_cpu_temp_label_spec(label),
        has(label, "cpu") ==> is_cpu_temp_label_spec(label),
        has(label, "package") ==> is_cpu_temp_label_spec(label),
        is_cpu_temp_label_spec(label) ==> has(label, "core") || has(label, "tctl") || has(
            label,
            "cpu",
        ) || has(label, "package"),
{
}

/// A lowercase sensor label that names a hotspot or memory temperature.
pub open spec fn is_hotspot_or_memory_spec(label: Seq<char>) -> bool {
    has(label, "junction") || has(label, "hotspot") || has(label, "hot spot") || has(
        label,
        "memory",
    ) || has(label, "mem")
}

/// A lowercase sensor label that names the ordinary GPU temperature.
pub open spec fn is_normal_gpu_temp_spec(label: Seq<char>) -> bool {
    (has(label, "gpu") || has(label, "edge")) && !is_hotspot_or_memory_spec(label)
}

/// Whether a lowercase sensor label names a hotspot or memory temperature
/// (junction, hotspot, memory).
pub fn is_hotspot_or_memory_label(label: &str) -> (b: bool)
    ensures
        b == is_hotspot_or_memory_spec(label@),
{
    let l = str_chars(label);
    str_has(&l, "junction") || str_has(&l, "hotspot") || str_has(&l, "hot spot") || str_has(
        &l,
        "memory",
    ) || str_has(&l, "mem")
}

/// Whether a lowercase sensor label names the ordinary GPU temperature: it
/// mentions the GPU or the edge sensor, and no hotspot or memory sensor.
pub fn is_normal_gpu_temp_label(label: &str) -> (b: bool)
    ensures
        b == is_normal_gpu_temp_spec(label@),
{
    let l = str_chars(label);
    (str_has(&l, "gpu") || str_has(&l, "edge")) && !is_hotspot_or_memory_label(label)
}

/// `s` is a non-empty run of ASCII digits.
pub open spec fn is_digits(s: Seq<char>) -> bool {
    s.len() > 0 && forall|i: int| 0 <= i < s.len() ==> '0' <= #[trigger] s[i] <= '9'
}

/// Whether the characters of `s` from `from` up to `to` are a non-empty run
/// of ASCII digits.
fn digits_between(s: &Vec<char>, from: usize, to: usize) -> (b: bool)
    requires
        from <= to <= s@.len(),
    ensures
        b == is_digits(s@.subrange(from as int, to as int)),
{
    if from == to {
        return false;
    }
    let mut i = from;
    while i < to
        invariant
            from <= i <= to,
            to <= s@.len(),
            forall|k: int| from <= k < i ==> '0' <= #[trigger] s@[k] <= '9',
        decreases to - i,
    {
        if s[i] < '0' || s[i] > '9' {
            assert(!('0' <= s@.subrange(from as int, to as int)[i - from] <= '9'));
            return false;
        }
        i = i + 1;
    }
    true
}

/// `s` starts with `prefix`.
fn starts_with(s: &Vec<char>, prefix: &'static str) -> (b: bool)
    ensures
        b == prefix@.is_prefix_of(s@),
{
    let p = str_chars(prefix);
    if p.len() > s.len() {
        return false;
    }
    let mut i: usize = 0;
    while i < p.len()
        invariant
            i <= p@.len(),
            p@.len() <= s@.len(),
            p@ == prefix@,
            forall|k: int| 0 <= k < i ==> p@[k] == s@[k],
        decreases p@.len() - i,
    {
        if p[i] != s[i] {
            return false;
        }
        i = i + 1;
    }
    true
}

/// A DRM device name of a graphics card: `card` and its number.
pub open spec fn is_drm_card_spec(name: Seq<char>) -> bool {
    "card"@.is_prefix_of(name) && is_digits(name.skip(4))
}

/// Whether a `/sys/class/drm` entry is a graphics card (`card0`, `card1`,
/// ...), not a connector such as `card0-DP-1`.
pub fn is_drm_card_name(name: &str) -> (b: bool)
    ensures
        b == is_drm_card_spec(name@),
{
    proof {
        reveal_strlit("card");
    }
    let n = str_chars(name);
    if !starts_with(&n, "card") {
        return false;
    }
    let r = digits_between(&n, 4, n.len());
    assert(n@.subrange(4, n@.len() as int) =~= n@.skip(4));
    r
}

/// The sensor number of an hwmon temperature input file name: `temp`, the
/// number, `_input`.
pub open spec fn temp_id_spec(file_name: Seq<char>) -> Option<Seq<char>> {
    let n = file_name.len() as int;
    if n >= 10 && "temp"@.is_prefix_of(file_name) && file_name.skip(n - 6) == "_input"@
        && is_digits(file_name.subrange(4, n - 6)) {
        Some(file_name.subrange(4, n - 6))
    } else {
        None
    }
}

/// The sensor number of an hwmon file name such as `temp2_input`, if it is
/// a temperature input.
pub fn temp_input_id(file_name: &str) -> (id: Option<String>)
    ensures
        match id {
            Some(v) => temp_id_spec(file_name@) == Some(v@),
            None => temp_id_spec(file_name@) is None,
        },
{
    proof {
        reveal_strlit("temp");
        reveal_strlit("_input");
    }
    let f = str_chars(file_name);
    let n = f.len();
    if n < 10 || !starts_with(&f, "temp") {
        return None;
    }
    let suffix = str_chars("_input");
    let mut i: usize = 0;
    while i < 6
        invariant
            i <= 6,
            n == f@.len(),
            n >= 10,
            suffix@ == "_input"@,
            suffix@.len() == 6,
            f@ == file_name@,
            forall|k: int| 0 <= k < i ==> f@[n - 6 + k] == suffix@[k],
        decreases 6 - i,
    {
        if f[n - 6 + i] != suffix[i] {
            assert(f@.skip(n - 6)[i as int] != "_input"@[i as int]);
            assert(f@.skip(n - 6) != "_input"@);
            return None;
        }
        i = i + 1;
    }
    assert(f@.skip(n - 6) =~= "_input"@);
    if !digits_between(&f, 4, n - 6) {
        return None;
    }
    let mut id: Vec<char> = Vec::new();
    let mut j: usize = 4;
    while j < n - 6
        invariant
            4 <= j <= n - 6,
            n == f@.len(),
            id@ == f@.subrange(4, j as int),
        decreases n - 6 - j,
    {
        id.push(f[j]);
        j = j + 1;
    }
    Some(string_from_chars(&id))
}

/// How an hwmon temperature reading of an AMD GPU counts, by its lowercase
/// label and sensor number.
#[derive(Debug, Clone, Copy, PartialEq, Eq, Structural)]
pub enum TempRole {
    /// The edge sensor.
    Edge,
    /// Sensor 1, when it is no hotspot or memory sensor.
    First,
    /// Another ordinary GPU sensor.
    Gpu,
    /// An unlabelled sensor.
    Unlabelled,
    /// Anything else, which is never used.
    Ignored,
}

/// The role of a reading with lowercase label `label` and sensor number
/// `id`.
pub open spec fn temp_role(id: Seq<char>, label: Seq<char>) -> TempRole {
    if label == "edge"@ {
        TempRole::Edge
    } else if id == "1"@ && !is_hotspot_or_memory_spec(label) {
        TempRole::First
    } else if is_normal_gpu_temp_spec(label) {
        TempRole::Gpu
    } else if label.len() == 0 {
        TempRole::Unlabelled
    } else {
        TempRole::Ignored
    }
}

/// The roles of readings given as (sensor number, raw label) pairs; labels
/// are compared lowercased.
pub open spec fn roles(readings: Seq<(Seq<char>, Seq<char>)>) -> Seq<TempRole> {
    Seq::new(readings.len(), |i: int| temp_role(readings[i].0, lowercase(readings[i].1)))
}

/// The last index in `rs` with role `r`.
pub open spec fn last_with(rs: Seq<TempRole>, r: TempRole) -> Option<int>
    decreases rs.len(),
{
    if rs.len() == 0 {
        None
    } else if rs.last() == r {
        Some(rs.len() - 1)
    } else {
        last_with(rs.drop_last(), r)
    }
}

/// The first index in `rs` with role `r`.
pub open spec fn first_with(rs: Seq<TempRole>, r: TempRole) -> Option<int>
    decreases rs.len(),
{
    if rs.len() == 0 {
        None
    } else {
        match first_with(rs.drop_last(), r) {
            Some(k) => Some(k),
            None => if rs.last() == r {
                Some(rs.len() - 1)
            } else {
                None
            },
        }
    }
}

/// The reading the AMD GPU temperature is taken from: the last edge
/// sensor, else the last first sensor, else the first ordinary GPU sensor,
/// else the first unlabelled one.
pub open spec fn amd_temp_choice(rs: Seq<TempRole>) -> Option<int> {
    match last_with(rs, TempRole::Edge) {
        Some(i) => Some(i),
        None => match last_with(rs, TempRole::First) {
            Some(i) => Some(i),
            None => match first_with(rs, TempRole::Gpu) {
                Some(i) => Some(i),
                None => first_with(rs, TempRole::Unlabelled),
            },
        },
    }
}

/// The role of one reading.
fn role_of(id: &str, label: &str) -> (r: TempRole)
    ensures
        r == temp_role(id@, lowercase(label@)),
{
    proof {
        reveal_strlit("edge");
        reveal_strlit("1");
    }
    let lower = to_lowercase(label);
    let l = str_chars(lower.as_str());
    let edge = str_chars("edge");
    let one = str_chars("1");
    if crate::names::chars_equal(&l, &edge) {
        TempRole::Edge
    } else if crate::names::chars_equal(&str_chars(id), &one) && !is_hotspot_or_memory_label(
        lower.as_str(),
    ) {
        TempRole::First
    } else if is_normal_gpu_temp_label(lower.as_str()) {
        TempRole::Gpu
    } else if l.len() == 0 {
        TempRole::Unlabelled
    } else {
        TempRole::Ignored
    }
}

/// Choose among the temperature readings of an AMD GPU's hwmon files, given
/// in the order the files were found as (sensor number, label) pairs: the
/// index of the reading to report.
pub fn select_amd_gpu_temp(readings: &Vec<(String, String)>) -> (choice: Option<usize>)
    ensures
        ({
            let rs = roles(readings@.map_values(|r: (String, String)| (r.0@, r.1@)));
            match choice {
                Some(i) => amd_temp_choice(rs) == Some(i as int),
                None => amd_temp_choice(rs) is None,
            }
        }),
{
    let ghost rs = roles(readings@.map_values(|r: (String, String)| (r.0@, r.1@)));
    let mut edge: Option<usize> = None;
    let mut first: Option<usize> = None;
    let mut gpu: Option<usize> = None;
    let mut unlabelled: Option<usize> = None;
    let mut i: usize = 0;
    while i < readings.len()
        invariant
            i <= readings@.len(),
            rs.len() == readings@.len(),
            rs == roles(readings@.map_values(|r: (String, String)| (r.0@, r.1@))),
            last_with(rs.take(i as int), TempRole::Edge) == match edge {
                Some(k) => Some(k as int),
                None => None::<int>,
            },
            last_with(rs.take(i as int), TempRole::First) == match first {
                Some(k) => Some(k as int),
                None => None::<int>,
            },
            first_with(rs.take(i as int), TempRole::Gpu) == match gpu {
                Some(k) => Some(k as int),
                None => None::<int>,
            },
            first_with(rs.take(i as int), TempRole::Unlabelled) == match unlabelled {
                Some(k) => Some(k as int),
                None => None::<int>,
            },
        decreases readings@.len() - i,
    {
        let role = role_of(readings[i].0.as_str(), readings[i].1.as_str());
        proof {
            assert(role == rs[i as int]);
            assert(rs.take(i + 1).drop_last() =~= rs.take(i as int));
            assert(rs.take(i + 1).last() == rs[i as int]);
        }
        match role {
            TempRole::Edge => {
                edge = Some(i);
            },
            TempRole::First => {
                first = Some(i);
            },
            TempRole::Gpu => {
                if gpu.is_none() {
                    gpu = Some(i);
                }
            },
            TempRole::Unlabelled => {
                if unlabelled.is_none() {
                    unlabelled = Some(i);
                }
            },
            TempRole::Ignored => {},
        }
        i = i + 1;
    }
    proof {
        assert(rs.take(readings@.len() as int) =~= rs);
    }
    match edge {
        Some(k) => Some(k),
        None => match first {
            Some(k) => Some(k),
            None => match gpu {
                Some(k) => Some(k),
                None => unlabelled,
            },
        },
    }
}

/// What one GPU source reports: a temperature and a usage, either of which
/// may be missing.
#[derive(Debug, Clone, Copy)]
pub struct GpuMetrics<T> {
    pub temp: Option<T>,
    pub usage: Option<T>,
}

/// The GPU reading shown: NVIDIA's when its library answers; otherwise the
/// AMD DRM one (which the host reads only then), each missing value filled
/// from it; and a temperature still missing taken from the generic sensor
/// fallback.
pub open spec fn merged_gpu<T>(
    nvidia: Option<GpuMetrics<T>>,
    amd: Option<GpuMetrics<T>>,
    sensor_temp: Option<T>,
) -> GpuMetrics<T> {
    let (t0, u0) = match nvidia {
        Some(m) => (m.temp, m.usage),
        None => match amd {
            Some(a) => (a.temp, a.usage),
            None => (None, None),
        },
    };
    GpuMetrics {
        temp: match t0 {
            Some(t) => Some(t),
            None => sensor_temp,
        },
        usage: u0,
    }
}

/// Merge the GPU readings of the sources, in order of preference.
pub fn merge_gpu_metrics<T: Copy>(
    nvidia: Option<GpuMetrics<T>>,
    amd: Option<GpuMetrics<T>>,
    sensor_temp: Option<T>,
) -> (m: GpuMetrics<T>)
    ensures
        m == merged_gpu(nvidia, amd, sensor_temp),
{
    let (mut temp, mut usage) = match nvidia {
        Some(n) => (n.temp, n.usage),
        None => (None, None),
    };
    if nvidia.is_none() && (temp.is_none() || usage.is_none()) {
        if let Some(a) = amd {
            if temp.is_none() {
                temp = a.temp;
            }
            if usage.is_none() {
                usage = a.usage;
            }
        }
    }
    if temp.is_none() {
        temp = sensor_temp;
    }
    GpuMetrics { temp, usage }
}

/// The metrics of the first AMD card that reports a temperature or a usage,
/// among those found in order; nothing when none does.
pub fn first_reporting_gpu<T: Copy>(cards: &Vec<GpuMetrics<T>>) -> (m: GpuMetrics<T>)
    ensures
        (exists|i: int| 0 <= i < cards@.len() && (cards@[i].temp is Some || cards@[i].usage is Some))
            ==> exists|i: int|
            0 <= i < cards@.len() && m == cards@[i] && (m.temp is Some || m.usage is Some)
                && forall|j: int| 0 <= j < i ==> cards@[j].temp is None && cards@[j].usage is None,
        (forall|i: int| 0 <= i < cards@.len() ==> cards@[i].temp is None && cards@[i].usage is None)
            ==> m.temp is None && m.usage is None,
{
    let mut i: usize = 0;
    while i < cards.len()
        invariant
            i <= cards@.len(),
            forall|j: int| 0 <= j < i ==> cards@[j].temp is None && cards@[j].usage is None,
        decreases cards@.len() - i,
    {
        if cards[i].temp.is_some() || cards[i].usage.is_some() {
            return cards[i];
        }
        i = i + 1;
    }
    GpuMetrics { temp: None, usage: None }
}

} // verus!
