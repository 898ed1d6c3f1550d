//! The widget catalog and the editable state of the widgets: descriptors,
//! the registry by type id, categories, fonts, and the settings that the
//! property editor reads and writes.
use vstd::prelude::*;

use crate::names::chars_equal;
use crate::text::str_chars;

verus! {

/// Metadata describing a widget type for the catalog UI.
#[derive(Debug, Clone, Copy)]
pub struct WidgetDescriptor {
    /// Human-readable name shown in the catalog.
    pub name: &'static str,
    /// Category for the catalog dropdown.
    pub category: &'static str,
    /// Default size in LCD pixels when first placed.
    pub default_size: (u32, u32),
}

/// Canonical registry entry for a widget type.
#[derive(Debug, Clone, Copy)]
pub struct WidgetSpec {
    pub type_id: &'static str,
    pub descriptor: WidgetDescriptor,
}

/// Number of widget types.
pub open spec fn registry_len() -> nat {
    12
}

/// Type id of widget type `i`.
pub open spec fn registry_type_id(i: int) -> &'static str {
    if i == 0 {
        "free_text"
    } else if i == 1 {
        "h_line"
    } else if i == 2 {
        "v_line"
    } else if i == 3 {
        "circle"
    } else if i == 4 {
        "filled_circle"
    } else if i == 5 {
        "clock"
    } else if i == 6 {
        "date"
    } else if i == 7 {
        "cpu_usage"
    } else if i == 8 {
        "cpu_temp"
    } else if i == 9 {
        "ram_usage"
    } else if i == 10 {
        "gpu_temp"
    } else {
        "gpu_usage"
    }
}

/// Catalog name of widget type `i`.
pub open spec fn registry_name(i: int) -> &'static str {
    if i == 0 {
        "Free Text"
    } else if i == 1 {
        "Horizontal Line"
    } else if i == 2 {
        "Vertical Line"
    } else if i == 3 {
        "Circle"
    } else if i == 4 {
        "Filled Circle"
    } else if i == 5 {
        "Time"
    } else if i == 6 {
        "Date"
    } else if i == 7 {
        "CPU Usage"
    } else if i == 8 {
        "CPU Temp"
    } else if i == 9 {
        "RAM Usage"
    } else if i == 10 {
        "GPU Temp"
    } else {
        "GPU Usage"
    }
}

/// Category of widget type `i`.
pub open spec fn registry_category(i: int) -> &'static str {
    if i < 5 {
        "Static"
    } else if i < 7 {
        "Datetime"
    } else {
        "System Metrics"
    }
}

/// Default size of widget type `i`.
pub open spec fn registry_default_size(i: int) -> (u32, u32) {
    if i == 0 {
        (80, 28)
    } else if i == 1 {
        (120, 3)
    } else if i == 2 {
        (3, 120)
    } else if i == 3 {
        (60, 60)
    } else if i == 4 {
        (40, 40)
    } else if i == 5 {
        (120, 40)
    } else if i == 6 {
        (130, 35)
    } else if i == 9 {
        (80, 30)
    } else {
        (50, 30)
    }
}

/// `spec` is widget type `i` of the registry.
pub open spec fn is_registry_spec(spec: WidgetSpec, i: int) -> bool {
    &&& 0 <= i < registry_len()
    &&& spec.type_id == registry_type_id(i)
    &&& spec.descriptor.name == registry_name(i)
    &&& spec.descriptor.category == registry_category(i)
    &&& spec.descriptor.default_size == registry_default_size(i)
}

fn descriptor(name: &'static str, category: &'static str, w: u32, h: u32) -> (d: WidgetDescriptor)
    ensures
        d.name == name,
        d.category == category,
        d.default_size == (w, h),
{
    WidgetDescriptor { name, category, default_size: (w, h) }
}

/// Descriptor of the free text widget.
pub fn free_text_descriptor() -> (d: WidgetDescriptor)
    ensures
        d.name == registry_name(0) && d.category == registry_category(0) && d.default_size
            == registry_default_size(0),
{
    descriptor("Free Text", "Static", 80, 28)
}

/// Descriptor of the horizontal line widget.
pub fn horizontal_line_descriptor() -> (d: WidgetDescriptor)
    ensures
        d.name == registry_name(1) && d.category == registry_category(1) && d.default_size
            == registry_default_size(1),
{
    descriptor("Horizontal Line", "Static", 120, 3)
}

/// Descriptor of the vertical line widget.
pub fn vertical_line_descriptor() -> (d: WidgetDescriptor)
    ensures
        d.name == registry_name(2) && d.category == registry_category(2) && d.default_size
            == registry_default_size(2),
{
    descriptor("Vertical Line", "Static", 3, 120)
}

/// Descriptor of the ring widget.
pub fn circle_gauge_descriptor() -> (d: WidgetDescriptor)
    ensures
        d.name == registry_name(3) && d.category == registry_category(3) && d.default_size
            == registry_default_size(3),
{
    descriptor("Circle", "Static", 60, 60)
}

/// Descriptor of the filled circle widget.
pub fn filled_circle_descriptor() -> (d: WidgetDescriptor)
    ensures
        d.name == registry_name(4) && d.category == registry_category(4) && d.default_size
            == registry_default_size(4),
{
    descriptor("Filled Circle", "Static", 40, 40)
}

/// Descriptor of the clock widget.
pub fn clock_descriptor() -> (d: WidgetDescriptor)
    ensures
        d.name == registry_name(5) && d.category == registry_category(5) && d.default_size
            == registry_default_size(5),
{
    descriptor("Time", "Datetime", 120, 40)
}

/// Descriptor of the date widget.
pub fn date_descriptor() -> (d: WidgetDescriptor)
    ensures
        d.name == registry_name(6) && d.category == registry_category(6) && d.default_size
            == registry_default_size(6),
{
    descriptor("Date", "Datetime", 130, 35)
}

/// All widget types, in catalog order.
pub fn widget_registry() -> (specs: Vec<WidgetSpec>)
    ensures
        specs@.len() == registry_len(),
        forall|i: int| 0 <= i < registry_len() ==> is_registry_spec(#[trigger] specs@[i], i),
{
    let mut specs: Vec<WidgetSpec> = Vec::new();
    specs.push(WidgetSpec { type_id: "free_text", descriptor: free_text_descriptor() });
    specs.push(WidgetSpec { type_id: "h_line", descriptor: horizontal_line_descriptor() });
    specs.push(WidgetSpec { type_id: "v_line", descriptor: vertical_line_descriptor() });
    specs.push(WidgetSpec { type_id: "circle", descriptor: circle_gauge_descriptor() });
    specs.push(WidgetSpec { type_id: "filled_circle", descriptor: filled_circle_descriptor() });
    specs.push(WidgetSpec { type_id: "clock", descriptor: clock_descriptor() });
    specs.push(WidgetSpec { type_id: "date", descriptor: date_descriptor() });
    specs.push(
        WidgetSpec {
            type_id: "cpu_usage",
            descriptor: descriptor("CPU Usage", "System Metrics", 50, 30),
        },
    );
    specs.push(
        WidgetSpec {
            type_id: "cpu_temp",
            descriptor: descriptor("CPU Temp", "System Metrics", 50, 30),
        },
    );
    specs.push(
        WidgetSpec {
            type_id: "ram_usage",
            descriptor: descriptor("RAM Usage", "System Metrics", 80, 30),
        },
    );
    specs.push(
        WidgetSpec {
            type_id: "gpu_temp",
            descriptor: descriptor("GPU Temp", "System Metrics", 50, 30),
        },
    );
    specs.push(
        WidgetSpec {
            type_id: "gpu_usage",
            descriptor: descriptor("GPU Usage", "System Metrics", 50, 30),
        },
    );
    specs
}

/// All available widget types for the catalog.
pub fn catalog() -> (specs: Vec<WidgetSpec>)
    ensures
        specs@.len() == registry_len(),
        forall|i: int| 0 <= i < registry_len() ==> is_registry_spec(#[trigger] specs@[i], i),
{
    widget_registry()
}

/// Whether two string slices hold the same characters.
pub fn str_equal(a: &str, b: &str) -> (eq: bool)
    ensures
        eq == (a@ == b@),
{
    let x = str_chars(a);
    let y = str_chars(b);
    chars_equal(&x, &y)
}

/// The registry entry for a type id: the first one with that id.
pub fn spec_by_type_id(type_id: &str) -> (found: Option<WidgetSpec>)
    ensures
        found is None <==> forall|i: int| 0 <= i < registry_len() ==> registry_type_id(i)@ != type_id@,
        found matches Some(s) ==> exists|i: int|
            #![trigger registry_type_id(i)]
            is_registry_spec(s, i) && registry_type_id(i)@ == type_id@ && forall|j: int|
                0 <= j < i ==> registry_type_id(j)@ != type_id@,
{
    let specs = widget_registry();
    let mut i: usize = 0;
    while i < specs.len()
        invariant
            specs@.len() == registry_len(),
            forall|k: int| 0 <= k < registry_len() ==> is_registry_spec(#[trigger] specs@[k], k),
            forall|k: int| 0 <= k < i ==> registry_type_id(k)@ != type_id@,
        decreases specs@.len() - i,
    {
        if str_equal(specs[i].type_id, type_id) {
            assert(registry_type_id(i as int)@ == type_id@);
            return Some(specs[i]);
        }
        i = i + 1;
    }
    None
}

/// The distinct elements of `s[..n]` in order of first appearance, compared
/// by their characters.
pub open spec fn distinct_prefix(s: Seq<&'static str>, n: int) -> Seq<&'static str>
    decreases n,
{
    if n <= 0 {
        Seq::empty()
    } else {
        let u = distinct_prefix(s, n - 1);
        if exists|k: int| 0 <= k < u.len() && u[k]@ == s[n - 1]@ {
            u
        } else {
            u.push(s[n - 1])
        }
    }
}

/// The categories of the catalog entries, in catalog order.
pub open spec fn spec_categories(catalog: Seq<WidgetSpec>) -> Seq<&'static str> {
    catalog.map_values(|s: WidgetSpec| s.descriptor.category)
}

/// All unique category names, in display order (order of first appearance).
pub fn categories(catalog: &Vec<WidgetSpec>) -> (cats: Vec<&'static str>)
    ensures
        cats@ == distinct_prefix(spec_categories(catalog@), catalog@.len() as int),
{
    let ghost all = spec_categories(catalog@);
    let mut cats: Vec<&'static str> = Vec::new();
    let mut i: usize = 0;
    while i < catalog.len()
        invariant
            i <= catalog@.len(),
            all == spec_categories(catalog@),
            cats@ == distinct_prefix(all, i as int),
        decreases catalog@.len() - i,
    {
        let cat = catalog[i].descriptor.category;
        let mut found = false;
        let mut k: usize = 0;
        while k < cats.len()
            invariant
                k <= cats@.len(),
                found == exists|j: int| 0 <= j < k && cats@[j]@ == cat@,
            decreases cats@.len() - k,
        {
            if str_equal(cats[k], cat) {
                found = true;
            }
            k = k + 1;
        }
        assert(all[i as int] == cat);
        if !found {
            cats.push(cat);
        }
        i = i + 1;
    }
    cats
}

/// The category lists that `categories` gives hold no name twice, and hold
/// every category of the catalog.
pub proof fn lemma_categories_distinct_and_complete(s: Seq<&'static str>, n: int)
    requires
        0 <= n <= s.len(),
    ensures
        forall|a: int, b: int|
            0 <= a < b < distinct_prefix(s, n).len() ==> distinct_prefix(s, n)[a]@
                != distinct_prefix(s, n)[b]@,
        forall|k: int|
            0 <= k < n ==> exists|j: int|
                0 <= j < distinct_prefix(s, n).len() && distinct_prefix(s, n)[j]@ == (#[trigger] s[k])@,
        forall|j: int|
            0 <= j < distinct_prefix(s, n).len() ==> exists|k: int|
                0 <= k < n && #[trigger] distinct_prefix(s, n)[j] == s[k],
    decreases n,
{
    if n > 0 {
        lemma_categories_distinct_and_complete(s, n - 1);
        let u = distinct_prefix(s, n - 1);
        let d = distinct_prefix(s, n);
        assert forall|k: int| 0 <= k < n implies exists|j: int|
            0 <= j < d.len() && d[j]@ == (#[trigger] s[k])@ by {
            if k < n - 1 {
                let j = choose|j: int| 0 <= j < u.len() && u[j]@ == s[k]@;
                assert(d[j] == u[j]);
            } else if exists|m: int| 0 <= m < u.len() && u[m]@ == s[n - 1]@ {
                let m = choose|m: int| 0 <= m < u.len() && u[m]@ == s[n - 1]@;
                assert(d[m] == u[m]);
            } else {
                assert(d[u.len() as int] == s[n - 1]);
            }
        }
        assert forall|j: int| 0 <= j < d.len() implies exists|k: int|
            0 <= k < n && #[trigger] d[j] == s[k] by {
            if j < u.len() {
                let k = choose|k: int| 0 <= k < n - 1 && #[trigger] u[j] == s[k];
                assert(d[j] == s[k]);
            } else {
                assert(d[j] == s[n - 1]);
            }
        }
    }
}

/// The default font name.
pub const DEFAULT_FONT: &'static str = "Inter";

/// The font names, in display order.
pub open spec fn spec_font_names() -> Seq<&'static str> {
    seq![
        "Inter",
        "Inter Bold",
        "Roboto",
        "Roboto Light",
        "Roboto Bold",
        "Arial",
        "Square721 Bold",
        "Square721",
        "AvantGarde",
        "CityD Bold",
        "Metrofont",
        "Dokchamp",
        "Transist",
        "Togalite Bold",
        "DigitalDream",
        "PixelSquare",
        "Bitsumishi",
        "Balbes",
        "Achron",
        "Andes",
        "BoboBlack",
        "Fraiche",
        "Kingsoft Cloud",
        "Source Han Sans",
        "SWZ911",
    ]
}

/// All font names, in display order.
pub fn font_names() -> (names: Vec<&'static str>)
    ensures
        names@ == spec_font_names(),
{
    let mut names: Vec<&'static str> = Vec::new();
    names.push("Inter");
    names.push("Inter Bold");
    names.push("Roboto");
    names.push("Roboto Light");
    names.push("Roboto Bold");
    names.push("Arial");
    names.push("Square721 Bold");
    names.push("Square721");
    names.push("AvantGarde");
    names.push("CityD Bold");
    names.push("Metrofont");
    names.push("Dokchamp");
    names.push("Transist");
    names.push("Togalite Bold");
    names.push("DigitalDream");
    names.push("PixelSquare");
    names.push("Bitsumishi");
    names.push("Balbes");
    names.push("Achron");
    names.push("Andes");
    names.push("BoboBlack");
    names.push("Fraiche");
    names.push("Kingsoft Cloud");
    names.push("Source Han Sans");
    names.push("SWZ911");
    assert(names@ =~= spec_font_names());
    names
}

/// Position of a font in `names`: the first one with that name, or the
/// default font (position 0) when there is none.
pub open spec fn font_position(names: Seq<&'static str>, name: Seq<char>) -> int {
    if exists|i: int| 0 <= i < names.len() && names[i]@ == name {
        choose|i: int|
            0 <= i < names.len() && names[i]@ == name && forall|j: int|
                0 <= j < i ==> names[j]@ != name
    } else {
        0
    }
}

/// Look up a font by name: the index of its data in the font list, falling
/// back to the default font when the name is unknown.
pub fn font_index(name: &str) -> (i: usize)
    ensures
        i == font_position(spec_font_names(), name@),
        i < 25,
{
    let names = font_names();
    let mut i: usize = 0;
    while i < names.len()
        invariant
            names@ == spec_font_names(),
            forall|j: int| 0 <= j < i ==> names@[j]@ != name@,
        decreases names@.len() - i,
    {
        if str_equal(names[i], name) {
            proof {
                let c = choose|c: int|
                    0 <= c < names@.len() && names@[c]@ == name@ && forall|j: int|
                        0 <= j < c ==> names@[j]@ != name@;
                assert(c == i) by {
                    if c < i {
                    }
                    if c > i {
                    }
                }
            }
            return i;
        }
        i = i + 1;
    }
    0
}

/// A font the text widgets can use: its name and its file's bytes.
pub struct FontEntry {
    pub name: &'static str,
    pub data: Vec<u8>,
}

/// The names of the fonts, in order.
pub open spec fn entry_names(fonts: Seq<FontEntry>) -> Seq<&'static str> {
    fonts.map_values(|f: FontEntry| f.name)
}

/// The data of the font named `name`: the first entry with that name, or
/// the first font (the default) when none has it.
pub fn font_data<'a>(fonts: &'a Vec<FontEntry>, name: &str) -> (data: &'a Vec<u8>)
    requires
        fonts@.len() > 0,
    ensures
        *data == fonts@[font_position(entry_names(fonts@), name@)].data,
{
    let ghost names = entry_names(fonts@);
    let mut i: usize = 0;
    while i < fonts.len()
        invariant
            names == entry_names(fonts@),
            names.len() == fonts@.len(),
            forall|j: int| 0 <= j < i ==> names[j]@ != name@,
        decreases fonts@.len() - i,
    {
        if str_equal(fonts[i].name, name) {
            proof {
                assert(names[i as int] == fonts@[i as int].name);
                let c = choose|c: int|
                    0 <= c < names.len() && names[c]@ == name@ && forall|j: int|
                        0 <= j < c ==> names[j]@ != name@;
                assert(c == i) by {
                    if c < i {
                    }
                    if c > i {
                    }
                }
            }
            return &fonts[i].data;
        }
        proof {
            assert(names[i as int] == fonts@[i as int].name);
        }
        i = i + 1;
    }
    &fonts[0].data
}

} // verus!
