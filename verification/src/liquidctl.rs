//! The devices driven through the `liquidctl` command-line tool: their
//! registry, the lookup by USB ids and the command line that shows an image.
use vstd::prelude::*;

use crate::text::{replace_all, replace_all_exec, str_chars, string_from_chars};
use crate::types::{Resolution, Rotation};

verus! {

/// Definition of a liquidctl-backed LCD device.
///
/// Adding a new device = adding one entry to [`device_registry`].
#[derive(Debug, Clone)]
pub struct LiquidctlDeviceDef {
    pub name: &'static str,
    pub vendor_id: u16,
    pub product_id: u16,
    pub resolution: Resolution,
    pub rotation: Rotation,
    /// CLI args for `liquidctl` to send a static image.
    /// `{path}` is replaced with the image file path at runtime.
    pub set_screen_args: Vec<&'static str>,
}

/// Number of registry entries.
pub open spec fn registry_len() -> nat {
    6
}

/// Display name of registry entry `i`.
pub open spec fn registry_name(i: int) -> &'static str {
    if i == 0 {
        "NZXT Kraken Z"
    } else if i == 1 {
        "NZXT Kraken 2023"
    } else if i == 2 {
        "NZXT Kraken 2023 Elite"
    } else if i == 3 {
        "NZXT Kraken 2024 Elite RGB"
    } else if i == 4 {
        "NZXT Kraken 2024 Plus"
    } else {
        "MSI MPG CoreLiquid K360"
    }
}

/// USB vendor id of registry entry `i`.
pub open spec fn registry_vendor_id(i: int) -> u16 {
    if i < 5 {
        0x1E71
    } else {
        0x0DB0
    }
}

/// USB product id of registry entry `i`.
pub open spec fn registry_product_id(i: int) -> u16 {
    if i == 0 {
        0x3008
    } else if i == 1 {
        0x300E
    } else if i == 2 {
        0x300C
    } else if i == 3 {
        0x3012
    } else if i == 4 {
        0x3014
    } else {
        0xB130
    }
}

/// LCD resolution of registry entry `i`.
pub open spec fn registry_resolution(i: int) -> Resolution {
    if i == 0 {
        Resolution { width: 320, height: 320 }
    } else if i == 1 || i == 4 {
        Resolution { width: 240, height: 240 }
    } else if i == 2 || i == 3 {
        Resolution { width: 640, height: 640 }
    } else {
        Resolution { width: 240, height: 320 }
    }
}

/// The argument that carries the image path in registry entry `i`.
pub open spec fn registry_path_arg(i: int) -> &'static str {
    if i < 5 {
        "{path}"
    } else {
        "1;0;{path}"
    }
}

/// The liquidctl argument template of registry entry `i`.
pub open spec fn registry_args(i: int) -> Seq<&'static str> {
    if i < 5 {
        seq!["set", "lcd", "screen", "static", registry_path_arg(i)]
    } else {
        seq!["set", "lcd", "screen", "image", registry_path_arg(i)]
    }
}

/// `d` is registry entry `i`, field by field.
pub open spec fn is_registry_entry(d: LiquidctlDeviceDef, i: int) -> bool {
    &&& 0 <= i < registry_len()
    &&& d.name == registry_name(i)
    &&& d.vendor_id == registry_vendor_id(i)
    &&& d.product_id == registry_product_id(i)
    &&& d.resolution == registry_resolution(i)
    &&& d.rotation == Rotation::Deg0
    &&& d.set_screen_args@ == registry_args(i)
}

/// The placeholder replaced by the image path: `{path}`.
pub open spec fn path_placeholder() -> Seq<char> {
    seq!['{', 'p', 'a', 't', 'h', '}']
}

fn registry_entry(
    name: &'static str,
    vendor_id: u16,
    product_id: u16,
    width: u32,
    height: u32,
    mode: &'static str,
    path_arg: &'static str,
) -> (d: LiquidctlDeviceDef)
    ensures
        d.name == name,
        d.vendor_id == vendor_id,
        d.product_id == product_id,
        d.resolution == (Resolution { width, height }),
        d.rotation == Rotation::Deg0,
        d.set_screen_args@ == seq!["set", "lcd", "screen", mode, path_arg],
{
    let mut args: Vec<&'static str> = Vec::new();
    args.push("set");
    args.push("lcd");
    args.push("screen");
    args.push(mode);
    args.push(path_arg);
    assert(args@ =~= seq!["set", "lcd", "screen", mode, path_arg]);
    LiquidctlDeviceDef {
        name,
        vendor_id,
        product_id,
        resolution: Resolution::new(width, height),
        rotation: Rotation::Deg0,
        set_screen_args: args,
    }
}

/// All known liquidctl-backed LCD devices, in lookup order.
pub fn device_registry() -> (defs: Vec<LiquidctlDeviceDef>)
    ensures
        defs@.len() == registry_len(),
        forall|i: int| 0 <= i < registry_len() ==> is_registry_entry(#[trigger] defs@[i], i),
{
    let mut defs: Vec<LiquidctlDeviceDef> = Vec::new();
    // NZXT Kraken Z (Z53/Z63/Z73)
    defs.push(registry_entry("NZXT Kraken Z", 0x1E71, 0x3008, 320, 320, "static", "{path}"));
    // NZXT Kraken 2023
    defs.push(registry_entry("NZXT Kraken 2023", 0x1E71, 0x300E, 240, 240, "static", "{path}"));
    // NZXT Kraken 2023 Elite
    defs.push(
        registry_entry("NZXT Kraken 2023 Elite", 0x1E71, 0x300C, 640, 640, "static", "{path}"),
    );
    // NZXT Kraken 2024 Elite RGB
    defs.push(
        registry_entry("NZXT Kraken 2024 Elite RGB", 0x1E71, 0x3012, 640, 640, "static", "{path}"),
    );
    // NZXT Kraken 2024 Plus
    defs.push(
        registry_entry("NZXT Kraken 2024 Plus", 0x1E71, 0x3014, 240, 240, "static", "{path}"),
    );
    // MSI MPG CoreLiquid K360
    defs.push(
        registry_entry("MSI MPG CoreLiquid K360", 0x0DB0, 0xB130, 240, 320, "image", "1;0;{path}"),
    );
    defs
}

/// Registry entry `i` is for the USB device `vendor_id:product_id`.
pub open spec fn registry_matches(i: int, vendor_id: u16, product_id: u16) -> bool {
    registry_vendor_id(i) == vendor_id && registry_product_id(i) == product_id
}

/// Index of the first registry entry for `vendor_id:product_id`, if any.
pub open spec fn first_registry_match(vendor_id: u16, product_id: u16) -> Option<int> {
    if exists|i: int| 0 <= i < registry_len() && registry_matches(i, vendor_id, product_id) {
        Some(
            choose|i: int|
                0 <= i < registry_len() && registry_matches(i, vendor_id, product_id) && forall|
                    j: int,
                | 0 <= j < i ==> !registry_matches(j, vendor_id, product_id),
        )
    } else {
        None
    }
}

/// Match a VID/PID pair against the liquidctl device registry.
/// Returns the first matching device definition, or `None`.
pub fn match_liquidctl_device(vendor_id: u16, product_id: u16) -> (found: Option<
    LiquidctlDeviceDef,
>)
    ensures
        found is None <==> forall|i: int|
            0 <= i < registry_len() ==> !registry_matches(i, vendor_id, product_id),
        found matches Some(d) ==> exists|i: int|
            #![trigger registry_matches(i, vendor_id, product_id)]
            registry_matches(i, vendor_id, product_id) && is_registry_entry(d, i) && forall|
                j: int,
            | 0 <= j < i ==> !registry_matches(j, vendor_id, product_id),
        vendor_id == 0x1E71 && product_id == 0x3008 ==> (found matches Some(d) && d.name
            == "NZXT Kraken Z" && d.resolution == (Resolution { width: 320, height: 320 })),
        vendor_id == 0x1E71 && product_id == 0x300E ==> (found matches Some(d) && d.name
            == "NZXT Kraken 2023" && d.resolution == (Resolution { width: 240, height: 240 })),
        vendor_id == 0x1E71 && product_id == 0x300C ==> (found matches Some(d) && d.name
            == "NZXT Kraken 2023 Elite" && d.resolution == (Resolution { width: 640, height: 640 })),
        vendor_id == 0x1E71 && product_id == 0x3012 ==> (found matches Some(d) && d.name
            == "NZXT Kraken 2024 Elite RGB" && d.resolution == (Resolution { width: 640, height: 640 })),
        vendor_id == 0x1E71 && product_id == 0x3014 ==> (found matches Some(d) && d.name
            == "NZXT Kraken 2024 Plus" && d.resolution == (Resolution { width: 240, height: 240 })),
        vendor_id == 0x0DB0 && product_id == 0xB130 ==> (found matches Some(d) && d.name
            == "MSI MPG CoreLiquid K360" && d.resolution == (Resolution { width: 240, height: 320 })),
{
    let mut defs = device_registry();
    let mut i: usize = 0;
    while i < defs.len()
        invariant
            defs@.len() == registry_len(),
            forall|k: int| 0 <= k < registry_len() ==> is_registry_entry(#[trigger] defs@[k], k),
            forall|k: int| 0 <= k < i ==> !registry_matches(k, vendor_id, product_id),
        decreases defs@.len() - i,
    {
        if defs[i].vendor_id == vendor_id && defs[i].product_id == product_id {
            let d = defs.remove(i);
            assert(registry_matches(i as int, vendor_id, product_id));
            return Some(d);
        }
        i = i + 1;
    }
    proof {
        assert(!registry_matches(0, vendor_id, product_id));
        assert(!registry_matches(1, vendor_id, product_id));
        assert(!registry_matches(2, vendor_id, product_id));
        assert(!registry_matches(3, vendor_id, product_id));
        assert(!registry_matches(4, vendor_id, product_id));
        assert(!registry_matches(5, vendor_id, product_id));
    }
    None
}

/// The liquidctl arguments of `template` with every `{path}` replaced by `path`.
pub open spec fn liquidctl_args(template: Seq<&'static str>, path: Seq<char>) -> Seq<Seq<char>> {
    template.map_values(|arg: &'static str| replace_all(arg@, path_placeholder(), path))
}

/// Build the liquidctl CLI args for a given device definition and image path:
/// the definition's template with every `{path}` replaced by `path`.
pub fn build_liquidctl_args(def: &LiquidctlDeviceDef, path: &str) -> (args: Vec<String>)
    ensures
        args@.len() == def.set_screen_args@.len(),
        forall|i: int|
            0 <= i < args@.len() ==> #[trigger] args@[i]@ == liquidctl_args(
                def.set_screen_args@,
                path@,
            )[i],
{
    let pattern = str_chars("{path}");
    proof {
        reveal_strlit("{path}");
        assert(pattern@ =~= path_placeholder());
    }
    let replacement = str_chars(path);
    let mut args: Vec<String> = Vec::new();
    let mut i: usize = 0;
    while i < def.set_screen_args.len()
        invariant
            i <= def.set_screen_args@.len(),
            pattern@ == path_placeholder(),
            replacement@ == path@,
            args@.len() == i,
            forall|k: int|
                0 <= k < i ==> #[trigger] args@[k]@ == liquidctl_args(
                    def.set_screen_args@,
                    path@,
                )[k],
        decreases def.set_screen_args@.len() - i,
    {
        let arg = str_chars(def.set_screen_args[i]);
        let replaced = replace_all_exec(&arg, &pattern, &replacement);
        args.push(string_from_chars(&replaced));
        i = i + 1;
    }
    args
}

} // verus!

verus! {

/// The LCD of each supported device, by its USB ids: the Kraken Z is
/// 320x320, the Kraken 2023 and 2024 Plus 240x240, the Kraken 2023 Elite and
/// 2024 Elite RGB 640x640, and the MSI MPG CoreLiquid K360 240 wide and 320
/// high.
pub proof fn lemma_registry_resolution_by_device(i: int)
    requires
        0 <= i < registry_len(),
    ensures
        registry_matches(i, 0x1E71, 0x3008) ==> registry_resolution(i) == (Resolution {
            width: 320,
            height: 320,
        }),
        registry_matches(i, 0x1E71, 0x300E) ==> registry_resolution(i) == (Resolution {
            width: 240,
            height: 240,
        }),
        registry_matches(i, 0x1E71, 0x300C) ==> registry_resolution(i) == (Resolution {
            width: 640,
            height: 640,
        }),
        registry_matches(i, 0x1E71, 0x3012) ==> registry_resolution(i) == (Resolution {
            width: 640,
            height: 640,
        }),
        registry_matches(i, 0x1E71, 0x3014) ==> registry_resolution(i) == (Resolution {
            width: 240,
            height: 240,
        }),
        registry_matches(i, 0x0DB0, 0xB130) ==> registry_resolution(i) == (Resolution {
            width: 240,
            height: 320,
        }),
{
}

/// No two registry entries share a USB vendor/product id pair.
pub proof fn lemma_registry_ids_distinct(i: int, j: int)
    requires
        0 <= i < registry_len(),
        0 <= j < registry_len(),
        i != j,
    ensures
        !(registry_vendor_id(i) == registry_vendor_id(j) && registry_product_id(i)
            == registry_product_id(j)),
{
}

/// Looking up the USB ids of any registry entry finds that very entry.
pub proof fn lemma_registry_entry_found_by_its_ids(i: int)
    requires
        0 <= i < registry_len(),
    ensures
        registry_matches(i, registry_vendor_id(i), registry_product_id(i)),
        forall|j: int|
            0 <= j < registry_len() && j != i ==> !registry_matches(
                j,
                registry_vendor_id(i),
                registry_product_id(i),
            ),
        first_registry_match(registry_vendor_id(i), registry_product_id(i)) == Some(i),
{
    let v = registry_vendor_id(i);
    let p = registry_product_id(i);
    assert(0 <= i < registry_len() && registry_matches(i, v, p));
    let k = choose|k: int|
        0 <= k < registry_len() && registry_matches(k, v, p) && forall|j: int|
            0 <= j < k ==> !registry_matches(j, v, p);
    assert(k == i);
}

/// Every registry entry has a non-empty name, non-zero USB ids, a non-empty
/// LCD and exactly one argument holding the `{path}` placeholder, its last.
pub proof fn lemma_registry_entries_well_formed(i: int)
    requires
        0 <= i < registry_len(),
    ensures
        registry_name(i)@.len() > 0,
        registry_vendor_id(i) != 0,
        registry_product_id(i) != 0,
        registry_resolution(i).width > 0,
        registry_resolution(i).height > 0,
        registry_args(i).len() == 5,
        crate::text::contains_seq(registry_args(i)[4]@, path_placeholder()),
        forall|k: int|
            0 <= k < 4 ==> !crate::text::contains_seq(#[trigger] registry_args(i)[k]@, path_placeholder()),
{
    reveal_strlit("NZXT Kraken Z");
    reveal_strlit("NZXT Kraken 2023");
    reveal_strlit("NZXT Kraken 2023 Elite");
    reveal_strlit("NZXT Kraken 2024 Elite RGB");
    reveal_strlit("NZXT Kraken 2024 Plus");
    reveal_strlit("MSI MPG CoreLiquid K360");
    reveal_strlit("set");
    reveal_strlit("lcd");
    reveal_strlit("screen");
    reveal_strlit("static");
    reveal_strlit("image");
    reveal_strlit("{path}");
    reveal_strlit("1;0;{path}");
    let a = registry_args(i);
    if i < 5 {
        assert(a[4]@.subrange(0, 6) =~= path_placeholder());
        assert(crate::text::occurs_at(a[4]@, path_placeholder(), 0));
    } else {
        assert(a[4]@.subrange(4, 10) =~= path_placeholder());
        assert(crate::text::occurs_at(a[4]@, path_placeholder(), 4));
    }
    assert forall|k: int| 0 <= k < 4 implies !crate::text::contains_seq(
        #[trigger] a[k]@,
        path_placeholder(),
    ) by {
        assert forall|m: int| !crate::text::occurs_at(a[k]@, path_placeholder(), m) by {
            if crate::text::occurs_at(a[k]@, path_placeholder(), m) {
                assert(a[k]@.subrange(m, m + 6)[0] == '{');
            }
        }
    }
}

proof fn lemma_replace_without_brace(s: Seq<char>, path: Seq<char>)
    requires
        forall|k: int| 0 <= k < s.len() ==> s[k] != '{',
    ensures
        replace_all(s, path_placeholder(), path) == s,
    decreases s.len(),
{
    if s.len() > 0 {
        assert(!crate::text::occurs_at(s, path_placeholder(), 0)) by {
            if s.len() >= 6 {
                assert(s.subrange(0, 6)[0] == s[0]);
            }
        }
        lemma_replace_without_brace(s.drop_first(), path);
        assert(s =~= seq![s[0]] + s.drop_first());
    }
}

/// The command line for every registry entry is `set lcd screen <mode>`
/// followed by one argument that holds the image path verbatim (after the
/// fixed `1;0;` prefix for the MSI device), whatever the path is.
pub proof fn lemma_registry_command_lines(i: int, path: Seq<char>)
    requires
        0 <= i < registry_len(),
    ensures
        liquidctl_args(registry_args(i), path) =~= seq![
            "set"@,
            "lcd"@,
            "screen"@,
            registry_args(i)[3]@,
            if i < 5 {
                path
            } else {
                "1;0;"@ + path
            },
        ],
{
    reveal_strlit("set");
    reveal_strlit("lcd");
    reveal_strlit("screen");
    reveal_strlit("static");
    reveal_strlit("image");
    reveal_strlit("{path}");
    reveal_strlit("1;0;{path}");
    reveal_strlit("1;0;");
    let a = registry_args(i);
    lemma_replace_without_brace("set"@, path);
    lemma_replace_without_brace("lcd"@, path);
    lemma_replace_without_brace("screen"@, path);
    lemma_replace_without_brace(a[3]@, path);
    let p = a[4]@;
    let e: Seq<char> = Seq::empty();
    assert(replace_all(e, path_placeholder(), path) == e);
    if i < 5 {
        assert(p.subrange(0, 6) =~= path_placeholder());
        assert(crate::text::occurs_at(p, path_placeholder(), 0));
        assert(p.skip(6) =~= e);
        assert(replace_all(p, path_placeholder(), path) == path + replace_all(p.skip(6), path_placeholder(), path));
        assert(replace_all(p, path_placeholder(), path) =~= path);
    } else {
        let s0 = p;
        let s1 = s0.drop_first();
        let s2 = s1.drop_first();
        let s3 = s2.drop_first();
        let s4 = s3.drop_first();
        assert(!crate::text::occurs_at(s0, path_placeholder(), 0));
        assert(!crate::text::occurs_at(s1, path_placeholder(), 0));
        assert(!crate::text::occurs_at(s2, path_placeholder(), 0));
        assert(!crate::text::occurs_at(s3, path_placeholder(), 0));
        assert(s4 =~= path_placeholder());
        assert(s4.subrange(0, 6) =~= path_placeholder());
        assert(crate::text::occurs_at(s4, path_placeholder(), 0));
        assert(s4.skip(6) =~= e);
        assert(replace_all(s4, path_placeholder(), path) == path + replace_all(s4.skip(6), path_placeholder(), path));
        assert(replace_all(s4, path_placeholder(), path) =~= path);
        let r4 = replace_all(s4, path_placeholder(), path);
        assert(replace_all(s3, path_placeholder(), path) == seq![s3[0]] + r4);
        assert(replace_all(s2, path_placeholder(), path) == seq![s2[0]] + replace_all(s3, path_placeholder(), path));
        assert(replace_all(s1, path_placeholder(), path) == seq![s1[0]] + replace_all(s2, path_placeholder(), path));
        assert(replace_all(s0, path_placeholder(), path) == seq![s0[0]] + replace_all(s1, path_placeholder(), path));
        assert("1;0;"@ =~= seq![s0[0], s1[0], s2[0], s3[0]]);
        assert(replace_all(p, path_placeholder(), path) =~= "1;0;"@ + path);
    }
}

} // verus!
