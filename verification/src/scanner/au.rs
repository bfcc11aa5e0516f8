//! Audio Units of the CoreAudio component registry.
use vstd::prelude::*;
use vstd::slice::slice_subrange;

use crate::bytes::{until_zero, zero_from};
use crate::scanner::{plugin_models, PluginFormat, PluginModel, ScanError, ScannedPlugin};
use crate::text::{chars_of, matches_at, opt_text, same_text, stands_at, text_of, utf8_text};

verus! {

/// The byte at place `k`, from the highest, of a code.
pub open spec fn code_byte(t: u32, k: int) -> int {
    if k == 0 {
        t as int / 0x100_0000
    } else if k == 1 {
        t as int / 0x1_0000 % 0x100
    } else if k == 2 {
        t as int / 0x100 % 0x100
    } else {
        t as int % 0x100
    }
}

/// The digit at place `k`, from the highest, of a code in hexadecimal.
pub open spec fn hex_digit(t: u32, k: int) -> int {
    if k % 2 == 0 {
        code_byte(t, k / 2) / 16
    } else {
        code_byte(t, k / 2) % 16
    }
}

/// The character of a hexadecimal digit.
pub open spec fn hex_char(d: int) -> char {
    if d < 10 {
        (d + 48) as u8 as char
    } else {
        (d + 87) as u8 as char
    }
}

/// Whether a byte is an ASCII character that can be seen.
pub open spec fn is_graphic(b: int) -> bool {
    0x21 <= b <= 0x7e
}

/// A component code as text: its four characters, or in hexadecimal where one of
/// them cannot be seen.
pub open spec fn ostype_text(t: u32) -> Seq<char> {
    if is_graphic(code_byte(t, 0)) && is_graphic(code_byte(t, 1)) && is_graphic(code_byte(t, 2))
        && is_graphic(code_byte(t, 3)) {
        Seq::new(4, |k: int| code_byte(t, k) as u8 as char)
    } else {
        hex_text(t)
    }
}

/// The category of a component type.
pub open spec fn type_category(code: Seq<char>) -> Option<Seq<char>> {
    if code == "aufx"@ {
        Some("Fx"@)
    } else if code == "aumu"@ {
        Some("Instrument"@)
    } else if code == "aumi"@ {
        Some("MIDI Processor"@)
    } else if code == "auou"@ {
        Some("Output"@)
    } else if code == "aumf"@ {
        Some("Mixer"@)
    } else if code == "aupn"@ {
        Some("Panner"@)
    } else if code == "augn"@ {
        Some("Generator"@)
    } else {
        None
    }
}

/// The first place at or after `i` at which a colon and a space stand.
pub open spec fn separator_from(s: Seq<char>, i: int) -> Option<int>
    decreases s.len() - i,
{
    if i >= s.len() {
        None
    } else if stands_at(s, ": "@, i) {
        Some(i)
    } else {
        separator_from(s, i + 1)
    }
}

/// The name and the vendor in a full name such as `Apple: AUDelay`.
pub open spec fn name_and_vendor(full: Seq<char>) -> (Seq<char>, Option<Seq<char>>) {
    match separator_from(full, 0) {
        Some(i) => (full.skip(i + 2), Some(full.take(i))),
        None => (full, None),
    }
}

/// The record of a registered component: its codes, its full name where it has
/// one, and the path of its bundle where it has one.
pub open spec fn au_plugin(
    component_type: u32,
    sub_type: u32,
    manufacturer: u32,
    full_name: Option<Seq<char>>,
    path: Option<Seq<char>>,
    file_mtime: Option<i64>,
) -> PluginModel {
    let class_id = ostype_text(component_type) + "/"@ + ostype_text(sub_type) + "/"@ + ostype_text(
        manufacturer,
    );
    let named = match full_name {
        Some(s) => name_and_vendor(s),
        None => (class_id, None),
    };
    PluginModel {
        name: named.0,
        vendor: named.1,
        version: None,
        category: type_category(ostype_text(component_type)),
        class_id: Some(class_id),
        path: match path {
            Some(p) => p,
            None => Seq::empty(),
        },
        format: PluginFormat::Au,
        file_mtime,
    }
}

/// The character of a hexadecimal digit.
fn to_hex_char(d: u8) -> (c: char)
    requires
        d < 16,
    ensures
        c == hex_char(d as int),
{
    if d < 10 {
        (d + 48) as char
    } else {
        (d + 87) as char
    }
}

/// A code in hexadecimal.
pub open spec fn hex_text(t: u32) -> Seq<char> {
    "0x"@ + Seq::new(8, |k: int| hex_char(hex_digit(t, k)))
}

/// A code in hexadecimal.
pub fn code_in_hex(t: u32) -> (out: String)
    ensures
        out@ == hex_text(t),
{
    let b0: u8 = (t / 0x100_0000) as u8;
    let b1: u8 = (t / 0x1_0000 % 0x100) as u8;
    let b2: u8 = (t / 0x100 % 0x100) as u8;
    let b3: u8 = (t % 0x100) as u8;
    assert(b0 == code_byte(t, 0) && b1 == code_byte(t, 1) && b2 == code_byte(t, 2) && b3
        == code_byte(t, 3));
    let mut out = "0x".to_owned();
    let ghost head = out@;
    out.push(to_hex_char(b0 / 16));
    out.push(to_hex_char(b0 % 16));
    out.push(to_hex_char(b1 / 16));
    out.push(to_hex_char(b1 % 16));
    out.push(to_hex_char(b2 / 16));
    out.push(to_hex_char(b2 % 16));
    out.push(to_hex_char(b3 / 16));
    out.push(to_hex_char(b3 % 16));
    assert(out@ =~= head + Seq::new(8, |k: int| hex_char(hex_digit(t, k))));
    out
}

/// A component code as text: its four characters, or in hexadecimal where one of
/// them cannot be seen.
pub fn ostype_to_str(t: u32) -> (out: String)
    ensures
        out@ == ostype_text(t),
{
    let b0: u8 = (t / 0x100_0000) as u8;
    let b1: u8 = (t / 0x1_0000 % 0x100) as u8;
    let b2: u8 = (t / 0x100 % 0x100) as u8;
    let b3: u8 = (t % 0x100) as u8;
    assert(b0 == code_byte(t, 0) && b1 == code_byte(t, 1) && b2 == code_byte(t, 2) && b3
        == code_byte(t, 3));
    let graphic = 0x21 <= b0 && b0 <= 0x7e && 0x21 <= b1 && b1 <= 0x7e && 0x21 <= b2 && b2 <= 0x7e
        && 0x21 <= b3 && b3 <= 0x7e;
    if graphic {
        let mut out = String::new();
        out.push(b0 as char);
        out.push(b1 as char);
        out.push(b2 as char);
        out.push(b3 as char);
        assert(out@ =~= ostype_text(t));
        out
    } else {
        code_in_hex(t)
    }
}

/// The category of a component type.
pub fn au_type_to_category(type_code: &str) -> (out: Option<&'static str>)
    ensures
        crate::text::opt_str(out) == type_category(type_code@),
{
    if same_text(type_code, "aufx") {
        Some("Fx")
    } else if same_text(type_code, "aumu") {
        Some("Instrument")
    } else if same_text(type_code, "aumi") {
        Some("MIDI Processor")
    } else if same_text(type_code, "auou") {
        Some("Output")
    } else if same_text(type_code, "aumf") {
        Some("Mixer")
    } else if same_text(type_code, "aupn") {
        Some("Panner")
    } else if same_text(type_code, "augn") {
        Some("Generator")
    } else {
        None
    }
}

/// The name and the vendor in a full name such as `Apple: AUDelay`.
pub fn split_au_name(full_name: &str) -> (out: (String, Option<String>))
    ensures
        (out.0@, opt_text(out.1)) == name_and_vendor(full_name@),
{
    let cs = chars_of(full_name);
    let all = cs.as_slice();
    let sep = chars_of(": ");
    let n: usize = all.len();
    let mut i: usize = 0;
    while i < n
        invariant
            all@ == full_name@,
            n == all@.len(),
            sep@ == ": "@,
            i <= n,
            separator_from(full_name@, 0) == separator_from(full_name@, i as int),
        decreases n - i,
    {
        if matches_at(all, sep.as_slice(), i) {
            proof {
                reveal_strlit(": ");
            }
            let vendor = text_of(slice_subrange(all, 0, i));
            let name = text_of(slice_subrange(all, i + 2, n));
            assert(vendor@ =~= full_name@.take(i as int));
            assert(name@ =~= full_name@.skip(i + 2));
            return (name, Some(vendor));
        }
        i = i + 1;
    }
    (full_name.to_owned(), None)
}

/// The record of a registered component: its codes, its full name where it has
/// one, and the path of its bundle where it has one.
pub fn registry_plugin(
    component_type: u32,
    sub_type: u32,
    manufacturer: u32,
    full_name: Option<&str>,
    path: Option<&str>,
    file_mtime: Option<i64>,
) -> (out: ScannedPlugin)
    ensures
        out@ == au_plugin(
            component_type,
            sub_type,
            manufacturer,
            crate::text::opt_str(full_name),
            crate::text::opt_str(path),
            file_mtime,
        ),
{
    let type_str = ostype_to_str(component_type);
    let category = match au_type_to_category(type_str.as_str()) {
        Some(c) => Some(c.to_owned()),
        None => None,
    };
    let mut class_id = type_str;
    class_id.append("/");
    class_id.append(ostype_to_str(sub_type).as_str());
    class_id.append("/");
    class_id.append(ostype_to_str(manufacturer).as_str());
    let (name, vendor) = match full_name {
        Some(s) => split_au_name(s),
        None => (class_id.clone(), None),
    };
    let path = match path {
        Some(p) => p.to_owned(),
        None => String::new(),
    };
    ScannedPlugin {
        name,
        vendor,
        version: None,
        category,
        class_id: Some(class_id),
        path,
        format: PluginFormat::Au,
        file_mtime,
    }
}

/// A component of the registry as CoreAudio describes it. Texts are buffers whose
/// content ends at a zero byte.
#[derive(Debug)]
pub struct RegistryComponent {
    pub component_type: u32,
    pub sub_type: u32,
    pub manufacturer: u32,
    /// The full name, where the component has one.
    pub name: Option<Vec<u8>>,
    /// The path of the bundle, where the component has one.
    pub bundle_path: Option<Vec<u8>>,
    /// The time of the bundle's last change in seconds, where it is known.
    pub file_mtime: Option<i64>,
}

/// The text of a buffer. A buffer that is not UTF-8 has none.
pub open spec fn buffer_text(buf: Option<Vec<u8>>) -> Option<Seq<char>> {
    match buf {
        Some(b) => {
            let content = b@.take(zero_from(b@, 0));
            if vstd::utf8::valid_utf8(content) {
                Some(vstd::utf8::decode_utf8(content))
            } else {
                None
            }
        },
        None => None,
    }
}

/// The record of a component of the registry.
pub open spec fn component_plugin(c: RegistryComponent) -> PluginModel {
    au_plugin(
        c.component_type,
        c.sub_type,
        c.manufacturer,
        buffer_text(c.name),
        buffer_text(c.bundle_path),
        c.file_mtime,
    )
}

/// The text of a buffer.
pub fn cfstring_to_rust(buf: &Option<Vec<u8>>) -> (out: Option<String>)
    ensures
        opt_text(out) == buffer_text(*buf),
{
    match buf {
        Some(b) => utf8_text(until_zero(b.as_slice())),
        None => None,
    }
}

/// The records of all components of the registry, in its order. The walk has no errors
/// of its own.
pub fn scan_au_registry(components: &Vec<RegistryComponent>) -> (out: (
    Vec<ScannedPlugin>,
    Vec<ScanError>,
))
    ensures
        plugin_models(out.0@) == components@.map_values(|c: RegistryComponent| component_plugin(c)),
        out.1@.len() == 0,
{
    let mut plugins: Vec<ScannedPlugin> = Vec::new();
    let ghost all = components@.map_values(|c: RegistryComponent| component_plugin(c));
    assert(plugin_models(plugins@) =~= all.take(0));
    for i in 0..components.len()
        invariant
            all == components@.map_values(|c: RegistryComponent| component_plugin(c)),
            plugin_models(plugins@) == all.take(i as int),
    {
        let c = &components[i];
        let ghost before = plugin_models(plugins@);
        let name = cfstring_to_rust(&c.name);
        let path = cfstring_to_rust(&c.bundle_path);
        let plugin = registry_plugin(
            c.component_type,
            c.sub_type,
            c.manufacturer,
            match &name {
                Some(s) => Some(s.as_str()),
                None => None,
            },
            match &path {
                Some(s) => Some(s.as_str()),
                None => None,
            },
            c.file_mtime,
        );
        assert(plugin@ == all[i as int]);
        plugins.push(plugin);
        assert(plugin_models(plugins@) =~= before.push(all[i as int]));
        assert(all.take(i + 1) =~= all.take(i as int).push(all[i as int]));
    }
    assert(all.take(all.len() as int) =~= all);
    (plugins, Vec::new())
}

} // verus!
