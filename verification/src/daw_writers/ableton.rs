//! Writer for Ableton Device Group presets (`.adg`).
//!
//! An `.adg` is a gzip-compressed XML file whose root element is an
//! `<Ableton>` wrapper containing a single device or rack.  We emit a
//! `<GroupDevice>` (AudioEffectRack) with one default branch so the file
//! lands as a loadable rack in Ableton's browser.
//!
//! # Plugin state
//! Third-party plugin state (`opaque_state`) is embedded inside the
//! format-appropriate `<*Preset>` element unchanged.  Ableton builtins
//! (format `"Ableton"`) only carry a name + tag in `plugin_identity`; we
//! emit a minimal device element with default parameter state (settings
//! are not preserved, but device ordering is).
use vstd::prelude::*;

use crate::archive::{gzip, gzip_data, gzip_text};
use crate::daw_writers::identities;
use crate::db::{ChainDetail, ChainModel, ChainSlotRow, SlotModel};
use crate::json::{
    member_models, member_text_or, parse_object, text_or, FieldModel, JsonMember,
};
use crate::number::{decimal, decimal_text};
use crate::text::{escape, join, joined, opt_str, same_text, texts, xe};

verus! {

/// The document up to the name of the rack.
pub const RACK_HEAD: &'static str = "<?xml version=\"1.0\" encoding=\"UTF-8\"?>\n<Ableton MajorVersion=\"11\" MinorVersion=\"11.0.0\" Creator=\"Patchbay\" Annotation=\"\" Id=\"0\">\n  <GroupDevice Id=\"0\">\n    <Name><EffectiveName Value=\"";

/// The document between the name of the rack and its devices.
pub const RACK_BODY: &'static str = "\"/></Name>\n    <On><Manual Value=\"true\"/></On>\n    <Branches>\n      <AudioEffectBranch Id=\"0\">\n        <Name Value=\"Default\"/>\n        <IsSelected Value=\"true\"/>\n        <DeviceChain>\n          <AudioToAudioDeviceChain Id=\"0\">\n            <Devices>\n";

/// The document behind the devices of the rack.
pub const RACK_TAIL: &'static str = "\n            </Devices>\n          </AudioToAudioDeviceChain>\n        </DeviceChain>\n      </AudioEffectBranch>\n    </Branches>\n  </GroupDevice>\n</Ableton>";

/// The element with the description of a plugin of the given format.
pub open spec fn info_tag(format: Seq<char>) -> Seq<char> {
    if format == "VST3"@ {
        "Vst3PluginInfo"@
    } else if format == "AU"@ {
        "AuPluginInfo"@
    } else {
        "VstPluginInfo"@
    }
}

/// What stands in the description of a plugin of the given format.
pub open spec fn info_body(format: Seq<char>, name: Seq<char>, vendor: Seq<char>) -> Seq<char> {
    if format == "VST3"@ {
        "<Name Value=\""@ + name + "\"/><VendorString Value=\""@ + vendor + "\"/>"@
    } else if format == "AU"@ {
        "<Name Value=\""@ + name + "\"/><Manufacturer Value=\""@ + vendor + "\"/>"@
    } else {
        "<PlugName Value=\""@ + name + "\"/><VendorString Value=\""@ + vendor + "\"/>"@
    }
}

/// The element with the state of a plugin of the given format.
pub open spec fn preset_tag(format: Seq<char>) -> Seq<char> {
    if format == "VST3"@ {
        "Vst3Preset"@
    } else if format == "AU"@ {
        "AuPreset"@
    } else {
        "VstPreset"@
    }
}

/// The state of a plugin. That of VST2 stands in a list of chunks.
pub open spec fn preset_text(tag: Seq<char>, format: Seq<char>, state: Option<Seq<char>>) -> Seq<
    char,
> {
    match state {
        None => "<"@ + tag + " Id=\"0\"/>"@,
        Some(data) => if format == "VST2"@ {
            "<"@ + tag
                + " Id=\"0\"><PluginDataChunkList><PluginDataChunk Id=\"0\"><Data>"@ + data
                + "</Data></PluginDataChunk></PluginDataChunkList></"@ + tag + ">"@
        } else {
            "<"@ + tag + " Id=\"0\"><Data>"@ + data + "</Data></"@ + tag + ">"@
        },
    }
}

/// `true` or `false`.
pub open spec fn truth_text(b: bool) -> Seq<char> {
    if b {
        "true"@
    } else {
        "false"@
    }
}

/// The lines with the name and the switch of a device.
pub open spec fn name_and_switch(name: Seq<char>, active: bool) -> Seq<char> {
    "<Name><EffectiveName Value=\""@ + name + "\"/></Name>\n<On><Manual Value=\""@ + truth_text(
        active,
    ) + "\"/></On>\n"@
}

/// The device of slot `i`, which `id` identifies.
pub open spec fn device_text(slot: SlotModel, id: Seq<(Seq<char>, FieldModel)>, i: int) -> Seq<
    char,
> {
    let name = escape(text_or(id, "name"@, "Unknown"@));
    let vendor = escape(text_or(id, "vendor"@, ""@));
    let format = text_or(id, "format"@, "VST2"@);
    if format == "Ableton"@ {
        let tag = text_or(id, "tag"@, "UnknownDevice"@);
        "              <"@ + tag + " Id=\""@ + decimal(i as nat) + "\">\n"@ + name_and_switch(
            name,
            !slot.bypass,
        ) + "</"@ + tag + ">"@
    } else {
        "              <PluginDevice Id=\""@ + decimal(i as nat) + "\">\n"@ + name_and_switch(
            name,
            !slot.bypass,
        ) + "<PluginDesc><"@ + info_tag(format) + " Id=\"0\">"@ + info_body(format, name, vendor)
            + "</"@ + info_tag(format) + "></PluginDesc>\n<Preset>"@ + preset_text(
            preset_tag(format),
            format,
            slot.opaque_state,
        ) + "</Preset>\n</PluginDevice>"@
    }
}

/// The devices of the slots of a chain. `ids[i]` identifies that of slot `i`.
pub open spec fn device_texts(
    slots: Seq<SlotModel>,
    ids: Seq<Seq<(Seq<char>, FieldModel)>>,
) -> Seq<Seq<char>> {
    Seq::new(slots.len(), |i: int| device_text(slots[i], ids[i], i))
}

/// The XML text of a rack. `ids[i]` identifies the device of slot `i`.
pub open spec fn rack_xml(chain: ChainModel, ids: Seq<Seq<(Seq<char>, FieldModel)>>) -> Seq<char> {
    RACK_HEAD@ + escape(chain.name) + RACK_BODY@ + join(device_texts(chain.slots, ids), "\n"@)
        + RACK_TAIL@
}

/// The state of a plugin. That of VST2 stands in a list of chunks.
pub fn preset_xml(tag: &str, format: &str, state: Option<&str>) -> (out: String)
    ensures
        out@ == preset_text(tag@, format@, opt_str(state)),
{
    let mut out = "<".to_owned();
    out.append(tag);
    match state {
        None => {
            out.append(" Id=\"0\"/>");
        },
        Some(data) => {
            if same_text(format, "VST2") {
                out.append(" Id=\"0\"><PluginDataChunkList><PluginDataChunk Id=\"0\"><Data>");
                out.append(data);
                out.append("</Data></PluginDataChunk></PluginDataChunkList></");
            } else {
                out.append(" Id=\"0\"><Data>");
                out.append(data);
                out.append("</Data></");
            }
            out.append(tag);
            out.append(">");
        },
    }
    out
}

/// The element with the description of a plugin, what stands in it, and the
/// element with its state.
pub fn plugin_desc(format: &str, name: &str, vendor: &str) -> (out: (
    &'static str,
    String,
    &'static str,
))
    ensures
        out.0@ == info_tag(format@),
        out.1@ == info_body(format@, name@, vendor@),
        out.2@ == preset_tag(format@),
{
    if same_text(format, "VST3") {
        let mut body = "<Name Value=\"".to_owned();
        body.append(name);
        body.append("\"/><VendorString Value=\"");
        body.append(vendor);
        body.append("\"/>");
        ("Vst3PluginInfo", body, "Vst3Preset")
    } else if same_text(format, "AU") {
        let mut body = "<Name Value=\"".to_owned();
        body.append(name);
        body.append("\"/><Manufacturer Value=\"");
        body.append(vendor);
        body.append("\"/>");
        ("AuPluginInfo", body, "AuPreset")
    } else {
        let mut body = "<PlugName Value=\"".to_owned();
        body.append(name);
        body.append("\"/><VendorString Value=\"");
        body.append(vendor);
        body.append("\"/>");
        ("VstPluginInfo", body, "VstPreset")
    }
}

/// The lines with the name and the switch of a device.
fn switch_lines(name: &str, active: bool) -> (out: String)
    ensures
        out@ == name_and_switch(name@, active),
{
    let mut out = "<Name><EffectiveName Value=\"".to_owned();
    out.append(name);
    out.append("\"/></Name>\n<On><Manual Value=\"");
    out.append(
        if active {
            "true"
        } else {
            "false"
        },
    );
    out.append("\"/></On>\n");
    out
}

/// The device of slot `i`, which `id` identifies.
pub fn device_element(slot: &ChainSlotRow, id: &Vec<JsonMember>, i: u64) -> (out: String)
    ensures
        out@ == device_text(slot@, member_models(id@), i as int),
{
    let name = xe(member_text_or(id, "name", "Unknown").as_str());
    let vendor = xe(member_text_or(id, "vendor", "").as_str());
    let format = member_text_or(id, "format", "VST2");
    let lines = switch_lines(name.as_str(), !slot.bypass);
    let number = decimal_text(i);
    if same_text(format.as_str(), "Ableton") {
        let tag = member_text_or(id, "tag", "UnknownDevice");
        let mut out = "              <".to_owned();
        out.append(tag.as_str());
        out.append(" Id=\"");
        out.append(number.as_str());
        out.append("\">\n");
        out.append(lines.as_str());
        out.append("</");
        out.append(tag.as_str());
        out.append(">");
        out
    } else {
        let (info, body, preset) = plugin_desc(format.as_str(), name.as_str(), vendor.as_str());
        let state = preset_xml(
            preset,
            format.as_str(),
            match &slot.opaque_state {
                Some(s) => Some(s.as_str()),
                None => None,
            },
        );
        let mut out = "              <PluginDevice Id=\"".to_owned();
        out.append(number.as_str());
        out.append("\">\n");
        out.append(lines.as_str());
        out.append("<PluginDesc><");
        out.append(info);
        out.append(" Id=\"0\">");
        out.append(body.as_str());
        out.append("</");
        out.append(info);
        out.append("></PluginDesc>\n<Preset>");
        out.append(state.as_str());
        out.append("</Preset>\n</PluginDevice>");
        out
    }
}

/// The XML text of a rack with the devices of a chain.
pub fn build_xml(chain: &ChainDetail) -> (out: String)
    ensures
        out@ == rack_xml(chain@, identities(chain@.slots)),
{
    let ghost slots = chain@.slots;
    let ghost ids = identities(slots);
    let mut devices: Vec<String> = Vec::new();
    for i in 0..chain.slots.len()
        invariant
            slots == chain@.slots,
            ids == identities(slots),
            texts(devices@) == device_texts(slots, ids).take(i as int),
    {
        let ghost before = texts(devices@);
        let id = parse_object(chain.slots[i].plugin_identity.as_str());
        assert(slots[i as int] == chain.slots@[i as int]@);
        let device = device_element(&chain.slots[i], &id, i as u64);
        devices.push(device);
        assert(texts(devices@) =~= before.push(device@));
        assert(device_texts(slots, ids).take(i + 1) =~= before.push(device@));
    }
    assert(device_texts(slots, ids).take(slots.len() as int) =~= device_texts(slots, ids));
    let mut out = RACK_HEAD.to_owned();
    out.append(xe(chain.name.as_str()).as_str());
    out.append(RACK_BODY);
    out.append(joined(devices.as_slice(), "\n").as_str());
    out.append(RACK_TAIL);
    out
}

/// Whether gzip data hold the XML text of the rack of a chain.
pub open spec fn holds_rack(data: Seq<u8>, chain: ChainModel) -> bool {
    gzip_text(data) == Ok::<Seq<char>, Seq<char>>(rack_xml(chain, identities(chain.slots)))
}

/// Render a chain into a gzip-compressed `.adg` file (binary).
///
/// The data are the gzip data of the XML text of the rack, and hold that text. Only
/// compressing it can fail.
pub fn write_adg(chain: &ChainDetail) -> (out: Result<Vec<u8>, String>)
    ensures
        match out {
            Ok(data) => {
                let xml = rack_xml(chain@, identities(chain@.slots));
                gzip_data(vstd::utf8::encode_utf8(xml)) == Ok::<Seq<u8>, Seq<char>>(data@)
                    && holds_rack(data@, chain@) && data@.len() > 2 && data@[0] == 0x1f && data@[1]
                    == 0x8b
            },
            Err(e) => gzip_data(
                vstd::utf8::encode_utf8(rack_xml(chain@, identities(chain@.slots))),
            ) == Err::<Seq<u8>, Seq<char>>(e@),
        },
{
    let xml = build_xml(chain);
    gzip(xml.as_str())
}

} // verus!
