//! What is left of a chain in the files that are written for it.
use vstd::prelude::*;

use crate::base64::{decode, encode};
use crate::daw_readers::ableton::{PluginFormat as AbletonFormat, RackType, TypeModel};
use crate::daw_readers::dawproject::KindModel;
use crate::daw_readers::reaper::PluginFormat;
use crate::daw_writers::ableton::{info_body, info_tag, preset_tag, preset_text};
use crate::daw_writers::ableton_laws::kept_rack;
use crate::daw_writers::dawproject::{archive_files, state_files};
use crate::daw_writers::dawproject_laws::kept_project;
use crate::daw_writers::identities;
use crate::daw_writers::reaper::{block_tag, display_name, uid_field};
use crate::daw_writers::reaper_laws::{effect_of, effects_of};
use crate::db::{ChainModel, SlotModel};
use crate::json::{integer_member, json_object, text_or, FieldModel};
use crate::number::decimal;
use crate::text::trim;

verus! {

/// The identity of each slot is the object that its text holds.
pub proof fn law_identities(slots: Seq<SlotModel>)
    ensures
        identities(slots).len() == slots.len(),
        forall|i: int|
            0 <= i < slots.len() ==> #[trigger] identities(slots)[i] == json_object(
                slots[i].plugin_identity,
            ),
{
}

/// The formats of plugins are told apart by their names.
proof fn lemma_formats()
    ensures
        "VST3"@ != "VST2"@,
        "VST3"@ != "AU"@,
        "VST3"@ != "CLAP"@,
        "VST3"@ != "Ableton"@,
        "VST2"@ != "AU"@,
        "VST2"@ != "CLAP"@,
        "VST2"@ != "Ableton"@,
        "AU"@ != "CLAP"@,
        "AU"@ != "Ableton"@,
{
    reveal_strlit("VST3");
    reveal_strlit("VST2");
    reveal_strlit("AU");
    reveal_strlit("CLAP");
    reveal_strlit("Ableton");
    assert("VST3"@[3] == '3' && "VST2"@[3] == '2');
    assert("VST3"@[0] == 'V' && "VST2"@[0] == 'V' && "CLAP"@[0] == 'C');
    assert("AU"@[1] == 'U' && "Ableton"@[1] == 'b' && "AU"@[0] == 'A' && "Ableton"@[0] == 'A');
}

/// A rack holds the name of the chain and one device for each slot, in order, on or off as
/// the slot is. A device of Live's own keeps its name and tag, and a plugin its name,
/// vendor, format and state.
pub proof fn law_kept_rack(chain: ChainModel, i: int)
    ensures
        kept_rack(chain).device.name == chain.name,
        kept_rack(chain).device.is_active,
        kept_rack(chain).device.device_type == (TypeModel::Rack {
            rack_type: RackType::AudioEffect,
        }),
        kept_rack(chain).device.children.len() == chain.slots.len(),
        0 <= i < chain.slots.len() ==> {
            let slot = chain.slots[i];
            let id = json_object(slot.plugin_identity);
            let d = kept_rack(chain).device.children[i];
            let name = text_or(id, "name"@, "Unknown"@);
            let format = text_or(id, "format"@, "VST2"@);
            &&& d.name == name
            &&& d.is_active == !slot.bypass
            &&& d.children.len() == 0
            &&& format == "Ableton"@ ==> match d.device_type {
                TypeModel::AbletonBuiltin { tag, params_xml } => tag == text_or(
                    id,
                    "tag"@,
                    "UnknownDevice"@,
                ),
                _ => false,
            }
            &&& format != "Ableton"@ ==> match d.device_type {
                TypeModel::Plugin { plugin_name, vendor, format: kept, opaque_state } => {
                    &&& plugin_name == name
                    &&& vendor == Some(text_or(id, "vendor"@, ""@))
                    &&& format == "VST3"@ ==> kept == AbletonFormat::Vst3
                    &&& format == "AU"@ ==> kept == AbletonFormat::Au
                    &&& format == "VST2"@ ==> kept == AbletonFormat::Vst2
                    &&& match slot.opaque_state {
                        Some(s) => if trim(s).len() > 0 {
                            opaque_state == Some(trim(s))
                        } else {
                            opaque_state is None
                        },
                        None => opaque_state is None,
                    }
                },
                _ => false,
            }
        },
{
    lemma_formats();
}

/// An archive holds one track with the name of the chain and one device for each slot, in
/// order, on or off as the slot is. A device keeps its name, what identifies it in its
/// format, and its state.
pub proof fn law_kept_project(chain: ChainModel, i: int)
    ensures
        kept_project(chain).tracks.len() == 1,
        kept_project(chain).tracks[0].name == chain.name,
        kept_project(chain).tracks[0].children.len() == 0,
        match kept_project(chain).tracks[0].channel {
            Some(c) => {
                &&& c.devices.len() == chain.slots.len()
                &&& 0 <= i < chain.slots.len() ==> {
                    let slot = chain.slots[i];
                    let id = json_object(slot.plugin_identity);
                    let d = c.devices[i];
                    let maker = Some(text_or(id, "vendor"@, ""@));
                    let format = text_or(id, "format"@, "Builtin"@);
                    &&& d.name == text_or(id, "name"@, "Unknown"@)
                    &&& d.is_enabled == !slot.bypass
                    &&& match slot.opaque_state {
                        Some(s) => match decode(s) {
                            Some(bytes) => d.opaque_state == Some(encode(bytes)),
                            None => d.opaque_state is None,
                        },
                        None => d.opaque_state is None,
                    }
                    &&& format == "VST3"@ ==> (d.kind matches KindModel::Vst3 { device_id, vendor, .. }
                        && device_id == text_or(id, "device_id"@, ""@) && vendor == maker)
                    &&& format == "VST2"@ ==> (d.kind matches KindModel::Vst2 { unique_id, vendor, .. }
                        && vendor == maker && match integer_member(id, "unique_id"@) {
                        Some(n) => unique_id == n,
                        None => unique_id == 0,
                    })
                    &&& format == "AU"@ ==> d.kind == (KindModel::Au {
                        type_code: text_or(id, "type_code"@, ""@),
                        sub_type: text_or(id, "sub_type"@, ""@),
                        manufacturer: text_or(id, "manufacturer"@, ""@),
                    })
                    &&& format == "CLAP"@ ==> (d.kind matches KindModel::Clap { id: own, vendor, .. }
                        && own == text_or(id, "id"@, ""@) && vendor == maker)
                    &&& format != "VST3"@ && format != "VST2"@ && format != "AU"@ && format
                        != "CLAP"@ ==> d.kind is Builtin
                }
            },
            None => false,
        },
{
    lemma_formats();
}

/// An effect keeps the name, vendor and format of its slot's identity, whether it is
/// bypassed, its preset and its state, empty ones aside.
pub proof fn law_kept_effect(slot: SlotModel, id: Seq<(Seq<char>, FieldModel)>)
    ensures
        ({
            let fx = effect_of(slot, id);
            let vendor = text_or(id, "vendor"@, ""@);
            let format = text_or(id, "format"@, "VST2"@);
            &&& fx.name == text_or(id, "name"@, "Unknown"@)
            &&& vendor.len() > 0 ==> fx.vendor == Some(vendor)
            &&& vendor.len() == 0 ==> fx.vendor is None
            &&& format == "VST3"@ ==> fx.format == PluginFormat::Vst3
            &&& format == "VST2"@ ==> fx.format == PluginFormat::Vst2
            &&& format == "AU"@ ==> fx.format == PluginFormat::Au
            &&& format == "CLAP"@ ==> fx.format == PluginFormat::Clap
            &&& fx.is_bypassed == slot.bypass
            &&& fx.filename.len() == 0
            &&& match slot.preset_name {
                Some(p) => if p.len() > 0 {
                    fx.preset_name == Some(p)
                } else {
                    fx.preset_name is None
                },
                None => fx.preset_name is None,
            }
            &&& match slot.opaque_state {
                Some(s) => if s.len() > 0 {
                    fx.opaque_state == Some(s)
                } else {
                    fx.opaque_state is None
                },
                None => fx.opaque_state is None,
            }
        }),
{
    lemma_formats();
    reveal_strlit("");
}

/// The effects of a chain are those of its slots, in order.
pub proof fn law_kept_effects(
    slots: Seq<SlotModel>,
    ids: Seq<Seq<(Seq<char>, FieldModel)>>,
)
    ensures
        effects_of(slots, ids).len() == slots.len(),
        forall|i: int|
            0 <= i < slots.len() ==> #[trigger] effects_of(slots, ids)[i] == effect_of(
                slots[i],
                ids[i],
            ),
{
}

/// The state of a slot that has one in base64 is a file of its own, named by the slot's
/// number and behind the files of the slots before. Any other slot adds no file.
pub proof fn law_state_files(slots: Seq<SlotModel>, slot: SlotModel)
    ensures
        state_files(Seq::empty()).len() == 0,
        match slot.opaque_state {
            Some(s) => match decode(s) {
                Some(bytes) => state_files(slots.push(slot)) == state_files(slots).push(
                    ("plugins/state_"@ + decimal(slots.len()) + ".bin"@, bytes),
                ),
                None => state_files(slots.push(slot)) == state_files(slots),
            },
            None => state_files(slots.push(slot)) == state_files(slots),
        },
{
    assert(slots.push(slot).drop_last() =~= slots);
}

/// The files of an archive are the project and behind it the states.
pub proof fn law_archive_files(chain: ChainModel)
    ensures
        archive_files(chain).len() == 1 + state_files(chain.slots).len(),
        archive_files(chain)[0].0 == "project.xml"@,
        archive_files(chain).skip(1) == state_files(chain.slots),
{
    assert(archive_files(chain).skip(1) =~= state_files(chain.slots));
}

/// A plugin of a rack is described and its state stored in the elements of its format.
pub proof fn law_ableton_elements(format: Seq<char>, name: Seq<char>, vendor: Seq<char>)
    ensures
        format == "VST3"@ ==> info_tag(format) == "Vst3PluginInfo"@ && preset_tag(format)
            == "Vst3Preset"@ && info_body(format, name, vendor) == "<Name Value=\""@ + name
            + "\"/><VendorString Value=\""@ + vendor + "\"/>"@,
        format == "AU"@ ==> info_tag(format) == "AuPluginInfo"@ && preset_tag(format)
            == "AuPreset"@ && info_body(format, name, vendor) == "<Name Value=\""@ + name
            + "\"/><Manufacturer Value=\""@ + vendor + "\"/>"@,
        format != "VST3"@ && format != "AU"@ ==> info_tag(format) == "VstPluginInfo"@ && preset_tag(
            format,
        ) == "VstPreset"@ && info_body(format, name, vendor) == "<PlugName Value=\""@ + name
            + "\"/><VendorString Value=\""@ + vendor + "\"/>"@,
{
    lemma_formats();
}

/// The state of a plugin stands in a `Data` element, that of a VST2 plugin in a list of
/// chunks. Without one its element is empty.
pub proof fn law_ableton_preset(tag: Seq<char>, format: Seq<char>, data: Seq<char>)
    ensures
        preset_text(tag, format, None) == "<"@ + tag + " Id=\"0\"/>"@,
        format == "VST2"@ ==> preset_text(tag, format, Some(data)) == "<"@ + tag
            + " Id=\"0\"><PluginDataChunkList><PluginDataChunk Id=\"0\"><Data>"@ + data
            + "</Data></PluginDataChunk></PluginDataChunkList></"@ + tag + ">"@,
        format != "VST2"@ ==> preset_text(tag, format, Some(data)) == "<"@ + tag
            + " Id=\"0\"><Data>"@ + data + "</Data></"@ + tag + ">"@,
{
}

/// An effect of Reaper stands in a block of its format, under a name that begins with the
/// format. Its identifier is the number, with the GUID behind it for VST3.
pub proof fn law_reaper_block(id: Seq<(Seq<char>, FieldModel)>)
    ensures
        ({
            let format = text_or(id, "format"@, "VST2"@);
            let name = text_or(id, "name"@, "Unknown"@);
            let vendor = text_or(id, "vendor"@, ""@);
            let number = text_or(id, "vst_uid"@, ""@);
            let prefix = if format == "VST3"@ {
                "VST3: "@
            } else if format == "AU"@ {
                "AU: "@
            } else if format == "CLAP"@ {
                "CLAP: "@
            } else {
                "VST: "@
            };
            &&& format == "AU"@ ==> block_tag(format) == "AU"@
            &&& format == "CLAP"@ ==> block_tag(format) == "CLAP"@
            &&& format != "AU"@ && format != "CLAP"@ ==> block_tag(format) == "VST"@
            &&& vendor.len() == 0 ==> display_name(id) == prefix + name
            &&& vendor.len() > 0 ==> display_name(id) == prefix + name + " ("@ + vendor + ")"@
            &&& format == "VST3"@ ==> uid_field(id) == number + text_or(id, "vst3_guid"@, ""@)
            &&& format != "VST3"@ ==> uid_field(id) == number
        }),
{
    lemma_formats();
}

} // verus!
