//! What holds of every project as the frontend shows it.
use vstd::prelude::*;

use crate::base64::encode;
use crate::daw_readers::{ableton, dawproject, logicpro, reaper};
use crate::json::FieldModel;
use crate::live_project::{
    ableton_slot, ableton_slots, ableton_track, dawproject_slot, dawproject_track,
    dawproject_tracks, leaves, live_project, logic_slot, logic_track, reaper_slot, reaper_track,
    SlotModel, TrackModel,
};
use crate::watcher::ParsedProject;

verus! {

/// A text, or `null` where there is none.
pub open spec fn text_or_null(s: Option<Seq<char>>) -> FieldModel {
    match s {
        Some(t) => FieldModel::Text(t),
        None => FieldModel::Null,
    }
}

/// The slot is shown at its place, fully wet.
pub open spec fn is_shown(slot: SlotModel, position: int, name: Seq<char>, format: Seq<char>) -> bool {
    &&& slot.position == position as i32
    &&& slot.name == name
    &&& slot.format == Some(format)
    &&& slot.wet_bits == 0x3ff0_0000_0000_0000u64
}

/// A plugin of Ableton is shown with its name, vendor, format and state, and bypassed
/// where it is not on.
pub proof fn law_ableton_plugin(
    node: ableton::DeviceModel,
    position: int,
    plugin_name: Seq<char>,
    vendor: Option<Seq<char>>,
    format: ableton::PluginFormat,
    opaque_state: Option<Seq<char>>,
)
    requires
        node.device_type == (ableton::TypeModel::Plugin {
            plugin_name,
            vendor,
            format,
            opaque_state,
        }),
    ensures
        ({
            let slot = ableton_slot(node, position);
            let text = match format {
                ableton::PluginFormat::Vst2 => "VST2"@,
                ableton::PluginFormat::Vst3 => "VST3"@,
                ableton::PluginFormat::Au => "AU"@,
            };
            &&& is_shown(slot, position, plugin_name, text)
            &&& slot.vendor == vendor
            &&& slot.bypass == !node.is_active
            &&& slot.preset_name is None
            &&& slot.opaque_state == opaque_state
            &&& slot.plugin_identity == seq![
                ("name"@, FieldModel::Text(plugin_name)),
                ("vendor"@, text_or_null(vendor)),
                ("format"@, FieldModel::Text(text)),
            ]
        }),
{
    let slot = ableton_slot(node, position);
    assert(slot.plugin_identity =~= seq![
        ("name"@, FieldModel::Text(plugin_name)),
        ("vendor"@, text_or_null(vendor)),
        ("format"@, FieldModel::Text(slot.format->Some_0)),
    ]);
}

/// A device of Live's own is shown as Ableton's, under its name and with its tag.
pub proof fn law_ableton_builtin(
    node: ableton::DeviceModel,
    position: int,
    tag: Seq<char>,
    params_xml: Seq<char>,
)
    requires
        node.device_type == (ableton::TypeModel::AbletonBuiltin { tag, params_xml }),
    ensures
        ({
            let slot = ableton_slot(node, position);
            &&& is_shown(slot, position, node.name, "Ableton"@)
            &&& slot.vendor == Some("Ableton"@)
            &&& slot.bypass == !node.is_active
            &&& slot.preset_name is None
            &&& slot.opaque_state is None
            &&& slot.plugin_identity == seq![
                ("name"@, FieldModel::Text(node.name)),
                ("vendor"@, FieldModel::Text("Ableton"@)),
                ("format"@, FieldModel::Text("Ableton"@)),
                ("tag"@, FieldModel::Text(tag)),
            ]
        }),
{
    let slot = ableton_slot(node, position);
    assert(slot.plugin_identity =~= seq![
        ("name"@, FieldModel::Text(node.name)),
        ("vendor"@, FieldModel::Text("Ableton"@)),
        ("format"@, FieldModel::Text("Ableton"@)),
        ("tag"@, FieldModel::Text(tag)),
    ]);
}

/// A device that is no rack is one slot, and its slot stands at the given place.
pub proof fn law_ableton_leaf(node: ableton::DeviceModel, position: int)
    requires
        !(node.device_type is Rack),
    ensures
        leaves(seq![node]) == seq![node],
        ableton_slots(seq![node], position) == seq![ableton_slot(node, position)],
        leaves(Seq::empty()).len() == 0,
{
    let one = seq![node];
    assert(leaves(one.drop_last()) =~= Seq::empty());
    assert(one.last() == node);
    assert(leaves(one) =~= one);
    assert(ableton_slots(one, position) =~= seq![ableton_slot(node, position)]);
}

/// A track of Ableton is shown with its name, what kind it is, and its devices from the
/// first position on.
pub proof fn law_ableton_track(t: ableton::TrackModel)
    ensures
        ableton_track(t).name == t.name,
        ableton_track(t).slots == ableton_slots(t.chain, 0),
        match t.kind {
            ableton::TrackKind::Midi => ableton_track(t).kind == "instrument"@,
            ableton::TrackKind::Audio => ableton_track(t).kind == "audio"@,
            ableton::TrackKind::Return => ableton_track(t).kind == "bus"@,
            ableton::TrackKind::Group => ableton_track(t).kind == "group"@,
        },
{
}

/// A plugin of Logic is shown as an Audio Unit of its manufacturer. Its state is encoded,
/// where it has one.
pub proof fn law_logic_slot(d: logicpro::DeviceModel, i: int)
    ensures
        ({
            let slot = logic_slot(d, i);
            &&& is_shown(slot, i, d.name, "AU"@)
            &&& slot.vendor == Some(d.manufacturer)
            &&& slot.bypass == d.bypassed
            &&& slot.preset_name is None
            &&& d.state.len() == 0 ==> slot.opaque_state is None
            &&& d.state.len() > 0 ==> slot.opaque_state == Some(encode(d.state))
            &&& slot.plugin_identity == seq![
                ("name"@, FieldModel::Text(d.name)),
                ("vendor"@, FieldModel::Text(d.manufacturer)),
                ("format"@, FieldModel::Text("AU"@)),
                ("component_type"@, FieldModel::Text(d.component_type)),
                ("component_subtype"@, FieldModel::Text(d.component_subtype)),
            ]
        }),
{
    assert(logic_slot(d, i).plugin_identity =~= seq![
        ("name"@, FieldModel::Text(d.name)),
        ("vendor"@, FieldModel::Text(d.manufacturer)),
        ("format"@, FieldModel::Text("AU"@)),
        ("component_type"@, FieldModel::Text(d.component_type)),
        ("component_subtype"@, FieldModel::Text(d.component_subtype)),
    ]);
}

/// A track of Logic is shown with its name, what kind it is, and its devices in order.
pub proof fn law_logic_track(t: logicpro::TrackModel)
    ensures
        logic_track(t).name == t.name,
        match t.kind {
            logicpro::TrackKind::Audio => logic_track(t).kind == "audio"@,
            logicpro::TrackKind::SoftwareInstrument => logic_track(t).kind == "instrument"@,
            logicpro::TrackKind::Aux => logic_track(t).kind == "bus"@,
            logicpro::TrackKind::Master => logic_track(t).kind == "master"@,
            logicpro::TrackKind::Unknown => logic_track(t).kind == "unknown"@,
        },
        logic_track(t).slots.len() == t.devices.len(),
        forall|i: int|
            0 <= i < t.devices.len() ==> #[trigger] logic_track(t).slots[i] == logic_slot(
                t.devices[i],
                i,
            ),
{
}

/// An effect of Reaper is shown with its name, vendor, format, preset and state, and
/// bypassed where it is.
pub proof fn law_reaper_slot(fx: reaper::FxModel, i: int)
    ensures
        ({
            let slot = reaper_slot(fx, i);
            let text = match fx.format {
                reaper::PluginFormat::Vst2 => "VST2"@,
                reaper::PluginFormat::Vst3 => "VST3"@,
                reaper::PluginFormat::Au => "AU"@,
                reaper::PluginFormat::Clap => "CLAP"@,
                reaper::PluginFormat::Unknown => "Unknown"@,
            };
            &&& is_shown(slot, i, fx.name, text)
            &&& slot.vendor == fx.vendor
            &&& slot.bypass == fx.is_bypassed
            &&& slot.preset_name == fx.preset_name
            &&& slot.opaque_state == fx.opaque_state
            &&& slot.plugin_identity == seq![
                ("name"@, FieldModel::Text(fx.name)),
                ("vendor"@, text_or_null(fx.vendor)),
                ("format"@, FieldModel::Text(text)),
                ("vst3_guid"@, text_or_null(fx.vst3_guid)),
                ("vst_uid"@, text_or_null(fx.vst_uid)),
            ]
        }),
{
    let slot = reaper_slot(fx, i);
    assert(slot.plugin_identity =~= seq![
        ("name"@, FieldModel::Text(fx.name)),
        ("vendor"@, text_or_null(fx.vendor)),
        ("format"@, FieldModel::Text(slot.format->Some_0)),
        ("vst3_guid"@, text_or_null(fx.vst3_guid)),
        ("vst_uid"@, text_or_null(fx.vst_uid)),
    ]);
}

/// A track of Reaper is shown as an audio track with its name and its effects in order.
pub proof fn law_reaper_track(t: reaper::TrackModel)
    ensures
        reaper_track(t).name == t.name,
        reaper_track(t).kind == "audio"@,
        reaper_track(t).slots.len() == t.fx_chain.len(),
        forall|i: int|
            0 <= i < t.fx_chain.len() ==> #[trigger] reaper_track(t).slots[i] == reaper_slot(
                t.fx_chain[i],
                i,
            ),
{
}

/// A device of a DAWproject file is shown with its name, its format and what identifies
/// it in that format, and bypassed where it is not on.
pub proof fn law_dawproject_slot(d: dawproject::DeviceModel, position: i32)
    ensures
        ({
            let slot = dawproject_slot(d, position);
            let id = slot.plugin_identity;
            &&& slot.position == position
            &&& slot.name == d.name
            &&& slot.bypass == !d.is_enabled
            &&& slot.wet_bits == 0x3ff0_0000_0000_0000u64
            &&& slot.preset_name is None
            &&& slot.opaque_state == d.opaque_state
            &&& id.len() > 0
            &&& id[0] == ("name"@, FieldModel::Text(d.name))
            &&& match d.kind {
                dawproject::KindModel::Vst3 { device_id, vendor, plugin_version } => {
                    &&& slot.format == Some("VST3"@)
                    &&& slot.vendor == vendor
                    &&& id.skip(1) == seq![
                        ("vendor"@, text_or_null(vendor)),
                        ("format"@, FieldModel::Text("VST3"@)),
                        ("device_id"@, FieldModel::Text(device_id)),
                    ]
                },
                dawproject::KindModel::Vst2 { unique_id, vendor, plugin_version } => {
                    &&& slot.format == Some("VST2"@)
                    &&& slot.vendor == vendor
                    &&& id.skip(1) == seq![
                        ("vendor"@, text_or_null(vendor)),
                        ("format"@, FieldModel::Text("VST2"@)),
                        ("unique_id"@, FieldModel::Integer(unique_id)),
                    ]
                },
                dawproject::KindModel::Au { type_code, sub_type, manufacturer } => {
                    &&& slot.format == Some("AU"@)
                    &&& slot.vendor is None
                    &&& id.skip(1) == seq![
                        ("format"@, FieldModel::Text("AU"@)),
                        ("type_code"@, FieldModel::Text(type_code)),
                        ("sub_type"@, FieldModel::Text(sub_type)),
                        ("manufacturer"@, FieldModel::Text(manufacturer)),
                    ]
                },
                dawproject::KindModel::Clap { id: plugin_id, vendor, plugin_version } => {
                    &&& slot.format == Some("CLAP"@)
                    &&& slot.vendor == vendor
                    &&& id.skip(1) == seq![
                        ("vendor"@, text_or_null(vendor)),
                        ("format"@, FieldModel::Text("CLAP"@)),
                        ("id"@, FieldModel::Text(plugin_id)),
                    ]
                },
                dawproject::KindModel::Builtin => {
                    &&& slot.format == Some("Builtin"@)
                    &&& slot.vendor is None
                    &&& id.skip(1) == seq![("format"@, FieldModel::Text("Builtin"@))]
                },
            }
        }),
{
    let id = dawproject_slot(d, position).plugin_identity;
    match d.kind {
        dawproject::KindModel::Vst3 { device_id, vendor, plugin_version } => {
            assert(id.skip(1) =~= seq![
                ("vendor"@, text_or_null(vendor)),
                ("format"@, FieldModel::Text("VST3"@)),
                ("device_id"@, FieldModel::Text(device_id)),
            ]);
        },
        dawproject::KindModel::Vst2 { unique_id, vendor, plugin_version } => {
            assert(id.skip(1) =~= seq![
                ("vendor"@, text_or_null(vendor)),
                ("format"@, FieldModel::Text("VST2"@)),
                ("unique_id"@, FieldModel::Integer(unique_id)),
            ]);
        },
        dawproject::KindModel::Au { type_code, sub_type, manufacturer } => {
            assert(id.skip(1) =~= seq![
                ("format"@, FieldModel::Text("AU"@)),
                ("type_code"@, FieldModel::Text(type_code)),
                ("sub_type"@, FieldModel::Text(sub_type)),
                ("manufacturer"@, FieldModel::Text(manufacturer)),
            ]);
        },
        dawproject::KindModel::Clap { id: plugin_id, vendor, plugin_version } => {
            assert(id.skip(1) =~= seq![
                ("vendor"@, text_or_null(vendor)),
                ("format"@, FieldModel::Text("CLAP"@)),
                ("id"@, FieldModel::Text(plugin_id)),
            ]);
        },
        dawproject::KindModel::Builtin => {
            assert(id.skip(1) =~= seq![("format"@, FieldModel::Text("Builtin"@))]);
        },
    }
}

/// The tracks of a DAWproject file are shown in order: of two lists those of the one and
/// then those of the other. One track is shown where its channel has a device, as an audio
/// track with its devices in order, and behind it the tracks in it.
pub proof fn law_dawproject_tracks(
    a: Seq<dawproject::TrackModel>,
    b: Seq<dawproject::TrackModel>,
    one: dawproject::TrackModel,
)
    ensures
        dawproject_tracks(a + b) == dawproject_tracks(a) + dawproject_tracks(b),
        ({
            let has_devices = one.channel is Some && one.channel->Some_0.devices.len() > 0;
            let shown = dawproject_tracks(seq![one]);
            &&& !has_devices ==> shown == dawproject_tracks(one.children)
            &&& has_devices ==> {
                let devices = one.channel->Some_0.devices;
                &&& shown.len() > 0
                &&& shown.skip(1) == dawproject_tracks(one.children)
                &&& shown[0].name == one.name
                &&& shown[0].kind == "audio"@
                &&& shown[0].slots.len() == devices.len()
                &&& forall|i: int|
                    0 <= i < devices.len() ==> #[trigger] shown[0].slots[i] == dawproject_slot(
                        devices[i],
                        i as i32,
                    )
            }
        }),
    decreases b.len(),
{
    let single = seq![one];
    let none = Seq::<TrackModel>::empty();
    assert(single.last() == one);
    assert(dawproject_tracks(single.drop_last()) =~= none);
    let below = dawproject_tracks(one.children);
    if one.channel is Some && one.channel->Some_0.devices.len() > 0 {
        let own = dawproject_track(one.name, one.channel->Some_0.devices);
        assert(dawproject_tracks(single) =~= seq![own] + below);
        assert((seq![own] + below).skip(1) =~= below);
    } else {
        assert(none + none + below =~= below);
    }
    if b.len() == 0 {
        assert(a + b =~= a);
        assert(dawproject_tracks(a) + dawproject_tracks(b) =~= dawproject_tracks(a));
    } else {
        law_dawproject_tracks(a, b.drop_last(), one);
        assert((a + b).drop_last() =~= a + b.drop_last());
        assert((a + b).last() == b.last());
        assert(dawproject_tracks(a + b) =~= dawproject_tracks(a) + dawproject_tracks(b));
    }
}

/// A project is shown at its path, under the DAW that it comes from, with all its tracks
/// in order. A DAWproject file names its application.
pub proof fn law_shown(parsed: ParsedProject, path: Seq<char>)
    ensures
        live_project(parsed, path) matches Some(l) ==> l.path == path,
        parsed matches ParsedProject::Ableton(ableton::AbletonFile::Project(p)) ==> (live_project(
            parsed,
            path,
        ) matches Some(l) && l.daw == "Ableton"@ && l.tracks.len() == p@.tracks.len()
            && forall|i: int|
            0 <= i < p@.tracks.len() ==> #[trigger] l.tracks[i] == ableton_track(p@.tracks[i])),
        parsed matches ParsedProject::Logic(p) ==> (live_project(parsed, path) matches Some(l)
            && l.daw == "Logic"@ && l.tracks.len() == p@.tracks.len() && forall|i: int|
            0 <= i < p@.tracks.len() ==> #[trigger] l.tracks[i] == logic_track(p@.tracks[i])),
        parsed matches ParsedProject::Reaper(p) ==> (live_project(parsed, path) matches Some(l)
            && l.daw == "Reaper"@ && l.tracks.len() == p@.tracks.len() && forall|i: int|
            0 <= i < p@.tracks.len() ==> #[trigger] l.tracks[i] == reaper_track(p@.tracks[i])),
        parsed matches ParsedProject::DawProject(p) ==> (live_project(parsed, path) matches Some(l)
            && l.tracks == dawproject_tracks(p@.tracks) && (match p@.application {
            Some(a) => l.daw == a.0,
            None => l.daw == "DAWproject"@,
        })),
{
}

} // verus!
