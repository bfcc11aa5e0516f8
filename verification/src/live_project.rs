//! Projects as the frontend shows them: tracks with numbered plugin slots.
use vstd::prelude::*;

use crate::base64::{base64_encode, encode};
use crate::daw_readers::ableton;
use crate::daw_readers::dawproject;
use crate::daw_readers::logicpro;
use crate::daw_readers::reaper;
use crate::json::{member_models, FieldModel, JsonField, JsonMember};
use crate::text::{copy_opt, opt_text};
use crate::watcher::ParsedProject;

verus! {

#[derive(Debug)]
pub struct LiveProject {
    pub path: String,
    pub daw: String,
    pub tracks: Vec<LiveTrack>,
}

#[derive(Debug)]
pub struct LiveTrack {
    pub name: String,
    pub kind: String,
    pub slots: Vec<LiveSlot>,
}

#[derive(Debug)]
pub struct LiveSlot {
    pub position: i32,
    pub name: String,
    pub vendor: Option<String>,
    pub format: Option<String>,
    pub bypass: bool,
    /// The bits of the wet/dry mix as a double-precision number.
    pub wet_bits: u64,
    pub preset_name: Option<String>,
    /// The members of the JSON object that identifies the plugin.
    pub plugin_identity: Vec<JsonMember>,
    pub opaque_state: Option<String>,
}

/// What a `LiveSlot` holds.
#[verifier::ext_equal]
pub struct SlotModel {
    pub position: i32,
    pub name: Seq<char>,
    pub vendor: Option<Seq<char>>,
    pub format: Option<Seq<char>>,
    pub bypass: bool,
    pub wet_bits: u64,
    pub preset_name: Option<Seq<char>>,
    pub plugin_identity: Seq<(Seq<char>, FieldModel)>,
    pub opaque_state: Option<Seq<char>>,
}

/// What a `LiveTrack` holds.
#[verifier::ext_equal]
pub struct TrackModel {
    pub name: Seq<char>,
    pub kind: Seq<char>,
    pub slots: Seq<SlotModel>,
}

/// What a `LiveProject` holds.
#[verifier::ext_equal]
pub struct ProjectModel {
    pub path: Seq<char>,
    pub daw: Seq<char>,
    pub tracks: Seq<TrackModel>,
}

impl View for LiveSlot {
    type V = SlotModel;

    open spec fn view(&self) -> SlotModel {
        SlotModel {
            position: self.position,
            name: self.name@,
            vendor: opt_text(self.vendor),
            format: opt_text(self.format),
            bypass: self.bypass,
            wet_bits: self.wet_bits,
            preset_name: opt_text(self.preset_name),
            plugin_identity: member_models(self.plugin_identity@),
            opaque_state: opt_text(self.opaque_state),
        }
    }
}

/// What each slot of a list holds.
pub open spec fn slot_models(list: Seq<LiveSlot>) -> Seq<SlotModel> {
    list.map_values(|s: LiveSlot| s@)
}

impl View for LiveTrack {
    type V = TrackModel;

    open spec fn view(&self) -> TrackModel {
        TrackModel { name: self.name@, kind: self.kind@, slots: slot_models(self.slots@) }
    }
}

/// What each track of a list holds.
pub open spec fn track_models(list: Seq<LiveTrack>) -> Seq<TrackModel> {
    list.map_values(|t: LiveTrack| t@)
}

impl View for LiveProject {
    type V = ProjectModel;

    open spec fn view(&self) -> ProjectModel {
        ProjectModel { path: self.path@, daw: self.daw@, tracks: track_models(self.tracks@) }
    }
}

/// The bits of a mix that is fully wet: the number one.
pub const FULLY_WET: u64 = 0x3ff0_0000_0000_0000;

// ---------------------------------------------------------------------------
// Identities
// ---------------------------------------------------------------------------

/// A member with a text.
pub open spec fn text_field(name: Seq<char>, value: Seq<char>) -> (Seq<char>, FieldModel) {
    (name, FieldModel::Text(value))
}

/// A member with a text, or with `null`.
pub open spec fn opt_field(name: Seq<char>, value: Option<Seq<char>>) -> (Seq<char>, FieldModel) {
    (
        name,
        match value {
            Some(v) => FieldModel::Text(v),
            None => FieldModel::Null,
        },
    )
}

/// A member with a text.
fn text_member(name: &str, value: &str) -> (out: JsonMember)
    ensures
        out@ == text_field(name@, value@),
{
    JsonMember { name: name.to_owned(), value: JsonField::Text(value.to_owned()) }
}

/// A member with a text, or with `null`.
fn opt_member(name: &str, value: &Option<String>) -> (out: JsonMember)
    ensures
        out@ == opt_field(name@, opt_text(*value)),
{
    JsonMember {
        name: name.to_owned(),
        value: match value {
            Some(v) => JsonField::Text(v.clone()),
            None => JsonField::Null,
        },
    }
}

// ---------------------------------------------------------------------------
// Ableton
// ---------------------------------------------------------------------------

/// The name of a kind of Ableton track.
pub open spec fn ableton_kind(kind: ableton::TrackKind) -> Seq<char> {
    match kind {
        ableton::TrackKind::Midi => "instrument"@,
        ableton::TrackKind::Audio => "audio"@,
        ableton::TrackKind::Return => "bus"@,
        ableton::TrackKind::Group => "group"@,
    }
}

/// The name of a plugin format of Ableton.
pub open spec fn ableton_format(format: ableton::PluginFormat) -> Seq<char> {
    match format {
        ableton::PluginFormat::Vst2 => "VST2"@,
        ableton::PluginFormat::Vst3 => "VST3"@,
        ableton::PluginFormat::Au => "AU"@,
    }
}

/// The devices of a list that are no racks, those in racks in their places.
pub open spec fn leaves(nodes: Seq<ableton::DeviceModel>) -> Seq<ableton::DeviceModel>
    decreases nodes,
{
    if nodes.len() == 0 {
        Seq::empty()
    } else {
        let before = leaves(nodes.drop_last());
        let node = nodes.last();
        if node.device_type is Rack {
            before + leaves(node.children)
        } else {
            before.push(node)
        }
    }
}

/// The slot of a device that is no rack.
pub open spec fn ableton_slot(node: ableton::DeviceModel, position: int) -> SlotModel {
    match node.device_type {
        ableton::TypeModel::Plugin { plugin_name, vendor, format, opaque_state } => SlotModel {
            position: position as i32,
            name: plugin_name,
            vendor,
            format: Some(ableton_format(format)),
            bypass: !node.is_active,
            wet_bits: FULLY_WET,
            preset_name: None,
            plugin_identity: seq![
                text_field("name"@, plugin_name),
                opt_field("vendor"@, vendor),
                text_field("format"@, ableton_format(format)),
            ],
            opaque_state,
        },
        ableton::TypeModel::AbletonBuiltin { tag, params_xml } => SlotModel {
            position: position as i32,
            name: node.name,
            vendor: Some("Ableton"@),
            format: Some("Ableton"@),
            bypass: !node.is_active,
            wet_bits: FULLY_WET,
            preset_name: None,
            plugin_identity: seq![
                text_field("name"@, node.name),
                text_field("vendor"@, "Ableton"@),
                text_field("format"@, "Ableton"@),
                text_field("tag"@, tag),
            ],
            opaque_state: None,
        },
        ableton::TypeModel::Rack { rack_type } => arbitrary(),
    }
}

/// The slots of a list of devices that are no racks, numbered from `first`.
pub open spec fn ableton_slots(nodes: Seq<ableton::DeviceModel>, first: int) -> Seq<SlotModel> {
    Seq::new(leaves(nodes).len(), |i: int| ableton_slot(leaves(nodes)[i], first + i))
}

/// The track as the frontend shows it.
pub open spec fn ableton_track(t: ableton::TrackModel) -> TrackModel {
    TrackModel { name: t.name, kind: ableton_kind(t.kind), slots: ableton_slots(t.chain, 0) }
}

/// The project as the frontend shows it.
pub open spec fn ableton_project(p: ableton::ProjectModel, path: Seq<char>) -> ProjectModel {
    ProjectModel {
        path,
        daw: "Ableton"@,
        tracks: p.tracks.map_values(|t: ableton::TrackModel| ableton_track(t)),
    }
}

/// The devices of a rack are no more than those of the list that holds it.
proof fn lemma_leaves_prefix(nodes: Seq<ableton::DeviceModel>, n: int)
    requires
        0 <= n <= nodes.len(),
    ensures
        leaves(nodes.take(n)).len() <= leaves(nodes).len(),
    decreases nodes.len(),
{
    if n < nodes.len() {
        assert(nodes.drop_last().take(n) =~= nodes.take(n));
        lemma_leaves_prefix(nodes.drop_last(), n);
    } else {
        assert(nodes.take(n) =~= nodes);
    }
}

/// The slot of a plugin.
fn plugin_slot(
    position: i32,
    plugin_name: &String,
    vendor: &Option<String>,
    format: ableton::PluginFormat,
    opaque_state: &Option<String>,
    is_active: bool,
) -> (out: LiveSlot)
    ensures
        out@ == (SlotModel {
            position,
            name: plugin_name@,
            vendor: opt_text(*vendor),
            format: Some(ableton_format(format)),
            bypass: !is_active,
            wet_bits: FULLY_WET,
            preset_name: None,
            plugin_identity: seq![
                text_field("name"@, plugin_name@),
                opt_field("vendor"@, opt_text(*vendor)),
                text_field("format"@, ableton_format(format)),
            ],
            opaque_state: opt_text(*opaque_state),
        }),
{
    let fmt = match format {
        ableton::PluginFormat::Vst2 => "VST2",
        ableton::PluginFormat::Vst3 => "VST3",
        ableton::PluginFormat::Au => "AU",
    };
    let mut plugin_identity: Vec<JsonMember> = Vec::new();
    plugin_identity.push(text_member("name", plugin_name.as_str()));
    plugin_identity.push(opt_member("vendor", vendor));
    plugin_identity.push(text_member("format", fmt));
    let out = LiveSlot {
        position,
        name: plugin_name.clone(),
        vendor: copy_opt(vendor),
        format: Some(fmt.to_owned()),
        bypass: !is_active,
        wet_bits: FULLY_WET,
        preset_name: None,
        plugin_identity,
        opaque_state: copy_opt(opaque_state),
    };
    assert(out@.plugin_identity =~= seq![
        text_field("name"@, plugin_name@),
        opt_field("vendor"@, opt_text(*vendor)),
        text_field("format"@, ableton_format(format)),
    ]);
    out
}

/// The slot of a built-in device.
fn builtin_slot(position: i32, name: &String, tag: &String, is_active: bool) -> (out: LiveSlot)
    ensures
        out@ == (SlotModel {
            position,
            name: name@,
            vendor: Some("Ableton"@),
            format: Some("Ableton"@),
            bypass: !is_active,
            wet_bits: FULLY_WET,
            preset_name: None,
            plugin_identity: seq![
                text_field("name"@, name@),
                text_field("vendor"@, "Ableton"@),
                text_field("format"@, "Ableton"@),
                text_field("tag"@, tag@),
            ],
            opaque_state: None,
        }),
{
    let mut plugin_identity: Vec<JsonMember> = Vec::new();
    plugin_identity.push(text_member("name", name.as_str()));
    plugin_identity.push(text_member("vendor", "Ableton"));
    plugin_identity.push(text_member("format", "Ableton"));
    plugin_identity.push(text_member("tag", tag.as_str()));
    let out = LiveSlot {
        position,
        name: name.clone(),
        vendor: Some("Ableton".to_owned()),
        format: Some("Ableton".to_owned()),
        bypass: !is_active,
        wet_bits: FULLY_WET,
        preset_name: None,
        plugin_identity,
        opaque_state: None,
    };
    assert(out@.plugin_identity =~= seq![
        text_field("name"@, name@),
        text_field("vendor"@, "Ableton"@),
        text_field("format"@, "Ableton"@),
        text_field("tag"@, tag@),
    ]);
    out
}

/// The slots of a list of devices, numbered from `pos`, those in racks in their
/// places. `pos` moves behind the last.
pub fn ableton_nodes_to_slots(nodes: &Vec<ableton::DeviceNode>, pos: &mut i32) -> (out: Vec<
    LiveSlot,
>)
    requires
        *old(pos) + leaves(ableton::device_models(nodes@)).len() <= i32::MAX,
    ensures
        slot_models(out@) == ableton_slots(ableton::device_models(nodes@), *old(pos) as int),
        *final(pos) == *old(pos) + leaves(ableton::device_models(nodes@)).len(),
    decreases ableton::device_models(nodes@),
{
    let ghost all = ableton::device_models(nodes@);
    let ghost first = *pos as int;
    let mut slots: Vec<LiveSlot> = Vec::new();
    let mut at: i32 = *pos;
    assert(slot_models(slots@) =~= ableton_slots(all.take(0), first));
    for i in 0..nodes.len()
        invariant
            all == ableton::device_models(nodes@),
            first == *old(pos),
            first + leaves(all).len() <= i32::MAX,
            at == first + leaves(all.take(i as int)).len(),
            slot_models(slots@) == ableton_slots(all.take(i as int), first),
    {
        let node = &nodes[i];
        let ghost before = slot_models(slots@);
        let ghost part = all.take(i as int);
        let ghost next = all.take(i + 1);
        proof {
            assert(all[i as int] == node.model());
            assert(next.drop_last() =~= part);
            assert(next.last() == node.model());
            lemma_leaves_prefix(all, i + 1);
        }
        match &node.device_type {
            ableton::DeviceType::Plugin { plugin_name, vendor, format, opaque_state } => {
                let slot = plugin_slot(
                    at,
                    plugin_name,
                    vendor,
                    *format,
                    opaque_state,
                    node.is_active,
                );
                slots.push(slot);
                at = at + 1;
                assert(slot@ == ableton_slot(node.model(), first + leaves(part).len()));
                assert(slot_models(slots@) =~= before.push(slot@));
                assert(slot_models(slots@) =~= ableton_slots(next, first));
            },
            ableton::DeviceType::AbletonBuiltin { tag, .. } => {
                let slot = builtin_slot(at, &node.name, tag, node.is_active);
                slots.push(slot);
                at = at + 1;
                assert(slot@ == ableton_slot(node.model(), first + leaves(part).len()));
                assert(slot_models(slots@) =~= before.push(slot@));
                assert(slot_models(slots@) =~= ableton_slots(next, first));
            },
            ableton::DeviceType::Rack { .. } => {
                proof {
                    assert(node.model().children =~= ableton::device_models(node.children@));
                    assert(decreases_to!(all => all[i as int]));
                    assert(decreases_to!(all[i as int] => all[i as int].children));
                }
                let mut inner = ableton_nodes_to_slots(&node.children, &mut at);
                let ghost added = slot_models(inner@);
                slots.append(&mut inner);
                assert(slot_models(slots@) =~= before + added);
                assert(slot_models(slots@) =~= ableton_slots(next, first));
            },
        }
    }
    assert(all.take(all.len() as int) =~= all);
    *pos = at;
    slots
}

/// Whether the slots of every track can be numbered.
pub open spec fn ableton_fits(p: ableton::ProjectModel) -> bool {
    forall|i: int|
        0 <= i < p.tracks.len() ==> leaves((#[trigger] p.tracks[i]).chain).len() <= i32::MAX
}

/// `start` and the number of devices that are no racks, where it can be counted.
fn count_leaves(nodes: &Vec<ableton::DeviceNode>, start: i32) -> (out: Option<i32>)
    requires
        0 <= start,
    ensures
        match out {
            Some(n) => n == start + leaves(ableton::device_models(nodes@)).len(),
            None => start + leaves(ableton::device_models(nodes@)).len() > i32::MAX,
        },
    decreases ableton::device_models(nodes@),
{
    let ghost all = ableton::device_models(nodes@);
    let mut n: i32 = start;
    for i in 0..nodes.len()
        invariant
            all == ableton::device_models(nodes@),
            0 <= start,
            n == start + leaves(all.take(i as int)).len(),
    {
        let node = &nodes[i];
        proof {
            assert(all[i as int] == node.model());
            let next = all.take(i + 1);
            assert(next.drop_last() =~= all.take(i as int));
            assert(next.last() == node.model());
            assert(node.model().children =~= ableton::device_models(node.children@));
            assert(decreases_to!(all => all[i as int]));
            assert(decreases_to!(all[i as int] => all[i as int].children));
            lemma_leaves_prefix(all, i + 1);
        }
        match &node.device_type {
            ableton::DeviceType::Rack { .. } => match count_leaves(&node.children, n) {
                Some(m) => {
                    n = m;
                },
                None => return None,
            },
            _ => {
                if n == i32::MAX {
                    return None;
                }
                n = n + 1;
            },
        }
    }
    assert(all.take(all.len() as int) =~= all);
    Some(n)
}

/// Whether the slots of every track can be numbered.
pub fn slots_fit(project: &ableton::AbletonProject) -> (yes: bool)
    ensures
        yes == ableton_fits(project@),
{
    for i in 0..project.tracks.len()
        invariant
            forall|k: int|
                0 <= k < i ==> leaves((#[trigger] project@.tracks[k]).chain).len() <= i32::MAX,
    {
        assert(project@.tracks[i as int] == project.tracks@[i as int]@);
        if count_leaves(&project.tracks[i].chain, 0).is_none() {
            return false;
        }
    }
    true
}

/// The name of a kind of Ableton track.
fn ableton_track_kind(kind: ableton::TrackKind) -> (out: &'static str)
    ensures
        out@ == ableton_kind(kind),
{
    match kind {
        ableton::TrackKind::Midi => "instrument",
        ableton::TrackKind::Audio => "audio",
        ableton::TrackKind::Return => "bus",
        ableton::TrackKind::Group => "group",
    }
}

/// The project as the frontend shows it.
pub fn from_ableton_project(project: &ableton::AbletonProject, path: &str) -> (out: LiveProject)
    requires
        ableton_fits(project@),
    ensures
        out@ == ableton_project(project@, path@),
{
    let mut tracks: Vec<LiveTrack> = Vec::new();
    let ghost all = ableton_project(project@, path@).tracks;
    for i in 0..project.tracks.len()
        invariant
            ableton_fits(project@),
            all == ableton_project(project@, path@).tracks,
            track_models(tracks@) == all.take(i as int),
    {
        let t = &project.tracks[i];
        let ghost before = track_models(tracks@);
        assert(project@.tracks[i as int] == t@);
        let mut pos: i32 = 0;
        let slots = ableton_nodes_to_slots(&t.chain, &mut pos);
        let track = LiveTrack {
            name: t.name.clone(),
            kind: ableton_track_kind(t.kind).to_owned(),
            slots,
        };
        tracks.push(track);
        assert(track_models(tracks@) =~= before.push(track@));
        assert(all.take(i + 1) =~= before.push(track@));
    }
    assert(all.take(all.len() as int) =~= all);
    LiveProject { path: path.to_owned(), daw: "Ableton".to_owned(), tracks }
}

// ---------------------------------------------------------------------------
// Logic Pro
// ---------------------------------------------------------------------------

/// The name of a kind of Logic track.
pub open spec fn logic_kind(kind: logicpro::TrackKind) -> Seq<char> {
    match kind {
        logicpro::TrackKind::Audio => "audio"@,
        logicpro::TrackKind::SoftwareInstrument => "instrument"@,
        logicpro::TrackKind::Aux => "bus"@,
        logicpro::TrackKind::Master => "master"@,
        logicpro::TrackKind::Unknown => "unknown"@,
    }
}

/// The slot of device `i` of a track.
pub open spec fn logic_slot(d: logicpro::DeviceModel, i: int) -> SlotModel {
    SlotModel {
        position: i as i32,
        name: d.name,
        vendor: Some(d.manufacturer),
        format: Some("AU"@),
        bypass: d.bypassed,
        wet_bits: FULLY_WET,
        preset_name: None,
        plugin_identity: seq![
            text_field("name"@, d.name),
            text_field("vendor"@, d.manufacturer),
            text_field("format"@, "AU"@),
            text_field("component_type"@, d.component_type),
            text_field("component_subtype"@, d.component_subtype),
        ],
        opaque_state: if d.state.len() == 0 {
            None
        } else {
            Some(encode(d.state))
        },
    }
}

/// The track as the frontend shows it.
pub open spec fn logic_track(t: logicpro::TrackModel) -> TrackModel {
    TrackModel {
        name: t.name,
        kind: logic_kind(t.kind),
        slots: Seq::new(t.devices.len(), |i: int| logic_slot(t.devices[i], i)),
    }
}

/// The project as the frontend shows it.
pub open spec fn logic_project(p: logicpro::ProjectModel, path: Seq<char>) -> ProjectModel {
    ProjectModel {
        path,
        daw: "Logic"@,
        tracks: p.tracks.map_values(|t: logicpro::TrackModel| logic_track(t)),
    }
}

/// The name of a kind of Logic track.
fn logic_track_kind(kind: logicpro::TrackKind) -> (out: &'static str)
    ensures
        out@ == logic_kind(kind),
{
    match kind {
        logicpro::TrackKind::Audio => "audio",
        logicpro::TrackKind::SoftwareInstrument => "instrument",
        logicpro::TrackKind::Aux => "bus",
        logicpro::TrackKind::Master => "master",
        logicpro::TrackKind::Unknown => "unknown",
    }
}

/// The slot of device `i` of a track.
fn logic_device_to_slot(d: &logicpro::LogicDevice, i: usize) -> (out: LiveSlot)
    ensures
        out@ == logic_slot(d@, i as int),
{
    let mut plugin_identity: Vec<JsonMember> = Vec::new();
    plugin_identity.push(text_member("name", d.name.as_str()));
    plugin_identity.push(text_member("vendor", d.manufacturer.as_str()));
    plugin_identity.push(text_member("format", "AU"));
    plugin_identity.push(text_member("component_type", d.component_type.as_str()));
    plugin_identity.push(text_member("component_subtype", d.component_subtype.as_str()));
    let out = LiveSlot {
        position: i as i32,
        name: d.name.clone(),
        vendor: Some(d.manufacturer.clone()),
        format: Some("AU".to_owned()),
        bypass: d.bypassed,
        wet_bits: FULLY_WET,
        preset_name: None,
        plugin_identity,
        opaque_state: if d.state.len() == 0 {
            None
        } else {
            Some(base64_encode(d.state.as_slice()))
        },
    };
    assert(out@.plugin_identity =~= logic_slot(d@, i as int).plugin_identity);
    out
}

/// The project as the frontend shows it.
pub fn from_logic_project(project: &logicpro::LogicProject, path: &str) -> (out: LiveProject)
    ensures
        out@ == logic_project(project@, path@),
{
    let mut tracks: Vec<LiveTrack> = Vec::new();
    let ghost all = logic_project(project@, path@).tracks;
    for i in 0..project.tracks.len()
        invariant
            all == logic_project(project@, path@).tracks,
            track_models(tracks@) == all.take(i as int),
    {
        let t = &project.tracks[i];
        let ghost before = track_models(tracks@);
        let ghost want = logic_track(t@).slots;
        assert(project@.tracks[i as int] == t@);
        let mut slots: Vec<LiveSlot> = Vec::new();
        for k in 0..t.devices.len()
            invariant
                want == logic_track(t@).slots,
                slot_models(slots@) == want.take(k as int),
        {
            let ghost done = slot_models(slots@);
            assert(t@.devices[k as int] == t.devices@[k as int]@);
            let slot = logic_device_to_slot(&t.devices[k], k);
            slots.push(slot);
            assert(slot_models(slots@) =~= done.push(slot@));
            assert(want.take(k + 1) =~= done.push(slot@));
        }
        assert(want.take(want.len() as int) =~= want);
        let track = LiveTrack {
            name: t.name.clone(),
            kind: logic_track_kind(t.kind).to_owned(),
            slots,
        };
        tracks.push(track);
        assert(track_models(tracks@) =~= before.push(track@));
        assert(all.take(i + 1) =~= before.push(track@));
    }
    assert(all.take(all.len() as int) =~= all);
    LiveProject { path: path.to_owned(), daw: "Logic".to_owned(), tracks }
}

// ---------------------------------------------------------------------------
// Reaper
// ---------------------------------------------------------------------------

/// The name of a plugin format of Reaper.
pub open spec fn reaper_format(f: reaper::PluginFormat) -> Seq<char> {
    match f {
        reaper::PluginFormat::Vst2 => "VST2"@,
        reaper::PluginFormat::Vst3 => "VST3"@,
        reaper::PluginFormat::Au => "AU"@,
        reaper::PluginFormat::Clap => "CLAP"@,
        reaper::PluginFormat::Unknown => "Unknown"@,
    }
}

/// The slot of effect `i` of a track.
pub open spec fn reaper_slot(fx: reaper::FxModel, i: int) -> SlotModel {
    SlotModel {
        position: i as i32,
        name: fx.name,
        vendor: fx.vendor,
        format: Some(reaper_format(fx.format)),
        bypass: fx.is_bypassed,
        wet_bits: FULLY_WET,
        preset_name: fx.preset_name,
        plugin_identity: seq![
            text_field("name"@, fx.name),
            opt_field("vendor"@, fx.vendor),
            text_field("format"@, reaper_format(fx.format)),
            opt_field("vst3_guid"@, fx.vst3_guid),
            opt_field("vst_uid"@, fx.vst_uid),
        ],
        opaque_state: fx.opaque_state,
    }
}

/// The track as the frontend shows it.
pub open spec fn reaper_track(t: reaper::TrackModel) -> TrackModel {
    TrackModel {
        name: t.name,
        kind: "audio"@,
        slots: Seq::new(t.fx_chain.len(), |i: int| reaper_slot(t.fx_chain[i], i)),
    }
}

/// The project as the frontend shows it.
pub open spec fn reaper_project(p: reaper::ProjectModel, path: Seq<char>) -> ProjectModel {
    ProjectModel {
        path,
        daw: "Reaper"@,
        tracks: p.tracks.map_values(|t: reaper::TrackModel| reaper_track(t)),
    }
}

/// The name of a plugin format of Reaper.
fn reaper_fmt_str(f: reaper::PluginFormat) -> (out: &'static str)
    ensures
        out@ == reaper_format(f),
{
    match f {
        reaper::PluginFormat::Vst2 => "VST2",
        reaper::PluginFormat::Vst3 => "VST3",
        reaper::PluginFormat::Au => "AU",
        reaper::PluginFormat::Clap => "CLAP",
        reaper::PluginFormat::Unknown => "Unknown",
    }
}

/// The slot of effect `i` of a track.
fn reaper_fx_to_slot(fx: &reaper::FxPlugin, i: usize) -> (out: LiveSlot)
    ensures
        out@ == reaper_slot(fx@, i as int),
{
    let fmt = reaper_fmt_str(fx.format);
    let mut plugin_identity: Vec<JsonMember> = Vec::new();
    plugin_identity.push(text_member("name", fx.name.as_str()));
    plugin_identity.push(opt_member("vendor", &fx.vendor));
    plugin_identity.push(text_member("format", fmt));
    plugin_identity.push(opt_member("vst3_guid", &fx.vst3_guid));
    plugin_identity.push(opt_member("vst_uid", &fx.vst_uid));
    let out = LiveSlot {
        position: i as i32,
        name: fx.name.clone(),
        vendor: copy_opt(&fx.vendor),
        format: Some(fmt.to_owned()),
        bypass: fx.is_bypassed,
        wet_bits: FULLY_WET,
        preset_name: copy_opt(&fx.preset_name),
        plugin_identity,
        opaque_state: copy_opt(&fx.opaque_state),
    };
    assert(out@.plugin_identity =~= reaper_slot(fx@, i as int).plugin_identity);
    out
}

/// The project as the frontend shows it.
pub fn from_reaper_project(project: &reaper::ReaperProject, path: &str) -> (out: LiveProject)
    ensures
        out@ == reaper_project(project@, path@),
{
    let mut tracks: Vec<LiveTrack> = Vec::new();
    let ghost all = reaper_project(project@, path@).tracks;
    for i in 0..project.tracks.len()
        invariant
            all == reaper_project(project@, path@).tracks,
            track_models(tracks@) == all.take(i as int),
    {
        let t = &project.tracks[i];
        let ghost before = track_models(tracks@);
        let ghost want = reaper_track(t@).slots;
        assert(project@.tracks[i as int] == t@);
        let mut slots: Vec<LiveSlot> = Vec::new();
        for k in 0..t.fx_chain.len()
            invariant
                want == reaper_track(t@).slots,
                slot_models(slots@) == want.take(k as int),
        {
            let ghost done = slot_models(slots@);
            assert(t@.fx_chain[k as int] == t.fx_chain@[k as int]@);
            let slot = reaper_fx_to_slot(&t.fx_chain[k], k);
            slots.push(slot);
            assert(slot_models(slots@) =~= done.push(slot@));
            assert(want.take(k + 1) =~= done.push(slot@));
        }
        assert(want.take(want.len() as int) =~= want);
        let track = LiveTrack { name: t.name.clone(), kind: "audio".to_owned(), slots };
        tracks.push(track);
        assert(track_models(tracks@) =~= before.push(track@));
        assert(all.take(i + 1) =~= before.push(track@));
    }
    assert(all.take(all.len() as int) =~= all);
    LiveProject { path: path.to_owned(), daw: "Reaper".to_owned(), tracks }
}

// ---------------------------------------------------------------------------
// DAWproject
// ---------------------------------------------------------------------------

/// The format, the vendor and the identity of a device.
pub open spec fn dawproject_identity(d: dawproject::DeviceModel) -> (
    Seq<char>,
    Option<Seq<char>>,
    Seq<(Seq<char>, FieldModel)>,
) {
    match d.kind {
        dawproject::KindModel::Vst3 { device_id, vendor, plugin_version } => (
            "VST3"@,
            vendor,
            seq![
                text_field("name"@, d.name),
                opt_field("vendor"@, vendor),
                text_field("format"@, "VST3"@),
                text_field("device_id"@, device_id),
            ],
        ),
        dawproject::KindModel::Vst2 { unique_id, vendor, plugin_version } => (
            "VST2"@,
            vendor,
            seq![
                text_field("name"@, d.name),
                opt_field("vendor"@, vendor),
                text_field("format"@, "VST2"@),
                ("unique_id"@, FieldModel::Integer(unique_id)),
            ],
        ),
        dawproject::KindModel::Au { type_code, sub_type, manufacturer } => (
            "AU"@,
            None,
            seq![
                text_field("name"@, d.name),
                text_field("format"@, "AU"@),
                text_field("type_code"@, type_code),
                text_field("sub_type"@, sub_type),
                text_field("manufacturer"@, manufacturer),
            ],
        ),
        dawproject::KindModel::Clap { id, vendor, plugin_version } => (
            "CLAP"@,
            vendor,
            seq![
                text_field("name"@, d.name),
                opt_field("vendor"@, vendor),
                text_field("format"@, "CLAP"@),
                text_field("id"@, id),
            ],
        ),
        dawproject::KindModel::Builtin => (
            "Builtin"@,
            None,
            seq![text_field("name"@, d.name), text_field("format"@, "Builtin"@)],
        ),
    }
}

/// The slot of a device.
pub open spec fn dawproject_slot(d: dawproject::DeviceModel, position: i32) -> SlotModel {
    let id = dawproject_identity(d);
    SlotModel {
        position,
        name: d.name,
        vendor: id.1,
        format: Some(id.0),
        bypass: !d.is_enabled,
        wet_bits: FULLY_WET,
        preset_name: None,
        plugin_identity: id.2,
        opaque_state: d.opaque_state,
    }
}

/// The track of a channel with devices.
pub open spec fn dawproject_track(name: Seq<char>, devices: Seq<dawproject::DeviceModel>) -> TrackModel {
    TrackModel {
        name,
        kind: "audio"@,
        slots: Seq::new(devices.len(), |i: int| dawproject_slot(devices[i], i as i32)),
    }
}

/// The tracks with devices, each before those in it.
pub open spec fn dawproject_tracks(tracks: Seq<dawproject::TrackModel>) -> Seq<TrackModel>
    decreases tracks,
{
    if tracks.len() == 0 {
        Seq::empty()
    } else {
        let before = dawproject_tracks(tracks.drop_last());
        let t = tracks.last();
        let own = match t.channel {
            Some(c) => if c.devices.len() > 0 {
                seq![dawproject_track(t.name, c.devices)]
            } else {
                Seq::empty()
            },
            None => Seq::empty(),
        };
        before + own + dawproject_tracks(t.children)
    }
}

/// The project as the frontend shows it.
pub open spec fn dawproject_project(p: dawproject::ProjectModel, path: Seq<char>) -> ProjectModel {
    ProjectModel {
        path,
        daw: match p.application {
            Some(a) => a.0,
            None => "DAWproject"@,
        },
        tracks: dawproject_tracks(p.tracks),
    }
}

/// The format, the vendor and the identity of a device.
fn identify_device(d: &dawproject::Device) -> (out: (
    &'static str,
    Option<String>,
    Vec<JsonMember>,
))
    ensures
        (out.0@, opt_text(out.1), member_models(out.2@)) == dawproject_identity(d@),
{
    let mut members: Vec<JsonMember> = Vec::new();
    members.push(text_member("name", d.name.as_str()));
    match &d.kind {
        dawproject::DeviceKind::Vst3 { device_id, vendor, .. } => {
            members.push(opt_member("vendor", vendor));
            members.push(text_member("format", "VST3"));
            members.push(text_member("device_id", device_id.as_str()));
            assert(member_models(members@) =~= dawproject_identity(d@).2);
            ("VST3", copy_opt(vendor), members)
        },
        dawproject::DeviceKind::Vst2 { unique_id, vendor, .. } => {
            members.push(opt_member("vendor", vendor));
            members.push(text_member("format", "VST2"));
            members.push(
                JsonMember {
                    name: "unique_id".to_owned(),
                    value: JsonField::Integer(*unique_id),
                },
            );
            assert(member_models(members@) =~= dawproject_identity(d@).2);
            ("VST2", copy_opt(vendor), members)
        },
        dawproject::DeviceKind::Au { type_code, sub_type, manufacturer } => {
            members.push(text_member("format", "AU"));
            members.push(text_member("type_code", type_code.as_str()));
            members.push(text_member("sub_type", sub_type.as_str()));
            members.push(text_member("manufacturer", manufacturer.as_str()));
            assert(member_models(members@) =~= dawproject_identity(d@).2);
            ("AU", None, members)
        },
        dawproject::DeviceKind::Clap { id, vendor, .. } => {
            members.push(opt_member("vendor", vendor));
            members.push(text_member("format", "CLAP"));
            members.push(text_member("id", id.as_str()));
            assert(member_models(members@) =~= dawproject_identity(d@).2);
            ("CLAP", copy_opt(vendor), members)
        },
        dawproject::DeviceKind::Builtin => {
            members.push(text_member("format", "Builtin"));
            assert(member_models(members@) =~= dawproject_identity(d@).2);
            ("Builtin", None, members)
        },
    }
}

/// The slot of a device.
pub fn dawproject_device_to_slot(device: &dawproject::Device, pos: i32) -> (out: LiveSlot)
    ensures
        out@ == dawproject_slot(device@, pos),
{
    let (fmt, vendor, plugin_identity) = identify_device(device);
    LiveSlot {
        position: pos,
        name: device.name.clone(),
        vendor,
        format: Some(fmt.to_owned()),
        bypass: !device.is_enabled,
        wet_bits: FULLY_WET,
        preset_name: None,
        plugin_identity,
        opaque_state: copy_opt(&device.opaque_state),
    }
}

/// The track of a channel with devices.
fn channel_to_track(name: &String, devices: &Vec<dawproject::Device>) -> (out: LiveTrack)
    ensures
        out@ == dawproject_track(name@, dawproject::device_models(devices@)),
{
    let ghost want = dawproject_track(name@, dawproject::device_models(devices@)).slots;
    let mut slots: Vec<LiveSlot> = Vec::new();
    for k in 0..devices.len()
        invariant
            want == dawproject_track(name@, dawproject::device_models(devices@)).slots,
            slot_models(slots@) == want.take(k as int),
    {
        let ghost done = slot_models(slots@);
        let slot = dawproject_device_to_slot(&devices[k], k as i32);
        slots.push(slot);
        assert(slot_models(slots@) =~= done.push(slot@));
        assert(want.take(k + 1) =~= done.push(slot@));
    }
    assert(want.take(want.len() as int) =~= want);
    LiveTrack { name: name.clone(), kind: "audio".to_owned(), slots }
}

/// The tracks with devices, each before those in it.
pub fn collect_dp_tracks(src: &Vec<dawproject::Track>) -> (out: Vec<LiveTrack>)
    ensures
        track_models(out@) == dawproject_tracks(dawproject::track_models(src@)),
    decreases dawproject::track_models(src@),
{
    let ghost all = dawproject::track_models(src@);
    let mut out: Vec<LiveTrack> = Vec::new();
    assert(track_models(out@) =~= dawproject_tracks(all.take(0)));
    for i in 0..src.len()
        invariant
            all == dawproject::track_models(src@),
            track_models(out@) == dawproject_tracks(all.take(i as int)),
    {
        let t = &src[i];
        let ghost before = track_models(out@);
        let ghost next = all.take(i + 1);
        proof {
            assert(all[i as int] == t.model());
            assert(next.drop_last() =~= all.take(i as int));
            assert(next.last() == t.model());
            assert(t.model().children =~= dawproject::track_models(t.children@));
            assert(decreases_to!(all => all[i as int]));
            assert(decreases_to!(all[i as int] => all[i as int].children));
        }
        if let Some(ch) = &t.channel {
            if ch.devices.len() > 0 {
                let track = channel_to_track(&t.name, &ch.devices);
                out.push(track);
                assert(track_models(out@) =~= before.push(track@));
            }
        }
        let ghost own = track_models(out@);
        let mut inner = collect_dp_tracks(&t.children);
        let ghost added = track_models(inner@);
        out.append(&mut inner);
        assert(track_models(out@) =~= own + added);
        assert(track_models(out@) =~= dawproject_tracks(next));
    }
    assert(all.take(all.len() as int) =~= all);
    out
}

/// The project as the frontend shows it.
pub fn from_dawproject_file(project: &dawproject::DawProject, path: &str) -> (out: LiveProject)
    ensures
        out@ == dawproject_project(project@, path@),
{
    let daw = match &project.application {
        Some(a) => a.name.clone(),
        None => "DAWproject".to_owned(),
    };
    LiveProject { path: path.to_owned(), daw, tracks: collect_dp_tracks(&project.tracks) }
}

// ---------------------------------------------------------------------------
// Any project
// ---------------------------------------------------------------------------

/// A parsed project as the frontend shows it. Racks and projects that no reader
/// knows are not shown.
pub open spec fn live_project(parsed: ParsedProject, path: Seq<char>) -> Option<ProjectModel> {
    match parsed {
        ParsedProject::Ableton(ableton::AbletonFile::Project(p)) => Some(
            ableton_project(p@, path),
        ),
        ParsedProject::Ableton(ableton::AbletonFile::Rack(_)) => None,
        ParsedProject::Logic(p) => Some(logic_project(p@, path)),
        ParsedProject::Reaper(p) => Some(reaper_project(p@, path)),
        ParsedProject::DawProject(p) => Some(dawproject_project(p@, path)),
        ParsedProject::Unrecognized { .. } => None,
    }
}

/// Convert a parsed project and its file path into the frontend-facing LiveProject.
/// Returns `None` for `.adg` racks and unrecognised project types.
pub fn from_parsed(parsed: &ParsedProject, path: &str) -> (out: Option<LiveProject>)
    requires
        parsed matches ParsedProject::Ableton(ableton::AbletonFile::Project(p)) ==> ableton_fits(
            p@,
        ),
    ensures
        match out {
            Some(l) => live_project(*parsed, path@) == Some(l@),
            None => live_project(*parsed, path@) is None,
        },
{
    match parsed {
        ParsedProject::Ableton(ableton::AbletonFile::Project(p)) => Some(
            from_ableton_project(p, path),
        ),
        ParsedProject::Ableton(ableton::AbletonFile::Rack(_)) => None,
        ParsedProject::Logic(p) => Some(from_logic_project(p, path)),
        ParsedProject::Reaper(p) => Some(from_reaper_project(p, path)),
        ParsedProject::DawProject(p) => Some(from_dawproject_file(p, path)),
        ParsedProject::Unrecognized { .. } => None,
    }
}

// ---------------------------------------------------------------------------
// Laws
// ---------------------------------------------------------------------------

/// The slots of an Ableton track are numbered from zero without a gap.
pub proof fn law_ableton_positions(t: ableton::TrackModel)
    requires
        leaves(t.chain).len() <= i32::MAX,
    ensures
        forall|i: int|
            0 <= i < ableton_track(t).slots.len() ==> (#[trigger] ableton_track(t).slots[i]).position
                == i,
{
    lemma_leaves_are_no_racks(t.chain);
}

/// The devices of two lists one behind the other.
pub proof fn law_leaves_of_joined(a: Seq<ableton::DeviceModel>, b: Seq<ableton::DeviceModel>)
    ensures
        leaves(a + b) == leaves(a) + leaves(b),
    decreases b.len(),
{
    if b.len() == 0 {
        assert(a + b =~= a);
        assert(leaves(a) + leaves(b) =~= leaves(a));
    } else {
        law_leaves_of_joined(a, b.drop_last());
        assert((a + b).drop_last() =~= a + b.drop_last());
        assert((a + b).last() == b.last());
        assert(leaves(a + b) =~= leaves(a) + leaves(b));
    }
}

/// Two lists one after the other, the second numbered on from where the first ended, give
/// the slots of the joined list, and move the position as far.
pub proof fn law_ableton_slots_of_joined(
    a: Seq<ableton::DeviceModel>,
    b: Seq<ableton::DeviceModel>,
    pos: int,
)
    ensures
        ableton_slots(a + b, pos) == ableton_slots(a, pos) + ableton_slots(
            b,
            pos + leaves(a).len(),
        ),
        pos + leaves(a + b).len() == pos + leaves(a).len() + leaves(b).len(),
{
    law_leaves_of_joined(a, b);
    assert(ableton_slots(a + b, pos) =~= ableton_slots(a, pos) + ableton_slots(
        b,
        pos + leaves(a).len(),
    ));
}

/// The slots of a list are numbered from `pos` on without a gap.
pub proof fn law_ableton_slots_numbered(nodes: Seq<ableton::DeviceModel>, pos: int)
    requires
        i32::MIN <= pos,
        pos + leaves(nodes).len() <= i32::MAX,
    ensures
        ableton_slots(nodes, pos).len() == leaves(nodes).len(),
        forall|i: int|
            0 <= i < ableton_slots(nodes, pos).len() ==> (#[trigger] ableton_slots(
                nodes,
                pos,
            )[i]).position == pos + i,
{
    lemma_leaves_are_no_racks(nodes);
}

/// A rack takes no position of its own: it gives the slots of its devices.
pub proof fn law_rack_gives_its_devices(rack: ableton::DeviceModel, pos: int)
    requires
        rack.device_type is Rack,
    ensures
        ableton_slots(seq![rack], pos) == ableton_slots(rack.children, pos),
{
    reveal_with_fuel(leaves, 2);
    assert(seq![rack].drop_last() =~= Seq::empty());
    assert(leaves(seq![rack]) =~= leaves(rack.children));
}

/// No device among the leaves is a rack.
proof fn lemma_leaves_are_no_racks(nodes: Seq<ableton::DeviceModel>)
    ensures
        forall|i: int|
            0 <= i < leaves(nodes).len() ==> !((#[trigger] leaves(nodes)[i]).device_type is Rack),
    decreases nodes,
{
    if nodes.len() > 0 {
        lemma_leaves_are_no_racks(nodes.drop_last());
        let node = nodes.last();
        if node.device_type is Rack {
            assert(decreases_to!(nodes => nodes[nodes.len() - 1]));
            lemma_leaves_are_no_racks(node.children);
        }
    }
}

/// A rack is not shown, nor is a project that no reader knows.
pub proof fn law_not_shown(parsed: ParsedProject, path: Seq<char>)
    ensures
        live_project(parsed, path) is None <==> (parsed is Unrecognized || parsed
            matches ParsedProject::Ableton(ableton::AbletonFile::Rack(_))),
{
}

} // verus!
