//! What holds of every Live set and rack that is read.
use vstd::prelude::*;

use crate::archive::gzip_text;
use crate::daw_readers::ableton::{
    ableton_file, adg_file, als_file, attrs_text, branch_devices, chain_of, data_text,
    data_text_from, device_of, devices_in, macros_below, macros_of, node_text, nodes_text,
    project_of, rack_of, track_of, texts_of, tracks_in, AbletonError, DeviceModel, ErrorModel,
    FileModel, MacroModel, PluginFormat, ProjectModel, RackModel, RackType, TrackKind, TrackModel,
    TypeModel,
};
use crate::number::{decimal, parse_int};
use crate::selection::{chosen, is_selection, lemma_chosen};
use crate::text::{eq_ignore_case, escape, trim};
use crate::xml::{attr_or, child, child_attr, document, first_element, AttrModel, XmlKind, XmlModel};

verus! {

// ---------------------------------------------------------------------------
// Tracks
// ---------------------------------------------------------------------------

/// The element of a track of one of the four kinds.
pub open spec fn is_track_element(n: XmlModel) -> bool {
    &&& n.kind == XmlKind::Element
    &&& n.tag == "MidiTrack"@ || n.tag == "AudioTrack"@ || n.tag == "ReturnTrack"@ || n.tag
        == "GroupTrack"@
}

/// The kind of a track is that of the tag of its element.
pub open spec fn has_kind_of(t: TrackModel, n: XmlModel) -> bool {
    &&& n.tag == "MidiTrack"@ <==> t.kind == TrackKind::Midi
    &&& n.tag == "AudioTrack"@ <==> t.kind == TrackKind::Audio
    &&& n.tag == "ReturnTrack"@ <==> t.kind == TrackKind::Return
    &&& n.tag == "GroupTrack"@ <==> t.kind == TrackKind::Group
}

/// The four tags differ.
proof fn lemma_track_tags()
    ensures
        "MidiTrack"@ != "AudioTrack"@,
        "MidiTrack"@ != "ReturnTrack"@,
        "MidiTrack"@ != "GroupTrack"@,
        "AudioTrack"@ != "ReturnTrack"@,
        "AudioTrack"@ != "GroupTrack"@,
        "ReturnTrack"@ != "GroupTrack"@,
{
    reveal_strlit("MidiTrack");
    reveal_strlit("AudioTrack");
    reveal_strlit("ReturnTrack");
    reveal_strlit("GroupTrack");
    assert("MidiTrack"@[0] == 'M');
    assert("AudioTrack"@[0] == 'A');
    assert("ReturnTrack"@[0] == 'R');
    assert("GroupTrack"@[0] == 'G');
}

/// An element is read as a track where it is that of a MIDI, audio, return or group
/// track. The track has the kind of the element, the name that the element shows, its
/// colour where that is a number, and its devices.
pub proof fn law_track(n: XmlModel)
    requires
        n.kind == XmlKind::Element,
    ensures
        track_of(n) is Some <==> is_track_element(n),
        track_of(n) matches Some(t) ==> {
            &&& has_kind_of(t, n)
            &&& match child(n, "Name"@) {
                Some(name) => match child_attr(name, "EffectiveName"@, "Value"@) {
                    Some(v) => t.name == v,
                    None => t.name.len() == 0,
                },
                None => t.name.len() == 0,
            }
            &&& match child_attr(n, "ColorIndex"@, "Value"@) {
                Some(v) => t.color_index == parse_int(v, -0x8000_0000, 0x7fff_ffff),
                None => t.color_index is None,
            }
            &&& t.chain == chain_of(n)
        },
{
    lemma_track_tags();
}

proof fn lemma_tracks_in(items: Seq<XmlModel>, n: int)
    requires
        0 <= n <= items.len(),
    ensures
        ({
            let at = chosen(n, |i: int| is_track_element(items[i]));
            let found = tracks_in(items.take(n));
            &&& found.len() == at.len()
            &&& forall|k: int|
                0 <= k < at.len() ==> Some(#[trigger] found[k]) == track_of(items[at[k]])
        }),
    decreases n,
{
    let keep = |i: int| is_track_element(items[i]);
    if n > 0 {
        lemma_tracks_in(items, n - 1);
        let part = items.take(n);
        assert(part.drop_last() =~= items.take(n - 1));
        assert(part.last() == items[n - 1]);
        assert(keep(n - 1) == is_track_element(items[n - 1]));
        if items[n - 1].kind == XmlKind::Element {
            law_track(items[n - 1]);
        }
    }
}

/// A Live set has as many tracks as its list has elements of MIDI, audio, return and
/// group tracks, in the same order, each of the kind of its element. Nothing else in the
/// list is a track, and none is left out.
pub proof fn law_live_set(root: XmlModel, set: XmlModel, list: XmlModel) -> (at: Seq<int>)
    requires
        child(root, "LiveSet"@) == Some(set),
        child(set, "Tracks"@) == Some(list),
    ensures
        is_selection(at, list.children.len() as int, |i: int| is_track_element(list.children[i])),
        match project_of(root) {
            Ok(p) => {
                &&& p.creator == attr_or(root, "Creator"@, ""@)
                &&& p.major_version == attr_or(root, "MajorVersion"@, ""@)
                &&& p.tracks.len() == at.len()
                &&& forall|k: int|
                    0 <= k < at.len() ==> has_kind_of(#[trigger] p.tracks[k], list.children[at[k]])
                        && Some(p.tracks[k]) == track_of(list.children[at[k]])
            },
            Err(_) => false,
        },
{
    let items = list.children;
    let n = items.len() as int;
    let keep = |i: int| is_track_element(items[i]);
    let at = chosen(n, keep);
    lemma_chosen(n, keep);
    lemma_tracks_in(items, n);
    assert(items.take(n) =~= items);
    let found = tracks_in(items);
    assert forall|k: int| 0 <= k < at.len() implies has_kind_of(
        #[trigger] found[k],
        items[at[k]],
    ) by {
        assert(keep(at[k]));
        law_track(items[at[k]]);
    }
    at
}

/// Without a Live set, or without its list of tracks, there is no project.
pub proof fn law_no_live_set(root: XmlModel)
    requires
        child(root, "LiveSet"@) matches Some(set) ==> child(set, "Tracks"@) is None,
    ensures
        child(root, "LiveSet"@) is None ==> project_of(root) == Err::<ProjectModel, ErrorModel>(
            ErrorModel::Format("Missing <LiveSet>"@),
        ),
        child(root, "LiveSet"@) is Some ==> project_of(root) == Err::<ProjectModel, ErrorModel>(
            ErrorModel::Format("Missing <Tracks>"@),
        ),
{
}

// ---------------------------------------------------------------------------
// Devices
// ---------------------------------------------------------------------------

/// The element tells which plugin it is: it has a description in one of the three
/// formats.
pub open spec fn has_plugin_info(n: XmlModel) -> bool {
    match child(n, "PluginDesc"@) {
        Some(desc) => child(desc, "Vst3PluginInfo"@) is Some || child(desc, "VstPluginInfo"@)
            is Some || child(desc, "AuPluginInfo"@) is Some,
        None => false,
    }
}

/// The tag is that of a rack.
pub open spec fn is_rack_tag(tag: Seq<char>) -> bool {
    tag == "InstrumentGroupDevice"@ || tag == "DrumGroupDevice"@ || tag == "GroupDevice"@
}

/// The element is read as a device: every one is but that of a plugin that does not tell
/// which plugin it is.
pub open spec fn is_device_element(n: XmlModel) -> bool {
    n.kind == XmlKind::Element && (n.tag == "PluginDevice"@ ==> has_plugin_info(n))
}

/// The tags of the devices that are told apart differ.
proof fn lemma_device_tags()
    ensures
        !is_rack_tag("PluginDevice"@),
        "InstrumentGroupDevice"@ != "DrumGroupDevice"@,
        "InstrumentGroupDevice"@ != "GroupDevice"@,
        "DrumGroupDevice"@ != "GroupDevice"@,
{
    reveal_strlit("PluginDevice");
    reveal_strlit("InstrumentGroupDevice");
    reveal_strlit("DrumGroupDevice");
    reveal_strlit("GroupDevice");
    assert("PluginDevice"@[0] == 'P');
    assert("InstrumentGroupDevice"@[0] == 'I');
    assert("DrumGroupDevice"@[0] == 'D');
    assert("GroupDevice"@[0] == 'G');
}

/// Every element is a device, but that of a plugin without a description. A device has
/// the name that its element shows, else the tag, and is on unless it says otherwise.
/// The tag decides whether it is a plugin, a rack or one of Live's own.
pub proof fn law_device(n: XmlModel)
    ensures
        device_of(n) is Some <==> (n.tag == "PluginDevice"@ ==> has_plugin_info(n)),
        device_of(n) matches Some(d) ==> {
            &&& match child(n, "Name"@) {
                Some(name) => match child_attr(name, "EffectiveName"@, "Value"@) {
                    Some(v) => d.name == v,
                    None => d.name == n.tag,
                },
                None => d.name == n.tag,
            }
            &&& d.is_active <==> match child(n, "On"@) {
                Some(on) => match child_attr(on, "Manual"@, "Value"@) {
                    Some(v) => eq_ignore_case(v, "true"@),
                    None => true,
                },
                None => true,
            }
            &&& d.device_type is Plugin <==> n.tag == "PluginDevice"@
            &&& d.device_type is Rack <==> is_rack_tag(n.tag)
            &&& d.device_type matches TypeModel::Rack { rack_type } ==> {
                &&& n.tag == "InstrumentGroupDevice"@ <==> rack_type == RackType::Instrument
                &&& n.tag == "DrumGroupDevice"@ <==> rack_type == RackType::Drum
                &&& n.tag == "GroupDevice"@ <==> rack_type == RackType::AudioEffect
            }
            &&& d.device_type matches TypeModel::AbletonBuiltin { tag, params_xml } ==> tag
                == n.tag && params_xml == node_text(n)
            &&& !(d.device_type is Rack) ==> d.macros.len() == 0 && d.children.len() == 0
        },
{
    lemma_device_tags();
}

/// A plugin is of the format of its description: VST3 before VST2 before Audio Unit,
/// where it has more than one. Its name and its vendor are those of that description.
pub proof fn law_plugin_device(n: XmlModel, desc: XmlModel)
    requires
        n.tag == "PluginDevice"@,
        child(n, "PluginDesc"@) == Some(desc),
        has_plugin_info(n),
    ensures
        match device_of(n) {
            Some(d) => match d.device_type {
                TypeModel::Plugin { plugin_name, vendor, format, opaque_state } => {
                    &&& format == PluginFormat::Vst3 <==> child(desc, "Vst3PluginInfo"@) is Some
                    &&& format == PluginFormat::Vst2 <==> child(desc, "Vst3PluginInfo"@) is None
                        && child(desc, "VstPluginInfo"@) is Some
                    &&& child(desc, "Vst3PluginInfo"@) matches Some(info) ==> {
                        &&& child_attr(info, "Name"@, "Value"@) matches Some(v) ==> plugin_name == v
                        &&& child_attr(info, "Name"@, "Value"@) is None ==> plugin_name
                            == "Unknown"@
                        &&& vendor == child_attr(info, "VendorString"@, "Value"@)
                    }
                    &&& format == PluginFormat::Vst2 ==> {
                        let info = child(desc, "VstPluginInfo"@)->Some_0;
                        &&& child_attr(info, "PlugName"@, "Value"@) matches Some(v) ==> plugin_name
                            == v
                        &&& child_attr(info, "PlugName"@, "Value"@) is None ==> plugin_name
                            == "Unknown"@
                        &&& vendor == child_attr(info, "VendorString"@, "Value"@)
                    }
                    &&& format == PluginFormat::Au ==> {
                        let info = child(desc, "AuPluginInfo"@)->Some_0;
                        &&& child(desc, "AuPluginInfo"@) is Some
                        &&& child_attr(info, "Name"@, "Value"@) matches Some(v) ==> plugin_name == v
                        &&& child_attr(info, "Name"@, "Value"@) is None ==> plugin_name
                            == "Unknown"@
                        &&& vendor == child_attr(info, "Manufacturer"@, "Value"@)
                    }
                    &&& match child(n, "Preset"@) {
                        Some(preset) => opaque_state == data_text(preset),
                        None => opaque_state is None,
                    }
                },
                _ => false,
            },
            None => false,
        },
{
}

/// The texts that stand in an element itself, one after the other.
pub open spec fn own_text(n: XmlModel, k: int) -> Seq<char>
    decreases k,
{
    if k <= 0 {
        Seq::empty()
    } else {
        own_text(n, k - 1) + match n.children[k - 1].text {
            Some(t) => t,
            None => Seq::empty(),
        }
    }
}

proof fn lemma_own_text(n: XmlModel, k: int)
    requires
        0 <= k <= n.children.len(),
    ensures
        texts_of(n.children.take(k)) == own_text(n, k),
    decreases k,
{
    if k > 0 {
        lemma_own_text(n, k - 1);
        let part = n.children.take(k);
        assert(part.drop_last() =~= n.children.take(k - 1));
        assert(part.last() == n.children[k - 1]);
        assert(own_text(n, k - 1) + Seq::<char>::empty() =~= own_text(n, k - 1));
    }
}

/// The element is a `Data` element that holds more than white space.
pub open spec fn is_data(n: XmlModel) -> bool {
    n.kind == XmlKind::Element && n.tag == "Data"@ && trim(
        own_text(n, n.children.len() as int),
    ).len() > 0
}

/// The state is the text of a `Data` element, without white space round it: that of the
/// node itself, else that of the first of the nodes in it that has one. There is none
/// only where neither has.
pub proof fn law_data_text(n: XmlModel) -> (k: int)
    ensures
        is_data(n) ==> data_text(n) == Some(trim(own_text(n, n.children.len() as int))),
        !is_data(n) ==> match data_text(n) {
            Some(t) => 0 <= k < n.children.len() && data_text(n.children[k]) == Some(t)
                && forall|j: int| 0 <= j < k ==> data_text(#[trigger] n.children[j]) is None,
            None => forall|j: int|
                0 <= j < n.children.len() ==> data_text(#[trigger] n.children[j]) is None,
        },
{
    let all = n.children.len() as int;
    lemma_own_text(n, all);
    assert(n.children.take(all) =~= n.children);
    lemma_data_text_from(n.children, 0)
}

proof fn lemma_data_text_from(nodes: Seq<XmlModel>, i: int) -> (k: int)
    requires
        0 <= i <= nodes.len(),
    ensures
        match data_text_from(nodes, i) {
            Some(t) => i <= k < nodes.len() && data_text(nodes[k]) == Some(t) && forall|j: int|
                i <= j < k ==> data_text(#[trigger] nodes[j]) is None,
            None => forall|j: int| i <= j < nodes.len() ==> data_text(#[trigger] nodes[j]) is None,
        },
    decreases nodes.len() - i,
{
    if i < nodes.len() && data_text(nodes[i]) is None {
        lemma_data_text_from(nodes, i + 1)
    } else {
        i
    }
}

// ---------------------------------------------------------------------------
// Chains
// ---------------------------------------------------------------------------

proof fn lemma_devices_in(items: Seq<XmlModel>, n: int)
    requires
        0 <= n <= items.len(),
    ensures
        ({
            let at = chosen(n, |i: int| is_device_element(items[i]));
            let found = devices_in(items.take(n));
            &&& found.len() == at.len()
            &&& forall|k: int|
                0 <= k < at.len() ==> Some(#[trigger] found[k]) == device_of(items[at[k]])
        }),
    decreases n,
{
    let keep = |i: int| is_device_element(items[i]);
    if n > 0 {
        lemma_devices_in(items, n - 1);
        let part = items.take(n);
        assert(part.drop_last() =~= items.take(n - 1));
        assert(part.last() == items[n - 1]);
        assert(keep(n - 1) == is_device_element(items[n - 1]));
        law_device(items[n - 1]);
    }
}

/// The chain of a track or a branch holds a device for every element in its list of
/// devices, in the same order. The list is the `Devices` element in the first element of
/// the `DeviceChain`.
pub proof fn law_chain(n: XmlModel, dc: XmlModel, inner: XmlModel, devs: XmlModel) -> (at: Seq<int>)
    requires
        child(n, "DeviceChain"@) == Some(dc),
        first_element(dc) == Some(inner),
        child(inner, "Devices"@) == Some(devs),
    ensures
        is_selection(at, devs.children.len() as int, |i: int| is_device_element(devs.children[i])),
        chain_of(n).len() == at.len(),
        forall|k: int|
            0 <= k < at.len() ==> Some(#[trigger] chain_of(n)[k]) == device_of(
                devs.children[at[k]],
            ),
{
    let items = devs.children;
    let n = items.len() as int;
    let keep = |i: int| is_device_element(items[i]);
    lemma_chosen(n, keep);
    lemma_devices_in(items, n);
    assert(items.take(n) =~= items);
    chosen(n, keep)
}

/// Without a list of devices in the first element of a device chain there is no device.
pub proof fn law_no_chain(n: XmlModel)
    requires
        child(n, "DeviceChain"@) matches Some(dc) ==> (first_element(dc) matches Some(inner)
            ==> child(inner, "Devices"@) is None),
    ensures
        chain_of(n).len() == 0,
{
}

/// The devices of a rack are those of the chains of its branches: the branches of two
/// lists give the devices of the one and then those of the other, and one branch gives
/// the devices of its chain.
pub proof fn law_branches(a: Seq<XmlModel>, b: Seq<XmlModel>, one: XmlModel)
    ensures
        branch_devices(a + b) == branch_devices(a) + branch_devices(b),
        branch_devices(seq![one]) == (if one.kind == XmlKind::Element {
            chain_of(one)
        } else {
            Seq::empty()
        }),
    decreases b.len(),
{
    let single = seq![one];
    assert(single.last() == one);
    assert(branch_devices(single.drop_last()) =~= Seq::empty());
    assert(Seq::<DeviceModel>::empty() + chain_of(one) =~= chain_of(one));
    assert(branch_devices(single) =~= (if one.kind == XmlKind::Element {
        chain_of(one)
    } else {
        Seq::empty()
    }));
    if b.len() == 0 {
        assert(a + b =~= a);
        assert(branch_devices(a) + branch_devices(b) =~= branch_devices(a));
    } else {
        law_branches(a, b.drop_last(), one);
        assert((a + b).drop_last() =~= a + b.drop_last());
        assert((a + b).last() == b.last());
        assert(branch_devices(a + b) =~= branch_devices(a) + branch_devices(b));
    }
}

/// A rack holds the devices of its branches.
pub proof fn law_rack_devices(n: XmlModel)
    requires
        is_rack_tag(n.tag),
    ensures
        match device_of(n) {
            Some(d) => match child(n, "Branches"@) {
                Some(b) => d.children == branch_devices(b.children),
                None => d.children.len() == 0,
            },
            None => false,
        },
{
    lemma_device_tags();
}

// ---------------------------------------------------------------------------
// Macros
// ---------------------------------------------------------------------------

/// The control of a rack's macro.
pub open spec fn control(macros: XmlModel, i: int) -> Option<XmlModel> {
    child(macros, "MacroControls."@ + decimal(i as nat))
}

proof fn lemma_macros_below(n: XmlModel, macros: XmlModel, k: int)
    requires
        0 <= k,
    ensures
        ({
            let at = chosen(k, |i: int| control(macros, i) is Some);
            let found = macros_below(n, macros, k);
            &&& found.len() == at.len()
            &&& forall|j: int|
                0 <= j < at.len() ==> (#[trigger] found[j]).index == at[j] && is_macro(
                    found[j],
                    n,
                    control(macros, at[j])->Some_0,
                    at[j],
                )
        }),
    decreases k,
{
    let keep = |i: int| control(macros, i) is Some;
    if k > 0 {
        lemma_macros_below(n, macros, k - 1);
        assert(keep(k - 1) == (control(macros, k - 1) is Some));
    }
}

/// The macro shows what the control of the rack's knob `i` says. Its name is that of the
/// rack's list of names, else that of the control, else the number on the knob.
pub open spec fn is_macro(m: MacroModel, n: XmlModel, ctrl: XmlModel, i: int) -> bool {
    let listed = match child(n, "MacroNames"@) {
        Some(names) => child_attr(names, "MacroNames."@ + decimal(i as nat), "Value"@),
        None => None,
    };
    &&& m.index == i
    &&& m.value == child_attr(ctrl, "Manual"@, "Value"@)
    &&& match child(ctrl, "MidiControllerRange"@) {
        Some(r) => m.min == child_attr(r, "Min"@, "Value"@) && m.max == child_attr(
            r,
            "Max"@,
            "Value"@,
        ),
        None => m.min is None && m.max is None,
    }
    &&& match (listed, child_attr(ctrl, "Name"@, "Value"@)) {
        (Some(v), _) => m.name == v,
        (None, Some(v)) => m.name == v,
        (None, None) => m.name == "Macro "@ + decimal((i + 1) as nat),
    }
}

/// A rack has a macro for each of the first eight knobs that it has a control of, in
/// order.
pub proof fn law_macros(n: XmlModel, macros: XmlModel) -> (at: Seq<int>)
    requires
        is_rack_tag(n.tag),
        child(n, "Macros"@) == Some(macros),
    ensures
        is_selection(at, 8, |i: int| control(macros, i) is Some),
        match device_of(n) {
            Some(d) => d.macros.len() == at.len() && forall|j: int|
                0 <= j < at.len() ==> is_macro(
                    #[trigger] d.macros[j],
                    n,
                    control(macros, at[j])->Some_0,
                    at[j],
                ),
            None => false,
        },
{
    lemma_device_tags();
    let keep = |i: int| control(macros, i) is Some;
    lemma_chosen(8, keep);
    lemma_macros_below(n, macros, 8);
    let found = macros_of(n);
    assert forall|j: int| 0 <= j < found.len() implies is_macro(
        #[trigger] found[j],
        n,
        control(macros, chosen(8, keep)[j])->Some_0,
        chosen(8, keep)[j],
    ) by {
        assert(found[j].index == chosen(8, keep)[j]);
    }
    chosen(8, keep)
}

// ---------------------------------------------------------------------------
// State of Live's own devices
// ---------------------------------------------------------------------------

/// The text of nodes is the text of the one and then that of the other.
pub proof fn law_nodes_text(a: Seq<XmlModel>, b: Seq<XmlModel>, one: XmlModel)
    ensures
        nodes_text(a + b) == nodes_text(a) + nodes_text(b),
        nodes_text(seq![one]) == node_text(one),
    decreases b.len(),
{
    let single = seq![one];
    assert(single.last() == one);
    assert(nodes_text(single.drop_last()) =~= Seq::empty());
    assert(nodes_text(single) =~= node_text(one));
    if b.len() == 0 {
        assert(a + b =~= a);
        assert(nodes_text(a) + nodes_text(b) =~= nodes_text(a));
    } else {
        law_nodes_text(a, b.drop_last(), one);
        assert((a + b).drop_last() =~= a + b.drop_last());
        assert((a + b).last() == b.last());
        assert(nodes_text(a + b) =~= nodes_text(a) + nodes_text(b));
    }
}

/// A text is written escaped. An element is written as its tag with its attributes, what
/// stands in it and the closing tag, or as one tag where nothing stands in it. Anything
/// else is left out.
pub proof fn law_node_text(n: XmlModel)
    ensures
        n.kind == XmlKind::Text ==> match n.text {
            Some(t) => node_text(n) == escape(t),
            None => node_text(n).len() == 0,
        },
        n.kind == XmlKind::Element && n.children.len() == 0 ==> node_text(n) == "<"@ + n.tag
            + attrs_text(n.attrs) + "/>"@,
        n.kind == XmlKind::Element && n.children.len() > 0 ==> node_text(n) == "<"@ + n.tag
            + attrs_text(n.attrs) + ">"@ + nodes_text(n.children) + "</"@ + n.tag + ">"@,
        n.kind == XmlKind::Other ==> node_text(n).len() == 0,
{
}

/// The attributes of two lists are written one list after the other.
pub proof fn law_attrs_text(
    a: Seq<AttrModel>,
    b: Seq<AttrModel>,
    one: AttrModel,
)
    ensures
        attrs_text(a + b) == attrs_text(a)
            + attrs_text(b),
        attrs_text(seq![one]) == " "@ + one.name + "=\""@ + escape(
            one.value,
        ) + "\""@,
    decreases b.len(),
{
    let single = seq![one];
    assert(single.last() == one);
    assert(attrs_text(single.drop_last()) =~= Seq::empty());
    assert(attrs_text(single) =~= " "@ + one.name + "=\""@ + escape(
        one.value,
    ) + "\""@);
    if b.len() == 0 {
        assert(a + b =~= a);
        assert(attrs_text(a)
            + attrs_text(b)
            =~= attrs_text(a));
    } else {
        law_attrs_text(a, b.drop_last(), one);
        assert((a + b).drop_last() =~= a + b.drop_last());
        assert((a + b).last() == b.last());
        assert(attrs_text(a + b)
            =~= attrs_text(a)
            + attrs_text(b));
    }
}

// ---------------------------------------------------------------------------
// Files
// ---------------------------------------------------------------------------

/// A rack file is read as its first element, which is a device.
pub proof fn law_rack(root: XmlModel)
    ensures
        match first_element(root) {
            Some(n) => match device_of(n) {
                Some(d) => rack_of(root) matches Ok(r) && r.device == d && r.creator == attr_or(
                    root,
                    "Creator"@,
                    ""@,
                ) && r.major_version == attr_or(root, "MajorVersion"@, ""@),
                None => rack_of(root) == Err::<RackModel, ErrorModel>(
                    ErrorModel::Format("Could not parse root device"@),
                ),
            },
            None => rack_of(root) == Err::<RackModel, ErrorModel>(
                ErrorModel::Format("No device element in ADG"@),
            ),
        },
{
}

/// A file with the extension `als` is read as a Live set and one with `adg` as a rack,
/// each from the XML document that it holds compressed. No other file is read.
pub proof fn law_ableton_file(extension: Option<Seq<char>>, path: Seq<char>, data: Seq<u8>)
    ensures
        extension == Some("als"@) ==> match gzip_text(data) {
            Ok(xml) => match document(xml) {
                Ok(root) => match project_of(root) {
                    Ok(p) => ableton_file(extension, path, data) == Ok::<FileModel, ErrorModel>(
                        FileModel::Project(p),
                    ),
                    Err(e) => ableton_file(extension, path, data) == Err::<FileModel, ErrorModel>(
                        e,
                    ),
                },
                Err(e) => ableton_file(extension, path, data) == Err::<FileModel, ErrorModel>(
                    ErrorModel::Xml(e),
                ),
            },
            Err(e) => ableton_file(extension, path, data) == Err::<FileModel, ErrorModel>(
                ErrorModel::Io(e),
            ),
        },
        extension == Some("adg"@) ==> match gzip_text(data) {
            Ok(xml) => match document(xml) {
                Ok(root) => match rack_of(root) {
                    Ok(r) => ableton_file(extension, path, data) == Ok::<FileModel, ErrorModel>(
                        FileModel::Rack(r),
                    ),
                    Err(e) => ableton_file(extension, path, data) == Err::<FileModel, ErrorModel>(
                        e,
                    ),
                },
                Err(e) => ableton_file(extension, path, data) == Err::<FileModel, ErrorModel>(
                    ErrorModel::Xml(e),
                ),
            },
            Err(e) => ableton_file(extension, path, data) == Err::<FileModel, ErrorModel>(
                ErrorModel::Io(e),
            ),
        },
        extension != Some("als"@) && extension != Some("adg"@) ==> ableton_file(
            extension,
            path,
            data,
        ) == Err::<FileModel, ErrorModel>(
            ErrorModel::Format("Unsupported extension: "@ + path),
        ),
{
    reveal_strlit("als");
    reveal_strlit("adg");
    assert("als"@[1] == 'l' && "adg"@[1] == 'd');
}

/// The bytes of a Live set and of a rack are read from the document that they hold.
pub proof fn law_compressed_files(data: Seq<u8>, xml: Seq<char>, root: XmlModel)
    requires
        gzip_text(data) == Ok::<Seq<char>, Seq<char>>(xml),
        document(xml) == Ok::<XmlModel, Seq<char>>(root),
    ensures
        als_file(data) == project_of(root),
        adg_file(data) == rack_of(root),
{
}

/// An error says what failed, and then why.
pub proof fn law_error_text(e: AbletonError)
    ensures
        e matches AbletonError::Io(t) ==> e.text() == "I/O error: "@ + t@,
        e matches AbletonError::Xml(t) ==> e.text() == "XML error: "@ + t@,
        e matches AbletonError::Format(t) ==> e.text() == "Format error: "@ + t@,
{
}

} // verus!
