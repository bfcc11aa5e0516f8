//! Reader for Ableton Live Sets (`.als`) and Device Groups (`.adg`).
//!
//! Both formats are gzip-compressed XML. `.als` is a full project; `.adg` is a
//! single device or rack preset. The reader returns structured data; it does
//! not write to the database.
//!
//! # State blobs
//! Third-party plugin state is an opaque base64 blob produced by the plugin
//! itself. We extract and store it as-is inside `DeviceType::Plugin`.
//! Ableton built-in device state is plain XML; we capture the raw XML of the
//! device element inside `DeviceType::AbletonBuiltin`.
use vstd::prelude::*;

use crate::archive::{gunzip, gzip_text};
use crate::daw_writers::ableton::{holds_rack, rack_xml};
use crate::daw_writers::ableton_laws::{is_plain_rack, kept_rack, lemma_rack_of_chain, rack_node};
use crate::daw_writers::identities;
use crate::db::ChainModel;
use crate::markup::writes;
use crate::number::{decimal, decimal_text, parse_i32, parse_int};
use crate::text::{
    chars_of, eq_ignore_case, escape, opt_text, same_ignoring_case, same_text, text_of, trim,
    trimmed, xml_escape,
};
use crate::xml::{
    attr_or, child, child_attr, document, element_from, first_element, is_tagged,
    parse_document, tagged_from, AttrModel, XmlAttr, XmlKind, XmlModel, XmlNode,
};

verus! {

// ---------------------------------------------------------------------------
// Types
// ---------------------------------------------------------------------------

#[derive(Debug)]
pub enum AbletonError {
    Io(String),
    Xml(String),
    Format(String),
}

/// Parsed Ableton Live Set (`.als`).
#[derive(Debug)]
pub struct AbletonProject {
    pub creator: String,
    pub major_version: String,
    pub tracks: Vec<Track>,
}

/// Parsed Ableton Device Group / Rack (`.adg`).
#[derive(Debug)]
pub struct AbletonRack {
    pub creator: String,
    pub major_version: String,
    pub device: DeviceNode,
}

#[derive(Debug, Clone, Copy, PartialEq, Eq, Structural)]
pub enum TrackKind {
    Midi,
    Audio,
    Return,
    Group,
}

#[derive(Debug)]
pub struct Track {
    pub kind: TrackKind,
    pub name: String,
    pub color_index: Option<i32>,
    pub chain: Vec<DeviceNode>,
}

#[derive(Debug)]
pub struct DeviceNode {
    pub name: String,
    /// `false` means the device is bypassed.
    pub is_active: bool,
    pub device_type: DeviceType,
    /// Populated only for rack devices (Instrument / Audio Effect / Drum racks).
    pub macros: Vec<MacroControl>,
    /// Devices inside rack branches, flattened across all branches.
    pub children: Vec<DeviceNode>,
}

#[derive(Debug)]
pub enum DeviceType {
    /// Third-party VST2 / VST3 / AU: state is an opaque base64 blob from the plugin.
    Plugin {
        plugin_name: String,
        vendor: Option<String>,
        format: PluginFormat,
        /// Base64 blob as extracted from `<Preset>/<*Preset>/<Data>`. Stored verbatim.
        opaque_state: Option<String>,
    },
    /// Ableton Instrument, Audio Effect, or Drum rack.
    Rack { rack_type: RackType },
    /// Any Ableton built-in (EQ Eight, Compressor, etc.): state is the raw device XML.
    AbletonBuiltin { tag: String, params_xml: String },
}

#[derive(Debug, Clone, Copy, PartialEq, Eq, Structural)]
pub enum PluginFormat {
    Vst2,
    Vst3,
    Au,
}

#[derive(Debug, Clone, Copy, PartialEq, Eq, Structural)]
pub enum RackType {
    Instrument,
    AudioEffect,
    Drum,
}

/// A macro knob. The numbers are as the file writes them: a value that is absent
/// or no number stands for 0, a lower end for 0, an upper end for 127.
#[derive(Debug)]
pub struct MacroControl {
    /// 0-based index (Ableton labels them 1-8 in the UI).
    pub index: u8,
    pub name: String,
    pub value: Option<String>,
    pub min: Option<String>,
    pub max: Option<String>,
}

/// Return type for [`read_file`].
#[derive(Debug)]
pub enum AbletonFile {
    Project(AbletonProject),
    Rack(AbletonRack),
}

/// What a `MacroControl` holds.
#[verifier::ext_equal]
pub struct MacroModel {
    pub index: int,
    pub name: Seq<char>,
    pub value: Option<Seq<char>>,
    pub min: Option<Seq<char>>,
    pub max: Option<Seq<char>>,
}

/// What a `DeviceType` holds.
#[verifier::ext_equal]
pub enum TypeModel {
    Plugin {
        plugin_name: Seq<char>,
        vendor: Option<Seq<char>>,
        format: PluginFormat,
        opaque_state: Option<Seq<char>>,
    },
    Rack { rack_type: RackType },
    AbletonBuiltin { tag: Seq<char>, params_xml: Seq<char> },
}

/// What a `DeviceNode` holds.
#[verifier::ext_equal]
pub struct DeviceModel {
    pub name: Seq<char>,
    pub is_active: bool,
    pub device_type: TypeModel,
    pub macros: Seq<MacroModel>,
    pub children: Seq<DeviceModel>,
}

/// What a `Track` holds.
#[verifier::ext_equal]
pub struct TrackModel {
    pub kind: TrackKind,
    pub name: Seq<char>,
    pub color_index: Option<int>,
    pub chain: Seq<DeviceModel>,
}

/// What an `AbletonProject` holds.
#[verifier::ext_equal]
pub struct ProjectModel {
    pub creator: Seq<char>,
    pub major_version: Seq<char>,
    pub tracks: Seq<TrackModel>,
}

/// What an `AbletonRack` holds.
#[verifier::ext_equal]
pub struct RackModel {
    pub creator: Seq<char>,
    pub major_version: Seq<char>,
    pub device: DeviceModel,
}

/// What an `AbletonFile` holds.
#[verifier::ext_equal]
pub enum FileModel {
    Project(ProjectModel),
    Rack(RackModel),
}

/// What an `AbletonError` says.
#[verifier::ext_equal]
pub enum ErrorModel {
    Io(Seq<char>),
    Xml(Seq<char>),
    Format(Seq<char>),
}

impl View for MacroControl {
    type V = MacroModel;

    open spec fn view(&self) -> MacroModel {
        MacroModel {
            index: self.index as int,
            name: self.name@,
            value: opt_text(self.value),
            min: opt_text(self.min),
            max: opt_text(self.max),
        }
    }
}

/// What each macro of a list holds.
pub open spec fn macro_models(list: Seq<MacroControl>) -> Seq<MacroModel> {
    list.map_values(|m: MacroControl| m@)
}

impl View for DeviceType {
    type V = TypeModel;

    open spec fn view(&self) -> TypeModel {
        match self {
            DeviceType::Plugin { plugin_name, vendor, format, opaque_state } => TypeModel::Plugin {
                plugin_name: plugin_name@,
                vendor: opt_text(*vendor),
                format: *format,
                opaque_state: opt_text(*opaque_state),
            },
            DeviceType::Rack { rack_type } => TypeModel::Rack { rack_type: *rack_type },
            DeviceType::AbletonBuiltin { tag, params_xml } => TypeModel::AbletonBuiltin {
                tag: tag@,
                params_xml: params_xml@,
            },
        }
    }
}

impl DeviceNode {
    /// What the device holds.
    pub open spec fn model(self) -> DeviceModel
        decreases self,
    {
        DeviceModel {
            name: self.name@,
            is_active: self.is_active,
            device_type: self.device_type@,
            macros: macro_models(self.macros@),
            children: Seq::new(
                self.children@.len(),
                |i: int|
                    if 0 <= i < self.children@.len() {
                        self.children@[i].model()
                    } else {
                        arbitrary()
                    },
            ),
        }
    }
}

/// What each device of a list holds.
pub open spec fn device_models(list: Seq<DeviceNode>) -> Seq<DeviceModel> {
    list.map_values(|d: DeviceNode| d.model())
}

impl View for Track {
    type V = TrackModel;

    open spec fn view(&self) -> TrackModel {
        TrackModel {
            kind: self.kind,
            name: self.name@,
            color_index: match self.color_index {
                Some(n) => Some(n as int),
                None => None,
            },
            chain: device_models(self.chain@),
        }
    }
}

/// What each track of a list holds.
pub open spec fn track_models(list: Seq<Track>) -> Seq<TrackModel> {
    list.map_values(|t: Track| t@)
}

impl View for AbletonProject {
    type V = ProjectModel;

    open spec fn view(&self) -> ProjectModel {
        ProjectModel {
            creator: self.creator@,
            major_version: self.major_version@,
            tracks: track_models(self.tracks@),
        }
    }
}

impl View for AbletonRack {
    type V = RackModel;

    open spec fn view(&self) -> RackModel {
        RackModel {
            creator: self.creator@,
            major_version: self.major_version@,
            device: self.device.model(),
        }
    }
}

impl View for AbletonFile {
    type V = FileModel;

    open spec fn view(&self) -> FileModel {
        match self {
            AbletonFile::Project(p) => FileModel::Project(p@),
            AbletonFile::Rack(r) => FileModel::Rack(r@),
        }
    }
}

impl View for AbletonError {
    type V = ErrorModel;

    open spec fn view(&self) -> ErrorModel {
        match self {
            AbletonError::Io(e) => ErrorModel::Io(e@),
            AbletonError::Xml(e) => ErrorModel::Xml(e@),
            AbletonError::Format(e) => ErrorModel::Format(e@),
        }
    }
}

impl AbletonError {
    /// The message of the error.
    pub open spec fn text(self) -> Seq<char> {
        match self {
            AbletonError::Io(e) => "I/O error: "@ + e@,
            AbletonError::Xml(e) => "XML error: "@ + e@,
            AbletonError::Format(e) => "Format error: "@ + e@,
        }
    }

    /// The message of the error.
    pub fn message(&self) -> (out: String)
        ensures
            out@ == self.text(),
    {
        let (head, detail) = match self {
            AbletonError::Io(e) => ("I/O error: ", e),
            AbletonError::Xml(e) => ("XML error: ", e),
            AbletonError::Format(e) => ("Format error: ", e),
        };
        let mut out = String::new();
        out.append(head);
        out.append(detail.as_str());
        assert(out@ =~= self.text());
        out
    }
}

// ---------------------------------------------------------------------------
// Smaller nodes
// ---------------------------------------------------------------------------

/// A tagged element of a list is smaller than the list.
pub proof fn lemma_tagged_smaller(nodes: Seq<XmlModel>, tag: Seq<char>, i: int)
    requires
        0 <= i,
    ensures
        tagged_from(nodes, tag, i) matches Some(c) ==> decreases_to!(nodes => c),
    decreases nodes.len() - i,
{
    if i < nodes.len() {
        assert(decreases_to!(nodes => nodes[i]));
        lemma_tagged_smaller(nodes, tag, i + 1);
    }
}

/// The first element of a list is smaller than the list.
pub proof fn lemma_element_smaller(nodes: Seq<XmlModel>, i: int)
    requires
        0 <= i,
    ensures
        element_from(nodes, i) matches Some(c) ==> decreases_to!(nodes => c),
    decreases nodes.len() - i,
{
    if i < nodes.len() {
        assert(decreases_to!(nodes => nodes[i]));
        lemma_element_smaller(nodes, i + 1);
    }
}

/// A tagged child is smaller than the node.
pub proof fn lemma_child_smaller(n: XmlModel, tag: Seq<char>)
    ensures
        child(n, tag) matches Some(c) ==> decreases_to!(n => c),
{
    lemma_tagged_smaller(n.children, tag, 0);
    assert(decreases_to!(n => n.children));
}

/// The nodes in `DeviceChain/*/Devices` of a node.
pub open spec fn chain_items(n: XmlModel) -> Option<Seq<XmlModel>> {
    match child(n, "DeviceChain"@) {
        Some(dc) => match first_element(dc) {
            Some(inner) => match child(inner, "Devices"@) {
                Some(devs) => Some(devs.children),
                None => None,
            },
            None => None,
        },
        None => None,
    }
}

/// The nodes of a device chain are smaller than the node that holds the chain.
pub proof fn lemma_chain_smaller(n: XmlModel)
    ensures
        chain_items(n) matches Some(items) ==> decreases_to!(n => items),
{
    lemma_child_smaller(n, "DeviceChain"@);
    if let Some(dc) = child(n, "DeviceChain"@) {
        lemma_element_smaller(dc.children, 0);
        assert(decreases_to!(dc => dc.children));
        if let Some(inner) = first_element(dc) {
            lemma_child_smaller(inner, "Devices"@);
            if let Some(devs) = child(inner, "Devices"@) {
                assert(decreases_to!(devs => devs.children));
            }
        }
    }
}

// ---------------------------------------------------------------------------
// Names, state and macros
// ---------------------------------------------------------------------------

/// The name that a device or track shows.
pub open spec fn effective_name_of(n: XmlModel) -> Option<Seq<char>> {
    match child(n, "Name"@) {
        Some(name) => child_attr(name, "EffectiveName"@, "Value"@),
        None => None,
    }
}

/// Whether a device is switched on. One that does not say so is.
pub open spec fn is_active(n: XmlModel) -> bool {
    match child(n, "On"@) {
        Some(on) => match child_attr(on, "Manual"@, "Value"@) {
            Some(v) => eq_ignore_case(v, "true"@),
            None => true,
        },
        None => true,
    }
}

/// The texts of the nodes of a list, one after the other.
pub open spec fn texts_of(nodes: Seq<XmlModel>) -> Seq<char>
    decreases nodes.len(),
{
    if nodes.len() == 0 {
        Seq::empty()
    } else {
        match nodes.last().text {
            Some(t) => texts_of(nodes.drop_last()) + t,
            None => texts_of(nodes.drop_last()),
        }
    }
}

/// The text of the first `Data` element with a text, at or below the node.
pub open spec fn data_text(n: XmlModel) -> Option<Seq<char>>
    decreases n, 0int,
{
    if is_tagged(n, "Data"@) && trim(texts_of(n.children)).len() > 0 {
        Some(trim(texts_of(n.children)))
    } else {
        data_text_from(n.children, 0)
    }
}

/// The text of the first `Data` element with a text, at or below a node of the
/// list from index `i` on.
pub open spec fn data_text_from(nodes: Seq<XmlModel>, i: int) -> Option<Seq<char>>
    decreases nodes, nodes.len() - i,
    when 0 <= i
{
    if i >= nodes.len() {
        None
    } else if data_text(nodes[i]) is Some {
        data_text(nodes[i])
    } else {
        data_text_from(nodes, i + 1)
    }
}

/// The state of a plugin: the text of the first `Data` element in its `Preset`.
pub open spec fn opaque_state_of(n: XmlModel) -> Option<Seq<char>> {
    match child(n, "Preset"@) {
        Some(p) => data_text(p),
        None => None,
    }
}

/// `s`, or `default`.
pub open spec fn or_text(s: Option<Seq<char>>, default: Seq<char>) -> Seq<char> {
    match s {
        Some(t) => t,
        None => default,
    }
}

/// The plugin that a device describes, where it describes one.
pub open spec fn plugin_of(n: XmlModel) -> Option<TypeModel> {
    match child(n, "PluginDesc"@) {
        Some(desc) => if child(desc, "Vst3PluginInfo"@) is Some {
            let info = child(desc, "Vst3PluginInfo"@)->0;
            Some(
                TypeModel::Plugin {
                    plugin_name: or_text(child_attr(info, "Name"@, "Value"@), "Unknown"@),
                    vendor: child_attr(info, "VendorString"@, "Value"@),
                    format: PluginFormat::Vst3,
                    opaque_state: opaque_state_of(n),
                },
            )
        } else if child(desc, "VstPluginInfo"@) is Some {
            let info = child(desc, "VstPluginInfo"@)->0;
            Some(
                TypeModel::Plugin {
                    plugin_name: or_text(child_attr(info, "PlugName"@, "Value"@), "Unknown"@),
                    vendor: child_attr(info, "VendorString"@, "Value"@),
                    format: PluginFormat::Vst2,
                    opaque_state: opaque_state_of(n),
                },
            )
        } else if child(desc, "AuPluginInfo"@) is Some {
            let info = child(desc, "AuPluginInfo"@)->0;
            Some(
                TypeModel::Plugin {
                    plugin_name: or_text(child_attr(info, "Name"@, "Value"@), "Unknown"@),
                    vendor: child_attr(info, "Manufacturer"@, "Value"@),
                    format: PluginFormat::Au,
                    opaque_state: opaque_state_of(n),
                },
            )
        } else {
            None
        },
        None => None,
    }
}

/// The name of macro `i`: that among the rack's macro names, else that of the
/// control, else its number in the interface.
pub open spec fn macro_name(n: XmlModel, ctrl: XmlModel, i: int) -> Seq<char> {
    let listed = match child(n, "MacroNames"@) {
        Some(names) => child_attr(names, "MacroNames."@ + decimal(i as nat), "Value"@),
        None => None,
    };
    if listed is Some {
        listed->0
    } else if child_attr(ctrl, "Name"@, "Value"@) is Some {
        child_attr(ctrl, "Name"@, "Value"@)->0
    } else {
        "Macro "@ + decimal((i + 1) as nat)
    }
}

/// Macro `i` of a rack, where its `Macros` element holds it.
pub open spec fn macro_at(n: XmlModel, macros: XmlModel, i: int) -> Option<MacroModel> {
    match child(macros, "MacroControls."@ + decimal(i as nat)) {
        Some(ctrl) => {
            let range = child(ctrl, "MidiControllerRange"@);
            Some(
                MacroModel {
                    index: i,
                    name: macro_name(n, ctrl, i),
                    value: child_attr(ctrl, "Manual"@, "Value"@),
                    min: match range {
                        Some(r) => child_attr(r, "Min"@, "Value"@),
                        None => None,
                    },
                    max: match range {
                        Some(r) => child_attr(r, "Max"@, "Value"@),
                        None => None,
                    },
                },
            )
        },
        None => None,
    }
}

/// The macros of a rack with an index below `k`.
pub open spec fn macros_below(n: XmlModel, macros: XmlModel, k: int) -> Seq<MacroModel>
    decreases k,
{
    if k <= 0 {
        Seq::empty()
    } else {
        match macro_at(n, macros, k - 1) {
            Some(m) => macros_below(n, macros, k - 1).push(m),
            None => macros_below(n, macros, k - 1),
        }
    }
}

/// The macros of a rack: up to eight.
pub open spec fn macros_of(n: XmlModel) -> Seq<MacroModel> {
    match child(n, "Macros"@) {
        Some(macros) => macros_below(n, macros, 8),
        None => Seq::empty(),
    }
}

/// The name that a device or track shows.
pub fn effective_name(n: &XmlNode) -> (out: Option<String>)
    ensures
        opt_text(out) == effective_name_of(n.model()),
{
    match n.child("Name") {
        Some(name) => name.child_attr_value("EffectiveName", "Value"),
        None => None,
    }
}

/// Whether a device is switched on. One that does not say so is.
pub fn device_is_active(n: &XmlNode) -> (out: bool)
    ensures
        out == is_active(n.model()),
{
    match n.child("On") {
        Some(on) => match on.child_attr_value("Manual", "Value") {
            Some(v) => same_ignoring_case(v.as_str(), "true"),
            None => true,
        },
        None => true,
    }
}

/// The texts of the nodes of a list, one after the other.
fn collect_texts(n: &XmlNode) -> (out: String)
    ensures
        out@ == texts_of(n.model().children),
{
    let mut out = String::new();
    let ghost all = n.model().children;
    for i in 0..n.children.len()
        invariant
            all == n.model().children,
            out@ == texts_of(all.take(i as int)),
    {
        proof {
            let next = all.take(i + 1);
            assert(next.drop_last() =~= all.take(i as int));
            assert(next.last() == n.children@[i as int].model());
        }
        if let Some(t) = &n.children[i].text {
            out.append(t.as_str());
        }
    }
    assert(all.take(all.len() as int) =~= all);
    out
}

/// The text of the first `Data` element with a text, at or below the node.
pub fn find_data_text(n: &XmlNode) -> (out: Option<String>)
    ensures
        opt_text(out) == data_text(n.model()),
    decreases n.model(),
{
    if n.has_tag("Data") {
        let text = collect_texts(n);
        let cs = chars_of(text.as_str());
        let t = trimmed(cs.as_slice());
        if t.len() > 0 {
            return Some(text_of(t));
        }
    }
    let ghost all = n.model().children;
    for i in 0..n.children.len()
        invariant
            all == n.model().children,
            data_text(n.model()) == data_text_from(all, i as int),
    {
        proof {
            assert(all[i as int] == n.children@[i as int].model());
            assert(decreases_to!(n.model() => n.model().children));
            assert(decreases_to!(n.model().children => n.model().children[i as int]));
        }
        if let Some(found) = find_data_text(&n.children[i]) {
            return Some(found);
        }
    }
    None
}

/// The state of a plugin: the text of the first `Data` element in its `Preset`.
pub fn extract_opaque_state(n: &XmlNode) -> (out: Option<String>)
    ensures
        opt_text(out) == opaque_state_of(n.model()),
{
    match n.child("Preset") {
        Some(p) => find_data_text(p),
        None => None,
    }
}

/// `s`, or `default`.
fn text_or(s: Option<String>, default: &str) -> (out: String)
    ensures
        out@ == or_text(opt_text(s), default@),
{
    match s {
        Some(t) => t,
        None => default.to_owned(),
    }
}

/// The plugin that a device describes, where it describes one.
pub fn parse_plugin_device(n: &XmlNode) -> (out: Option<DeviceType>)
    ensures
        match out {
            Some(t) => plugin_of(n.model()) == Some(t@),
            None => plugin_of(n.model()) is None,
        },
{
    let desc = match n.child("PluginDesc") {
        Some(d) => d,
        None => return None,
    };
    if let Some(info) = desc.child("Vst3PluginInfo") {
        return Some(
            DeviceType::Plugin {
                plugin_name: text_or(info.child_attr_value("Name", "Value"), "Unknown"),
                vendor: info.child_attr_value("VendorString", "Value"),
                format: PluginFormat::Vst3,
                opaque_state: extract_opaque_state(n),
            },
        );
    }
    if let Some(info) = desc.child("VstPluginInfo") {
        return Some(
            DeviceType::Plugin {
                plugin_name: text_or(info.child_attr_value("PlugName", "Value"), "Unknown"),
                vendor: info.child_attr_value("VendorString", "Value"),
                format: PluginFormat::Vst2,
                opaque_state: extract_opaque_state(n),
            },
        );
    }
    if let Some(info) = desc.child("AuPluginInfo") {
        return Some(
            DeviceType::Plugin {
                plugin_name: text_or(info.child_attr_value("Name", "Value"), "Unknown"),
                vendor: info.child_attr_value("Manufacturer", "Value"),
                format: PluginFormat::Au,
                opaque_state: extract_opaque_state(n),
            },
        );
    }
    None
}

/// `head` and a number.
fn numbered(head: &str, n: u64) -> (out: String)
    ensures
        out@ == head@ + decimal(n as nat),
{
    let mut out = String::new();
    out.append(head);
    assert(out@ =~= head@);
    out.append(decimal_text(n).as_str());
    out
}

/// Macro `i` of a rack, where its `Macros` element holds it.
fn parse_macro(n: &XmlNode, macros: &XmlNode, i: u8) -> (out: Option<MacroControl>)
    requires
        i < 8,
    ensures
        match out {
            Some(m) => macro_at(n.model(), macros.model(), i as int) == Some(m@),
            None => macro_at(n.model(), macros.model(), i as int) is None,
        },
{
    let ctrl = match macros.child(numbered("MacroControls.", i as u64).as_str()) {
        Some(c) => c,
        None => return None,
    };
    let value = ctrl.child_attr_value("Manual", "Value");
    let (min, max) = match ctrl.child("MidiControllerRange") {
        Some(r) => (r.child_attr_value("Min", "Value"), r.child_attr_value("Max", "Value")),
        None => (None, None),
    };
    let listed = match n.child("MacroNames") {
        Some(names) => names.child_attr_value(
            numbered("MacroNames.", i as u64).as_str(),
            "Value",
        ),
        None => None,
    };
    let name = match listed {
        Some(s) => s,
        None => match ctrl.child_attr_value("Name", "Value") {
            Some(s) => s,
            None => numbered("Macro ", i as u64 + 1),
        },
    };
    Some(MacroControl { index: i, name, value, min, max })
}

/// The macros of a rack: up to eight.
pub fn parse_macros(n: &XmlNode) -> (out: Vec<MacroControl>)
    ensures
        macro_models(out@) == macros_of(n.model()),
{
    let mut out: Vec<MacroControl> = Vec::new();
    let macros = match n.child("Macros") {
        Some(m) => m,
        None => {
            assert(macro_models(out@) =~= Seq::<MacroModel>::empty());
            return out;
        },
    };
    assert(macro_models(out@) =~= macros_below(n.model(), macros.model(), 0));
    let mut i: u8 = 0;
    while i < 8
        invariant
            i <= 8,
            macro_models(out@) == macros_below(n.model(), macros.model(), i as int),
        decreases 8 - i,
    {
        let ghost before = macro_models(out@);
        if let Some(m) = parse_macro(n, macros, i) {
            out.push(m);
            assert(macro_models(out@) =~= before.push(m@));
        }
        i = i + 1;
    }
    out
}

// ---------------------------------------------------------------------------
// Elements as text
// ---------------------------------------------------------------------------

/// The attributes of a list as text.
pub open spec fn attrs_text(attrs: Seq<AttrModel>) -> Seq<char>
    decreases attrs.len(),
{
    if attrs.len() == 0 {
        Seq::empty()
    } else {
        let a = attrs.last();
        attrs_text(attrs.drop_last()) + (" "@ + a.name + "=\""@ + escape(a.value) + "\""@)
    }
}

/// A node as XML text: an element with what is in it, or an escaped text.
pub open spec fn node_text(n: XmlModel) -> Seq<char>
    decreases n,
{
    if n.kind == XmlKind::Text {
        match n.text {
            Some(t) => escape(t),
            None => Seq::empty(),
        }
    } else if n.kind == XmlKind::Element {
        let open = "<"@ + n.tag + attrs_text(n.attrs);
        if n.children.len() > 0 {
            open + ">"@ + nodes_text(n.children) + "</"@ + n.tag + ">"@
        } else {
            open + "/>"@
        }
    } else {
        Seq::empty()
    }
}

/// The nodes of a list as XML text.
pub open spec fn nodes_text(nodes: Seq<XmlModel>) -> Seq<char>
    decreases nodes,
{
    if nodes.len() == 0 {
        Seq::empty()
    } else {
        nodes_text(nodes.drop_last()) + node_text(nodes.last())
    }
}

/// Appends the attributes of a list as text.
fn write_attrs(attrs: &Vec<XmlAttr>, buf: &mut String)
    ensures
        final(buf)@ == old(buf)@ + attrs_text(crate::xml::attr_models(attrs@)),
{
    let ghost all = crate::xml::attr_models(attrs@);
    let ghost start = buf@;
    assert(buf@ =~= start + attrs_text(all.take(0)));
    for i in 0..attrs.len()
        invariant
            all == crate::xml::attr_models(attrs@),
            buf@ == start + attrs_text(all.take(i as int)),
    {
        let ghost before = buf@;
        buf.append(" ");
        buf.append(attrs[i].name.as_str());
        buf.append("=\"");
        xml_escape(attrs[i].value.as_str(), buf);
        buf.append("\"");
        proof {
            let next = all.take(i + 1);
            assert(next.drop_last() =~= all.take(i as int));
            assert(next.last() == attrs@[i as int]@);
            assert(buf@ =~= start + attrs_text(next));
        }
    }
    assert(all.take(all.len() as int) =~= all);
}

/// Appends a node as XML text.
pub fn write_node(n: &XmlNode, buf: &mut String)
    ensures
        final(buf)@ == old(buf)@ + node_text(n.model()),
    decreases n.model(),
{
    let ghost start = buf@;
    match n.kind {
        XmlKind::Text => {
            if let Some(t) = &n.text {
                xml_escape(t.as_str(), buf);
            }
            assert(buf@ =~= start + node_text(n.model()));
        },
        XmlKind::Other => {
            assert(buf@ =~= start + node_text(n.model()));
        },
        XmlKind::Element => {
            buf.append("<");
            buf.append(n.tag.as_str());
            write_attrs(&n.attrs, buf);
            let ghost m = n.model();
            let ghost open = "<"@ + m.tag + attrs_text(m.attrs);
            assert(buf@ =~= start + open);
            if n.children.len() > 0 {
                buf.append(">");
                let ghost inner = buf@;
                assert(buf@ =~= inner + nodes_text(m.children.take(0)));
                for i in 0..n.children.len()
                    invariant
                        m == n.model(),
                        buf@ == inner + nodes_text(m.children.take(i as int)),
                {
                    let ghost before = buf@;
                    proof {
                        assert(m.children[i as int] == n.children@[i as int].model());
                        assert(decreases_to!(m => m.children));
                        assert(decreases_to!(m.children => m.children[i as int]));
                    }
                    write_node(&n.children[i], buf);
                    proof {
                        let next = m.children.take(i + 1);
                        assert(next.drop_last() =~= m.children.take(i as int));
                        assert(next.last() == n.children@[i as int].model());
                        assert(buf@ =~= inner + nodes_text(next));
                    }
                }
                assert(m.children.take(m.children.len() as int) =~= m.children);
                buf.append("</");
                buf.append(n.tag.as_str());
                buf.append(">");
                assert(buf@ =~= start + node_text(m));
            } else {
                buf.append("/>");
                assert(buf@ =~= start + node_text(m));
            }
        },
    }
}

/// A node as XML text (used for built-in device state).
pub fn serialize_node(n: &XmlNode) -> (out: String)
    ensures
        out@ == node_text(n.model()),
{
    let mut buf = String::new();
    write_node(n, &mut buf);
    assert(buf@ =~= node_text(n.model()));
    buf
}

// ---------------------------------------------------------------------------
// Devices, tracks and files
// ---------------------------------------------------------------------------

/// The type of rack that a tag names.
pub open spec fn rack_type_of(tag: Seq<char>) -> Option<RackType> {
    if tag == "InstrumentGroupDevice"@ {
        Some(RackType::Instrument)
    } else if tag == "DrumGroupDevice"@ {
        Some(RackType::Drum)
    } else if tag == "GroupDevice"@ {
        Some(RackType::AudioEffect)
    } else {
        None
    }
}

/// The device that an element describes. A plugin without a description is none.
pub open spec fn device_of(n: XmlModel) -> Option<DeviceModel>
    decreases n,
{
    let name = or_text(effective_name_of(n), n.tag);
    if n.tag == "PluginDevice"@ {
        match plugin_of(n) {
            Some(device_type) => Some(
                DeviceModel {
                    name,
                    is_active: is_active(n),
                    device_type,
                    macros: Seq::empty(),
                    children: Seq::empty(),
                },
            ),
            None => None,
        }
    } else if rack_type_of(n.tag) is Some {
        Some(
            DeviceModel {
                name,
                is_active: is_active(n),
                device_type: TypeModel::Rack { rack_type: rack_type_of(n.tag)->0 },
                macros: macros_of(n),
                children: match child(n, "Branches"@) {
                    Some(b) => {
                        proof {
                            lemma_child_smaller(n, "Branches"@);
                            assert(decreases_to!(b => b.children));
                        }
                        branch_devices(b.children)
                    },
                    None => Seq::empty(),
                },
            },
        )
    } else {
        Some(
            DeviceModel {
                name,
                is_active: is_active(n),
                device_type: TypeModel::AbletonBuiltin { tag: n.tag, params_xml: node_text(n) },
                macros: Seq::empty(),
                children: Seq::empty(),
            },
        )
    }
}

/// The devices of the chains of the branches of a rack, in order.
pub open spec fn branch_devices(branches: Seq<XmlModel>) -> Seq<DeviceModel>
    decreases branches,
{
    if branches.len() == 0 {
        Seq::empty()
    } else {
        let before = branch_devices(branches.drop_last());
        let branch = branches.last();
        if branch.kind == XmlKind::Element {
            match chain_items(branch) {
                Some(items) => {
                    proof {
                        lemma_chain_smaller(branch);
                        assert(decreases_to!(branches => branches[branches.len() - 1]));
                    }
                    before + devices_in(items)
                },
                None => before,
            }
        } else {
            before
        }
    }
}

/// The devices that the elements of a list describe, in order.
pub open spec fn devices_in(items: Seq<XmlModel>) -> Seq<DeviceModel>
    decreases items,
{
    if items.len() == 0 {
        Seq::empty()
    } else {
        let before = devices_in(items.drop_last());
        let item = items.last();
        if item.kind == XmlKind::Element {
            match device_of(item) {
                Some(d) => before.push(d),
                None => before,
            }
        } else {
            before
        }
    }
}

/// The devices of the chain of a track.
pub open spec fn chain_of(n: XmlModel) -> Seq<DeviceModel> {
    match chain_items(n) {
        Some(items) => devices_in(items),
        None => Seq::empty(),
    }
}

/// The kind of track that a tag names.
pub open spec fn track_kind_of(tag: Seq<char>) -> Option<TrackKind> {
    if tag == "MidiTrack"@ {
        Some(TrackKind::Midi)
    } else if tag == "AudioTrack"@ {
        Some(TrackKind::Audio)
    } else if tag == "ReturnTrack"@ {
        Some(TrackKind::Return)
    } else if tag == "GroupTrack"@ {
        Some(TrackKind::Group)
    } else {
        None
    }
}

/// The track that an element describes.
pub open spec fn track_of(n: XmlModel) -> Option<TrackModel> {
    match track_kind_of(n.tag) {
        Some(kind) => Some(
            TrackModel {
                kind,
                name: or_text(effective_name_of(n), Seq::empty()),
                color_index: match child_attr(n, "ColorIndex"@, "Value"@) {
                    Some(v) => parse_int(v, i32::MIN as int, i32::MAX as int),
                    None => None,
                },
                chain: chain_of(n),
            },
        ),
        None => None,
    }
}

/// The tracks that the elements of a list describe, in order.
pub open spec fn tracks_in(items: Seq<XmlModel>) -> Seq<TrackModel>
    decreases items.len(),
{
    if items.len() == 0 {
        Seq::empty()
    } else {
        let before = tracks_in(items.drop_last());
        let item = items.last();
        if item.kind == XmlKind::Element {
            match track_of(item) {
                Some(t) => before.push(t),
                None => before,
            }
        } else {
            before
        }
    }
}

/// The project that the root element of a Live Set describes.
pub open spec fn project_of(root: XmlModel) -> Result<ProjectModel, ErrorModel> {
    match child(root, "LiveSet"@) {
        Some(set) => match child(set, "Tracks"@) {
            Some(tracks) => Ok(
                ProjectModel {
                    creator: attr_or(root, "Creator"@, ""@),
                    major_version: attr_or(root, "MajorVersion"@, ""@),
                    tracks: tracks_in(tracks.children),
                },
            ),
            None => Err(ErrorModel::Format("Missing <Tracks>"@)),
        },
        None => Err(ErrorModel::Format("Missing <LiveSet>"@)),
    }
}

/// The rack that the root element of a Device Group describes.
pub open spec fn rack_of(root: XmlModel) -> Result<RackModel, ErrorModel> {
    match first_element(root) {
        Some(n) => match device_of(n) {
            Some(device) => Ok(
                RackModel {
                    creator: attr_or(root, "Creator"@, ""@),
                    major_version: attr_or(root, "MajorVersion"@, ""@),
                    device,
                },
            ),
            None => Err(ErrorModel::Format("Could not parse root device"@)),
        },
        None => Err(ErrorModel::Format("No device element in ADG"@)),
    }
}

/// The project that the XML text of a Live Set describes.
pub open spec fn als_project(xml: Seq<char>) -> Result<ProjectModel, ErrorModel> {
    match document(xml) {
        Ok(root) => project_of(root),
        Err(e) => Err(ErrorModel::Xml(e)),
    }
}

/// The rack that the XML text of a Device Group describes.
pub open spec fn adg_rack(xml: Seq<char>) -> Result<RackModel, ErrorModel> {
    match document(xml) {
        Ok(root) => rack_of(root),
        Err(e) => Err(ErrorModel::Xml(e)),
    }
}

/// The project that the bytes of a Live Set describe.
pub open spec fn als_file(data: Seq<u8>) -> Result<ProjectModel, ErrorModel> {
    match gzip_text(data) {
        Ok(xml) => als_project(xml),
        Err(e) => Err(ErrorModel::Io(e)),
    }
}

/// The rack that the bytes of a Device Group describe.
pub open spec fn adg_file(data: Seq<u8>) -> Result<RackModel, ErrorModel> {
    match gzip_text(data) {
        Ok(xml) => adg_rack(xml),
        Err(e) => Err(ErrorModel::Io(e)),
    }
}

/// The device that an element describes. A plugin without a description is none.
pub fn parse_device(n: &XmlNode) -> (out: Option<DeviceNode>)
    ensures
        match out {
            Some(d) => device_of(n.model()) == Some(d.model()),
            None => device_of(n.model()) is None,
        },
    decreases n.model(), 1nat,
{
    let name = match effective_name(n) {
        Some(s) => s,
        None => n.tag.clone(),
    };
    let is_active = device_is_active(n);
    if same_text(n.tag.as_str(), "PluginDevice") {
        return match parse_plugin_device(n) {
            Some(device_type) => Some(leaf_device(name, is_active, device_type)),
            None => None,
        };
    }
    let rack_type = if same_text(n.tag.as_str(), "InstrumentGroupDevice") {
        Some(RackType::Instrument)
    } else if same_text(n.tag.as_str(), "DrumGroupDevice") {
        Some(RackType::Drum)
    } else if same_text(n.tag.as_str(), "GroupDevice") {
        Some(RackType::AudioEffect)
    } else {
        None
    };
    if let Some(rack_type) = rack_type {
        let macros = parse_macros(n);
        let children = parse_rack_branches(n);
        let d = DeviceNode {
            name,
            is_active,
            device_type: DeviceType::Rack { rack_type },
            macros,
            children,
        };
        assert(d.model().children =~= device_models(children@));
        return Some(d);
    }
    let device_type = DeviceType::AbletonBuiltin {
        tag: n.tag.clone(),
        params_xml: serialize_node(n),
    };
    Some(leaf_device(name, is_active, device_type))
}

/// A device without macros and without devices in it.
fn leaf_device(name: String, is_active: bool, device_type: DeviceType) -> (out: DeviceNode)
    ensures
        out.model() == (DeviceModel {
            name: name@,
            is_active,
            device_type: device_type@,
            macros: Seq::empty(),
            children: Seq::empty(),
        }),
{
    let out = DeviceNode {
        name,
        is_active,
        device_type,
        macros: Vec::new(),
        children: Vec::new(),
    };
    assert(out.model().macros =~= Seq::<MacroModel>::empty());
    assert(out.model().children =~= Seq::<DeviceModel>::empty());
    out
}

/// Collect all devices from all rack branches into a flat list.
fn parse_rack_branches(n: &XmlNode) -> (out: Vec<DeviceNode>)
    ensures
        device_models(out@) == (match child(n.model(), "Branches"@) {
            Some(b) => branch_devices(b.children),
            None => Seq::empty(),
        }),
    decreases n.model(), 0nat,
{
    let mut out: Vec<DeviceNode> = Vec::new();
    let branches = match n.child("Branches") {
        Some(b) => b,
        None => {
            assert(device_models(out@) =~= Seq::<DeviceModel>::empty());
            return out;
        },
    };
    let ghost all = branches.model().children;
    assert(device_models(out@) =~= branch_devices(all.take(0)));
    for i in 0..branches.children.len()
        invariant
            child(n.model(), "Branches"@) == Some(branches.model()),
            all == branches.model().children,
            device_models(out@) == branch_devices(all.take(i as int)),
    {
        let branch = &branches.children[i];
        proof {
            assert(all[i as int] == branch.model());
            let next = all.take(i + 1);
            assert(next.drop_last() =~= all.take(i as int));
            assert(next.last() == branch.model());
            lemma_child_smaller(n.model(), "Branches"@);
            assert(decreases_to!(branches.model() => branches.model().children));
            assert(decreases_to!(branches.model().children => branches.model().children[i as int]));
        }
        if branch.is_element() {
            append_chain(branch, &mut out);
            proof {
                let before = branch_devices(all.take(i as int));
                if chain_items(branch.model()) is None {
                    assert(before + Seq::<DeviceModel>::empty() =~= before);
                }
            }
        }
    }
    assert(all.take(all.len() as int) =~= all);
    out
}

/// The `DeviceChain/*/Devices` element of a node.
fn find_chain(n: &XmlNode) -> (out: Option<&XmlNode>)
    ensures
        match out {
            Some(devs) => chain_items(n.model()) == Some(devs.model().children),
            None => chain_items(n.model()) is None,
        },
{
    match n.child("DeviceChain") {
        Some(dc) => match dc.first_element() {
            Some(inner) => inner.child("Devices"),
            None => None,
        },
        None => None,
    }
}

/// Appends the devices of the chain of a node.
fn append_chain(n: &XmlNode, out: &mut Vec<DeviceNode>)
    ensures
        device_models(final(out)@) == device_models(old(out)@) + chain_of(n.model()),
    decreases n.model(), 0nat,
{
    let ghost start = device_models(out@);
    let devs = match find_chain(n) {
        Some(d) => d,
        None => {
            assert(start + chain_of(n.model()) =~= start);
            return ;
        },
    };
    let ghost all = devs.model().children;
    assert(start + devices_in(all.take(0)) =~= start);
    for i in 0..devs.children.len()
        invariant
            chain_items(n.model()) == Some(devs.model().children),
            all == devs.model().children,
            device_models(out@) == start + devices_in(all.take(i as int)),
    {
        let item = &devs.children[i];
        let ghost before = device_models(out@);
        proof {
            assert(all[i as int] == item.model());
            let next = all.take(i + 1);
            assert(next.drop_last() =~= all.take(i as int));
            assert(next.last() == item.model());
            lemma_chain_smaller(n.model());
            assert(decreases_to!(all => all[i as int]));
        }
        if item.is_element() {
            if let Some(d) = parse_device(item) {
                out.push(d);
                assert(device_models(out@) =~= before.push(d.model()));
                assert(device_models(out@) =~= start + devices_in(all.take(i + 1)));
            }
        }
    }
    assert(all.take(all.len() as int) =~= all);
}

/// The track that an element describes.
pub fn parse_track(n: &XmlNode) -> (out: Option<Track>)
    ensures
        match out {
            Some(t) => track_of(n.model()) == Some(t@),
            None => track_of(n.model()) is None,
        },
{
    let kind = if same_text(n.tag.as_str(), "MidiTrack") {
        TrackKind::Midi
    } else if same_text(n.tag.as_str(), "AudioTrack") {
        TrackKind::Audio
    } else if same_text(n.tag.as_str(), "ReturnTrack") {
        TrackKind::Return
    } else if same_text(n.tag.as_str(), "GroupTrack") {
        TrackKind::Group
    } else {
        return None;
    };
    let name = match effective_name(n) {
        Some(s) => s,
        None => String::new(),
    };
    let color_index = match n.child_attr_value("ColorIndex", "Value") {
        Some(v) => parse_i32(v.as_str()),
        None => None,
    };
    let mut chain: Vec<DeviceNode> = Vec::new();
    append_chain(n, &mut chain);
    let t = Track { kind, name, color_index, chain };
    assert(t@.chain =~= chain_of(n.model()));
    Some(t)
}

/// The project that the root element of a Live Set describes.
pub fn project_from_root(root: &XmlNode) -> (out: Result<AbletonProject, AbletonError>)
    ensures
        match out {
            Ok(p) => project_of(root.model()) == Ok::<ProjectModel, ErrorModel>(p@),
            Err(e) => project_of(root.model()) == Err::<ProjectModel, ErrorModel>(e@),
        },
{
    let creator = root.attribute_or("Creator", "");
    let major_version = root.attribute_or("MajorVersion", "");
    let set = match root.child("LiveSet") {
        Some(n) => n,
        None => return Err(AbletonError::Format("Missing <LiveSet>".to_owned())),
    };
    let list = match set.child("Tracks") {
        Some(n) => n,
        None => return Err(AbletonError::Format("Missing <Tracks>".to_owned())),
    };
    let mut tracks: Vec<Track> = Vec::new();
    let ghost all = list.model().children;
    assert(track_models(tracks@) =~= tracks_in(all.take(0)));
    for i in 0..list.children.len()
        invariant
            all == list.model().children,
            track_models(tracks@) == tracks_in(all.take(i as int)),
    {
        let item = &list.children[i];
        let ghost before = track_models(tracks@);
        proof {
            assert(all[i as int] == item.model());
            let next = all.take(i + 1);
            assert(next.drop_last() =~= all.take(i as int));
            assert(next.last() == item.model());
        }
        if item.is_element() {
            if let Some(t) = parse_track(item) {
                tracks.push(t);
                assert(track_models(tracks@) =~= before.push(t@));
            }
        }
    }
    assert(all.take(all.len() as int) =~= all);
    Ok(AbletonProject { creator, major_version, tracks })
}

/// The rack that the root element of a Device Group describes.
pub fn rack_from_root(root: &XmlNode) -> (out: Result<AbletonRack, AbletonError>)
    ensures
        match out {
            Ok(r) => rack_of(root.model()) == Ok::<RackModel, ErrorModel>(r@),
            Err(e) => rack_of(root.model()) == Err::<RackModel, ErrorModel>(e@),
        },
{
    let creator = root.attribute_or("Creator", "");
    let major_version = root.attribute_or("MajorVersion", "");
    let elem = match root.first_element() {
        Some(n) => n,
        None => return Err(AbletonError::Format("No device element in ADG".to_owned())),
    };
    match parse_device(elem) {
        Some(device) => Ok(AbletonRack { creator, major_version, device }),
        None => Err(AbletonError::Format("Could not parse root device".to_owned())),
    }
}

/// The project that the XML text of a Live Set describes.
pub fn parse_als_xml(xml: &str) -> (out: Result<AbletonProject, AbletonError>)
    ensures
        match out {
            Ok(p) => als_project(xml@) == Ok::<ProjectModel, ErrorModel>(p@),
            Err(e) => als_project(xml@) == Err::<ProjectModel, ErrorModel>(e@),
        },
{
    match parse_document(xml) {
        Ok(root) => project_from_root(&root),
        Err(e) => Err(AbletonError::Xml(e)),
    }
}

/// The rack that the XML text of a Device Group describes.
pub fn parse_adg_xml(xml: &str) -> (out: Result<AbletonRack, AbletonError>)
    ensures
        match out {
            Ok(r) => adg_rack(xml@) == Ok::<RackModel, ErrorModel>(r@),
            Err(e) => adg_rack(xml@) == Err::<RackModel, ErrorModel>(e@),
        },
        forall|root: XmlModel|
            #![trigger writes(xml@, root)]
            writes(xml@, root) ==> match out {
                Ok(r) => rack_of(root) == Ok::<RackModel, ErrorModel>(r@),
                Err(e) => rack_of(root) == Err::<RackModel, ErrorModel>(e@),
            },
{
    match parse_document(xml) {
        Ok(root) => rack_from_root(&root),
        Err(e) => Err(AbletonError::Xml(e)),
    }
}

/// Read the bytes of an Ableton Live Set (`.als`).
pub fn read_als(data: &[u8]) -> (out: Result<AbletonProject, AbletonError>)
    ensures
        match out {
            Ok(p) => als_file(data@) == Ok::<ProjectModel, ErrorModel>(p@),
            Err(e) => als_file(data@) == Err::<ProjectModel, ErrorModel>(e@),
        },
{
    match gunzip(data) {
        Ok(xml) => parse_als_xml(xml.as_str()),
        Err(e) => Err(AbletonError::Io(e)),
    }
}

/// Read the bytes of an Ableton Device Group / Rack (`.adg`).
///
/// A file that was written for a chain is read as a rack with that chain: the same
/// devices in the same order, each with its name, what identifies it, the state of a
/// plugin, and on or off as it was.
pub fn read_adg(data: &[u8]) -> (out: Result<AbletonRack, AbletonError>)
    ensures
        match out {
            Ok(r) => adg_file(data@) == Ok::<RackModel, ErrorModel>(r@),
            Err(e) => adg_file(data@) == Err::<RackModel, ErrorModel>(e@),
        },
        forall|chain: ChainModel|
            #![trigger holds_rack(data@, chain)]
            holds_rack(data@, chain) && is_plain_rack(chain) ==> match out {
                Ok(r) => r@ == kept_rack(chain),
                Err(_) => false,
            },
{
    proof {
        assert forall|chain: ChainModel|
            #![trigger holds_rack(data@, chain)]
            holds_rack(data@, chain) && is_plain_rack(chain) implies writes(
            rack_xml(chain, identities(chain.slots)),
            rack_node(chain, identities(chain.slots)),
        ) && rack_of(rack_node(chain, identities(chain.slots))) == Ok::<RackModel, ErrorModel>(
            kept_rack(chain),
        ) by {
            lemma_rack_of_chain(chain);
        }
    }
    match gunzip(data) {
        Ok(xml) => parse_adg_xml(xml.as_str()),
        Err(e) => Err(AbletonError::Io(e)),
    }
}

/// What kind of Ableton file an extension names.
#[derive(Debug, Clone, Copy, PartialEq, Eq, Structural)]
pub enum AbletonKind {
    Project,
    Rack,
}

/// What kind of Ableton file an extension names.
pub open spec fn kind_of_extension(extension: Option<Seq<char>>) -> Option<AbletonKind> {
    match extension {
        Some(e) => if e == "als"@ {
            Some(AbletonKind::Project)
        } else if e == "adg"@ {
            Some(AbletonKind::Rack)
        } else {
            None
        },
        None => None,
    }
}

/// The file that bytes describe, by the extension of its path.
pub open spec fn ableton_file(
    extension: Option<Seq<char>>,
    path: Seq<char>,
    data: Seq<u8>,
) -> Result<FileModel, ErrorModel> {
    match kind_of_extension(extension) {
        Some(AbletonKind::Project) => match als_file(data) {
            Ok(p) => Ok(FileModel::Project(p)),
            Err(e) => Err(e),
        },
        Some(AbletonKind::Rack) => match adg_file(data) {
            Ok(r) => Ok(FileModel::Rack(r)),
            Err(e) => Err(e),
        },
        None => Err(ErrorModel::Format("Unsupported extension: "@ + path)),
    }
}

/// What kind of Ableton file an extension names.
pub fn file_kind(extension: Option<&str>) -> (out: Option<AbletonKind>)
    ensures
        out == kind_of_extension(crate::text::opt_str(extension)),
{
    match extension {
        Some(e) => if same_text(e, "als") {
            Some(AbletonKind::Project)
        } else if same_text(e, "adg") {
            Some(AbletonKind::Rack)
        } else {
            None
        },
        None => None,
    }
}

/// Dispatch on the extension of `path` (`.als` is a `Project`, `.adg` a `Rack`).
pub fn read_file(extension: Option<&str>, path: &str, data: &[u8]) -> (out: Result<
    AbletonFile,
    AbletonError,
>)
    ensures
        match out {
            Ok(f) => ableton_file(crate::text::opt_str(extension), path@, data@) == Ok::<
                FileModel,
                ErrorModel,
            >(f@),
            Err(e) => ableton_file(crate::text::opt_str(extension), path@, data@) == Err::<
                FileModel,
                ErrorModel,
            >(e@),
        },
{
    match file_kind(extension) {
        Some(AbletonKind::Project) => match read_als(data) {
            Ok(p) => Ok(AbletonFile::Project(p)),
            Err(e) => Err(e),
        },
        Some(AbletonKind::Rack) => match read_adg(data) {
            Ok(r) => Ok(AbletonFile::Rack(r)),
            Err(e) => Err(e),
        },
        None => {
            let mut message = "Unsupported extension: ".to_owned();
            message.append(path);
            Err(AbletonError::Format(message))
        },
    }
}

} // verus!
