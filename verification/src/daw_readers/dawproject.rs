//! Reader for DAWproject files (`.dawproject`).
//!
//! DAWproject is an open XML container format co-developed by Bitwig and PreSonus.
//! Bitwig Studio exports it natively; Studio One 6.5+ reads and writes it. One
//! reader serves both DAWs.
//!
//! # Format
//! A `.dawproject` file is a ZIP archive containing:
//! - `project.xml`: full project structure in the DAWproject XML schema
//! - State files referenced by `<State path="..."/>` elements at arbitrary paths inside the ZIP
//! - Optional media files (audio, MIDI)
//!
//! # Plugin identification
//! - **VST3**: `<Vst3Plugin deviceID="{GUID}" name="..." vendor="...">`: class ID GUID
//! - **VST2**: `<Vst2Plugin uniqueId="1936880749" name="..." vendor="...">`: 4-byte UID
//! - **AU**: `<AuPlugin type="4CC" subType="4CC" manufacturer="4CC">`: component codes
//! - **CLAP**: `<ClapPlugin id="com.vendor.plugin" name="..." vendor="...">`
//! - **Built-in**: any other element inside `<Devices>` (Compressor, Equalizer, etc.)
//!
//! # State blobs
//! Plugin state files are stored inside the ZIP and referenced via `path` attributes on
//! `<State>` child elements. This reader reads them and re-encodes as base64 strings so
//! storage is uniform with other DAW readers. A missing file produces `opaque_state: None`
//! rather than an error, since some exporters omit state for bypassed or default devices.
use vstd::prelude::*;

use crate::archive::{
    read_zip_bytes, read_zip_text, zip_bytes, zip_text, ZipFailure, ZipFailureModel,
};
use crate::base64::{base64_encode, encode};
use crate::bytes::copy_bytes;
use crate::daw_writers::dawproject::{holds_chain, project_xml};
use crate::daw_writers::dawproject_laws::{
    is_plain_chain, kept_project, lemma_archive_of_chain, project_node,
};
use crate::daw_writers::identities;
use crate::db::ChainModel;
use crate::markup::writes;
use crate::number::{parse_i64, parse_int, parse_u32};
use crate::text::{eq_ignore_case, opt_text, same_ignoring_case, same_text, texts};
use crate::xml::{
    attr, attr_or, child, child_attr, document, is_tagged, parse_document, XmlKind, XmlModel,
    XmlNode,
};

verus! {

// ---------------------------------------------------------------------------
// Types
// ---------------------------------------------------------------------------

#[derive(Debug)]
pub enum DawProjectError {
    Io(String),
    Zip(String),
    Xml(String),
    Format(String),
}

/// Parsed DAWproject file.
#[derive(Debug)]
pub struct DawProject {
    /// Schema version from `<Project version="...">`, e.g. `"1.0"`.
    pub version: String,
    pub application: Option<ApplicationInfo>,
    pub tracks: Vec<Track>,
}

#[derive(Debug)]
pub struct ApplicationInfo {
    pub name: String,
    pub version: String,
}

#[derive(Debug)]
pub struct Track {
    pub id: Option<String>,
    pub name: String,
    /// Hex color string, e.g. `"#FFA500"`.
    pub color: Option<String>,
    /// DAWproject content type bitmask, e.g. `"audio notes"`.
    pub content_type: Option<String>,
    pub channel: Option<Channel>,
    /// Nested sub-tracks (group / folder tracks).
    pub children: Vec<Track>,
}

#[derive(Debug)]
pub struct Channel {
    pub id: Option<String>,
    /// DAWproject channel role: `"regular"`, `"master"`, `"effect"`, `"sends"`.
    pub role: Option<String>,
    pub audio_channels: Option<u32>,
    pub devices: Vec<Device>,
}

#[derive(Debug)]
pub struct Device {
    pub name: String,
    pub is_enabled: bool,
    pub kind: DeviceKind,
    /// Plugin state read from the ZIP and base64-encoded. `None` when no `<State>` is present
    /// or the referenced file is missing from the archive.
    pub opaque_state: Option<String>,
}

#[derive(Debug)]
pub enum DeviceKind {
    Vst3 {
        /// Class ID GUID: `{XXXXXXXX-XXXX-XXXX-XXXX-XXXXXXXXXXXX}`.
        device_id: String,
        vendor: Option<String>,
        plugin_version: Option<String>,
    },
    Vst2 {
        /// 4-byte plugin UID as a signed integer (matches VST2 `uniqueID` field).
        unique_id: i64,
        vendor: Option<String>,
        plugin_version: Option<String>,
    },
    Au {
        /// `type` 4CC (e.g. `"aufx"`, `"aumu"`).
        type_code: String,
        /// `subType` 4CC.
        sub_type: String,
        /// `manufacturer` 4CC (e.g. `"appl"`, `"FabF"`).
        manufacturer: String,
    },
    Clap {
        /// Reverse-DNS plugin ID (e.g. `"com.xferrecords.serum"`).
        id: String,
        vendor: Option<String>,
        plugin_version: Option<String>,
    },
    /// Any other element inside `<Devices>`: built-in processors, routing utilities, etc.
    Builtin,
}

/// What a `DeviceKind` holds.
#[verifier::ext_equal]
pub enum KindModel {
    Vst3 {
        device_id: Seq<char>,
        vendor: Option<Seq<char>>,
        plugin_version: Option<Seq<char>>,
    },
    Vst2 { unique_id: int, vendor: Option<Seq<char>>, plugin_version: Option<Seq<char>> },
    Au { type_code: Seq<char>, sub_type: Seq<char>, manufacturer: Seq<char> },
    Clap { id: Seq<char>, vendor: Option<Seq<char>>, plugin_version: Option<Seq<char>> },
    Builtin,
}

/// What a `Device` holds.
#[verifier::ext_equal]
pub struct DeviceModel {
    pub name: Seq<char>,
    pub is_enabled: bool,
    pub kind: KindModel,
    pub opaque_state: Option<Seq<char>>,
}

/// What a `Channel` holds.
#[verifier::ext_equal]
pub struct ChannelModel {
    pub id: Option<Seq<char>>,
    pub role: Option<Seq<char>>,
    pub audio_channels: Option<int>,
    pub devices: Seq<DeviceModel>,
}

/// What a `Track` holds.
#[verifier::ext_equal]
pub struct TrackModel {
    pub id: Option<Seq<char>>,
    pub name: Seq<char>,
    pub color: Option<Seq<char>>,
    pub content_type: Option<Seq<char>>,
    pub channel: Option<ChannelModel>,
    pub children: Seq<TrackModel>,
}

/// What a `DawProject` holds.
#[verifier::ext_equal]
pub struct ProjectModel {
    pub version: Seq<char>,
    /// The name and the version of the application.
    pub application: Option<(Seq<char>, Seq<char>)>,
    pub tracks: Seq<TrackModel>,
}

/// What a `DawProjectError` says.
#[verifier::ext_equal]
pub enum ErrorModel {
    Io(Seq<char>),
    Zip(Seq<char>),
    Xml(Seq<char>),
    Format(Seq<char>),
}

impl View for DeviceKind {
    type V = KindModel;

    open spec fn view(&self) -> KindModel {
        match self {
            DeviceKind::Vst3 { device_id, vendor, plugin_version } => KindModel::Vst3 {
                device_id: device_id@,
                vendor: opt_text(*vendor),
                plugin_version: opt_text(*plugin_version),
            },
            DeviceKind::Vst2 { unique_id, vendor, plugin_version } => KindModel::Vst2 {
                unique_id: *unique_id as int,
                vendor: opt_text(*vendor),
                plugin_version: opt_text(*plugin_version),
            },
            DeviceKind::Au { type_code, sub_type, manufacturer } => KindModel::Au {
                type_code: type_code@,
                sub_type: sub_type@,
                manufacturer: manufacturer@,
            },
            DeviceKind::Clap { id, vendor, plugin_version } => KindModel::Clap {
                id: id@,
                vendor: opt_text(*vendor),
                plugin_version: opt_text(*plugin_version),
            },
            DeviceKind::Builtin => KindModel::Builtin,
        }
    }
}

impl View for Device {
    type V = DeviceModel;

    open spec fn view(&self) -> DeviceModel {
        DeviceModel {
            name: self.name@,
            is_enabled: self.is_enabled,
            kind: self.kind@,
            opaque_state: opt_text(self.opaque_state),
        }
    }
}

/// What each device of a list holds.
pub open spec fn device_models(list: Seq<Device>) -> Seq<DeviceModel> {
    list.map_values(|d: Device| d@)
}

impl View for Channel {
    type V = ChannelModel;

    open spec fn view(&self) -> ChannelModel {
        ChannelModel {
            id: opt_text(self.id),
            role: opt_text(self.role),
            audio_channels: match self.audio_channels {
                Some(n) => Some(n as int),
                None => None,
            },
            devices: device_models(self.devices@),
        }
    }
}

impl Track {
    /// What the track holds.
    pub open spec fn model(self) -> TrackModel
        decreases self,
    {
        TrackModel {
            id: opt_text(self.id),
            name: self.name@,
            color: opt_text(self.color),
            content_type: opt_text(self.content_type),
            channel: match self.channel {
                Some(c) => Some(c@),
                None => None,
            },
            children: Seq::new(
                self.children@.len(),
                |i: int|
                    if 0 <= i < self.children@.len() {
                        self.children@[i].model()
                    } else {
                        arbitrary()
                    },
            ),
        }
    }
}

/// What each track of a list holds.
pub open spec fn track_models(list: Seq<Track>) -> Seq<TrackModel> {
    list.map_values(|t: Track| t.model())
}

impl View for DawProject {
    type V = ProjectModel;

    open spec fn view(&self) -> ProjectModel {
        ProjectModel {
            version: self.version@,
            application: match self.application {
                Some(a) => Some((a.name@, a.version@)),
                None => None,
            },
            tracks: track_models(self.tracks@),
        }
    }
}

impl View for DawProjectError {
    type V = ErrorModel;

    open spec fn view(&self) -> ErrorModel {
        match self {
            DawProjectError::Io(e) => ErrorModel::Io(e@),
            DawProjectError::Zip(e) => ErrorModel::Zip(e@),
            DawProjectError::Xml(e) => ErrorModel::Xml(e@),
            DawProjectError::Format(e) => ErrorModel::Format(e@),
        }
    }
}

impl DawProjectError {
    /// The message of the error.
    pub open spec fn text(self) -> Seq<char> {
        match self {
            DawProjectError::Io(e) => "I/O error: "@ + e@,
            DawProjectError::Zip(e) => "ZIP error: "@ + e@,
            DawProjectError::Xml(e) => "XML error: "@ + e@,
            DawProjectError::Format(e) => "Format error: "@ + e@,
        }
    }

    /// The message of the error.
    pub fn message(&self) -> (out: String)
        ensures
            out@ == self.text(),
    {
        let (head, detail) = match self {
            DawProjectError::Io(e) => ("I/O error: ", e),
            DawProjectError::Zip(e) => ("ZIP error: ", e),
            DawProjectError::Xml(e) => ("XML error: ", e),
            DawProjectError::Format(e) => ("Format error: ", e),
        };
        let mut out = head.to_owned();
        out.append(detail.as_str());
        out
    }
}

// ---------------------------------------------------------------------------
// State files
// ---------------------------------------------------------------------------

/// Where the state files of a project are read from.
pub trait StateSource {
    /// The bytes of the state file at each path.
    spec fn states(&self) -> spec_fn(Seq<char>) -> Option<Seq<u8>>;

    /// The paths that were asked for so far, in order.
    spec fn asked(&self) -> Seq<Seq<char>>;

    /// The bytes of the state file at `path`.
    fn load(&mut self, path: &str) -> (out: Option<Vec<u8>>)
        ensures
            match out {
                Some(b) => (old(self).states())(path@) == Some(b@),
                None => (old(self).states())(path@) is None,
            },
            final(self).states() == old(self).states(),
            final(self).asked() == old(self).asked().push(path@),
    ;
}

/// State files in memory, and the paths that were asked for. The first with a path
/// counts.
pub struct StateFiles {
    pub files: Vec<(String, Vec<u8>)>,
    pub asked: Vec<String>,
}

/// The bytes of the first file at or after `i` with the given path.
pub open spec fn state_from(files: Seq<(String, Vec<u8>)>, path: Seq<char>, i: int) -> Option<
    Seq<u8>,
>
    decreases files.len() - i,
{
    if i >= files.len() {
        None
    } else if files[i].0@ == path {
        Some(files[i].1@)
    } else {
        state_from(files, path, i + 1)
    }
}

impl StateSource for StateFiles {
    open spec fn states(&self) -> spec_fn(Seq<char>) -> Option<Seq<u8>> {
        |path: Seq<char>| state_from(self.files@, path, 0)
    }

    open spec fn asked(&self) -> Seq<Seq<char>> {
        texts(self.asked@)
    }

    fn load(&mut self, path: &str) -> (out: Option<Vec<u8>>) {
        let ghost before = texts(self.asked@);
        self.asked.push(path.to_owned());
        assert(texts(self.asked@) =~= before.push(path@));
        for i in 0..self.files.len()
            invariant
                self.files@ == old(self).files@,
                texts(self.asked@) == texts(old(self).asked@).push(path@),
                state_from(self.files@, path@, 0) == state_from(self.files@, path@, i as int),
        {
            if same_text(self.files[i].0.as_str(), path) {
                return Some(copy_bytes(self.files[i].1.as_slice()));
            }
        }
        None
    }
}

/// The bytes of each file of an archive.
pub open spec fn archive_states(data: Seq<u8>) -> spec_fn(Seq<char>) -> Option<Seq<u8>> {
    |path: Seq<char>| zip_bytes(data, path)
}

/// State files in a ZIP archive.
pub struct ArchiveStates<'a> {
    pub data: &'a [u8],
    pub asked: Ghost<Seq<Seq<char>>>,
}

impl<'a> StateSource for ArchiveStates<'a> {
    open spec fn states(&self) -> spec_fn(Seq<char>) -> Option<Seq<u8>> {
        archive_states(self.data@)
    }

    open spec fn asked(&self) -> Seq<Seq<char>> {
        self.asked@
    }

    fn load(&mut self, path: &str) -> (out: Option<Vec<u8>>) {
        self.asked = Ghost(self.asked@.push(path@));
        read_zip_bytes(self.data, path)
    }
}

// ---------------------------------------------------------------------------
// Projects
// ---------------------------------------------------------------------------

/// Whether a device is switched on. One that does not say otherwise is.
pub open spec fn is_enabled(n: XmlModel) -> bool {
    match child_attr(n, "Enabled"@, "value"@) {
        Some(v) => !eq_ignore_case(v, "false"@),
        None => true,
    }
}

/// The state of a device in base64, where its file can be read.
pub open spec fn state_of(n: XmlModel, states: spec_fn(Seq<char>) -> Option<Seq<u8>>) -> Option<Seq<char>> {
    match child_attr(n, "State"@, "path"@) {
        Some(path) => match states(path) {
            Some(bytes) => Some(encode(bytes)),
            None => None,
        },
        None => None,
    }
}

/// The kind of device that an element describes.
pub open spec fn kind_of(n: XmlModel) -> KindModel {
    if n.tag == "Vst3Plugin"@ {
        KindModel::Vst3 {
            device_id: attr_or(n, "deviceID"@, ""@),
            vendor: attr(n, "vendor"@),
            plugin_version: attr(n, "pluginVersion"@),
        }
    } else if n.tag == "Vst2Plugin"@ {
        KindModel::Vst2 {
            unique_id: match attr(n, "uniqueId"@) {
                Some(v) => match parse_int(v, i64::MIN as int, i64::MAX as int) {
                    Some(x) => x,
                    None => 0,
                },
                None => 0,
            },
            vendor: attr(n, "vendor"@),
            plugin_version: attr(n, "pluginVersion"@),
        }
    } else if n.tag == "AuPlugin"@ {
        KindModel::Au {
            type_code: attr_or(n, "type"@, ""@),
            sub_type: attr_or(n, "subType"@, ""@),
            manufacturer: attr_or(n, "manufacturer"@, ""@),
        }
    } else if n.tag == "ClapPlugin"@ {
        KindModel::Clap {
            id: attr_or(n, "id"@, ""@),
            vendor: attr(n, "vendor"@),
            plugin_version: attr(n, "pluginVersion"@),
        }
    } else {
        KindModel::Builtin
    }
}

/// The device that an element describes.
pub open spec fn device_of(n: XmlModel, states: spec_fn(Seq<char>) -> Option<Seq<u8>>) -> DeviceModel {
    DeviceModel {
        name: attr_or(n, "name"@, n.tag),
        is_enabled: is_enabled(n),
        kind: kind_of(n),
        opaque_state: state_of(n, states),
    }
}

/// The devices that the elements of a list describe, in order.
pub open spec fn devices_in(items: Seq<XmlModel>, states: spec_fn(Seq<char>) -> Option<Seq<u8>>) -> Seq<DeviceModel>
    decreases items.len(),
{
    if items.len() == 0 {
        Seq::empty()
    } else {
        let before = devices_in(items.drop_last(), states);
        if items.last().kind == XmlKind::Element {
            before.push(device_of(items.last(), states))
        } else {
            before
        }
    }
}

/// The channel that an element describes.
pub open spec fn channel_of(n: XmlModel, states: spec_fn(Seq<char>) -> Option<Seq<u8>>) -> ChannelModel {
    ChannelModel {
        id: attr(n, "id"@),
        role: attr(n, "role"@),
        audio_channels: match attr(n, "audioChannels"@) {
            Some(v) => parse_int(v, 0, u32::MAX as int),
            None => None,
        },
        devices: match child(n, "Devices"@) {
            Some(devs) => devices_in(devs.children, states),
            None => Seq::empty(),
        },
    }
}

/// The track that an element describes.
pub open spec fn track_of(n: XmlModel, states: spec_fn(Seq<char>) -> Option<Seq<u8>>) -> TrackModel
    decreases n,
{
    TrackModel {
        id: attr(n, "id"@),
        name: attr_or(n, "name"@, ""@),
        color: attr(n, "color"@),
        content_type: attr(n, "contentType"@),
        channel: match child(n, "Channel"@) {
            Some(c) => Some(channel_of(c, states)),
            None => None,
        },
        children: tracks_in(n.children, states),
    }
}

/// The tracks that the elements of a list describe, in order.
pub open spec fn tracks_in(items: Seq<XmlModel>, states: spec_fn(Seq<char>) -> Option<Seq<u8>>) -> Seq<TrackModel>
    decreases items,
{
    if items.len() == 0 {
        Seq::empty()
    } else {
        let before = tracks_in(items.drop_last(), states);
        if is_tagged(items.last(), "Track"@) {
            before.push(track_of(items.last(), states))
        } else {
            before
        }
    }
}

/// The path of the state file that a device refers to, where it refers to one.
pub open spec fn state_paths(n: XmlModel) -> Seq<Seq<char>> {
    match child_attr(n, "State"@, "path"@) {
        Some(path) => seq![path],
        None => Seq::empty(),
    }
}

/// The paths that the devices of a list refer to, in order.
pub open spec fn device_paths(items: Seq<XmlModel>) -> Seq<Seq<char>>
    decreases items.len(),
{
    if items.len() == 0 {
        Seq::empty()
    } else {
        let before = device_paths(items.drop_last());
        if items.last().kind == XmlKind::Element {
            before + state_paths(items.last())
        } else {
            before
        }
    }
}

/// The paths that the devices of a channel refer to, in order.
pub open spec fn channel_paths(n: XmlModel) -> Seq<Seq<char>> {
    match child(n, "Devices"@) {
        Some(devs) => device_paths(devs.children),
        None => Seq::empty(),
    }
}

/// The paths that the devices of a track refer to: those of its channel, then those of
/// the tracks in it.
pub open spec fn track_paths(n: XmlModel) -> Seq<Seq<char>>
    decreases n,
{
    let own = match child(n, "Channel"@) {
        Some(c) => channel_paths(c),
        None => Seq::empty(),
    };
    own + paths_in(n.children)
}

/// The paths that the devices of the tracks of a list refer to, track by track.
pub open spec fn paths_in(items: Seq<XmlModel>) -> Seq<Seq<char>>
    decreases items,
{
    if items.len() == 0 {
        Seq::empty()
    } else {
        let before = paths_in(items.drop_last());
        if is_tagged(items.last(), "Track"@) {
            before + track_paths(items.last())
        } else {
            before
        }
    }
}

/// The paths that the devices of a project refer to, in the order of the devices.
pub open spec fn project_paths(root: XmlModel) -> Seq<Seq<char>> {
    match child(root, "Structure"@) {
        Some(s) => paths_in(s.children),
        None => Seq::empty(),
    }
}

/// The paths that the text of `project.xml` refers to. A text that cannot be read refers
/// to none.
pub open spec fn xml_paths(xml: Seq<char>) -> Seq<Seq<char>> {
    match document(xml) {
        Ok(root) => project_paths(root),
        Err(_) => Seq::empty(),
    }
}

/// The project that the root element of `project.xml` describes.
pub open spec fn project_of(root: XmlModel, states: spec_fn(Seq<char>) -> Option<Seq<u8>>) -> ProjectModel {
    ProjectModel {
        version: attr_or(root, "version"@, ""@),
        application: match child(root, "Application"@) {
            Some(n) => Some((attr_or(n, "name"@, ""@), attr_or(n, "version"@, ""@))),
            None => None,
        },
        tracks: match child(root, "Structure"@) {
            Some(s) => tracks_in(s.children, states),
            None => Seq::empty(),
        },
    }
}

/// The project that the text of `project.xml` describes.
pub open spec fn xml_project(xml: Seq<char>, states: spec_fn(Seq<char>) -> Option<Seq<u8>>) -> Result<
    ProjectModel,
    ErrorModel,
> {
    match document(xml) {
        Ok(root) => Ok(project_of(root, states)),
        Err(e) => Err(ErrorModel::Xml(e)),
    }
}

/// The project that an archive holds.
pub open spec fn archive_project(data: Seq<u8>) -> Result<ProjectModel, ErrorModel> {
    match zip_text(data, "project.xml"@) {
        Ok(xml) => xml_project(xml, archive_states(data)),
        Err(ZipFailureModel::Zip(e)) => Err(ErrorModel::Zip(e)),
        Err(ZipFailureModel::Io(e)) => Err(ErrorModel::Io(e)),
    }
}

/// Whether a device is switched on. One that does not say otherwise is.
pub fn device_is_enabled(n: &XmlNode) -> (out: bool)
    ensures
        out == is_enabled(n.model()),
{
    match n.child_attr_value("Enabled", "value") {
        Some(v) => !same_ignoring_case(v.as_str(), "false"),
        None => true,
    }
}

/// The state of a device in base64, where its file can be read.
pub fn read_state<S: StateSource>(n: &XmlNode, states: &mut S) -> (out: Option<String>)
    ensures
        opt_text(out) == state_of(n.model(), old(states).states()),
        final(states).states() == old(states).states(),
        final(states).asked() == old(states).asked() + state_paths(n.model()),
{
    match n.child_attr_value("State", "path") {
        Some(path) => match states.load(path.as_str()) {
            Some(bytes) => Some(base64_encode(bytes.as_slice())),
            None => None,
        },
        None => None,
    }
}

/// The kind of device that an element describes.
pub fn parse_kind(n: &XmlNode) -> (out: DeviceKind)
    ensures
        out@ == kind_of(n.model()),
{
    let tag = n.tag.as_str();
    if same_text(tag, "Vst3Plugin") {
        DeviceKind::Vst3 {
            device_id: n.attribute_or("deviceID", ""),
            vendor: n.attribute_text("vendor"),
            plugin_version: n.attribute_text("pluginVersion"),
        }
    } else if same_text(tag, "Vst2Plugin") {
        let unique_id: i64 = match n.attribute("uniqueId") {
            Some(v) => match parse_i64(v) {
                Some(x) => x,
                None => 0,
            },
            None => 0,
        };
        DeviceKind::Vst2 {
            unique_id,
            vendor: n.attribute_text("vendor"),
            plugin_version: n.attribute_text("pluginVersion"),
        }
    } else if same_text(tag, "AuPlugin") {
        DeviceKind::Au {
            type_code: n.attribute_or("type", ""),
            sub_type: n.attribute_or("subType", ""),
            manufacturer: n.attribute_or("manufacturer", ""),
        }
    } else if same_text(tag, "ClapPlugin") {
        DeviceKind::Clap {
            id: n.attribute_or("id", ""),
            vendor: n.attribute_text("vendor"),
            plugin_version: n.attribute_text("pluginVersion"),
        }
    } else {
        DeviceKind::Builtin
    }
}

/// The device that an element describes.
pub fn parse_device<S: StateSource>(n: &XmlNode, states: &mut S) -> (out: Device)
    ensures
        out@ == device_of(n.model(), old(states).states()),
        final(states).states() == old(states).states(),
        final(states).asked() == old(states).asked() + state_paths(n.model()),
{
    Device {
        name: n.attribute_or("name", n.tag.as_str()),
        is_enabled: device_is_enabled(n),
        kind: parse_kind(n),
        opaque_state: read_state(n, states),
    }
}

/// The channel that an element describes.
pub fn parse_channel<S: StateSource>(n: &XmlNode, states: &mut S) -> (out: Channel)
    ensures
        out@ == channel_of(n.model(), old(states).states()),
        final(states).states() == old(states).states(),
        final(states).asked() == old(states).asked() + channel_paths(n.model()),
{
    let audio_channels = match n.attribute("audioChannels") {
        Some(v) => parse_u32(v),
        None => None,
    };
    let ghost files = states.states();
    let ghost start = states.asked();
    let mut devices: Vec<Device> = Vec::new();
    assert(device_models(devices@) =~= Seq::<DeviceModel>::empty());
    if let Some(devs) = n.child("Devices") {
        let ghost all = devs.model().children;
        assert(device_models(devices@) =~= devices_in(all.take(0), files));
        assert(states.asked() =~= start + device_paths(all.take(0)));
        for i in 0..devs.children.len()
            invariant
                all == devs.model().children,
                states.states() == files,
                states.asked() == start + device_paths(all.take(i as int)),
                device_models(devices@) == devices_in(all.take(i as int), files),
        {
            let item = &devs.children[i];
            let ghost before = device_models(devices@);
            proof {
                assert(all[i as int] == item.model());
                let next = all.take(i + 1);
                assert(next.drop_last() =~= all.take(i as int));
                assert(next.last() == item.model());
            }
            if item.is_element() {
                let d = parse_device(item, states);
                devices.push(d);
                assert(device_models(devices@) =~= before.push(d@));
                assert(states.asked() =~= start + device_paths(all.take(i + 1)));
            }
        }
        assert(all.take(all.len() as int) =~= all);
    } else {
        assert(states.asked() =~= start + channel_paths(n.model()));
    }
    Channel {
        id: n.attribute_text("id"),
        role: n.attribute_text("role"),
        audio_channels,
        devices,
    }
}

/// The track that an element describes.
pub fn parse_track<S: StateSource>(n: &XmlNode, states: &mut S) -> (out: Track)
    ensures
        out.model() == track_of(n.model(), old(states).states()),
        final(states).states() == old(states).states(),
        final(states).asked() == old(states).asked() + track_paths(n.model()),
    decreases n.model(), 1nat,
{
    let ghost start = states.asked();
    let ghost own = match child(n.model(), "Channel"@) {
        Some(c) => channel_paths(c),
        None => Seq::empty(),
    };
    let channel = match n.child("Channel") {
        Some(c) => Some(parse_channel(c, states)),
        None => None,
    };
    assert(states.asked() =~= start + own);
    let children = parse_tracks(n, states);
    let out = Track {
        id: n.attribute_text("id"),
        name: n.attribute_or("name", ""),
        color: n.attribute_text("color"),
        content_type: n.attribute_text("contentType"),
        channel,
        children,
    };
    assert(out.model().children =~= track_models(children@));
    assert(states.asked() =~= start + track_paths(n.model()));
    out
}

/// The tracks that the elements in a node describe, in order.
fn parse_tracks<S: StateSource>(n: &XmlNode, states: &mut S) -> (out: Vec<Track>)
    ensures
        track_models(out@) == tracks_in(n.model().children, old(states).states()),
        final(states).states() == old(states).states(),
        final(states).asked() == old(states).asked() + paths_in(n.model().children),
    decreases n.model(), 0nat,
{
    let mut out: Vec<Track> = Vec::new();
    let ghost m = n.model();
    let ghost all = m.children;
    let ghost files = states.states();
    let ghost start = states.asked();
    assert(track_models(out@) =~= tracks_in(all.take(0), files));
    assert(states.asked() =~= start + paths_in(all.take(0)));
    for i in 0..n.children.len()
        invariant
            m == n.model(),
            all == m.children,
            states.states() == files,
            states.asked() == start + paths_in(all.take(i as int)),
            track_models(out@) == tracks_in(all.take(i as int), files),
    {
        let item = &n.children[i];
        let ghost before = track_models(out@);
        proof {
            assert(all[i as int] == item.model());
            let next = all.take(i + 1);
            assert(next.drop_last() =~= all.take(i as int));
            assert(next.last() == item.model());
            assert(decreases_to!(m => m.children));
            assert(decreases_to!(m.children => m.children[i as int]));
        }
        if item.has_tag("Track") {
            let t = parse_track(item, states);
            out.push(t);
            assert(track_models(out@) =~= before.push(t.model()));
            assert(states.asked() =~= start + paths_in(all.take(i + 1)));
        }
    }
    assert(all.take(all.len() as int) =~= all);
    out
}

/// The project that the root element of `project.xml` describes.
pub fn project_from_root<S: StateSource>(root: &XmlNode, states: &mut S) -> (out: DawProject)
    ensures
        out@ == project_of(root.model(), old(states).states()),
        final(states).states() == old(states).states(),
        final(states).asked() == old(states).asked() + project_paths(root.model()),
{
    let application = match root.child("Application") {
        Some(n) => Some(
            ApplicationInfo {
                name: n.attribute_or("name", ""),
                version: n.attribute_or("version", ""),
            },
        ),
        None => None,
    };
    let tracks = match root.child("Structure") {
        Some(s) => parse_tracks(s, states),
        None => {
            let none: Vec<Track> = Vec::new();
            assert(track_models(none@) =~= Seq::<TrackModel>::empty());
            assert(states.asked() =~= states.asked() + project_paths(root.model()));
            none
        },
    };
    DawProject { version: root.attribute_or("version", ""), application, tracks }
}

/// Parse `project.xml` content. The states of the devices are read from `states`, which
/// is asked for each path that a device refers to, in the order of the devices, and for
/// no other.
pub fn parse_project_xml<S: StateSource>(xml: &str, states: &mut S) -> (out: Result<
    DawProject,
    DawProjectError,
>)
    ensures
        match out {
            Ok(p) => xml_project(xml@, old(states).states()) == Ok::<ProjectModel, ErrorModel>(p@),
            Err(e) => xml_project(xml@, old(states).states()) == Err::<ProjectModel, ErrorModel>(
                e@,
            ),
        },
        final(states).states() == old(states).states(),
        final(states).asked() == old(states).asked() + xml_paths(xml@),
        forall|root: XmlModel|
            #![trigger writes(xml@, root)]
            writes(xml@, root) ==> match out {
                Ok(p) => p@ == project_of(root, old(states).states()) && final(states).asked()
                    == old(states).asked() + project_paths(root),
                Err(_) => false,
            },
{
    match parse_document(xml) {
        Ok(root) => Ok(project_from_root(&root, states)),
        Err(e) => {
            assert(states.asked() =~= states.asked() + xml_paths(xml@));
            Err(DawProjectError::Xml(e))
        },
    }
}

/// Parse the bytes of a `.dawproject` archive.
///
/// An archive that was written for a chain is read as that chain: the same devices in the
/// same order, each with its name, its kind, its state, and on or off as it was.
pub fn read_dawproject(data: &[u8]) -> (out: Result<DawProject, DawProjectError>)
    ensures
        match out {
            Ok(p) => archive_project(data@) == Ok::<ProjectModel, ErrorModel>(p@),
            Err(e) => archive_project(data@) == Err::<ProjectModel, ErrorModel>(e@),
        },
        forall|chain: ChainModel|
            #![trigger holds_chain(data@, chain)]
            holds_chain(data@, chain) && is_plain_chain(chain) ==> match out {
                Ok(p) => p@ == kept_project(chain),
                Err(_) => false,
            },
{
    proof {
        assert forall|chain: ChainModel|
            #![trigger holds_chain(data@, chain)]
            holds_chain(data@, chain) && is_plain_chain(chain) implies writes(
            project_xml(chain, identities(chain.slots)),
            project_node(chain, identities(chain.slots)),
        ) && project_of(project_node(chain, identities(chain.slots)), archive_states(data@))
            == kept_project(chain) by {
            lemma_archive_of_chain(data@, chain);
        }
    }
    match read_zip_text(data, "project.xml") {
        Ok(xml) => {
            let mut states = ArchiveStates { data, asked: Ghost(Seq::empty()) };
            parse_project_xml(xml.as_str(), &mut states)
        },
        Err(ZipFailure::Zip(e)) => Err(DawProjectError::Zip(e)),
        Err(ZipFailure::Io(e)) => Err(DawProjectError::Io(e)),
    }
}

} // verus!
