//! Reader for Logic Pro projects (`.logicx` packages).
//!
//! A `.logicx` file is a macOS package: a directory that Finder presents as a
//! single file. The project state lives in binary files inside that directory.
//!
//! # Format (reverse-engineered, undocumented)
//! Logic Pro X (10.x+) writes `ProjectData` in a **proprietary chunked binary
//! format**, not a plist. The file begins with a 6-byte magic header:
//!
//! ```text
//! 23 47 c0 ab cf 09  ...  (Logic "Song" magic)
//! ```
//!
//! Data is organised as chunks whose 4-byte tags are stored in reversed byte
//! order (little-endian 4CC).
//!
//! ## Plugin slot marker: `UCuA`
//! Every plugin slot (built-in or third-party) is preceded by a `UCuA` 4-byte
//! tag. What follows determines the plugin type:
//!
//! - **Built-in Logic effects** (`GAME`/`GAMETSPP`): float parameter arrays,
//!   no AU state blob. These appear immediately after `UCuA`.
//! - **NSKeyedArchiver blobs** (`bplist00`): Smart Controls / MIDI layer
//!   settings. Not AU state.
//! - **Third-party AU plugins**: an inline `.aupreset`-format XML plist
//!   (`<?xml...`) that contains the complete AU state and component identity.
//!
//! ## Track to plugin association
//! `karT`/`qeSM` chunks give track names; `UCuA` chunks give plugin slots.
//! The reader correlates them by file position: each `UCuA` is assigned to
//! the nearest preceding `karT`. Tracks with no plugins are discarded before
//! returning. Plugins that appear before the first `karT` (rare) fall back to
//! `LogicProject::all_devices`.
//!
//! # Fallback
//! Older Logic 9 projects used a plain plist dictionary. The reader detects
//! the file type by magic bytes and falls back to plist parsing when needed.
use vstd::prelude::*;
use vstd::slice::slice_subrange;

use crate::bytes::{
    bytes_at, copy_bytes, find_bytes, find_bytes_from, find_subsequence, index_of_bytes,
    latin_chars, latin_text,
};
use crate::property_list::{
    as_boolean, as_data, as_integer, as_text, elements, entry, parse_plist, plist_document,
    PlistItem, PlistModel, PlistNode,
};
use crate::text::{
    chars_of, contains_text, find_from, has_text, index_from, matches_at, opt_text, parts, rows,
    same_text, split_parts, stands_at, text_of, trim, trim_start, trimmed, trimmed_start,
};

verus! {

/// First 4 bytes of every Logic Pro X `ProjectData` file.
/// Bytes 4-5 vary between Logic versions/projects (e.g. 0xcf vs 0xd0),
/// so only the stable prefix is checked.
pub const LOGIC_MAGIC: [u8; 4] = [0x23, 0x47, 0xc0, 0xab];

/// The tag of a track chunk (`Trak` in reversed byte order): `karT`.
pub const TRAK: [u8; 4] = [0x6b, 0x61, 0x72, 0x54];

/// The tag of a sequence chunk (`MSeq` in reversed byte order): `qeSM`.
pub const QESM: [u8; 4] = [0x71, 0x65, 0x53, 0x4d];

/// The tag of a plugin slot: `UCuA`.
pub const UCUA: [u8; 4] = [0x55, 0x43, 0x75, 0x41];

/// The tag of a built-in effect: `GAME`.
pub const GAME: [u8; 4] = [0x47, 0x41, 0x4d, 0x45];

/// The beginning of a binary property list: `bplist00`.
pub const BPLIST: [u8; 8] = [0x62, 0x70, 0x6c, 0x69, 0x73, 0x74, 0x30, 0x30];

/// The beginning of an XML document: `<?xml`.
pub const XML: [u8; 5] = [0x3c, 0x3f, 0x78, 0x6d, 0x6c];

/// The end of an XML property list: `</plist>`.
pub const PLIST_END: [u8; 8] = [0x3c, 0x2f, 0x70, 0x6c, 0x69, 0x73, 0x74, 0x3e];

// ---------------------------------------------------------------------------
// Types
// ---------------------------------------------------------------------------

#[derive(Debug)]
pub enum LogicError {
    NotAPackage(String),
    ProjectDataNotFound(String),
    Io(String),
    Plist(String),
}

#[derive(Debug)]
pub struct LogicProject {
    pub name: String,
    /// Logic version string, e.g. `"Logic Pro 11.2.2 (6387)"`.
    pub logic_version: String,
    /// The tracks that hold at least one plugin.
    pub tracks: Vec<LogicTrack>,
    /// The plugins that stand before the first track.
    pub all_devices: Vec<LogicDevice>,
}

#[derive(Debug)]
pub struct LogicTrack {
    pub name: String,
    pub kind: TrackKind,
    /// AU device chain.
    pub devices: Vec<LogicDevice>,
}

#[derive(Debug, Clone, Copy, PartialEq, Eq, Structural)]
pub enum TrackKind {
    Audio,
    SoftwareInstrument,
    Aux,
    Master,
    /// Track type could not be determined from the proprietary binary.
    Unknown,
}

#[derive(Debug)]
pub struct LogicDevice {
    pub name: String,
    pub manufacturer: String,
    /// Four-character code string, e.g. `"aufx"` (effect) or `"aumu"` (instrument).
    pub component_type: String,
    pub component_subtype: String,
    pub bypassed: bool,
    /// Opaque AU preset / state blob; stored raw without interpretation.
    pub state: Vec<u8>,
}

/// What a `LogicDevice` holds.
#[verifier::ext_equal]
pub struct DeviceModel {
    pub name: Seq<char>,
    pub manufacturer: Seq<char>,
    pub component_type: Seq<char>,
    pub component_subtype: Seq<char>,
    pub bypassed: bool,
    pub state: Seq<u8>,
}

/// What a `LogicTrack` holds.
#[verifier::ext_equal]
pub struct TrackModel {
    pub name: Seq<char>,
    pub kind: TrackKind,
    pub devices: Seq<DeviceModel>,
}

/// What a `LogicProject` holds.
#[verifier::ext_equal]
pub struct ProjectModel {
    pub name: Seq<char>,
    pub logic_version: Seq<char>,
    pub tracks: Seq<TrackModel>,
    pub all_devices: Seq<DeviceModel>,
}

impl View for LogicDevice {
    type V = DeviceModel;

    open spec fn view(&self) -> DeviceModel {
        DeviceModel {
            name: self.name@,
            manufacturer: self.manufacturer@,
            component_type: self.component_type@,
            component_subtype: self.component_subtype@,
            bypassed: self.bypassed,
            state: self.state@,
        }
    }
}

/// What each device of a list holds.
pub open spec fn device_models(list: Seq<LogicDevice>) -> Seq<DeviceModel> {
    list.map_values(|d: LogicDevice| d@)
}

impl View for LogicTrack {
    type V = TrackModel;

    open spec fn view(&self) -> TrackModel {
        TrackModel { name: self.name@, kind: self.kind, devices: device_models(self.devices@) }
    }
}

/// What each track of a list holds.
pub open spec fn track_models(list: Seq<LogicTrack>) -> Seq<TrackModel> {
    list.map_values(|t: LogicTrack| t@)
}

impl View for LogicProject {
    type V = ProjectModel;

    open spec fn view(&self) -> ProjectModel {
        ProjectModel {
            name: self.name@,
            logic_version: self.logic_version@,
            tracks: track_models(self.tracks@),
            all_devices: device_models(self.all_devices@),
        }
    }
}

/// A track chunk and its name.
pub struct TrakEntry {
    pub pos: usize,
    pub name: String,
}

/// The plugin of a slot.
pub enum UcuaKind {
    ThirdParty(LogicDevice),
    BuiltIn(String),
}

/// A plugin slot.
pub struct UcuaEntry {
    pub pos: usize,
    pub kind: UcuaKind,
}

/// What a `TrakEntry` holds.
#[verifier::ext_equal]
pub struct TrakModel {
    pub pos: int,
    pub name: Seq<char>,
}

/// What a `UcuaKind` holds.
#[verifier::ext_equal]
pub enum KindModel {
    ThirdParty(DeviceModel),
    BuiltIn(Seq<char>),
}

/// What a `UcuaEntry` holds.
#[verifier::ext_equal]
pub struct SlotModel {
    pub pos: int,
    pub kind: KindModel,
}

impl SlotModel {
    /// The plugin as a device.
    pub open spec fn device(self) -> DeviceModel {
        match self.kind {
            KindModel::ThirdParty(d) => d,
            KindModel::BuiltIn(name) => builtin_device(name),
        }
    }
}

impl View for TrakEntry {
    type V = TrakModel;

    open spec fn view(&self) -> TrakModel {
        TrakModel { pos: self.pos as int, name: self.name@ }
    }
}

/// What each track chunk of a list holds.
pub open spec fn trak_models(list: Seq<TrakEntry>) -> Seq<TrakModel> {
    list.map_values(|t: TrakEntry| t@)
}

/// The device of a built-in effect.
pub open spec fn builtin_device(name: Seq<char>) -> DeviceModel {
    DeviceModel {
        name,
        manufacturer: "Logic"@,
        component_type: Seq::empty(),
        component_subtype: Seq::empty(),
        bypassed: false,
        state: Seq::empty(),
    }
}

impl View for UcuaEntry {
    type V = SlotModel;

    open spec fn view(&self) -> SlotModel {
        SlotModel {
            pos: self.pos as int,
            kind: match self.kind {
                UcuaKind::ThirdParty(d) => KindModel::ThirdParty(d@),
                UcuaKind::BuiltIn(name) => KindModel::BuiltIn(name@),
            },
        }
    }
}

/// What each plugin slot of a list holds.
pub open spec fn ucua_models(list: Seq<UcuaEntry>) -> Seq<SlotModel> {
    list.map_values(|u: UcuaEntry| u@)
}

// ---------------------------------------------------------------------------
// Track names
// ---------------------------------------------------------------------------

/// Whether `b` is a printable ASCII character.
pub open spec fn is_printable(b: u8) -> bool {
    0x20 <= b <= 0x7e
}

/// The name that is written at `i`: its length in two bytes, low byte first, its
/// characters, and a zero.
pub open spec fn name_at(data: Seq<u8>, i: int) -> Option<Seq<char>> {
    let len = data[i] + 256 * data[i + 1];
    let end = i + 2 + len;
    if 2 <= len <= 63 && end < data.len() && data[end] == 0 && (forall|k: int|
        i + 2 <= k < end ==> is_printable(#[trigger] data[k])) {
        Some(latin_chars(data.subrange(i + 2, end)))
    } else {
        None
    }
}

/// The first name that is written at an index from `i` up to before `hi`.
pub open spec fn name_from(data: Seq<u8>, i: int, hi: int) -> Option<Seq<char>>
    decreases hi - i,
{
    if i >= hi {
        None
    } else if name_at(data, i) is Some {
        name_at(data, i)
    } else {
        name_from(data, i + 1, hi)
    }
}

/// The lesser of two numbers.
pub open spec fn lesser(a: int, b: int) -> int {
    if a <= b {
        a
    } else {
        b
    }
}

/// The name in the sequence chunk at `start`: the first that is written 48 to
/// 127 bytes behind its beginning.
pub open spec fn qesm_name(data: Seq<u8>, start: int) -> Option<Seq<char>> {
    name_from(data, start + 48, lesser(start + 128, data.len() - 3))
}

/// The name of the track chunk at `pos`: that of the first sequence chunk within
/// 512 bytes.
pub open spec fn trak_name(data: Seq<u8>, pos: int) -> Option<Seq<char>> {
    let window = data.subrange(pos, lesser(pos + 512, data.len() as int));
    match find_bytes(window, QESM@) {
        Some(rel) => qesm_name(data, pos + rel),
        None => None,
    }
}

/// The track chunks with a name at or after `pos`. Behind the beginning of a
/// track chunk the next 50 bytes are passed over.
pub open spec fn traks_from(data: Seq<u8>, pos: int) -> Seq<TrakModel>
    decreases data.len() + 50 - pos,
{
    if pos + 4 > data.len() {
        Seq::empty()
    } else if stands_at(data, TRAK@, pos) {
        match trak_name(data, pos) {
            Some(name) => seq![TrakModel { pos, name }] + traks_from(data, pos + 50),
            None => traks_from(data, pos + 50),
        }
    } else {
        traks_from(data, pos + 1)
    }
}

/// Extract the track name from a `qeSM` chunk.
///
/// The name is encoded as:
///   `<len: u16LE>  <len ASCII bytes>  <null: u8>`
///
/// This triplet appears at a variable offset (48 to 72 bytes or so) within the
/// chunk. We scan forward from offset 48, testing each position for a valid
/// triplet.
pub fn extract_name_from_qesm(data: &[u8], qesm_start: usize) -> (out: Option<String>)
    ensures
        opt_text(out) == qesm_name(data@, qesm_start as int),
{
    let n: usize = data.len();
    if n < 3 || qesm_start > n - 3 || n - 3 - qesm_start < 48 {
        return None;
    }
    let lo: usize = qesm_start + 48;
    let hi: usize = if n - 3 - qesm_start > 128 {
        qesm_start + 128
    } else {
        n - 3
    };
    let mut i: usize = lo;
    while i < hi
        invariant
            n == data@.len(),
            hi <= n - 3,
            lo <= i,
            lo == qesm_start + 48,
            hi == lesser(qesm_start + 128, n - 3),
            qesm_name(data@, qesm_start as int) == name_from(data@, i as int, hi as int),
        decreases hi - i,
    {
        if let Some(name) = read_name(data, i) {
            return Some(name);
        }
        i = i + 1;
    }
    None
}

/// The name that is written at `i`.
fn read_name(data: &[u8], i: usize) -> (out: Option<String>)
    requires
        i + 3 < data@.len(),
    ensures
        opt_text(out) == name_at(data@, i as int),
{
    let n: usize = data.len();
    let len: usize = data[i] as usize + 256 * (data[i + 1] as usize);
    if len < 2 || len > 63 {
        return None;
    }
    if len >= n - i - 2 {
        return None;
    }
    let end: usize = i + 2 + len;
    if data[end] != 0 {
        return None;
    }
    let mut k: usize = i + 2;
    while k < end
        invariant
            n == data@.len(),
            i + 2 <= k <= end,
            end < n,
            end == i + 2 + data@[i as int] + 256 * data@[i + 1],
            forall|j: int| i + 2 <= j < k ==> is_printable(#[trigger] data@[j]),
        decreases end - k,
    {
        let b: u8 = data[k];
        if b < 0x20 || b > 0x7e {
            assert(!is_printable(data@[k as int]));
            return None;
        }
        k = k + 1;
    }
    Some(latin_text(slice_subrange(data, i + 2, end)))
}

/// Collect all `karT` chunk positions and their track names from `qeSM` sub-chunks.
pub fn collect_trak_entries(data: &[u8]) -> (out: Vec<TrakEntry>)
    ensures
        trak_models(out@) == traks_from(data@, 0),
{
    let n: usize = data.len();
    let mut out: Vec<TrakEntry> = Vec::new();
    let mut pos: usize = 0;
    assert(trak_models(out@) + traks_from(data@, 0) =~= traks_from(data@, 0));
    while pos < n && 4 <= n - pos
        invariant
            n == data@.len(),
            pos <= n,
            trak_models(out@) + traks_from(data@, pos as int) == traks_from(data@, 0),
        decreases n - pos,
    {
        let ghost before = trak_models(out@);
        if bytes_at(data, TRAK.as_slice(), pos) {
            let end: usize = if n - pos > 512 {
                pos + 512
            } else {
                n
            };
            let window = slice_subrange(data, pos, end);
            if let Some(rel) = find_subsequence(window, QESM.as_slice()) {
                if let Some(name) = extract_name_from_qesm(data, pos + rel) {
                    let entry = TrakEntry { pos, name };
                    out.push(entry);
                    assert(trak_models(out@) =~= before.push(entry@));
                    assert(trak_models(out@) + traks_from(data@, pos + 50) =~= before + (
                    seq![entry@] + traks_from(data@, pos + 50)));
                }
            }
            pos = if n - pos > 50 {
                pos + 50
            } else {
                n
            };
        } else {
            pos = pos + 1;
        }
    }
    assert(trak_models(out@) + traks_from(data@, pos as int) =~= trak_models(out@));
    out
}

// ---------------------------------------------------------------------------
// Plugin slots
// ---------------------------------------------------------------------------

/// The byte at place `k`, from the highest, of the low four bytes of `n`.
pub open spec fn four_cc_byte(n: int, k: int) -> int {
    let low = n % 0x1_0000_0000;
    if k == 0 {
        low / 0x100_0000
    } else if k == 1 {
        low / 0x1_0000 % 0x100
    } else if k == 2 {
        low / 0x100 % 0x100
    } else {
        low % 0x100
    }
}

/// The character of a code byte: itself, or `?` where it cannot be seen.
pub open spec fn code_char(b: int) -> char {
    if 0x21 <= b <= 0x7e {
        b as u8 as char
    } else {
        '?'
    }
}

/// The four-character code that the low four bytes of `n` write, highest first.
pub open spec fn four_cc_text(n: int) -> Seq<char> {
    Seq::new(4, |k: int| code_char(four_cc_byte(n, k)))
}

/// The low four bytes of a number.
fn low_bits(n: i64) -> (out: u64)
    ensures
        out == n as int % 0x1_0000_0000,
{
    if n >= 0 {
        (n as u64) % 0x1_0000_0000
    } else {
        let m: u64 = (-(n + 1)) as u64;
        0xffff_ffff - m % 0x1_0000_0000
    }
}

/// The character of a code byte: itself, or `?` where it cannot be seen.
fn to_code_char(b: u8) -> (c: char)
    ensures
        c == code_char(b as int),
{
    if 0x21 <= b && b <= 0x7e {
        b as char
    } else {
        '?'
    }
}

/// Convert a big-endian 4CC integer to a human-readable string.
/// e.g. `0x61756678` is `"aufx"`.
pub fn four_cc(n: i64) -> (out: String)
    ensures
        out@ == four_cc_text(n as int),
{
    let low: u64 = low_bits(n);
    let mut out = String::new();
    out.push(to_code_char((low / 0x100_0000) as u8));
    out.push(to_code_char((low / 0x1_0000 % 0x100) as u8));
    out.push(to_code_char((low / 0x100 % 0x100) as u8));
    out.push(to_code_char((low % 0x100) as u8));
    assert(out@ =~= four_cc_text(n as int));
    out
}

/// The text of bytes with a zero for each that cannot be printed.
pub open spec fn printable_text(bytes: Seq<u8>) -> Seq<char> {
    bytes.map_values(
        |b: u8|
            if is_printable(b) {
                b as char
            } else {
                0u8 as char
            },
    )
}

/// Whether `c` is an ASCII letter.
pub open spec fn is_letter(c: char) -> bool {
    'a' <= c <= 'z' || 'A' <= c <= 'Z'
}

/// Whether `c` is an ASCII letter or digit.
pub open spec fn is_alphanumeric(c: char) -> bool {
    is_letter(c) || '0' <= c <= '9'
}

/// Whether a run of printable characters can be a plugin's name: long enough,
/// with a letter, without the words that Logic writes itself, and no component
/// identifier of twelve letters and digits.
pub open spec fn is_name_candidate(s: Seq<char>) -> bool {
    &&& s.len() >= 4
    &&& exists|i: int| 0 <= i < s.len() && is_letter(#[trigger] s[i])
    &&& !contains_text(s, "Untitled"@)
    &&& !contains_text(s, "aupreset"@)
    &&& !contains_text(s, "#Custom"@)
    &&& !contains_text(s, "#default"@)
    &&& !contains_text(s, "46ia"@)
    &&& !(s.len() == 12 && forall|i: int| 0 <= i < s.len() ==> is_alphanumeric(#[trigger] s[i]))
}

/// The last run that can be a plugin's name, without white space at its ends.
pub open spec fn last_candidate(runs: Seq<Seq<char>>) -> Option<Seq<char>>
    decreases runs.len(),
{
    if runs.len() == 0 {
        None
    } else if is_name_candidate(trim(runs.last())) {
        Some(trim(runs.last()))
    } else {
        last_candidate(runs.drop_last())
    }
}

/// The plugin name that stands in the bytes between a slot's tag and its state.
pub open spec fn plugin_name(bytes: Seq<u8>) -> Option<Seq<char>> {
    last_candidate(parts(printable_text(bytes), 0u8 as char))
}

/// The characters of bytes with a zero for each that cannot be printed.
fn printable_chars(bytes: &[u8]) -> (out: Vec<char>)
    ensures
        out@ == printable_text(bytes@),
{
    let mut out: Vec<char> = Vec::new();
    for i in 0..bytes.len()
        invariant
            out@ == printable_text(bytes@).take(i as int),
    {
        let b: u8 = bytes[i];
        let zero: u8 = 0;
        let c = if 0x20 <= b && b <= 0x7e {
            b as char
        } else {
            zero as char
        };
        out.push(c);
        assert(printable_text(bytes@).take(i + 1) =~= printable_text(bytes@).take(i as int).push(
            c,
        ));
    }
    assert(printable_text(bytes@).take(bytes@.len() as int) =~= printable_text(bytes@));
    out
}

/// Whether `word` stands in `s`.
fn holds_word(s: &[char], word: &str) -> (yes: bool)
    ensures
        yes == contains_text(s@, word@),
{
    let w = chars_of(word);
    has_text(s, w.as_slice())
}

/// Whether a run of printable characters can be a plugin's name.
fn can_be_name(s: &[char]) -> (yes: bool)
    ensures
        yes == is_name_candidate(s@),
{
    if s.len() < 4 {
        return false;
    }
    let mut letter = false;
    let mut all_alphanumeric = true;
    for i in 0..s.len()
        invariant
            letter == (exists|j: int| 0 <= j < i && is_letter(#[trigger] s@[j])),
            all_alphanumeric == (forall|j: int| 0 <= j < i ==> is_alphanumeric(#[trigger] s@[j])),
    {
        let c = s[i];
        let is_l = ('a' <= c && c <= 'z') || ('A' <= c && c <= 'Z');
        assert(is_l == is_letter(s@[i as int]));
        if is_l {
            letter = true;
        } else if !('0' <= c && c <= '9') {
            assert(!is_alphanumeric(s@[i as int]));
            all_alphanumeric = false;
        }
    }
    letter && !holds_word(s, "Untitled") && !holds_word(s, "aupreset") && !holds_word(s, "#Custom")
        && !holds_word(s, "#default") && !holds_word(s, "46ia") && !(s.len() == 12
        && all_alphanumeric)
}

/// Scan the bytes between a `UCuA` marker and an XML plist for the plugin name.
///
/// Logic stores the plugin name as a printable ASCII string a few bytes before
/// the 12-character base64-encoded AU component identifier. We collect all
/// printable runs, drop the component ID (12-char all-alphanumeric), and return
/// the last remaining candidate.
pub fn extract_plugin_name(pre_xml: &[u8]) -> (out: Option<String>)
    ensures
        opt_text(out) == plugin_name(pre_xml@),
{
    let zero: u8 = 0;
    let text = printable_chars(pre_xml);
    let runs = split_parts(text.as_slice(), zero as char);
    let ghost all = rows(runs@);
    let mut n: usize = runs.len();
    assert(all.take(n as int) =~= all);
    while n > 0
        invariant
            n <= runs@.len(),
            all == rows(runs@),
            plugin_name(pre_xml@) == last_candidate(all.take(n as int)),
        decreases n,
    {
        let run = trimmed(runs[n - 1].as_slice());
        assert(all.take(n as int).last() == runs@[n - 1]@);
        if can_be_name(run) {
            return Some(text_of(run));
        }
        assert(all.take(n as int).drop_last() =~= all.take(n - 1));
        n = n - 1;
    }
    None
}

/// Whether a part of a widget text begins with the word `WIDGET`.
pub open spec fn is_widget_part(part: Seq<char>) -> bool {
    stands_at(trim_start(part), "WIDGET"@, 0)
}

/// The first part at or after `i` that names the widget.
pub open spec fn widget_part_from(list: Seq<Seq<char>>, i: int) -> Option<Seq<char>>
    decreases list.len() - i,
{
    if i >= list.len() {
        None
    } else if is_widget_part(list[i]) {
        Some(list[i])
    } else {
        widget_part_from(list, i + 1)
    }
}

/// The widget's name in a text such as `WIDGET = Little Plate;VERSION = 4;...`.
pub open spec fn widget_name(s: Seq<char>) -> Option<Seq<char>> {
    match widget_part_from(parts(s, ';'), 0) {
        Some(part) => {
            let eq = find_from(part, '=', 0);
            if eq < part.len() && trim(part.skip(eq + 1)).len() > 0 {
                Some(trim(part.skip(eq + 1)))
            } else {
                None
            }
        },
        None => None,
    }
}

/// The widget's name in a text such as `WIDGET = Little Plate;VERSION = 4;...`.
pub fn widget_name_in(s: &str) -> (out: Option<String>)
    ensures
        opt_text(out) == widget_name(s@),
{
    let cs = chars_of(s);
    let list = split_parts(cs.as_slice(), ';');
    let word = chars_of("WIDGET");
    let ghost all = rows(list@);
    for i in 0..list.len()
        invariant
            all == rows(list@),
            all == parts(s@, ';'),
            word@ == "WIDGET"@,
            widget_part_from(all, 0) == widget_part_from(all, i as int),
    {
        let part = list[i].as_slice();
        assert(all[i as int] == part@);
        if matches_at(trimmed_start(part), word.as_slice(), 0) {
            let eq = index_from(part, '=', 0);
            if eq < part.len() {
                let rest = slice_subrange(part, eq + 1, part.len());
                assert(rest@ =~= part@.skip(eq + 1));
                let value = trimmed(rest);
                if value.len() > 0 {
                    return Some(text_of(value));
                }
            }
            return None;
        }
    }
    None
}

/// The name of a third-party plugin: that of its widget, else that before its
/// state, else its subtype code.
pub open spec fn device_name(root: PlistModel, pre: Seq<u8>, subtype: Seq<char>) -> Seq<char> {
    let widget = match as_text(entry(root, "soundtoys-data"@)) {
        Some(s) => widget_name(s),
        None => None,
    };
    let found = if widget is Some {
        widget
    } else {
        plugin_name(pre)
    };
    match found {
        Some(n) => if n.len() > 0 && n != "Untitled"@ {
            n
        } else {
            subtype
        },
        None => subtype,
    }
}

/// The device that an embedded `.aupreset` describes, where it is a dictionary
/// with the three component codes.
pub open spec fn aupreset_device(root: PlistModel, bytes: Seq<u8>, pre: Seq<u8>) -> Option<
    DeviceModel,
> {
    match (
        as_integer(entry(root, "type"@)),
        as_integer(entry(root, "subtype"@)),
        as_integer(entry(root, "manufacturer"@)),
    ) {
        (Some(t), Some(st), Some(m)) => Some(
            DeviceModel {
                name: device_name(root, pre, four_cc_text(st)),
                manufacturer: four_cc_text(m),
                component_type: four_cc_text(t),
                component_subtype: four_cc_text(st),
                bypassed: false,
                state: bytes,
            },
        ),
        _ => None,
    }
}

/// The device that the bytes of an embedded `.aupreset` describe.
pub open spec fn preset_device(bytes: Seq<u8>, pre: Seq<u8>) -> Option<DeviceModel> {
    match plist_document(bytes) {
        Ok(root) => aupreset_device(root, bytes, pre),
        Err(_) => None,
    }
}

/// Extract the plugin name from Soundtoys' `soundtoys-data` string.
/// Format: `"WIDGET = Little Plate;VERSION = 4;..."`
pub fn soundtoys_widget_name(root: &PlistNode) -> (out: Option<String>)
    ensures
        opt_text(out) == (match as_text(entry(root.model(), "soundtoys-data"@)) {
            Some(s) => widget_name(s),
            None => None,
        }),
{
    match root.get_text("soundtoys-data") {
        Some(s) => widget_name_in(s),
        None => None,
    }
}

/// The device that an embedded `.aupreset` with the given root describes.
pub fn aupreset_from_root(root: &PlistNode, bytes: &[u8], pre_xml: &[u8]) -> (out: Option<
    LogicDevice,
>)
    ensures
        match out {
            Some(d) => aupreset_device(root.model(), bytes@, pre_xml@) == Some(d@),
            None => aupreset_device(root.model(), bytes@, pre_xml@) is None,
        },
{
    let (type_i, subtype_i, mfr_i) = match (
        root.get_integer("type"),
        root.get_integer("subtype"),
        root.get_integer("manufacturer"),
    ) {
        (Some(t), Some(st), Some(m)) => (t, st, m),
        _ => return None,
    };
    let component_type = four_cc(type_i);
    let component_subtype = four_cc(subtype_i);
    let manufacturer = four_cc(mfr_i);
    let found = match soundtoys_widget_name(root) {
        Some(w) => Some(w),
        None => extract_plugin_name(pre_xml),
    };
    let name = match found {
        Some(n) => if !n.as_str().is_empty() && !same_text(n.as_str(), "Untitled") {
            n
        } else {
            component_subtype.clone()
        },
        None => component_subtype.clone(),
    };
    let device = LogicDevice {
        name,
        manufacturer,
        component_type,
        component_subtype,
        bypassed: false,
        state: copy_bytes(bytes),
    };
    Some(device)
}

/// Parse an embedded `.aupreset` XML plist and return a `LogicDevice`.
pub fn parse_aupreset_plist(bytes: &[u8], pre_xml: &[u8]) -> (out: Option<LogicDevice>)
    ensures
        match out {
            Some(d) => preset_device(bytes@, pre_xml@) == Some(d@),
            None => preset_device(bytes@, pre_xml@) is None,
        },
{
    match parse_plist(bytes) {
        Ok(root) => aupreset_from_root(&root, bytes, pre_xml),
        Err(_) => None,
    }
}

/// What stands first behind a slot's tag, and where.
pub enum Signal {
    BuiltIn(usize),
    Preset(usize),
    Neither,
}

/// What a `Signal` holds.
pub enum SignalModel {
    BuiltIn(int),
    Preset(int),
    Neither,
}

impl View for Signal {
    type V = SignalModel;

    open spec fn view(&self) -> SignalModel {
        match self {
            Signal::BuiltIn(at) => SignalModel::BuiltIn(*at as int),
            Signal::Preset(at) => SignalModel::Preset(*at as int),
            Signal::Neither => SignalModel::Neither,
        }
    }
}

/// What stands first in the bytes from a slot's tag on: the tag of a built-in
/// effect, a binary property list, which is none of the slot, or an XML document.
pub open spec fn first_signal(window: Seq<u8>) -> SignalModel {
    let game = find_bytes(window, GAME@);
    let smart = find_bytes(window, BPLIST@);
    let preset = find_bytes(window, XML@);
    match (game, smart, preset) {
        (Some(g), _, _) if (smart matches Some(b) ==> g <= b) && (preset matches Some(x) ==> g
            <= x) => SignalModel::BuiltIn(g),
        (_, _, Some(x)) if (game matches Some(g) ==> x < g) && (smart matches Some(b) ==> x < b) => {
            SignalModel::Preset(x)
        },
        _ => SignalModel::Neither,
    }
}

/// The bytes from the slot's tag at `p` on that tell what the slot holds.
pub open spec fn slot_window(data: Seq<u8>, p: int) -> Seq<u8> {
    data.subrange(p, lesser(p + 51_200, data.len() as int))
}

/// The built-in effect of the slot at `p` whose `GAME` tag stands at `game`.
pub open spec fn builtin_slot(data: Seq<u8>, p: int, game: int) -> SlotModel {
    SlotModel {
        pos: p,
        kind: KindModel::BuiltIn(
            match plugin_name(data.subrange(p + 4, game)) {
                Some(n) => n,
                None => "Logic built-in"@,
            },
        ),
    }
}

/// The plugin slots at or after `from`.
pub open spec fn slots_from(data: Seq<u8>, from: int) -> Seq<SlotModel>
    decreases data.len() - from,
    when 0 <= from <= data.len()
{
    match find_bytes_from(data, UCUA@, from) {
        Some(p) => if from <= p && p + 4 <= data.len() {
            match first_signal(slot_window(data, p)) {
                SignalModel::BuiltIn(g) => {
                    seq![builtin_slot(data, p, p + g)] + slots_from(data, p + 4)
                },
                SignalModel::Preset(x) => {
                    let start = p + x;
                    match find_bytes_from(data, PLIST_END@, start) {
                        Some(e) => {
                            let end = e + 8;
                            if from < end <= data.len() {
                                let rest = slots_from(data, end);
                                match preset_device(
                                    data.subrange(start, end),
                                    data.subrange(p, start),
                                ) {
                                    Some(device) => seq![
                                        SlotModel { pos: p, kind: KindModel::ThirdParty(device) },
                                    ] + rest,
                                    None => rest,
                                }
                            } else {
                                arbitrary()
                            }
                        },
                        None => slots_from(data, p + 4),
                    }
                },
                SignalModel::Neither => slots_from(data, p + 4),
            }
        } else {
            arbitrary()
        },
        None => Seq::empty(),
    }
}

/// What stands first in the bytes from a slot's tag on.
pub fn signal_in(window: &[u8]) -> (out: Signal)
    ensures
        out@ == first_signal(window@),
        out matches Signal::BuiltIn(g) ==> stands_at(window@, GAME@, g as int),
        out matches Signal::Preset(x) ==> x <= window@.len(),
{
    let game = find_subsequence(window, GAME.as_slice());
    let smart = find_subsequence(window, BPLIST.as_slice());
    let preset = find_subsequence(window, XML.as_slice());
    if let Some(g) = game {
        let before_smart = match smart {
            Some(b) => g <= b,
            None => true,
        };
        let before_preset = match preset {
            Some(x) => g <= x,
            None => true,
        };
        if before_smart && before_preset {
            return Signal::BuiltIn(g);
        }
    }
    if let Some(x) = preset {
        let before_game = match game {
            Some(g) => x < g,
            None => true,
        };
        let before_smart = match smart {
            Some(b) => x < b,
            None => true,
        };
        if before_game && before_smart {
            return Signal::Preset(x);
        }
    }
    Signal::Neither
}

/// The `GAME` tag of a slot stands behind the slot's own tag.
proof fn lemma_game_behind_tag(window: Seq<u8>, g: int)
    requires
        stands_at(window, UCUA@, 0),
        stands_at(window, GAME@, g),
    ensures
        g >= 4,
{
    let tag = window.subrange(0, 4);
    let game = window.subrange(g, g + 4);
    assert(tag[0] == 0x55 && tag[1] == 0x43 && tag[2] == 0x75 && tag[3] == 0x41);
    assert(game[0] == 0x47);
    assert(window[g] == 0x47);
    assert(window[0] == 0x55 && window[1] == 0x43 && window[2] == 0x75 && window[3] == 0x41);
}

/// Collect all `UCuA` plugin slot positions, capturing both built-in Logic
/// effects (`GAME` tag) and third-party AU plugins (embedded XML plist).
/// Smart Controls blobs (`bplist00`) are skipped: they are not plugin slots.
pub fn collect_ucua_entries(data: &[u8]) -> (out: Vec<UcuaEntry>)
    ensures
        ucua_models(out@) == slots_from(data@, 0),
{
    let n: usize = data.len();
    let ghost whole = slots_from(data@, 0);
    let mut out: Vec<UcuaEntry> = Vec::new();
    let mut from: usize = 0;
    assert(ucua_models(out@) + whole =~= whole);
    loop
        invariant
            n == data@.len(),
            from <= n,
            whole == slots_from(data@, 0),
            ucua_models(out@) + slots_from(data@, from as int) == whole,
        decreases n - from,
    {
        let ghost before = ucua_models(out@);
        let p: usize = match index_of_bytes(data, UCUA.as_slice(), from) {
            Some(p) => p,
            None => {
                assert(ucua_models(out@) + slots_from(data@, from as int) =~= ucua_models(out@));
                return out;
            },
        };
        let window_end: usize = if n - p > 51_200 {
            p + 51_200
        } else {
            n
        };
        let window = slice_subrange(data, p, window_end);
        assert(window@ == slot_window(data@, p as int));
        let mut next: usize = p + 4;
        match signal_in(window) {
            Signal::BuiltIn(g) => {
                proof {
                    assert(window@.subrange(0, 4) =~= data@.subrange(p as int, p + 4));
                    lemma_game_behind_tag(window@, g as int);
                }
                let between = slice_subrange(data, p + 4, p + g);
                let name = match extract_plugin_name(between) {
                    Some(name) => name,
                    None => "Logic built-in".to_owned(),
                };
                let entry = UcuaEntry { pos: p, kind: UcuaKind::BuiltIn(name) };
                out.push(entry);
                assert(ucua_models(out@) =~= before.push(entry@));
                assert(ucua_models(out@) + slots_from(data@, p + 4) =~= before + (seq![entry@]
                    + slots_from(data@, p + 4)));
            },
            Signal::Preset(x) => {
                let start: usize = p + x;
                if let Some(e) = index_of_bytes(data, PLIST_END.as_slice(), start) {
                    let end: usize = e + 8;
                    let preset = slice_subrange(data, start, end);
                    let pre_xml = slice_subrange(data, p, start);
                    if let Some(device) = parse_aupreset_plist(preset, pre_xml) {
                        let entry = UcuaEntry { pos: p, kind: UcuaKind::ThirdParty(device) };
                        out.push(entry);
                        assert(ucua_models(out@) =~= before.push(entry@));
                        assert(ucua_models(out@) + slots_from(data@, end as int) =~= before + (
                        seq![entry@] + slots_from(data@, end as int)));
                    }
                    next = end;
                }
            },
            Signal::Neither => {},
        }
        from = next;
    }
}

// ---------------------------------------------------------------------------
// Tracks and their plugins
// ---------------------------------------------------------------------------

/// `list` with `t` behind the last entry that does not stand after it.
pub open spec fn insert_trak(list: Seq<TrakModel>, t: TrakModel) -> Seq<TrakModel>
    decreases list.len(),
{
    if list.len() == 0 || list.last().pos <= t.pos {
        list.push(t)
    } else {
        insert_trak(list.drop_last(), t).push(list.last())
    }
}

/// The entries in the order of their places.
pub open spec fn sorted_traks(list: Seq<TrakModel>) -> Seq<TrakModel>
    decreases list.len(),
{
    if list.len() == 0 {
        Seq::empty()
    } else {
        insert_trak(sorted_traks(list.drop_last()), list.last())
    }
}

/// Whether the entries stand in the order of their places.
pub open spec fn in_order(list: Seq<TrakModel>) -> bool {
    forall|i: int, j: int| 0 <= i <= j < list.len() ==> list[i].pos <= list[j].pos
}

/// How many of the first `n` entries, from the first on, stand before `pos`.
pub open spec fn traks_before(list: Seq<TrakModel>, pos: int, n: int) -> int
    decreases n,
{
    if n <= 0 {
        0
    } else if list[n - 1].pos < pos {
        n
    } else {
        traks_before(list, pos, n - 1)
    }
}

/// The number of the track, counted from one, that the slot at `pos` belongs to:
/// the nearest before it. Zero where none stands before it.
pub open spec fn owner(list: Seq<TrakModel>, pos: int) -> int {
    traks_before(list, pos, list.len() as int)
}

/// The devices of the slots that belong to the track with the given number.
pub open spec fn devices_of(
    traks: Seq<TrakModel>,
    slots: Seq<SlotModel>,
    number: int,
) -> Seq<DeviceModel>
    decreases slots.len(),
{
    if slots.len() == 0 {
        Seq::empty()
    } else {
        let before = devices_of(traks, slots.drop_last(), number);
        if owner(traks, slots.last().pos) == number {
            before.push(slots.last().device())
        } else {
            before
        }
    }
}

/// The first `n` tracks with their devices, those without a device left out.
pub open spec fn tracks_with_devices(
    traks: Seq<TrakModel>,
    slots: Seq<SlotModel>,
    n: int,
) -> Seq<TrackModel>
    decreases n,
{
    if n <= 0 {
        Seq::empty()
    } else {
        let before = tracks_with_devices(traks, slots, n - 1);
        let devices = devices_of(traks, slots, n);
        if devices.len() > 0 {
            before.push(TrackModel { name: traks[n - 1].name, kind: TrackKind::Unknown, devices })
        } else {
            before
        }
    }
}

/// The tracks that hold a plugin, in the order of their places.
pub open spec fn associated_tracks(traks: Seq<TrakModel>, slots: Seq<SlotModel>) -> Seq<
    TrackModel,
> {
    let sorted = sorted_traks(traks);
    tracks_with_devices(sorted, slots, sorted.len() as int)
}

/// The devices of the slots before the first track.
pub open spec fn unassociated_devices(traks: Seq<TrakModel>, slots: Seq<SlotModel>) -> Seq<
    DeviceModel,
> {
    devices_of(sorted_traks(traks), slots, 0)
}

/// A copy of a device.
pub fn copy_device(d: &LogicDevice) -> (out: LogicDevice)
    ensures
        out@ == d@,
{
    LogicDevice {
        name: d.name.clone(),
        manufacturer: d.manufacturer.clone(),
        component_type: d.component_type.clone(),
        component_subtype: d.component_subtype.clone(),
        bypassed: d.bypassed,
        state: copy_bytes(d.state.as_slice()),
    }
}

/// The device of a slot.
fn slot_device(entry: &UcuaEntry) -> (out: LogicDevice)
    ensures
        out@ == entry@.device(),
{
    match &entry.kind {
        UcuaKind::ThirdParty(d) => copy_device(d),
        UcuaKind::BuiltIn(name) => {
            let out = LogicDevice {
                name: name.clone(),
                manufacturer: "Logic".to_owned(),
                component_type: String::new(),
                component_subtype: String::new(),
                bypassed: false,
                state: Vec::new(),
            };
            assert(out@ =~= builtin_device(name@));
            out
        },
    }
}

/// Puts `t` behind the last entry that does not stand after it.
fn insert_entry(list: &mut Vec<TrakEntry>, t: TrakEntry)
    ensures
        trak_models(final(list)@) == insert_trak(trak_models(old(list)@), t@),
{
    let mut n: usize = list.len();
    let ghost all = trak_models(list@);
    assert(all.take(n as int) =~= all);
    assert(insert_trak(all, t@) =~= insert_trak(all.take(n as int), t@) + all.skip(n as int));
    while n > 0 && list[n - 1].pos > t.pos
        invariant
            n <= list@.len(),
            *list == *old(list),
            all == trak_models(list@),
            insert_trak(all, t@) == insert_trak(all.take(n as int), t@) + all.skip(n as int),
        decreases n,
    {
        proof {
            let part = all.take(n as int);
            assert(part.last() == list@[n - 1]@);
            assert(part.drop_last() =~= all.take(n - 1));
            assert(insert_trak(part, t@) + all.skip(n as int) =~= insert_trak(all.take(n - 1), t@)
                + all.skip(n - 1));
        }
        n = n - 1;
    }
    proof {
        let part = all.take(n as int);
        if n > 0 {
            assert(part.last() == list@[n - 1]@);
        }
        assert(insert_trak(part, t@) == part.push(t@));
    }
    list.insert(n, t);
    assert(trak_models(list@) =~= all.take(n as int).push(t@) + all.skip(n as int));
}

/// The entries in the order of their places.
fn sort_entries(traks: Vec<TrakEntry>) -> (out: Vec<TrakEntry>)
    ensures
        trak_models(out@) == sorted_traks(trak_models(traks@)),
{
    let ghost all = trak_models(traks@);
    let mut rest = traks;
    let mut out: Vec<TrakEntry> = Vec::new();
    let ghost mut done: int = 0;
    assert(trak_models(out@) =~= sorted_traks(all.take(0)));
    assert(all.skip(0) =~= all);
    while rest.len() > 0
        invariant
            0 <= done,
            done + rest@.len() == all.len(),
            trak_models(rest@) == all.skip(done),
            trak_models(out@) == sorted_traks(all.take(done)),
        decreases rest@.len(),
    {
        let ghost before = rest@;
        let t = rest.remove(0);
        proof {
            assert(trak_models(before)[0] == all[done]);
            let next = all.take(done + 1);
            assert(next.drop_last() =~= all.take(done));
            assert(next.last() == t@);
            assert(trak_models(rest@) =~= trak_models(before).skip(1));
            assert(all.skip(done + 1) =~= all.skip(done).skip(1));
            done = done + 1;
        }
        insert_entry(&mut out, t);
    }
    assert(all.take(done) =~= all);
    out
}

/// The number of the track, counted from one, that the slot at `pos` belongs to.
fn owner_of(traks: &Vec<TrakEntry>, pos: usize) -> (number: usize)
    ensures
        number == owner(trak_models(traks@), pos as int),
        number <= traks@.len(),
{
    let mut n: usize = traks.len();
    while n > 0
        invariant
            n <= traks@.len(),
            owner(trak_models(traks@), pos as int) == traks_before(
                trak_models(traks@),
                pos as int,
                n as int,
            ),
        decreases n,
    {
        assert(trak_models(traks@)[n - 1] == traks@[n - 1]@);
        if traks[n - 1].pos < pos {
            return n;
        }
        n = n - 1;
    }
    0
}

/// The devices of the slots that belong to the track with the given number.
fn collect_devices(traks: &Vec<TrakEntry>, ucuas: &Vec<UcuaEntry>, number: usize) -> (out: Vec<
    LogicDevice,
>)
    ensures
        device_models(out@) == devices_of(
            trak_models(traks@),
            ucua_models(ucuas@),
            number as int,
        ),
{
    let ghost all = ucua_models(ucuas@);
    let ghost tm = trak_models(traks@);
    let mut out: Vec<LogicDevice> = Vec::new();
    assert(device_models(out@) =~= devices_of(tm, all.take(0), number as int));
    for i in 0..ucuas.len()
        invariant
            all == ucua_models(ucuas@),
            tm == trak_models(traks@),
            device_models(out@) == devices_of(tm, all.take(i as int), number as int),
    {
        let ghost before = device_models(out@);
        proof {
            let next = all.take(i + 1);
            assert(next.drop_last() =~= all.take(i as int));
            assert(next.last() == ucuas@[i as int]@);
        }
        if owner_of(traks, ucuas[i].pos) == number {
            let d = slot_device(&ucuas[i]);
            out.push(d);
            assert(device_models(out@) =~= before.push(d@));
        }
    }
    assert(all.take(all.len() as int) =~= all);
    out
}

/// Associate each `UCuA` entry with its nearest preceding `karT` entry by file
/// position, then return only tracks that have at least one plugin.
///
/// Plugins that appear before the first `karT` (rare) are returned separately.
pub fn associate_plugins_to_tracks(traks: Vec<TrakEntry>, ucuas: Vec<UcuaEntry>) -> (out: (
    Vec<LogicTrack>,
    Vec<LogicDevice>,
))
    ensures
        track_models(out.0@) == associated_tracks(trak_models(traks@), ucua_models(ucuas@)),
        device_models(out.1@) == unassociated_devices(trak_models(traks@), ucua_models(ucuas@)),
{
    let sorted = sort_entries(traks);
    let ghost tm = trak_models(sorted@);
    let ghost um = ucua_models(ucuas@);
    let mut tracks: Vec<LogicTrack> = Vec::new();
    assert(track_models(tracks@) =~= tracks_with_devices(tm, um, 0));
    for i in 0..sorted.len()
        invariant
            tm == trak_models(sorted@),
            um == ucua_models(ucuas@),
            track_models(tracks@) == tracks_with_devices(tm, um, i as int),
    {
        let ghost before = track_models(tracks@);
        let devices = collect_devices(&sorted, &ucuas, i + 1);
        assert(tm[i as int] == sorted@[i as int]@);
        if devices.len() > 0 {
            let track = LogicTrack {
                name: sorted[i].name.clone(),
                kind: TrackKind::Unknown,
                devices,
            };
            tracks.push(track);
            assert(track_models(tracks@) =~= before.push(track@));
        }
    }
    let loose = collect_devices(&sorted, &ucuas, 0);
    (tracks, loose)
}

// ---------------------------------------------------------------------------
// Laws of the association
// ---------------------------------------------------------------------------

/// Putting an entry in its place keeps the order and adds nothing but the entry.
proof fn lemma_insert_trak(list: Seq<TrakModel>, t: TrakModel)
    requires
        in_order(list),
    ensures
        in_order(insert_trak(list, t)),
        insert_trak(list, t).to_multiset() == list.to_multiset().insert(t),
        insert_trak(list, t).len() == list.len() + 1,
        insert_trak(list, t).last().pos == t.pos || (list.len() > 0 && insert_trak(list, t).last()
            == list.last()),
    decreases list.len(),
{
    broadcast use vstd::seq_lib::group_to_multiset_ensures;

    if list.len() > 0 && list.last().pos > t.pos {
        let front = list.drop_last();
        lemma_insert_trak(front, t);
        let out = insert_trak(front, t);
        assert forall|i: int| 0 <= i < out.len() implies out[i].pos <= list.last().pos by {
            assert(out[i].pos <= out.last().pos);
            if front.len() > 0 {
                assert(list[front.len() - 1].pos <= list[front.len() as int].pos);
            }
        }
        assert(list =~= front.push(list.last()));
    }
}

/// The tracks come in the order of their places, and are those that were given.
pub proof fn law_sorted_traks(list: Seq<TrakModel>)
    ensures
        in_order(sorted_traks(list)),
        sorted_traks(list).to_multiset() == list.to_multiset(),
        sorted_traks(list).len() == list.len(),
    decreases list.len(),
{
    broadcast use vstd::seq_lib::group_to_multiset_ensures;

    if list.len() > 0 {
        law_sorted_traks(list.drop_last());
        lemma_insert_trak(sorted_traks(list.drop_last()), list.last());
        assert(list =~= list.drop_last().push(list.last()));
    } else {
        assert(list =~= Seq::<TrakModel>::empty());
    }
}

/// The owner among the first `n` tracks is the last of them before the place.
proof fn lemma_traks_before(list: Seq<TrakModel>, pos: int, n: int)
    requires
        in_order(list),
        0 <= n <= list.len(),
    ensures
        0 <= traks_before(list, pos, n) <= n,
        traks_before(list, pos, n) > 0 ==> list[traks_before(list, pos, n) - 1].pos < pos,
        forall|j: int| traks_before(list, pos, n) <= j < n ==> list[j].pos >= pos,
    decreases n,
{
    if n > 0 && list[n - 1].pos >= pos {
        lemma_traks_before(list, pos, n - 1);
    }
}

/// A plugin belongs to the nearest track before it: that track begins before the
/// plugin, and no later track does.
pub proof fn law_nearest_track(traks: Seq<TrakModel>, pos: int)
    ensures
        ({
            let sorted = sorted_traks(traks);
            let k = owner(sorted, pos);
            &&& 0 <= k <= sorted.len()
            &&& k > 0 ==> sorted[k - 1].pos < pos
            &&& forall|j: int| k <= j < sorted.len() ==> sorted[j].pos >= pos
        }),
{
    law_sorted_traks(traks);
    lemma_traks_before(sorted_traks(traks), pos, traks.len() as int);
}

/// How many devices the tracks hold.
pub open spec fn total_devices(tracks: Seq<TrackModel>) -> nat
    decreases tracks.len(),
{
    if tracks.len() == 0 {
        0
    } else {
        total_devices(tracks.drop_last()) + tracks.last().devices.len()
    }
}

/// How many devices belong to the tracks with a number up to `n`, and to none.
spec fn device_count(traks: Seq<TrakModel>, slots: Seq<SlotModel>, n: int) -> int
    decreases n + 1,
{
    if n < 0 {
        0
    } else {
        device_count(traks, slots, n - 1) + devices_of(traks, slots, n).len()
    }
}

/// One slot more is one device more.
proof fn lemma_device_count_step(traks: Seq<TrakModel>, slots: Seq<SlotModel>, n: int)
    requires
        slots.len() > 0,
    ensures
        device_count(traks, slots, n) == device_count(traks, slots.drop_last(), n) + (if 0 <= owner(
            traks,
            slots.last().pos,
        ) <= n {
            1int
        } else {
            0int
        }),
    decreases n + 1,
{
    if n >= 0 {
        lemma_device_count_step(traks, slots, n - 1);
    }
}

/// The slots are as many as the devices of all tracks and the loose ones.
proof fn lemma_device_count(traks: Seq<TrakModel>, slots: Seq<SlotModel>)
    ensures
        device_count(sorted_traks(traks), slots, traks.len() as int) == slots.len(),
    decreases slots.len(),
{
    let sorted = sorted_traks(traks);
    if slots.len() > 0 {
        lemma_device_count(traks, slots.drop_last());
        lemma_device_count_step(sorted, slots, traks.len() as int);
        law_sorted_traks(traks);
        law_nearest_track(traks, slots.last().pos);
    } else {
        lemma_no_devices(sorted, slots, traks.len() as int);
    }
}

/// Without slots there are no devices.
proof fn lemma_no_devices(traks: Seq<TrakModel>, slots: Seq<SlotModel>, n: int)
    requires
        slots.len() == 0,
    ensures
        device_count(traks, slots, n) == 0,
    decreases n + 1,
{
    if n >= 0 {
        lemma_no_devices(traks, slots, n - 1);
    }
}

/// Leaving out the tracks without a device leaves out no device.
proof fn lemma_total_devices(traks: Seq<TrakModel>, slots: Seq<SlotModel>, n: int)
    requires
        0 <= n,
    ensures
        total_devices(tracks_with_devices(traks, slots, n)) + devices_of(traks, slots, 0).len()
            == device_count(traks, slots, n),
    decreases n,
{
    if n > 0 {
        lemma_total_devices(traks, slots, n - 1);
        let before = tracks_with_devices(traks, slots, n - 1);
        let all = tracks_with_devices(traks, slots, n);
        if devices_of(traks, slots, n).len() > 0 {
            assert(all.drop_last() =~= before);
        }
    } else {
        assert(device_count(traks, slots, -1) == 0);
    }
}

/// Every plugin is kept exactly once: the devices of the returned tracks and the
/// loose ones are as many as the plugin slots.
pub proof fn law_every_plugin_kept(traks: Seq<TrakModel>, slots: Seq<SlotModel>)
    ensures
        total_devices(associated_tracks(traks, slots)) + unassociated_devices(traks, slots).len()
            == slots.len(),
{
    law_sorted_traks(traks);
    lemma_device_count(traks, slots);
    lemma_total_devices(sorted_traks(traks), slots, traks.len() as int);
}

/// Every returned track holds at least one plugin.
pub proof fn law_tracks_hold_plugins(traks: Seq<TrakModel>, slots: Seq<SlotModel>)
    ensures
        forall|i: int|
            0 <= i < associated_tracks(traks, slots).len() ==> #[trigger] associated_tracks(
                traks,
                slots,
            )[i].devices.len() > 0,
{
    lemma_tracks_hold_plugins(sorted_traks(traks), slots, sorted_traks(traks).len() as int);
}

proof fn lemma_tracks_hold_plugins(traks: Seq<TrakModel>, slots: Seq<SlotModel>, n: int)
    ensures
        forall|i: int|
            0 <= i < tracks_with_devices(traks, slots, n).len() ==> #[trigger] tracks_with_devices(
                traks,
                slots,
                n,
            )[i].devices.len() > 0,
    decreases n,
{
    if n > 0 {
        lemma_tracks_hold_plugins(traks, slots, n - 1);
    }
}

// ---------------------------------------------------------------------------
// Property-list projects of older versions
// ---------------------------------------------------------------------------

/// The code that a value writes: that of an integer, or the text itself.
pub open spec fn code_of(v: Option<PlistModel>) -> Option<Seq<char>> {
    match as_integer(v) {
        Some(n) => Some(four_cc_text(n)),
        None => as_text(v),
    }
}

/// `s`, or an empty text.
pub open spec fn or_empty(s: Option<Seq<char>>) -> Seq<char> {
    match s {
        Some(t) => t,
        None => Seq::empty(),
    }
}

/// The device that a dictionary describes. One without a name describes none.
pub open spec fn legacy_device(n: PlistModel) -> Option<DeviceModel> {
    match as_text(entry(n, "name"@)) {
        Some(name) => if name.len() == 0 {
            None
        } else {
            let preset = if entry(n, "presetData"@) is Some {
                entry(n, "presetData"@)
            } else {
                entry(n, "pluginState"@)
            };
            Some(
                DeviceModel {
                    name,
                    manufacturer: or_empty(as_text(entry(n, "manufacturer"@))),
                    component_type: or_empty(code_of(entry(n, "componentType"@))),
                    component_subtype: or_empty(code_of(entry(n, "componentSubType"@))),
                    bypassed: as_boolean(entry(n, "bypassState"@)) == Some(true),
                    state: match as_data(preset) {
                        Some(d) => d,
                        None => Seq::empty(),
                    },
                },
            )
        },
        None => None,
    }
}

/// The devices that the dictionaries of a list describe, in order.
pub open spec fn legacy_devices(list: Seq<PlistModel>) -> Seq<DeviceModel>
    decreases list.len(),
{
    if list.len() == 0 {
        Seq::empty()
    } else {
        let before = legacy_devices(list.drop_last());
        match legacy_device(list.last()) {
            Some(d) => before.push(d),
            None => before,
        }
    }
}

/// The kind of track that a type number names.
pub open spec fn legacy_kind(n: Option<int>) -> TrackKind {
    if n == Some(0int) {
        TrackKind::Audio
    } else if n == Some(1int) {
        TrackKind::SoftwareInstrument
    } else if n == Some(2int) {
        TrackKind::Aux
    } else if n == Some(3int) {
        TrackKind::Master
    } else {
        TrackKind::Unknown
    }
}

/// The track that a dictionary describes. One without a name describes none.
pub open spec fn legacy_track(n: PlistModel) -> Option<TrackModel> {
    match as_text(entry(n, "name"@)) {
        Some(name) => Some(
            TrackModel {
                name,
                kind: legacy_kind(as_integer(entry(n, "trackType"@))),
                devices: legacy_devices(elements(entry(n, "plugins"@))),
            },
        ),
        None => None,
    }
}

/// The tracks that the dictionaries of a list describe, in order.
pub open spec fn legacy_tracks(list: Seq<PlistModel>) -> Seq<TrackModel>
    decreases list.len(),
{
    if list.len() == 0 {
        Seq::empty()
    } else {
        let before = legacy_tracks(list.drop_last());
        match legacy_track(list.last()) {
            Some(t) => before.push(t),
            None => before,
        }
    }
}

/// The tracks of a project that is a property list.
pub open spec fn plist_tracks(root: PlistModel) -> Seq<TrackModel> {
    legacy_tracks(elements(entry(root, "tracks"@)))
}

/// The code that a value writes: that of an integer, or the text itself.
pub fn plist_four_cc(v: Option<&PlistNode>) -> (out: Option<String>)
    ensures
        opt_text(out) == code_of(crate::property_list::opt_model(v)),
{
    match v {
        Some(n) => match &n.item {
            PlistItem::Integer(x) => Some(four_cc(*x)),
            PlistItem::Text(s) => Some(s.clone()),
            _ => None,
        },
        None => None,
    }
}

/// `s`, or an empty text.
fn text_or_empty(s: Option<String>) -> (out: String)
    ensures
        out@ == or_empty(opt_text(s)),
{
    match s {
        Some(t) => t,
        None => String::new(),
    }
}

/// The device that a dictionary describes. One without a name describes none.
pub fn parse_device_plist(n: &PlistNode) -> (out: Option<LogicDevice>)
    ensures
        match out {
            Some(d) => legacy_device(n.model()) == Some(d@),
            None => legacy_device(n.model()) is None,
        },
{
    let name = match n.get_text("name") {
        Some(name) => name.to_owned(),
        None => return None,
    };
    if name.as_str().is_empty() {
        return None;
    }
    let manufacturer = match n.get_text("manufacturer") {
        Some(m) => m.to_owned(),
        None => String::new(),
    };
    let component_type = text_or_empty(plist_four_cc(n.get("componentType")));
    let component_subtype = text_or_empty(plist_four_cc(n.get("componentSubType")));
    let bypassed = match n.get("bypassState") {
        Some(v) => match &v.item {
            PlistItem::Boolean(b) => *b,
            _ => false,
        },
        None => false,
    };
    let preset = match n.get("presetData") {
        Some(v) => Some(v),
        None => n.get("pluginState"),
    };
    let state = match preset {
        Some(v) => match &v.item {
            PlistItem::Data(d) => copy_bytes(d.as_slice()),
            _ => Vec::new(),
        },
        None => Vec::new(),
    };
    let d = LogicDevice {
        name,
        manufacturer,
        component_type,
        component_subtype,
        bypassed,
        state,
    };
    assert(Some(d@) == legacy_device(n.model())) by {
        if d@.state.len() == 0 {
            assert(d@.state =~= Seq::<u8>::empty());
        }
    }
    Some(d)
}

/// The devices that the dictionaries of an array describe, in order.
fn parse_devices(list: Option<&PlistNode>) -> (out: Vec<LogicDevice>)
    ensures
        device_models(out@) == legacy_devices(elements(crate::property_list::opt_model(list))),
{
    let mut out: Vec<LogicDevice> = Vec::new();
    let ghost all = elements(crate::property_list::opt_model(list));
    assert(device_models(out@) =~= legacy_devices(all.take(0)));
    if let Some(n) = list {
        if let PlistItem::Array = n.item {
            for i in 0..n.children.len()
                invariant
                    all == elements(Some(n.model())),
                    n.model().item is Array,
                    device_models(out@) == legacy_devices(all.take(i as int)),
            {
                let ghost before = device_models(out@);
                let v = &n.children[i].1;
                proof {
                    assert(n.model().children[i as int].1 == v.model());
                    let next = all.take(i + 1);
                    assert(next.drop_last() =~= all.take(i as int));
                    assert(next.last() == v.model());
                }
                if let Some(d) = parse_device_plist(v) {
                    out.push(d);
                    assert(device_models(out@) =~= before.push(d@));
                }
            }
        }
    }
    assert(all.take(all.len() as int) =~= all);
    assert(all.len() == 0 ==> all.take(0) =~= all);
    out
}

/// The track that a dictionary describes. One without a name describes none.
pub fn parse_track_plist(n: &PlistNode) -> (out: Option<LogicTrack>)
    ensures
        match out {
            Some(t) => legacy_track(n.model()) == Some(t@),
            None => legacy_track(n.model()) is None,
        },
{
    let name = match n.get_text("name") {
        Some(name) => name.to_owned(),
        None => return None,
    };
    let kind = match n.get_integer("trackType") {
        Some(0) => TrackKind::Audio,
        Some(1) => TrackKind::SoftwareInstrument,
        Some(2) => TrackKind::Aux,
        Some(3) => TrackKind::Master,
        _ => TrackKind::Unknown,
    };
    let devices = parse_devices(n.get("plugins"));
    Some(LogicTrack { name, kind, devices })
}

/// The tracks of a project that is a property list.
pub fn extract_tracks_plist(root: &PlistNode) -> (out: Vec<LogicTrack>)
    ensures
        track_models(out@) == plist_tracks(root.model()),
{
    let mut out: Vec<LogicTrack> = Vec::new();
    let list = root.get("tracks");
    let ghost all = elements(crate::property_list::opt_model(list));
    assert(track_models(out@) =~= legacy_tracks(all.take(0)));
    if let Some(n) = list {
        if let PlistItem::Array = n.item {
            for i in 0..n.children.len()
                invariant
                    all == elements(Some(n.model())),
                    n.model().item is Array,
                    track_models(out@) == legacy_tracks(all.take(i as int)),
            {
                let ghost before = track_models(out@);
                let v = &n.children[i].1;
                proof {
                    assert(n.model().children[i as int].1 == v.model());
                    let next = all.take(i + 1);
                    assert(next.drop_last() =~= all.take(i as int));
                    assert(next.last() == v.model());
                }
                if let Some(t) = parse_track_plist(v) {
                    out.push(t);
                    assert(track_models(out@) =~= before.push(t@));
                }
            }
        }
    }
    assert(all.take(all.len() as int) =~= all);
    assert(all.len() == 0 ==> all.take(0) =~= all);
    out
}

// ---------------------------------------------------------------------------
// Packages
// ---------------------------------------------------------------------------

/// A file of a package: absent, read, or not readable for the given reason.
pub enum PackageFile {
    Missing,
    Data(Vec<u8>),
    Unreadable(String),
}

/// What stands on disk where a project is looked for.
pub struct LogicPackage {
    /// The path of the package.
    pub path: String,
    pub is_dir: bool,
    /// The name of the package without its extension, where it is Unicode.
    pub stem: Option<String>,
    /// The bytes of `Resources/ProjectInformation.plist`, where they can be read.
    pub information: Option<Vec<u8>>,
    /// The path of `Alternatives/000/ProjectData`.
    pub modern_path: String,
    /// `Alternatives/000/ProjectData`.
    pub modern: PackageFile,
    /// `projectData`.
    pub legacy_lower: PackageFile,
    /// `ProjectData`.
    pub legacy_upper: PackageFile,
}

/// What a `LogicError` says.
#[verifier::ext_equal]
pub enum ErrorModel {
    NotAPackage(Seq<char>),
    ProjectDataNotFound(Seq<char>),
    Io(Seq<char>),
    Plist(Seq<char>),
}

impl View for LogicError {
    type V = ErrorModel;

    open spec fn view(&self) -> ErrorModel {
        match self {
            LogicError::NotAPackage(p) => ErrorModel::NotAPackage(p@),
            LogicError::ProjectDataNotFound(p) => ErrorModel::ProjectDataNotFound(p@),
            LogicError::Io(e) => ErrorModel::Io(e@),
            LogicError::Plist(e) => ErrorModel::Plist(e@),
        }
    }
}

impl LogicError {
    /// The message of the error.
    pub open spec fn text(self) -> Seq<char> {
        match self {
            LogicError::NotAPackage(p) => "path is not a .logicx package directory: "@ + p@,
            LogicError::ProjectDataNotFound(p) => "project data not found; expected at "@ + p@,
            LogicError::Io(e) => "I/O error: "@ + e@,
            LogicError::Plist(e) => "plist parse error: "@ + e@,
        }
    }

    /// The message of the error.
    pub fn message(&self) -> (out: String)
        ensures
            out@ == self.text(),
    {
        let (head, detail) = match self {
            LogicError::NotAPackage(p) => ("path is not a .logicx package directory: ", p),
            LogicError::ProjectDataNotFound(p) => ("project data not found; expected at ", p),
            LogicError::Io(e) => ("I/O error: ", e),
            LogicError::Plist(e) => ("plist parse error: ", e),
        };
        let mut out = String::new();
        out.append(head);
        out.append(detail.as_str());
        assert(out@ =~= self.text());
        out
    }
}

/// The file that holds the project's data: the modern one, else a legacy one.
pub open spec fn data_file(p: LogicPackage) -> PackageFile {
    if !(p.modern is Missing) {
        p.modern
    } else if !(p.legacy_lower is Missing) {
        p.legacy_lower
    } else {
        p.legacy_upper
    }
}

/// The variant name that project information gives: not empty, and no template
/// placeholder.
pub open spec fn variant_name(info: PlistModel) -> Option<Seq<char>> {
    match entry(info, "VariantNames"@) {
        Some(names) => match as_text(entry(names, "0"@)) {
            Some(s) => if s.len() > 0 && !s.contains('{') {
                Some(s)
            } else {
                None
            },
            None => None,
        },
        None => None,
    }
}

/// The name and the version that project information gives.
pub open spec fn info_fields(info: Option<PlistModel>) -> (Option<Seq<char>>, Seq<char>) {
    match info {
        Some(root) => (variant_name(root), or_empty(as_text(entry(root, "LastSavedFrom"@)))),
        None => (None, Seq::empty()),
    }
}

/// The project information that bytes hold, where they can be parsed.
pub open spec fn info_document(bytes: Option<Vec<u8>>) -> Option<PlistModel> {
    match bytes {
        Some(b) => match plist_document(b@) {
            Ok(root) => Some(root),
            Err(_) => None,
        },
        None => None,
    }
}

/// The tracks and the loose devices of a project's data.
pub open spec fn project_content(data: Seq<u8>) -> Result<
    (Seq<TrackModel>, Seq<DeviceModel>),
    Seq<char>,
> {
    if stands_at(data, LOGIC_MAGIC@, 0) {
        let traks = traks_from(data, 0);
        let slots = slots_from(data, 0);
        Ok((associated_tracks(traks, slots), unassociated_devices(traks, slots)))
    } else {
        match plist_document(data) {
            Ok(root) => Ok((plist_tracks(root), Seq::empty())),
            Err(e) => Err(e),
        }
    }
}

/// The project of a package.
pub open spec fn package_project(p: LogicPackage) -> Result<ProjectModel, ErrorModel> {
    if !p.is_dir {
        Err(ErrorModel::NotAPackage(p.path@))
    } else {
        match data_file(p) {
            PackageFile::Missing => Err(ErrorModel::ProjectDataNotFound(p.modern_path@)),
            PackageFile::Unreadable(e) => Err(ErrorModel::Io(e@)),
            PackageFile::Data(data) => match project_content(data@) {
                Ok(content) => {
                    let info = info_fields(info_document(p.information));
                    Ok(
                        ProjectModel {
                            name: match info.0 {
                                Some(n) => n,
                                None => match p.stem {
                                    Some(s) => s@,
                                    None => "Untitled"@,
                                },
                            },
                            logic_version: info.1,
                            tracks: content.0,
                            all_devices: content.1,
                        },
                    )
                },
                Err(e) => Err(ErrorModel::Plist(e)),
            },
        }
    }
}

/// The file that holds the project's data: the modern one, else a legacy one.
pub fn locate_project_data(package: &LogicPackage) -> (out: &PackageFile)
    ensures
        *out == data_file(*package),
{
    // Logic 10.1+: data in a named alternative slot.
    match &package.modern {
        PackageFile::Missing => {},
        file => return file,
    }
    // Pre-10.1: data at the package root (note: older versions used lowercase).
    match &package.legacy_lower {
        PackageFile::Missing => {},
        file => return file,
    }
    &package.legacy_upper
}

/// Whether `c` stands in `s`.
fn has_char(s: &str, c: char) -> (yes: bool)
    ensures
        yes == s@.contains(c),
{
    let cs = chars_of(s);
    let at = index_from(cs.as_slice(), c, 0);
    proof {
        crate::text::lemma_find_from(s@, c, 0);
        if at < cs@.len() {
            assert(s@[at as int] == c);
        }
    }
    at < cs.len()
}

/// The name and the version that project information with the given root gives.
pub fn info_from_root(root: &PlistNode) -> (out: (Option<String>, String))
    ensures
        (opt_text(out.0), out.1@) == info_fields(Some(root.model())),
{
    let name = match root.get("VariantNames") {
        Some(names) => match names.get_text("0") {
            Some(s) => if !s.is_empty() && !has_char(s, '{') {
                Some(s.to_owned())
            } else {
                None
            },
            None => None,
        },
        None => None,
    };
    let version = match root.get_text("LastSavedFrom") {
        Some(v) => v.to_owned(),
        None => String::new(),
    };
    (name, version)
}

/// The name and the version that the bytes of `ProjectInformation.plist` give.
pub fn parse_project_info(information: &Option<Vec<u8>>) -> (out: (Option<String>, String))
    ensures
        (opt_text(out.0), out.1@) == info_fields(info_document(*information)),
{
    match information {
        Some(bytes) => match parse_plist(bytes.as_slice()) {
            Ok(root) => info_from_root(&root),
            Err(_) => (None, String::new()),
        },
        None => (None, String::new()),
    }
}

/// The tracks and the loose devices of a project's data, or the message of the
/// error.
pub fn read_project_data(data: &[u8]) -> (out: Result<(Vec<LogicTrack>, Vec<LogicDevice>), String>)
    ensures
        match out {
            Ok(c) => project_content(data@) == Ok::<
                (Seq<TrackModel>, Seq<DeviceModel>),
                Seq<char>,
            >((track_models(c.0@), device_models(c.1@))),
            Err(e) => project_content(data@) == Err::<
                (Seq<TrackModel>, Seq<DeviceModel>),
                Seq<char>,
            >(e@),
        },
{
    if bytes_at(data, LOGIC_MAGIC.as_slice(), 0) {
        let traks = collect_trak_entries(data);
        let ucuas = collect_ucua_entries(data);
        Ok(associate_plugins_to_tracks(traks, ucuas))
    } else {
        match parse_plist(data) {
            Ok(root) => {
                let loose: Vec<LogicDevice> = Vec::new();
                assert(device_models(loose@) =~= Seq::<DeviceModel>::empty());
                Ok((extract_tracks_plist(&root), loose))
            },
            Err(e) => Err(e),
        }
    }
}

/// Read the project of a `.logicx` package.
pub fn read_logicx(package: &LogicPackage) -> (out: Result<LogicProject, LogicError>)
    ensures
        match out {
            Ok(p) => package_project(*package) == Ok::<ProjectModel, ErrorModel>(p@),
            Err(e) => package_project(*package) == Err::<ProjectModel, ErrorModel>(e@),
        },
{
    if !package.is_dir {
        return Err(LogicError::NotAPackage(package.path.clone()));
    }
    let (project_name, logic_version) = parse_project_info(&package.information);
    match locate_project_data(package) {
        PackageFile::Missing => Err(LogicError::ProjectDataNotFound(package.modern_path.clone())),
        PackageFile::Unreadable(e) => Err(LogicError::Io(e.clone())),
        PackageFile::Data(data) => match read_project_data(data.as_slice()) {
            Ok((tracks, all_devices)) => {
                let name = match project_name {
                    Some(n) => n,
                    None => match &package.stem {
                        Some(s) => s.clone(),
                        None => "Untitled".to_owned(),
                    },
                };
                Ok(LogicProject { name, logic_version, tracks, all_devices })
            },
            Err(e) => Err(LogicError::Plist(e)),
        },
    }
}

} // verus!
