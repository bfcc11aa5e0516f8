//! Finds installed plugins: what a walk of the plugin folders meets, and the
//! record of each bundle.
use vstd::prelude::*;
use vstd::slice::slice_subrange;

use crate::db::KnownMtimes;
use crate::property_list::{
    as_text, entry, parse_plist, plist_document, PlistModel, PlistNode,
};
use crate::text::{
    chars_of, eq_ignore_case, first_of, index_from, join, joined, opt_text, same_ignoring_case,
    same_text, text_of, texts, trim, trimmed,
};

pub mod au;
pub mod clap;
pub mod folders;
pub mod laws;
pub mod total;
pub mod vst2;
pub mod walk_laws;

verus! {

// ---------------------------------------------------------------------------
// Types
// ---------------------------------------------------------------------------

#[derive(Debug)]
pub enum ScanError {
    Io { path: String, source: String },
    Json { path: String, source: String },
}

#[derive(Debug)]
pub struct ScannedPlugin {
    pub name: String,
    pub vendor: Option<String>,
    pub version: Option<String>,
    pub category: Option<String>,
    pub class_id: Option<String>,
    pub path: String,
    pub format: PluginFormat,
    /// Unix timestamp (seconds) of the bundle's last modification time.
    /// `None` when the filesystem metadata is unavailable (e.g. AU with no resolved path).
    pub file_mtime: Option<i64>,
}

#[derive(Debug, Clone, Copy, PartialEq, Eq, Structural)]
pub enum PluginFormat {
    Vst3,
    Au,
    Vst2,
    Clap,
}

impl PluginFormat {
    /// The name of the format.
    pub open spec fn text(self) -> Seq<char> {
        match self {
            PluginFormat::Vst3 => "VST3"@,
            PluginFormat::Au => "AU"@,
            PluginFormat::Vst2 => "VST2"@,
            PluginFormat::Clap => "CLAP"@,
        }
    }

    /// The name of the format.
    pub fn as_str(self) -> (out: &'static str)
        ensures
            out@ == self.text(),
    {
        match self {
            PluginFormat::Vst3 => "VST3",
            PluginFormat::Au => "AU",
            PluginFormat::Vst2 => "VST2",
            PluginFormat::Clap => "CLAP",
        }
    }
}

/// The system that the plugins are installed on.
#[derive(Debug, Clone, Copy, PartialEq, Eq, Structural)]
pub enum Platform {
    MacOs,
    Windows,
    Other,
}

/// What a `ScannedPlugin` holds.
#[verifier::ext_equal]
pub struct PluginModel {
    pub name: Seq<char>,
    pub vendor: Option<Seq<char>>,
    pub version: Option<Seq<char>>,
    pub category: Option<Seq<char>>,
    pub class_id: Option<Seq<char>>,
    pub path: Seq<char>,
    pub format: PluginFormat,
    pub file_mtime: Option<i64>,
}

impl View for ScannedPlugin {
    type V = PluginModel;

    open spec fn view(&self) -> PluginModel {
        PluginModel {
            name: self.name@,
            vendor: opt_text(self.vendor),
            version: opt_text(self.version),
            category: opt_text(self.category),
            class_id: opt_text(self.class_id),
            path: self.path@,
            format: self.format,
            file_mtime: self.file_mtime,
        }
    }
}

/// What each plugin of a list holds.
pub open spec fn plugin_models(list: Seq<ScannedPlugin>) -> Seq<PluginModel> {
    list.map_values(|p: ScannedPlugin| p@)
}

/// What a `ScanError` says.
#[verifier::ext_equal]
pub enum ScanErrorModel {
    Io { path: Seq<char>, source: Seq<char> },
    Json { path: Seq<char>, source: Seq<char> },
}

impl View for ScanError {
    type V = ScanErrorModel;

    open spec fn view(&self) -> ScanErrorModel {
        match self {
            ScanError::Io { path, source } => ScanErrorModel::Io { path: path@, source: source@ },
            ScanError::Json { path, source } => ScanErrorModel::Json {
                path: path@,
                source: source@,
            },
        }
    }
}

/// What each error of a list says.
pub open spec fn error_models(list: Seq<ScanError>) -> Seq<ScanErrorModel> {
    list.map_values(|e: ScanError| e@)
}

impl ScanError {
    /// The message of the error.
    pub open spec fn text(self) -> Seq<char> {
        match self {
            ScanError::Io { path, source } => "IO error at "@ + path@ + ": "@ + source@,
            ScanError::Json { path, source } => "Bad moduleinfo.json at "@ + path@ + ": "@
                + source@,
        }
    }

    /// The message of the error.
    pub fn message(&self) -> (out: String)
        ensures
            out@ == self.text(),
    {
        let (head, path, source) = match self {
            ScanError::Io { path, source } => ("IO error at ", path, source),
            ScanError::Json { path, source } => ("Bad moduleinfo.json at ", path, source),
        };
        let mut out = head.to_owned();
        out.append(path.as_str());
        out.append(": ");
        out.append(source.as_str());
        out
    }
}

// ---------------------------------------------------------------------------
// What stands on disk
// ---------------------------------------------------------------------------

/// A class that `moduleinfo.json` names. `sub_categories` carries the useful
/// taxonomy, such as `Fx` and `EQ`.
#[derive(Debug)]
pub struct ClassInfo {
    pub cid: Option<String>,
    pub name: Option<String>,
    pub vendor: Option<String>,
    pub version: Option<String>,
    pub sub_categories: Option<Vec<String>>,
}

/// The content of a `moduleinfo.json`.
#[derive(Debug)]
pub struct ModuleInfo {
    pub name: Option<String>,
    pub version: Option<String>,
    /// The vendor of the factory.
    pub vendor: Option<String>,
    pub classes: Vec<ClassInfo>,
}

/// What a CLAP probe says of one plugin of a bundle.
#[derive(Debug)]
pub struct ProbeDescriptor {
    pub id: Option<String>,
    pub name: Option<String>,
    pub vendor: Option<String>,
    pub version: Option<String>,
    pub features: Vec<String>,
}

/// What a VST2 probe says of a bundle.
#[derive(Debug)]
pub struct ProbeOutput {
    pub name: Option<String>,
    pub vendor: Option<String>,
    pub category: Option<i32>,
}

/// What is known of a bundle besides its place.
#[derive(Debug)]
pub struct BundleFacts {
    /// `Contents/moduleinfo.json`, where it is there and well-formed.
    pub module_info: Option<ModuleInfo>,
    /// The bytes of `Contents/Info.plist`, where they can be read.
    pub info_plist: Option<Vec<u8>>,
    /// The answer of a CLAP probe, where there is one.
    pub clap_probe: Option<Vec<ProbeDescriptor>>,
    /// The answer of a VST2 probe, where there is one.
    pub vst2_probe: Option<ProbeOutput>,
}

/// A file or a directory, with what is in it.
#[derive(Debug)]
pub struct FsNode {
    pub path: String,
    /// The name without its extension.
    pub stem: String,
    pub extension: Option<String>,
    pub exists: bool,
    pub is_dir: bool,
    pub is_file: bool,
    /// The time of the last change in seconds, where it is known.
    pub mtime: Option<i64>,
    pub facts: BundleFacts,
    /// Why the entries of a directory cannot be listed.
    pub unreadable: Option<String>,
    pub entries: Vec<FsNode>,
}

/// What an `FsNode` holds.
#[verifier::ext_equal]
pub struct FsModel {
    pub path: Seq<char>,
    pub stem: Seq<char>,
    pub extension: Option<Seq<char>>,
    pub exists: bool,
    pub is_dir: bool,
    pub is_file: bool,
    pub mtime: Option<i64>,
    pub facts: BundleFacts,
    pub unreadable: Option<Seq<char>>,
    pub entries: Seq<FsModel>,
}

impl FsNode {
    /// What the file or directory holds.
    pub open spec fn model(self) -> FsModel
        decreases self,
    {
        FsModel {
            path: self.path@,
            stem: self.stem@,
            extension: opt_text(self.extension),
            exists: self.exists,
            is_dir: self.is_dir,
            is_file: self.is_file,
            mtime: self.mtime,
            facts: self.facts,
            unreadable: opt_text(self.unreadable),
            entries: Seq::new(
                self.entries@.len(),
                |i: int|
                    if 0 <= i < self.entries@.len() {
                        self.entries@[i].model()
                    } else {
                        arbitrary()
                    },
            ),
        }
    }
}

/// What each node of a list holds.
pub open spec fn fs_models(list: Seq<FsNode>) -> Seq<FsModel> {
    list.map_values(|n: FsNode| n.model())
}

/// What each node of a list of references holds.
pub open spec fn ref_models(list: Seq<&FsNode>) -> Seq<FsModel> {
    list.map_values(|n: &FsNode| n.model())
}

/// Whether a file or directory has the given extension, in any case.
pub open spec fn has_extension(n: FsModel, ext: Seq<char>) -> bool {
    match n.extension {
        Some(e) => eq_ignore_case(e, ext),
        None => false,
    }
}

impl FsNode {
    /// Whether the file or directory has the given extension, in any case.
    pub fn has_ext(&self, ext: &str) -> (yes: bool)
        ensures
            yes == has_extension(self.model(), ext@),
    {
        match &self.extension {
            Some(e) => same_ignoring_case(e.as_str(), ext),
            None => false,
        }
    }
}

// ---------------------------------------------------------------------------
// Known modification times
// ---------------------------------------------------------------------------

/// Whether a bundle is known with its present modification time.
pub open spec fn is_unchanged(known: Map<Seq<char>, i64>, path: Seq<char>, mtime: Option<i64>) -> bool {
    mtime is Some && known.contains_key(path) && known[path] == mtime->0
}

/// Whether a bundle is known with its present modification time.
pub fn bundle_unchanged(known: &KnownMtimes, path: &str, mtime: Option<i64>) -> (yes: bool)
    ensures
        yes == is_unchanged(known@, path@, mtime),
{
    match (known.get(path), mtime) {
        (Some(k), Some(current)) => k == current,
        _ => false,
    }
}

// ---------------------------------------------------------------------------
// Vendors
// ---------------------------------------------------------------------------

/// Whether a character that is not ASCII is a letter or a number, as
/// `char::is_alphanumeric` says.
pub uninterp spec fn unicode_alphanumeric(c: char) -> bool;

/// Whether `c` is a letter or a number.
pub open spec fn is_alphanumeric(c: char) -> bool {
    if (c as u32) < 0x80 {
        'a' <= c <= 'z' || 'A' <= c <= 'Z' || '0' <= c <= '9'
    } else {
        unicode_alphanumeric(c)
    }
}

/// `char::is_alphanumeric`. Of the ASCII characters it holds of letters and
/// digits; of others the answer is only named.
#[verifier::external_body]
pub(crate) fn alphanumeric(c: char) -> (yes: bool)
    ensures
        c as u32 >= 0x80 ==> yes == unicode_alphanumeric(c),
        (c as u32) < 0x80 ==> yes == ('a' <= c <= 'z' || 'A' <= c <= 'Z' || '0' <= c <= '9'),
{
    c.is_alphanumeric()
}

/// Whether `c` is a decimal digit.
pub open spec fn is_digit(c: char) -> bool {
    '0' <= c <= '9'
}

/// Whether four digits, and no fifth, stand at `i`.
pub open spec fn year_at(s: Seq<char>, i: int) -> bool {
    &&& 0 <= i
    &&& i + 4 <= s.len()
    &&& is_digit(s[i]) && is_digit(s[i + 1]) && is_digit(s[i + 2]) && is_digit(s[i + 3])
    &&& i == 0 || !is_digit(s[i - 1])
    &&& i + 4 >= s.len() || !is_digit(s[i + 4])
}

/// The last place below `n` at which a year stands.
pub open spec fn last_year(s: Seq<char>, n: int) -> Option<int>
    decreases n,
{
    if n <= 0 {
        None
    } else if year_at(s, n - 1) {
        Some(n - 1)
    } else {
        last_year(s, n - 1)
    }
}

/// Whether `c` belongs to a vendor's name.
pub open spec fn is_name_char(c: char) -> bool {
    is_alphanumeric(c) || c == '-'
}

/// `s` without the characters at its beginning that belong to no name.
pub open spec fn trim_name_start(s: Seq<char>) -> Seq<char>
    decreases s.len(),
{
    if s.len() > 0 && !is_name_char(s[0]) {
        trim_name_start(s.drop_first())
    } else {
        s
    }
}

/// `s` without the characters at its end that belong to no name.
pub open spec fn trim_name_end(s: Seq<char>) -> Seq<char>
    decreases s.len(),
{
    if s.len() > 0 && !is_name_char(s.last()) {
        trim_name_end(s.drop_last())
    } else {
        s
    }
}

/// The vendor that a copyright text names: what stands behind the last year.
pub open spec fn copyright_vendor(s: Seq<char>) -> Option<Seq<char>> {
    match last_year(s, s.len() as int) {
        Some(i) => {
            let vendor = trim(trim_name_end(trim_name_start(s.skip(i + 4))));
            if vendor.len() > 0 {
                Some(vendor)
            } else {
                None
            }
        },
        None => None,
    }
}

/// Whether a year stands at `i`.
fn year_stands(s: &[char], i: usize) -> (yes: bool)
    requires
        i < s@.len(),
    ensures
        yes == year_at(s@, i as int),
{
    let n: usize = s.len();
    if n - i < 4 {
        return false;
    }
    let mut k: usize = 0;
    while k < 4
        invariant
            n == s@.len(),
            i + 4 <= n,
            k <= 4,
            forall|j: int| i <= j < i + k ==> is_digit(#[trigger] s@[j]),
        decreases 4 - k,
    {
        if !('0' <= s[i + k] && s[i + k] <= '9') {
            assert(!is_digit(s@[i + k]));
            return false;
        }
        k = k + 1;
    }
    assert(is_digit(s@[i as int]) && is_digit(s@[i + 1]) && is_digit(s@[i + 2]) && is_digit(
        s@[i + 3],
    ));
    let before_ok = i == 0 || !('0' <= s[i - 1] && s[i - 1] <= '9');
    let after_ok = n - i == 4 || !('0' <= s[i + 4] && s[i + 4] <= '9');
    before_ok && after_ok
}

/// `s` without the characters at either end that belong to no name.
fn trimmed_name(s: &[char]) -> (out: &[char])
    ensures
        out@ == trim_name_end(trim_name_start(s@)),
{
    let mut i: usize = 0;
    assert(s@.skip(0) =~= s@);
    while i < s.len() && !(alphanumeric(s[i]) || s[i] == '-')
        invariant
            i <= s@.len(),
            trim_name_start(s@) == trim_name_start(s@.skip(i as int)),
        decreases s@.len() - i,
    {
        assert(s@.skip(i as int).drop_first() =~= s@.skip(i + 1));
        i = i + 1;
    }
    let t = slice_subrange(s, i, s.len());
    assert(t@ =~= s@.skip(i as int));
    let mut n: usize = t.len();
    assert(t@.take(n as int) =~= t@);
    while n > 0 && !(alphanumeric(t[n - 1]) || t[n - 1] == '-')
        invariant
            n <= t@.len(),
            trim_name_end(t@) == trim_name_end(t@.take(n as int)),
        decreases n,
    {
        assert(t@.take(n as int).drop_last() =~= t@.take(n - 1));
        n = n - 1;
    }
    assert(t@.take(n as int) =~= t@.subrange(0, n as int));
    slice_subrange(t, 0, n)
}

/// Finds the last standalone 4-digit year in a copyright string and returns
/// everything after it, from the first to the last character of a name.
pub fn extract_vendor_from_copyright(s: &str) -> (out: Option<String>)
    ensures
        opt_text(out) == copyright_vendor(s@),
{
    let cs = chars_of(s);
    let mut n: usize = cs.len();
    while n > 0
        invariant
            cs@ == s@,
            n <= cs@.len(),
            last_year(s@, s@.len() as int) == last_year(s@, n as int),
        decreases n,
    {
        if year_stands(cs.as_slice(), n - 1) {
            let rest = slice_subrange(cs.as_slice(), n + 3, cs.len());
            assert(rest@ =~= s@.skip(n + 3));
            let vendor = trimmed(trimmed_name(rest));
            if vendor.len() > 0 {
                return Some(text_of(vendor));
            }
            return None;
        }
        n = n - 1;
    }
    None
}

/// `s` with a space for each hyphen.
pub open spec fn hyphens_to_spaces(s: Seq<char>) -> Seq<char> {
    s.map_values(
        |c: char|
            if c == '-' {
                ' '
            } else {
                c
            },
    )
}

/// The vendor that a reverse-DNS bundle identifier names.
pub open spec fn bundle_id_vendor(id: Seq<char>) -> Option<Seq<char>> {
    let dot = crate::text::find_from(id, '.', 0);
    if dot < id.len() {
        let tld = id.take(dot);
        let vendor = id.subrange(dot + 1, crate::text::find_from(id, '.', dot + 1));
        if (tld == "com"@ || tld == "net"@ || tld == "org"@ || tld == "io"@) && vendor.len() > 0
            && vendor != "apple"@ {
            Some(hyphens_to_spaces(vendor))
        } else {
            None
        }
    } else {
        None
    }
}

/// Extracts the vendor segment from a reverse-DNS bundle identifier.
/// `com.plugin-alliance.vst3.amek` names `plugin alliance`.
pub fn extract_vendor_from_bundle_id(id: &str) -> (out: Option<String>)
    ensures
        opt_text(out) == bundle_id_vendor(id@),
{
    let cs = chars_of(id);
    let all = cs.as_slice();
    let dot = index_from(all, '.', 0);
    if dot >= all.len() {
        return None;
    }
    let end = index_from(all, '.', dot + 1);
    let tld = text_of(slice_subrange(all, 0, dot));
    assert(tld@ =~= id@.take(dot as int));
    let part = slice_subrange(all, dot + 1, end);
    let vendor = text_of(part);
    let known = same_text(tld.as_str(), "com") || same_text(tld.as_str(), "net") || same_text(
        tld.as_str(),
        "org",
    ) || same_text(tld.as_str(), "io");
    if known && part.len() > 0 && !same_text(vendor.as_str(), "apple") {
        let mut out = String::new();
        for i in 0..part.len()
            invariant
                out@ == hyphens_to_spaces(part@).take(i as int),
        {
            let c = if part[i] == '-' {
                ' '
            } else {
                part[i]
            };
            out.push(c);
            assert(hyphens_to_spaces(part@).take(i + 1) =~= hyphens_to_spaces(part@).take(
                i as int,
            ).push(c));
        }
        assert(hyphens_to_spaces(part@).take(part@.len() as int) =~= hyphens_to_spaces(part@));
        Some(out)
    } else {
        None
    }
}

// ---------------------------------------------------------------------------
// Info.plist
// ---------------------------------------------------------------------------

/// The name, the version and the vendor that the root of an `Info.plist` gives.
pub open spec fn plist_fields(root: PlistModel) -> (
    Option<Seq<char>>,
    Option<Seq<char>>,
    Option<Seq<char>>,
) {
    let by_copyright = match as_text(entry(root, "CFBundleGetInfoString"@)) {
        Some(s) => copyright_vendor(s),
        None => None,
    };
    let by_id = match as_text(entry(root, "CFBundleIdentifier"@)) {
        Some(s) => bundle_id_vendor(s),
        None => None,
    };
    (
        as_text(entry(root, "CFBundleName"@)),
        as_text(entry(root, "CFBundleShortVersionString"@)),
        if by_copyright is Some {
            by_copyright
        } else {
            by_id
        },
    )
}

/// The name, the version and the vendor that the bytes of an `Info.plist` give.
pub open spec fn info_plist_fields(info: Option<Vec<u8>>) -> (
    Option<Seq<char>>,
    Option<Seq<char>>,
    Option<Seq<char>>,
) {
    match info {
        Some(bytes) => match plist_document(bytes@) {
            Ok(root) => plist_fields(root),
            Err(_) => (None, None, None),
        },
        None => (None, None, None),
    }
}

/// The text of an entry of a property list.
fn entry_text(root: &PlistNode, key: &str) -> (out: Option<String>)
    ensures
        opt_text(out) == as_text(entry(root.model(), key@)),
{
    match root.get_text(key) {
        Some(s) => Some(s.to_owned()),
        None => None,
    }
}

/// The name, the version and the vendor that the root of an `Info.plist` gives.
pub fn info_from_root(root: &PlistNode) -> (out: (Option<String>, Option<String>, Option<String>))
    ensures
        (opt_text(out.0), opt_text(out.1), opt_text(out.2)) == plist_fields(root.model()),
{
    let name = entry_text(root, "CFBundleName");
    let version = entry_text(root, "CFBundleShortVersionString");
    let by_copyright = match root.get_text("CFBundleGetInfoString") {
        Some(s) => extract_vendor_from_copyright(s),
        None => None,
    };
    let by_id = match root.get_text("CFBundleIdentifier") {
        Some(s) => extract_vendor_from_bundle_id(s),
        None => None,
    };
    (name, version, first_of(by_copyright, by_id))
}

/// Returns (name, version, vendor) from the bytes of an Info.plist.
/// All fields are best-effort: parse failures return None rather than errors.
pub fn read_info_plist(info: &Option<Vec<u8>>) -> (out: (
    Option<String>,
    Option<String>,
    Option<String>,
))
    ensures
        (opt_text(out.0), opt_text(out.1), opt_text(out.2)) == info_plist_fields(*info),
{
    match info {
        Some(bytes) => match parse_plist(bytes.as_slice()) {
            Ok(root) => info_from_root(&root),
            Err(_) => (None, None, None),
        },
        None => (None, None, None),
    }
}

// ---------------------------------------------------------------------------
// VST3
// ---------------------------------------------------------------------------

/// The first of two values that is present.
pub open spec fn either(a: Option<Seq<char>>, b: Option<Seq<char>>) -> Option<Seq<char>> {
    if a is Some {
        a
    } else {
        b
    }
}

/// `s`, or `default`.
pub open spec fn or_text(s: Option<Seq<char>>, default: Seq<char>) -> Seq<char> {
    match s {
        Some(t) => t,
        None => default,
    }
}

/// The category that a list of sub-categories gives.
pub open spec fn joined_categories(list: Option<Vec<String>>) -> Option<Seq<char>> {
    match list {
        Some(sc) => if sc@.len() > 0 {
            Some(join(texts(sc@), "|"@))
        } else {
            None
        },
        None => None,
    }
}

/// The record that a `moduleinfo.json` gives: that of its first class, else of
/// the module, else of the bundle.
pub open spec fn moduleinfo_plugin(info: ModuleInfo, n: FsModel) -> PluginModel {
    let first = info.classes@.len() > 0;
    let class = info.classes@[0];
    PluginModel {
        name: or_text(
            either(
                if first {
                    opt_text(class.name)
                } else {
                    None
                },
                opt_text(info.name),
            ),
            n.stem,
        ),
        vendor: either(
            if first {
                opt_text(class.vendor)
            } else {
                None
            },
            opt_text(info.vendor),
        ),
        version: either(
            if first {
                opt_text(class.version)
            } else {
                None
            },
            opt_text(info.version),
        ),
        category: if first {
            joined_categories(class.sub_categories)
        } else {
            None
        },
        class_id: if first {
            opt_text(class.cid)
        } else {
            None
        },
        path: n.path,
        format: PluginFormat::Vst3,
        file_mtime: n.mtime,
    }
}

/// The record that an `Info.plist`, or else the name of the bundle, gives.
pub open spec fn plist_plugin(n: FsModel, format: PluginFormat) -> PluginModel {
    let info = info_plist_fields(n.facts.info_plist);
    PluginModel {
        name: or_text(info.0, n.stem),
        vendor: info.2,
        version: info.1,
        category: None,
        class_id: None,
        path: n.path,
        format,
        file_mtime: n.mtime,
    }
}

/// The record of a VST3 bundle.
pub open spec fn vst3_plugin(n: FsModel) -> PluginModel {
    match n.facts.module_info {
        Some(info) => moduleinfo_plugin(info, n),
        None => plist_plugin(n, PluginFormat::Vst3),
    }
}

/// The first of two optional texts, copied.
fn either_text(a: &Option<String>, b: &Option<String>) -> (out: Option<String>)
    ensures
        opt_text(out) == either(opt_text(*a), opt_text(*b)),
{
    match a {
        Some(s) => Some(s.clone()),
        None => crate::text::copy_opt(b),
    }
}

/// The record that a `moduleinfo.json` gives.
pub fn parse_from_moduleinfo(info: &ModuleInfo, bundle: &FsNode) -> (out: ScannedPlugin)
    ensures
        out@ == moduleinfo_plugin(*info, bundle.model()),
{
    let none: Option<String> = None;
    if info.classes.len() > 0 {
        let class = &info.classes[0];
        let name = match either_text(&class.name, &info.name) {
            Some(n) => n,
            None => bundle.stem.clone(),
        };
        let category = match &class.sub_categories {
            Some(sc) => if sc.len() > 0 {
                Some(joined(sc.as_slice(), "|"))
            } else {
                None
            },
            None => None,
        };
        ScannedPlugin {
            name,
            vendor: either_text(&class.vendor, &info.vendor),
            version: either_text(&class.version, &info.version),
            category,
            class_id: crate::text::copy_opt(&class.cid),
            path: bundle.path.clone(),
            format: PluginFormat::Vst3,
            file_mtime: bundle.mtime,
        }
    } else {
        let name = match &info.name {
            Some(n) => n.clone(),
            None => bundle.stem.clone(),
        };
        ScannedPlugin {
            name,
            vendor: either_text(&none, &info.vendor),
            version: either_text(&none, &info.version),
            category: None,
            class_id: None,
            path: bundle.path.clone(),
            format: PluginFormat::Vst3,
            file_mtime: bundle.mtime,
        }
    }
}

/// The record that an `Info.plist`, or else the name of the bundle, gives.
pub fn plugin_from_plist(bundle: &FsNode, format: PluginFormat) -> (out: ScannedPlugin)
    ensures
        out@ == plist_plugin(bundle.model(), format),
{
    let (plist_name, version, vendor) = read_info_plist(&bundle.facts.info_plist);
    let name = match plist_name {
        Some(n) => n,
        None => bundle.stem.clone(),
    };
    ScannedPlugin {
        name,
        vendor,
        version,
        category: None,
        class_id: None,
        path: bundle.path.clone(),
        format,
        file_mtime: bundle.mtime,
    }
}

/// The record of a VST3 bundle: from `moduleinfo.json`, else from `Info.plist`,
/// with the bundle's filename as last resort.
pub fn parse_vst3_bundle(bundle: &FsNode) -> (out: ScannedPlugin)
    ensures
        out@ == vst3_plugin(bundle.model()),
{
    match &bundle.facts.module_info {
        Some(info) => parse_from_moduleinfo(info, bundle),
        None => plugin_from_plist(bundle, PluginFormat::Vst3),
    }
}

/// What a scan of VST3 folders brings.
#[verifier::ext_equal]
pub struct ScanModel {
    pub plugins: Seq<PluginModel>,
    pub skipped: nat,
    pub errors: Seq<ScanErrorModel>,
}

/// What one scan and another bring.
pub open spec fn scan_sum(a: ScanModel, b: ScanModel) -> ScanModel {
    ScanModel {
        plugins: a.plugins + b.plugins,
        skipped: a.skipped + b.skipped,
        errors: a.errors + b.errors,
    }
}

/// A scan that brings nothing.
pub open spec fn scan_nothing() -> ScanModel {
    ScanModel { plugins: Seq::empty(), skipped: 0, errors: Seq::empty() }
}

/// What one entry of a folder brings: the record of a bundle unless it is known
/// and unchanged; what a folder holds; from another file nothing.
pub open spec fn vst3_entry(n: FsModel, known: Map<Seq<char>, i64>) -> ScanModel
    decreases n, 1int,
{
    if has_extension(n, "vst3"@) {
        if is_unchanged(known, n.path, n.mtime) {
            ScanModel { plugins: Seq::empty(), skipped: 1, errors: Seq::empty() }
        } else {
            ScanModel { plugins: seq![vst3_plugin(n)], skipped: 0, errors: Seq::empty() }
        }
    } else if n.is_dir {
        vst3_folder(n, known)
    } else {
        scan_nothing()
    }
}

/// What a folder brings: its entries, or why they cannot be listed.
pub open spec fn vst3_folder(n: FsModel, known: Map<Seq<char>, i64>) -> ScanModel
    decreases n, 0int,
{
    match n.unreadable {
        Some(e) => ScanModel {
            plugins: Seq::empty(),
            skipped: 0,
            errors: seq![ScanErrorModel::Io { path: n.path, source: e }],
        },
        None => vst3_entries(n.entries, known),
    }
}

/// What the entries of a list bring, in order.
pub open spec fn vst3_entries(list: Seq<FsModel>, known: Map<Seq<char>, i64>) -> ScanModel
    decreases list, 0int,
{
    if list.len() == 0 {
        scan_nothing()
    } else {
        scan_sum(vst3_entries(list.drop_last(), known), vst3_entry(list.last(), known))
    }
}

/// What the first `k` roots bring. One that does not exist brings nothing.
pub open spec fn vst3_roots(roots: Seq<FsModel>, known: Map<Seq<char>, i64>) -> ScanModel
    decreases roots.len(),
{
    if roots.len() == 0 {
        scan_nothing()
    } else {
        let before = vst3_roots(roots.drop_last(), known);
        if roots.last().exists {
            scan_sum(before, vst3_folder(roots.last(), known))
        } else {
            before
        }
    }
}

/// What a scan has brought so far.
pub struct Scan {
    pub plugins: Vec<ScannedPlugin>,
    /// The paths of the bundles that were skipped.
    pub skipped: Vec<String>,
    pub errors: Vec<ScanError>,
}

impl View for Scan {
    type V = ScanModel;

    open spec fn view(&self) -> ScanModel {
        ScanModel {
            plugins: plugin_models(self.plugins@),
            skipped: self.skipped@.len(),
            errors: error_models(self.errors@),
        }
    }
}

impl Scan {
    /// A scan that brings nothing.
    pub fn new() -> (out: Scan)
        ensures
            out@ == scan_nothing(),
    {
        let out = Scan { plugins: Vec::new(), skipped: Vec::new(), errors: Vec::new() };
        assert(out@ =~= scan_nothing());
        out
    }

    /// Adds a record.
    pub fn found(&mut self, plugin: ScannedPlugin)
        ensures
            final(self)@ == (ScanModel { plugins: old(self)@.plugins.push(plugin@), ..old(self)@ }),
    {
        let ghost before = self@;
        self.plugins.push(plugin);
        assert(self@.plugins =~= before.plugins.push(plugin@));
    }

    /// Counts a bundle that was skipped.
    pub fn skip(&mut self, path: String)
        ensures
            final(self)@ == (ScanModel { skipped: old(self)@.skipped + 1, ..old(self)@ }),
    {
        self.skipped.push(path);
    }

    /// Adds an error.
    pub fn failed(&mut self, error: ScanError)
        ensures
            final(self)@ == (ScanModel { errors: old(self)@.errors.push(error@), ..old(self)@ }),
    {
        let ghost before = self@;
        self.errors.push(error);
        assert(self@.errors =~= before.errors.push(error@));
    }
}

/// Adds what one entry of a folder brings.
fn scan_entry(n: &FsNode, known: &KnownMtimes, scan: &mut Scan)
    ensures
        final(scan)@ == scan_sum(old(scan)@, vst3_entry(n.model(), known@)),
    decreases n.model(), 1nat,
{
    let ghost before = scan@;
    if n.has_ext("vst3") {
        if bundle_unchanged(known, n.path.as_str(), n.mtime) {
            scan.skip(n.path.clone());
            assert(scan@ =~= scan_sum(before, vst3_entry(n.model(), known@)));
        } else {
            scan.found(parse_vst3_bundle(n));
            assert(scan@ =~= scan_sum(before, vst3_entry(n.model(), known@)));
        }
    } else if n.is_dir {
        // Vendors often nest plugins one level deep.
        collect_bundles(n, known, scan);
    } else {
        assert(scan@ =~= scan_sum(before, scan_nothing()));
    }
}

/// Adds what a folder brings.
pub fn collect_bundles(dir: &FsNode, known: &KnownMtimes, scan: &mut Scan)
    ensures
        final(scan)@ == scan_sum(old(scan)@, vst3_folder(dir.model(), known@)),
    decreases dir.model(), 0nat,
{
    let ghost before = scan@;
    if let Some(e) = &dir.unreadable {
        scan.failed(ScanError::Io { path: dir.path.clone(), source: e.clone() });
        assert(scan@ =~= scan_sum(before, vst3_folder(dir.model(), known@)));
        return ;
    }
    let ghost m = dir.model();
    assert(scan@ =~= scan_sum(before, vst3_entries(m.entries.take(0), known@)));
    for i in 0..dir.entries.len()
        invariant
            m == dir.model(),
            scan@ == scan_sum(before, vst3_entries(m.entries.take(i as int), known@)),
    {
        let ghost part = vst3_entries(m.entries.take(i as int), known@);
        proof {
            assert(m.entries[i as int] == dir.entries@[i as int].model());
            let next = m.entries.take(i + 1);
            assert(next.drop_last() =~= m.entries.take(i as int));
            assert(next.last() == dir.entries@[i as int].model());
            assert(decreases_to!(m => m.entries));
            assert(decreases_to!(m.entries => m.entries[i as int]));
        }
        scan_entry(&dir.entries[i], known, scan);
        assert(scan@ =~= scan_sum(
            before,
            scan_sum(part, vst3_entry(m.entries[i as int], known@)),
        ));
    }
    assert(m.entries.take(m.entries.len() as int) =~= m.entries);
}

/// Walk the roots, find every `.vst3` bundle, parse metadata.
///
/// Bundles that are known with their present modification time are skipped.
/// Returns `(plugins, skipped, errors)`.
pub fn scan_vst3(roots: &Vec<FsNode>, known: &KnownMtimes) -> (out: (
    Vec<ScannedPlugin>,
    usize,
    Vec<ScanError>,
))
    ensures
        plugin_models(out.0@) == vst3_roots(fs_models(roots@), known@).plugins,
        out.1 == vst3_roots(fs_models(roots@), known@).skipped,
        error_models(out.2@) == vst3_roots(fs_models(roots@), known@).errors,
{
    let ghost all = fs_models(roots@);
    let mut scan = Scan::new();
    for i in 0..roots.len()
        invariant
            all == fs_models(roots@),
            scan@ == vst3_roots(all.take(i as int), known@),
    {
        proof {
            let next = all.take(i + 1);
            assert(next.drop_last() =~= all.take(i as int));
            assert(next.last() == roots@[i as int].model());
        }
        if roots[i].exists {
            collect_bundles(&roots[i], known, &mut scan);
        }
    }
    assert(all.take(all.len() as int) =~= all);
    (scan.plugins, scan.skipped.len(), scan.errors)
}

// ---------------------------------------------------------------------------
// Walks for other formats
// ---------------------------------------------------------------------------

/// The formats whose bundles a walk looks for.
#[derive(Debug, Clone, Copy, PartialEq, Eq, Structural)]
pub enum WalkFormat {
    Vst3,
    Clap,
    Vst2,
}

/// Whether a file or directory is a bundle of the format on the platform.
pub open spec fn is_bundle(n: FsModel, format: WalkFormat, platform: Platform) -> bool {
    match (format, platform) {
        (WalkFormat::Vst3, _) => has_extension(n, "vst3"@),
        (WalkFormat::Clap, Platform::MacOs) => has_extension(n, "clap"@) && n.is_dir,
        (WalkFormat::Clap, _) => has_extension(n, "clap"@) && n.is_file,
        (WalkFormat::Vst2, Platform::MacOs) => has_extension(n, "vst"@) && n.is_dir,
        (WalkFormat::Vst2, Platform::Windows) => has_extension(n, "dll"@) && n.is_file,
        (WalkFormat::Vst2, Platform::Other) => false,
    }
}

/// The bundles at or below an entry, each in its place.
pub open spec fn bundles_at(n: FsModel, format: WalkFormat, platform: Platform) -> Seq<FsModel>
    decreases n, 1int,
{
    if is_bundle(n, format, platform) {
        seq![n]
    } else if n.is_dir {
        bundles_below(n, format, platform)
    } else {
        Seq::empty()
    }
}

/// The bundles below a folder. One that cannot be listed has none.
pub open spec fn bundles_below(n: FsModel, format: WalkFormat, platform: Platform) -> Seq<FsModel>
    decreases n, 0int,
{
    if n.unreadable is Some {
        Seq::empty()
    } else {
        bundles_in(n.entries, format, platform)
    }
}

/// The bundles at or below the entries of a list, in order.
pub open spec fn bundles_in(list: Seq<FsModel>, format: WalkFormat, platform: Platform) -> Seq<
    FsModel,
>
    decreases list, 0int,
{
    if list.len() == 0 {
        Seq::empty()
    } else {
        bundles_in(list.drop_last(), format, platform) + bundles_at(list.last(), format, platform)
    }
}

/// The bundles below the roots that exist, in order.
pub open spec fn walk(roots: Seq<FsModel>, format: WalkFormat, platform: Platform) -> Seq<FsModel>
    decreases roots.len(),
{
    if roots.len() == 0 {
        Seq::empty()
    } else {
        let before = walk(roots.drop_last(), format, platform);
        if roots.last().exists {
            before + bundles_below(roots.last(), format, platform)
        } else {
            before
        }
    }
}

/// The paths of the nodes of a list.
pub open spec fn paths_of(list: Seq<FsModel>) -> Seq<Seq<char>> {
    list.map_values(|n: FsModel| n.path)
}

/// Whether a file or directory is a bundle of the format on the platform.
pub fn is_entry(n: &FsNode, format: WalkFormat, platform: Platform) -> (yes: bool)
    ensures
        yes == is_bundle(n.model(), format, platform),
{
    match (format, platform) {
        (WalkFormat::Vst3, _) => n.has_ext("vst3"),
        (WalkFormat::Clap, Platform::MacOs) => n.has_ext("clap") && n.is_dir,
        (WalkFormat::Clap, _) => n.has_ext("clap") && n.is_file,
        (WalkFormat::Vst2, Platform::MacOs) => n.has_ext("vst") && n.is_dir,
        (WalkFormat::Vst2, Platform::Windows) => n.has_ext("dll") && n.is_file,
        (WalkFormat::Vst2, Platform::Other) => false,
    }
}

/// Adds the bundles below a folder.
fn collect<'a>(dir: &'a FsNode, format: WalkFormat, platform: Platform, out: &mut Vec<&'a FsNode>)
    ensures
        ref_models(final(out)@) == ref_models(old(out)@) + bundles_below(
            dir.model(),
            format,
            platform,
        ),
    decreases dir.model(),
{
    let ghost start = ref_models(out@);
    if dir.unreadable.is_some() {
        assert(start + bundles_below(dir.model(), format, platform) =~= start);
        return ;
    }
    let ghost m = dir.model();
    assert(start + bundles_in(m.entries.take(0), format, platform) =~= start);
    for i in 0..dir.entries.len()
        invariant
            m == dir.model(),
            ref_models(out@) == start + bundles_in(m.entries.take(i as int), format, platform),
    {
        let n = &dir.entries[i];
        let ghost before = ref_models(out@);
        let ghost next = m.entries.take(i + 1);
        proof {
            assert(m.entries[i as int] == n.model());
            assert(next.drop_last() =~= m.entries.take(i as int));
            assert(next.last() == n.model());
            assert(decreases_to!(m => m.entries));
            assert(decreases_to!(m.entries => m.entries[i as int]));
        }
        if is_entry(n, format, platform) {
            out.push(n);
            assert(ref_models(out@) =~= before + seq![n.model()]);
        } else if n.is_dir {
            collect(n, format, platform, out);
        } else {
            assert(ref_models(out@) =~= before + Seq::<FsModel>::empty());
        }
        let ghost added = bundles_at(n.model(), format, platform);
        assert(ref_models(out@) == before + added);
        assert(bundles_in(next, format, platform) == bundles_in(next.drop_last(), format, platform)
            + added);
        assert(ref_models(out@) =~= start + bundles_in(next, format, platform));
    }
    assert(m.entries.take(m.entries.len() as int) =~= m.entries);
}

/// The bundles below the roots that exist, in order.
pub fn walk_bundles<'a>(roots: &'a Vec<FsNode>, format: WalkFormat, platform: Platform) -> (out: Vec<
    &'a FsNode,
>)
    ensures
        ref_models(out@) == walk(fs_models(roots@), format, platform),
{
    let ghost all = fs_models(roots@);
    let mut out: Vec<&'a FsNode> = Vec::new();
    assert(ref_models(out@) =~= walk(all.take(0), format, platform));
    for i in 0..roots.len()
        invariant
            all == fs_models(roots@),
            ref_models(out@) == walk(all.take(i as int), format, platform),
    {
        proof {
            let next = all.take(i + 1);
            assert(next.drop_last() =~= all.take(i as int));
            assert(next.last() == roots@[i as int].model());
        }
        if roots[i].exists {
            collect(&roots[i], format, platform, &mut out);
        }
    }
    assert(all.take(all.len() as int) =~= all);
    out
}

/// The paths of the bundles below the roots that exist, in order.
fn walk_paths(roots: &Vec<FsNode>, format: WalkFormat, platform: Platform) -> (out: Vec<String>)
    ensures
        texts(out@) == paths_of(walk(fs_models(roots@), format, platform)),
{
    let found = walk_bundles(roots, format, platform);
    let ghost all = walk(fs_models(roots@), format, platform);
    let mut out: Vec<String> = Vec::new();
    for i in 0..found.len()
        invariant
            all == ref_models(found@),
            texts(out@) == paths_of(all).take(i as int),
    {
        let ghost before = texts(out@);
        assert(all[i as int] == found@[i as int].model());
        out.push(found[i].path.clone());
        assert(texts(out@) =~= before.push(all[i as int].path));
        assert(paths_of(all).take(i + 1) =~= before.push(all[i as int].path));
    }
    assert(paths_of(all).take(all.len() as int) =~= paths_of(all));
    out
}

/// Walk the roots for `.clap` bundle entries without loading any plugin code.
pub fn walk_clap_bundles(roots: &Vec<FsNode>, platform: Platform) -> (out: Vec<String>)
    ensures
        texts(out@) == paths_of(walk(fs_models(roots@), WalkFormat::Clap, platform)),
{
    walk_paths(roots, WalkFormat::Clap, platform)
}

/// Walk the roots for `.vst` bundle directories (macOS) or `.dll` files (Windows)
/// without loading any plugin code. Useful for fast inventory.
pub fn walk_vst2_bundles(roots: &Vec<FsNode>, platform: Platform) -> (out: Vec<String>)
    ensures
        texts(out@) == paths_of(walk(fs_models(roots@), WalkFormat::Vst2, platform)),
{
    walk_paths(roots, WalkFormat::Vst2, platform)
}

// ---------------------------------------------------------------------------
// Audio Units
// ---------------------------------------------------------------------------

/// The Audio Units of the component registry. Only macOS has one; none is ever
/// skipped.
pub fn scan_au(platform: Platform, components: &Vec<au::RegistryComponent>) -> (out: (
    Vec<ScannedPlugin>,
    usize,
    Vec<ScanError>,
))
    ensures
        plugin_models(out.0@) == (if platform == Platform::MacOs {
            components@.map_values(|c: au::RegistryComponent| au::component_plugin(c))
        } else {
            Seq::empty()
        }),
        out.1 == 0,
        out.2@.len() == 0,
{
    if platform == Platform::MacOs {
        let (plugins, errors) = au::scan_au_registry(components);
        (plugins, 0, errors)
    } else {
        let plugins: Vec<ScannedPlugin> = Vec::new();
        assert(plugin_models(plugins@) =~= Seq::empty());
        (plugins, 0, Vec::new())
    }
}

// ---------------------------------------------------------------------------
// Probes
// ---------------------------------------------------------------------------

/// The folder of the running program.
pub struct ProgramFolder {
    /// The path of the folder, with a separator at its end.
    pub path: String,
    /// The names of the files in it.
    pub files: Vec<String>,
}

/// The path of the file with the given name in the folder of the program.
pub open spec fn sibling(folder: Option<ProgramFolder>, name: Seq<char>) -> Option<Seq<char>> {
    match folder {
        Some(f) => if texts(f.files@).contains(name) {
            Some(f.path@ + name)
        } else {
            None
        },
        None => None,
    }
}

/// The path of the file with the given name in the folder of the program.
fn find_sibling(folder: &Option<ProgramFolder>, name: &str) -> (out: Option<String>)
    ensures
        opt_text(out) == sibling(*folder, name@),
{
    let f = match folder {
        Some(f) => f,
        None => return None,
    };
    for i in 0..f.files.len()
        invariant
            *folder == Some(*f),
            forall|k: int| 0 <= k < i ==> texts(f.files@)[k] != name@,
    {
        assert(texts(f.files@)[i as int] == f.files@[i as int]@);
        if same_text(f.files[i].as_str(), name) {
            let mut out = f.path.clone();
            out.append(name);
            return Some(out);
        }
    }
    None
}

/// Locate the `patchbay-clap-probe` binary next to the running program.
pub fn find_clap_probe(folder: &Option<ProgramFolder>, platform: Platform) -> (out: Option<String>)
    ensures
        opt_text(out) == sibling(*folder, clap::probe_file(platform)),
{
    find_sibling(folder, clap::probe_name(platform))
}

/// Locate the `patchbay-vst2-probe` binary next to the running program.
pub fn find_vst2_probe(folder: &Option<ProgramFolder>, platform: Platform) -> (out: Option<String>)
    ensures
        opt_text(out) == sibling(*folder, vst2::probe_file(platform)),
{
    find_sibling(folder, vst2::probe_name(platform))
}

// ---------------------------------------------------------------------------
// Laws
// ---------------------------------------------------------------------------

/// What the VST3 bundles of a list bring. One that is known and unchanged is
/// skipped.
pub open spec fn vst3_scan(bundles: Seq<FsModel>, known: Map<Seq<char>, i64>) -> ScanModel
    decreases bundles.len(),
{
    if bundles.len() == 0 {
        scan_nothing()
    } else {
        let before = vst3_scan(bundles.drop_last(), known);
        let n = bundles.last();
        if is_unchanged(known, n.path, n.mtime) {
            ScanModel { skipped: before.skipped + 1, ..before }
        } else {
            ScanModel { plugins: before.plugins.push(vst3_plugin(n)), ..before }
        }
    }
}

/// The bundles of two lists bring what each list brings.
proof fn lemma_vst3_scan_add(a: Seq<FsModel>, b: Seq<FsModel>, known: Map<Seq<char>, i64>)
    ensures
        vst3_scan(a + b, known) == scan_sum(vst3_scan(a, known), vst3_scan(b, known)),
    decreases b.len(),
{
    if b.len() == 0 {
        assert(a + b =~= a);
        assert(scan_sum(vst3_scan(a, known), scan_nothing()) =~= vst3_scan(a, known));
    } else {
        assert((a + b).drop_last() =~= a + b.drop_last());
        lemma_vst3_scan_add(a, b.drop_last(), known);
        assert(vst3_scan(a + b, known) =~= scan_sum(vst3_scan(a, known), vst3_scan(b, known)));
    }
}

/// What an entry brings is what the bundles at or below it bring.
proof fn lemma_vst3_entry(n: FsModel, known: Map<Seq<char>, i64>, platform: Platform)
    ensures
        vst3_entry(n, known).plugins == vst3_scan(
            bundles_at(n, WalkFormat::Vst3, platform),
            known,
        ).plugins,
        vst3_entry(n, known).skipped == vst3_scan(
            bundles_at(n, WalkFormat::Vst3, platform),
            known,
        ).skipped,
    decreases n, 1int,
{
    if has_extension(n, "vst3"@) {
        let one = seq![n];
        assert(one.drop_last() =~= Seq::<FsModel>::empty());
        assert(vst3_scan(one.drop_last(), known) == scan_nothing());
        assert(vst3_scan(one, known).plugins =~= vst3_entry(n, known).plugins);
    } else if n.is_dir {
        lemma_vst3_folder(n, known, platform);
    }
}

/// What a folder brings is what the bundles below it bring.
proof fn lemma_vst3_folder(n: FsModel, known: Map<Seq<char>, i64>, platform: Platform)
    ensures
        vst3_folder(n, known).plugins == vst3_scan(
            bundles_below(n, WalkFormat::Vst3, platform),
            known,
        ).plugins,
        vst3_folder(n, known).skipped == vst3_scan(
            bundles_below(n, WalkFormat::Vst3, platform),
            known,
        ).skipped,
    decreases n, 0int,
{
    if n.unreadable is None {
        assert(decreases_to!(n => n.entries));
        lemma_vst3_entries(n.entries, known, platform);
    }
}

/// What the entries of a list bring is what the bundles at or below them bring.
proof fn lemma_vst3_entries(list: Seq<FsModel>, known: Map<Seq<char>, i64>, platform: Platform)
    ensures
        vst3_entries(list, known).plugins == vst3_scan(
            bundles_in(list, WalkFormat::Vst3, platform),
            known,
        ).plugins,
        vst3_entries(list, known).skipped == vst3_scan(
            bundles_in(list, WalkFormat::Vst3, platform),
            known,
        ).skipped,
    decreases list, 0int,
{
    if list.len() > 0 {
        assert(decreases_to!(list => list[list.len() - 1]));
        lemma_vst3_entries(list.drop_last(), known, platform);
        lemma_vst3_entry(list.last(), known, platform);
        lemma_vst3_scan_add(
            bundles_in(list.drop_last(), WalkFormat::Vst3, platform),
            bundles_at(list.last(), WalkFormat::Vst3, platform),
            known,
        );
    }
}

/// A VST3 scan brings the record of each bundle that the walk finds, in its
/// order, but for those that are known and unchanged, which it counts.
pub proof fn law_vst3_scan_is_walk(
    roots: Seq<FsModel>,
    known: Map<Seq<char>, i64>,
    platform: Platform,
)
    ensures
        vst3_roots(roots, known).plugins == vst3_scan(
            walk(roots, WalkFormat::Vst3, platform),
            known,
        ).plugins,
        vst3_roots(roots, known).skipped == vst3_scan(
            walk(roots, WalkFormat::Vst3, platform),
            known,
        ).skipped,
    decreases roots.len(),
{
    if roots.len() > 0 {
        law_vst3_scan_is_walk(roots.drop_last(), known, platform);
        if roots.last().exists {
            lemma_vst3_folder(roots.last(), known, platform);
            lemma_vst3_scan_add(
                walk(roots.drop_last(), WalkFormat::Vst3, platform),
                bundles_below(roots.last(), WalkFormat::Vst3, platform),
                known,
            );
        }
    }
}

/// Every bundle is either recorded once or counted as skipped.
pub proof fn law_vst3_all_accounted(bundles: Seq<FsModel>, known: Map<Seq<char>, i64>)
    ensures
        vst3_scan(bundles, known).plugins.len() + vst3_scan(bundles, known).skipped
            == bundles.len(),
    decreases bundles.len(),
{
    if bundles.len() > 0 {
        law_vst3_all_accounted(bundles.drop_last(), known);
    }
}

/// Bundles that are all known with their present modification time are all
/// skipped.
pub proof fn law_vst3_unchanged_skipped(bundles: Seq<FsModel>, known: Map<Seq<char>, i64>)
    requires
        forall|i: int|
            0 <= i < bundles.len() ==> is_unchanged(
                known,
                (#[trigger] bundles[i]).path,
                bundles[i].mtime,
            ),
    ensures
        vst3_scan(bundles, known).plugins.len() == 0,
        vst3_scan(bundles, known).skipped == bundles.len(),
    decreases bundles.len(),
{
    if bundles.len() > 0 {
        assert forall|i: int| 0 <= i < bundles.drop_last().len() implies is_unchanged(
            known,
            (#[trigger] bundles.drop_last()[i]).path,
            bundles.drop_last()[i].mtime,
        ) by {
            assert(bundles.drop_last()[i] == bundles[i]);
        }
        assert(bundles.last() == bundles[bundles.len() - 1]);
        law_vst3_unchanged_skipped(bundles.drop_last(), known);
    }
}

/// Whether all nodes of a list are bundles of the format on the platform.
pub open spec fn all_bundles(list: Seq<FsModel>, format: WalkFormat, platform: Platform) -> bool {
    forall|i: int| 0 <= i < list.len() ==> is_bundle(#[trigger] list[i], format, platform)
}

/// Two lists of bundles make a list of bundles.
proof fn lemma_all_bundles_add(
    a: Seq<FsModel>,
    b: Seq<FsModel>,
    format: WalkFormat,
    platform: Platform,
)
    requires
        all_bundles(a, format, platform),
        all_bundles(b, format, platform),
    ensures
        all_bundles(a + b, format, platform),
{
    assert forall|i: int| 0 <= i < (a + b).len() implies is_bundle(
        #[trigger] (a + b)[i],
        format,
        platform,
    ) by {
        if i < a.len() {
            assert((a + b)[i] == a[i]);
        } else {
            assert((a + b)[i] == b[i - a.len()]);
        }
    }
}

/// A walk finds bundles of its format and nothing else.
pub proof fn law_walk_finds_bundles(roots: Seq<FsModel>, format: WalkFormat, platform: Platform)
    ensures
        all_bundles(walk(roots, format, platform), format, platform),
    decreases roots.len(),
{
    if roots.len() > 0 {
        law_walk_finds_bundles(roots.drop_last(), format, platform);
        lemma_below_are_bundles(roots.last(), format, platform);
        lemma_all_bundles_add(
            walk(roots.drop_last(), format, platform),
            bundles_below(roots.last(), format, platform),
            format,
            platform,
        );
    }
}

proof fn lemma_at_are_bundles(n: FsModel, format: WalkFormat, platform: Platform)
    ensures
        all_bundles(bundles_at(n, format, platform), format, platform),
    decreases n, 1int,
{
    if !is_bundle(n, format, platform) && n.is_dir {
        lemma_below_are_bundles(n, format, platform);
    }
}

proof fn lemma_below_are_bundles(n: FsModel, format: WalkFormat, platform: Platform)
    ensures
        all_bundles(bundles_below(n, format, platform), format, platform),
    decreases n, 0int,
{
    if n.unreadable is None {
        assert(decreases_to!(n => n.entries));
        lemma_in_are_bundles(n.entries, format, platform);
    }
}

proof fn lemma_in_are_bundles(list: Seq<FsModel>, format: WalkFormat, platform: Platform)
    ensures
        all_bundles(bundles_in(list, format, platform), format, platform),
    decreases list, 0int,
{
    if list.len() > 0 {
        assert(decreases_to!(list => list[list.len() - 1]));
        lemma_in_are_bundles(list.drop_last(), format, platform);
        lemma_at_are_bundles(list.last(), format, platform);
        lemma_all_bundles_add(
            bundles_in(list.drop_last(), format, platform),
            bundles_at(list.last(), format, platform),
            format,
            platform,
        );
    }
}

} // verus!
