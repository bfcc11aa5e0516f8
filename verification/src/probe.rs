//! What the plugin probes make of a bundle and of the answers that a plugin gives.
use vstd::prelude::*;

use crate::bytes::{until_zero, zero_from};
use crate::property_list::{as_text, entry, parse_plist, plist_document, PlistNode};
use crate::scanner::au::{code_in_hex, hex_text};
use crate::scanner::{ProbeDescriptor, ProbeOutput};
use crate::text::{chars_of, lossy, lossy_text, opt_text, text_of, texts, trim, trimmed};

verus! {

// ---------------------------------------------------------------------------
// The binary of a bundle
// ---------------------------------------------------------------------------

/// A path that may be the binary of a bundle, and whether a file is there.
#[derive(Debug)]
pub struct Candidate {
    pub path: String,
    pub is_file: bool,
}

/// What a bundle shows of its binary.
#[derive(Debug)]
pub struct BinaryFacts {
    /// `Contents/MacOS`.
    pub folder: String,
    /// The file named like the bundle, where the bundle has a name.
    pub by_stem: Option<Candidate>,
    /// The file that `Info.plist` names, where it names one.
    pub by_plist: Option<Candidate>,
    /// The first file of the folder, or why the folder cannot be read.
    pub first_file: Result<Option<String>, String>,
}

/// The path of a candidate that is there.
pub open spec fn candidate_path(c: Option<Candidate>) -> Option<Seq<char>> {
    match c {
        Some(c) => if c.is_file {
            Some(c.path@)
        } else {
            None
        },
        None => None,
    }
}

/// The binary of a bundle: the file named like the bundle, else the one that
/// `Info.plist` names, else the first file of the folder.
pub open spec fn binary_of(f: BinaryFacts) -> Result<Seq<char>, Seq<char>> {
    if let Some(path) = candidate_path(f.by_stem) {
        Ok(path)
    } else if let Some(path) = candidate_path(f.by_plist) {
        Ok(path)
    } else {
        match f.first_file {
            Ok(Some(path)) => Ok(path@),
            Ok(None) => Err("no binary found in "@ + f.folder@),
            Err(e) => Err("cannot read "@ + f.folder@ + ": "@ + e@),
        }
    }
}

/// The name of the binary that the root of an `Info.plist` gives.
pub fn executable_in(root: &PlistNode) -> (out: Option<String>)
    ensures
        opt_text(out) == as_text(entry(root.model(), "CFBundleExecutable"@)),
{
    match root.get_text("CFBundleExecutable") {
        Some(s) => Some(s.to_owned()),
        None => None,
    }
}

/// The name of the binary that the bytes of an `Info.plist` give. A file that is no
/// property list gives none.
pub fn executable_name(info_plist: &[u8]) -> (out: Option<String>)
    ensures
        opt_text(out) == match plist_document(info_plist@) {
            Ok(root) => as_text(entry(root, "CFBundleExecutable"@)),
            Err(_) => None,
        },
{
    match parse_plist(info_plist) {
        Ok(root) => executable_in(&root),
        Err(_) => None,
    }
}

/// Locates the binary of a bundle.
pub fn find_binary(facts: &BinaryFacts) -> (out: Result<String, String>)
    ensures
        match out {
            Ok(path) => binary_of(*facts) == Ok::<Seq<char>, Seq<char>>(path@),
            Err(e) => binary_of(*facts) == Err::<Seq<char>, Seq<char>>(e@),
        },
{
    if let Some(c) = &facts.by_stem {
        if c.is_file {
            return Ok(c.path.clone());
        }
    }
    if let Some(c) = &facts.by_plist {
        if c.is_file {
            return Ok(c.path.clone());
        }
    }
    match &facts.first_file {
        Ok(Some(path)) => Ok(path.clone()),
        Ok(None) => {
            let mut e = "no binary found in ".to_owned();
            e.append(facts.folder.as_str());
            Err(e)
        },
        Err(source) => {
            let mut e = "cannot read ".to_owned();
            e.append(facts.folder.as_str());
            e.append(": ");
            e.append(source.as_str());
            Err(e)
        },
    }
}

// ---------------------------------------------------------------------------
// Texts that a plugin hands out
// ---------------------------------------------------------------------------

/// The text without white space around it, where anything is left.
pub open spec fn trimmed_text(s: Seq<char>) -> Option<Seq<char>> {
    if trim(s).len() == 0 {
        None
    } else {
        Some(trim(s))
    }
}

/// The text that a string of bytes from a plugin gives, where it is there and not
/// blank.
pub open spec fn plugin_text(bytes: Option<Vec<u8>>) -> Option<Seq<char>> {
    match bytes {
        Some(b) => trimmed_text(lossy(b@)),
        None => None,
    }
}

/// The text that bytes give without white space around it, where anything is left.
fn text_in(bytes: &[u8]) -> (out: Option<String>)
    ensures
        opt_text(out) == trimmed_text(lossy(bytes@)),
{
    let all = lossy_text(bytes);
    let cs = chars_of(all.as_str());
    let inner = trimmed(cs.as_slice());
    if inner.len() == 0 {
        None
    } else {
        Some(text_of(inner))
    }
}

/// The text that a string of bytes from a plugin gives, where it is there and not
/// blank.
pub fn read_cstr(bytes: &Option<Vec<u8>>) -> (out: Option<String>)
    ensures
        opt_text(out) == plugin_text(*bytes),
{
    match bytes {
        Some(b) => text_in(b.as_slice()),
        None => None,
    }
}

/// The text that a plugin wrote into a buffer: up to the first zero byte, or the whole
/// buffer.
pub open spec fn buffer_text(buf: Seq<u8>) -> Option<Seq<char>> {
    trimmed_text(lossy(buf.take(zero_from(buf, 0))))
}

/// The text that a plugin wrote into a buffer, where it is not blank.
pub fn dispatch_string(buf: &[u8]) -> (out: Option<String>)
    ensures
        opt_text(out) == buffer_text(buf@),
{
    text_in(until_zero(buf))
}

// ---------------------------------------------------------------------------
// CLAP
// ---------------------------------------------------------------------------

/// A plugin descriptor as a CLAP bundle hands it out.
#[derive(Debug)]
pub struct RawDescriptor {
    pub id: Option<Vec<u8>>,
    pub name: Option<Vec<u8>>,
    pub vendor: Option<Vec<u8>>,
    pub version: Option<Vec<u8>>,
    pub features: Vec<Vec<u8>>,
}

/// The texts of feature names, as they are.
pub open spec fn feature_texts(list: Seq<Vec<u8>>) -> Seq<Seq<char>> {
    list.map_values(|f: Vec<u8>| lossy(f@))
}

/// What the probe reports of a descriptor. A descriptor without an id has an empty one.
pub fn probe_descriptor(raw: &RawDescriptor) -> (out: ProbeDescriptor)
    ensures
        opt_text(out.id) == Some(
            match plugin_text(raw.id) {
                Some(id) => id,
                None => Seq::empty(),
            },
        ),
        opt_text(out.name) == plugin_text(raw.name),
        opt_text(out.vendor) == plugin_text(raw.vendor),
        opt_text(out.version) == plugin_text(raw.version),
        texts(out.features@) == feature_texts(raw.features@),
{
    let id = match read_cstr(&raw.id) {
        Some(id) => id,
        None => String::new(),
    };
    let mut features: Vec<String> = Vec::new();
    let ghost all = feature_texts(raw.features@);
    assert(texts(features@) =~= all.take(0));
    for i in 0..raw.features.len()
        invariant
            all == feature_texts(raw.features@),
            texts(features@) == all.take(i as int),
    {
        let ghost before = texts(features@);
        features.push(lossy_text(raw.features[i].as_slice()));
        assert(texts(features@) =~= before.push(all[i as int]));
        assert(all.take(i + 1) =~= all.take(i as int).push(all[i as int]));
    }
    assert(all.take(all.len() as int) =~= all);
    ProbeDescriptor {
        id: Some(id),
        name: read_cstr(&raw.name),
        vendor: read_cstr(&raw.vendor),
        version: read_cstr(&raw.version),
        features,
    }
}

// ---------------------------------------------------------------------------
// VST2
// ---------------------------------------------------------------------------

/// Dispatcher codes of VST 2.4.
pub const EFF_OPEN: i32 = 0;

pub const EFF_CLOSE: i32 = 1;

pub const EFF_GET_PLUG_CATEGORY: i32 = 35;

pub const EFF_GET_EFFECT_NAME: i32 = 45;

pub const EFF_GET_VENDOR_STRING: i32 = 47;

/// The code with which a plugin asks for the version of the host.
pub const AUDIO_MASTER_VERSION: i32 = 6;

/// VST 2.4 as the host's version.
pub const VST_2_4_VERSION: isize = 2400;

/// The first four bytes of every plugin: `VstP`, the highest byte first.
pub const VST_MAGIC: u32 = 0x56737450;

/// The host's answer to a plugin: its version where that is asked, else zero.
pub fn audio_master(opcode: i32) -> (out: isize)
    ensures
        out == (if opcode == AUDIO_MASTER_VERSION {
            VST_2_4_VERSION
        } else {
            0isize
        }),
{
    if opcode == AUDIO_MASTER_VERSION {
        VST_2_4_VERSION
    } else {
        0
    }
}

/// Whether a plugin begins as every plugin does. What it begins with otherwise is said
/// in the error.
pub fn check_magic(magic: u32) -> (out: Result<(), String>)
    ensures
        match out {
            Ok(_) => magic == VST_MAGIC,
            Err(e) => magic != VST_MAGIC && e@ == "bad magic: "@ + hex_text(magic),
        },
{
    if magic == VST_MAGIC {
        Ok(())
    } else {
        let mut e = "bad magic: ".to_owned();
        e.append(code_in_hex(magic).as_str());
        Err(e)
    }
}

/// What the probe reports of a plugin: the name and the vendor that it wrote, where
/// they are not blank, and the category.
pub fn probe_output(name: &[u8], vendor: &[u8], category: i32) -> (out: ProbeOutput)
    ensures
        opt_text(out.name) == buffer_text(name@),
        opt_text(out.vendor) == buffer_text(vendor@),
        out.category == Some(category),
{
    ProbeOutput {
        name: dispatch_string(name),
        vendor: dispatch_string(vendor),
        category: Some(category),
    }
}

} // verus!
