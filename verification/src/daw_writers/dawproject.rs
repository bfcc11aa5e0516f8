//! Writer for DAWproject archives (`.dawproject`).
//!
//! DAWproject is an open ZIP-based format co-developed by Bitwig and PreSonus.
//! Both Bitwig Studio and Studio One import `.dawproject` natively.  We emit
//! a minimal single-track project wrapping the chain's devices; state blobs
//! are decoded from their stored base64 and written as binary files inside the
//! ZIP, then referenced via `<State path="..."/>` child elements.
use vstd::prelude::*;

use crate::archive::{
    add_to_zip, begin_zip, finish_zip, zip_add_error, zip_bytes, zip_entries, zip_finish_error,
    zip_text, ZipFailureModel,
};
use crate::base64::{b64_decode, decode};
use crate::daw_writers::identities;
use crate::db::{ChainDetail, ChainModel, ChainSlotRow, SlotModel};
use crate::json::{
    integer_member, member_integer_or, member_models, member_text_or, parse_object, text_or,
    FieldModel, JsonMember,
};
use crate::number::{
    decimal, decimal_text, lemma_decimal_digits, lemma_decimal_len, signed_decimal,
    signed_decimal_text,
};
use crate::text::{escape, join, joined, same_text, texts, xe};

verus! {

/// The document up to the name of the track.
pub const PROJECT_HEAD: &'static str = "<?xml version=\"1.0\" encoding=\"UTF-8\"?>\n<Project version=\"1.0\">\n  <Application name=\"Patchbay\" version=\"1.0.0\"/>\n  <Structure>\n    <Track contentType=\"audio\" id=\"t0\" name=\"";

/// The document between the name of the track and its devices.
pub const PROJECT_BODY: &'static str = "\">\n      <Channel audioChannels=\"2\" role=\"regular\" id=\"ch0\">\n        <Devices>\n";

/// The document behind the devices of the track.
pub const PROJECT_TAIL: &'static str = "\n        </Devices>\n      </Channel>\n    </Track>\n  </Structure>\n</Project>";

/// The bytes of the state of a slot, where it has one that is base64.
pub open spec fn state_bytes(slot: SlotModel) -> Option<Seq<u8>> {
    match slot.opaque_state {
        Some(s) => decode(s),
        None => None,
    }
}

/// The path of the state of slot `i` in the archive.
pub open spec fn state_path(i: int) -> Seq<char> {
    "plugins/state_"@ + decimal(i as nat) + ".bin"@
}

/// The reference of slot `i` to its state.
pub open spec fn state_element(slot: SlotModel, i: int) -> Seq<char> {
    if state_bytes(slot) is Some {
        "<State path=\""@ + state_path(i) + "\"/>\n"@
    } else {
        Seq::empty()
    }
}

/// The state files of the slots, in order.
pub open spec fn state_files(slots: Seq<SlotModel>) -> Seq<(Seq<char>, Seq<u8>)>
    decreases slots.len(),
{
    if slots.len() == 0 {
        Seq::empty()
    } else {
        let before = state_files(slots.drop_last());
        match state_bytes(slots.last()) {
            Some(bytes) => before.push((state_path(slots.len() - 1), bytes)),
            None => before,
        }
    }
}

/// The line that switches a device on or off.
pub open spec fn enabled_line(enabled: bool) -> Seq<char> {
    "<Enabled value=\""@ + (if enabled {
        "true"@
    } else {
        "false"@
    }) + "\"/>\n"@
}

/// The opening tag of the device that `id` identifies, and its name, where it is
/// a plugin.
pub open spec fn plugin_open(id: Seq<(Seq<char>, FieldModel)>) -> Option<(Seq<char>, Seq<char>)> {
    let name = escape(text_or(id, "name"@, "Unknown"@));
    let vendor = escape(text_or(id, "vendor"@, ""@));
    let format = text_or(id, "format"@, "Builtin"@);
    if format == "VST3"@ {
        Some(
            (
                "<Vst3Plugin deviceID=\""@ + escape(text_or(id, "device_id"@, ""@)) + "\" name=\""@
                    + name + "\" vendor=\""@ + vendor + "\">\n"@,
                "Vst3Plugin"@,
            ),
        )
    } else if format == "VST2"@ {
        let uid = match integer_member(id, "unique_id"@) {
            Some(n) => n,
            None => 0,
        };
        Some(
            (
                "<Vst2Plugin uniqueId=\""@ + signed_decimal(uid) + "\" name=\""@ + name
                    + "\" vendor=\""@ + vendor + "\">\n"@,
                "Vst2Plugin"@,
            ),
        )
    } else if format == "AU"@ {
        Some(
            (
                "<AuPlugin type=\""@ + escape(text_or(id, "type_code"@, ""@)) + "\" subType=\""@
                    + escape(text_or(id, "sub_type"@, ""@)) + "\" manufacturer=\""@ + escape(
                    text_or(id, "manufacturer"@, ""@),
                ) + "\" name=\""@ + name + "\">\n"@,
                "AuPlugin"@,
            ),
        )
    } else if format == "CLAP"@ {
        Some(
            (
                "<ClapPlugin id=\""@ + escape(text_or(id, "id"@, ""@)) + "\" name=\""@ + name
                    + "\" vendor=\""@ + vendor + "\">\n"@,
                "ClapPlugin"@,
            ),
        )
    } else {
        None
    }
}

/// The device of slot `i`, which `id` identifies.
pub open spec fn device_text(slot: SlotModel, id: Seq<(Seq<char>, FieldModel)>, i: int) -> Seq<
    char,
> {
    match plugin_open(id) {
        Some(p) => "          "@ + p.0 + enabled_line(!slot.bypass) + state_element(slot, i)
            + "</"@ + p.1 + ">"@,
        None => "          "@ + ("<Builtin name=\""@ + escape(text_or(id, "name"@, "Unknown"@))
            + "\">\n"@) + enabled_line(!slot.bypass) + state_element(slot, i) + "</Builtin>"@,
    }
}

/// The devices of the slots of a chain. `ids[i]` identifies that of slot `i`.
pub open spec fn device_texts(
    slots: Seq<SlotModel>,
    ids: Seq<Seq<(Seq<char>, FieldModel)>>,
) -> Seq<Seq<char>> {
    Seq::new(slots.len(), |i: int| device_text(slots[i], ids[i], i))
}

/// The text of `project.xml`. `ids[i]` identifies the device of slot `i`.
pub open spec fn project_xml(chain: ChainModel, ids: Seq<Seq<(Seq<char>, FieldModel)>>) -> Seq<
    char,
> {
    PROJECT_HEAD@ + escape(chain.name) + PROJECT_BODY@ + join(
        device_texts(chain.slots, ids),
        "\n"@,
    ) + PROJECT_TAIL@
}

/// What each file of a list is named and holds.
pub open spec fn file_models(list: Seq<(String, Vec<u8>)>) -> Seq<(Seq<char>, Seq<u8>)> {
    list.map_values(|f: (String, Vec<u8>)| (f.0@, f.1@))
}

/// If the slot has an opaque_state, decode it and register a state file.
/// Returns the `<State path="..."/>` child element string (with trailing
/// newline), or an empty string when there is no state.
pub fn state_child(slot: &ChainSlotRow, i: u64, files: &mut Vec<(String, Vec<u8>)>) -> (out: String)
    ensures
        out@ == state_element(slot@, i as int),
        file_models(final(files)@) == (match state_bytes(slot@) {
            Some(bytes) => file_models(old(files)@).push((state_path(i as int), bytes)),
            None => file_models(old(files)@),
        }),
{
    let state = match &slot.opaque_state {
        Some(s) => s,
        None => return String::new(),
    };
    let bytes = match b64_decode(state.as_str()) {
        Some(b) => b,
        None => return String::new(),
    };
    let mut path = "plugins/state_".to_owned();
    path.append(decimal_text(i).as_str());
    path.append(".bin");
    let mut out = "<State path=\"".to_owned();
    out.append(path.as_str());
    out.append("\"/>\n");
    let ghost before = file_models(files@);
    files.push((path, bytes));
    assert(file_models(files@) =~= before.push((path@, bytes@)));
    out
}

/// The opening tag of the device that `id` identifies, and its name, where it is
/// a plugin.
fn open_tag(id: &Vec<JsonMember>) -> (out: Option<(String, &'static str)>)
    ensures
        match out {
            Some(p) => plugin_open(member_models(id@)) == Some((p.0@, p.1@)),
            None => plugin_open(member_models(id@)) is None,
        },
{
    let name = xe(member_text_or(id, "name", "Unknown").as_str());
    let vendor = xe(member_text_or(id, "vendor", "").as_str());
    let format = member_text_or(id, "format", "Builtin");
    if same_text(format.as_str(), "VST3") {
        let mut out = "<Vst3Plugin deviceID=\"".to_owned();
        out.append(xe(member_text_or(id, "device_id", "").as_str()).as_str());
        out.append("\" name=\"");
        out.append(name.as_str());
        out.append("\" vendor=\"");
        out.append(vendor.as_str());
        out.append("\">\n");
        Some((out, "Vst3Plugin"))
    } else if same_text(format.as_str(), "VST2") {
        let mut out = "<Vst2Plugin uniqueId=\"".to_owned();
        let uid: i64 = member_integer_or(id, "unique_id", 0);
        out.append(signed_decimal_text(uid).as_str());
        out.append("\" name=\"");
        out.append(name.as_str());
        out.append("\" vendor=\"");
        out.append(vendor.as_str());
        out.append("\">\n");
        Some((out, "Vst2Plugin"))
    } else if same_text(format.as_str(), "AU") {
        let mut out = "<AuPlugin type=\"".to_owned();
        out.append(xe(member_text_or(id, "type_code", "").as_str()).as_str());
        out.append("\" subType=\"");
        out.append(xe(member_text_or(id, "sub_type", "").as_str()).as_str());
        out.append("\" manufacturer=\"");
        out.append(xe(member_text_or(id, "manufacturer", "").as_str()).as_str());
        out.append("\" name=\"");
        out.append(name.as_str());
        out.append("\">\n");
        Some((out, "AuPlugin"))
    } else if same_text(format.as_str(), "CLAP") {
        let mut out = "<ClapPlugin id=\"".to_owned();
        out.append(xe(member_text_or(id, "id", "").as_str()).as_str());
        out.append("\" name=\"");
        out.append(name.as_str());
        out.append("\" vendor=\"");
        out.append(vendor.as_str());
        out.append("\">\n");
        Some((out, "ClapPlugin"))
    } else {
        None
    }
}

/// The line that switches a device on or off.
fn enabled_text(enabled: bool) -> (out: String)
    ensures
        out@ == enabled_line(enabled),
{
    let mut out = "<Enabled value=\"".to_owned();
    out.append(
        if enabled {
            "true"
        } else {
            "false"
        },
    );
    out.append("\"/>\n");
    out
}

/// The device of slot `i`, which `id` identifies. Its state goes to `files`.
pub fn device_element(
    slot: &ChainSlotRow,
    id: &Vec<JsonMember>,
    i: u64,
    files: &mut Vec<(String, Vec<u8>)>,
) -> (out: String)
    ensures
        out@ == device_text(slot@, member_models(id@), i as int),
        file_models(final(files)@) == (match state_bytes(slot@) {
            Some(bytes) => file_models(old(files)@).push((state_path(i as int), bytes)),
            None => file_models(old(files)@),
        }),
{
    let state = state_child(slot, i, files);
    let enabled = enabled_text(!slot.bypass);
    let mut out = "          ".to_owned();
    match open_tag(id) {
        Some((head, tag)) => {
            out.append(head.as_str());
            out.append(enabled.as_str());
            out.append(state.as_str());
            out.append("</");
            out.append(tag);
            out.append(">");
        },
        None => {
            let name = xe(member_text_or(id, "name", "Unknown").as_str());
            let mut head = "<Builtin name=\"".to_owned();
            head.append(name.as_str());
            head.append("\">\n");
            out.append(head.as_str());
            out.append(enabled.as_str());
            out.append(state.as_str());
            out.append("</Builtin>");
        },
    }
    out
}

/// The text of `project.xml` for a chain. The states of its slots go to `files`.
pub fn build_project_xml(chain: &ChainDetail, files: &mut Vec<(String, Vec<u8>)>) -> (out: String)
    ensures
        out@ == project_xml(chain@, identities(chain@.slots)),
        file_models(final(files)@) == file_models(old(files)@) + state_files(chain@.slots),
{
    let ghost slots = chain@.slots;
    let ghost ids = identities(slots);
    let ghost start = file_models(files@);
    let mut devices: Vec<String> = Vec::new();
    assert(start =~= start + state_files(slots.take(0)));
    for i in 0..chain.slots.len()
        invariant
            slots == chain@.slots,
            ids == identities(slots),
            texts(devices@) == device_texts(slots, ids).take(i as int),
            file_models(files@) == start + state_files(slots.take(i as int)),
    {
        let ghost before = texts(devices@);
        let id = parse_object(chain.slots[i].plugin_identity.as_str());
        assert(slots[i as int] == chain.slots@[i as int]@);
        let device = device_element(&chain.slots[i], &id, i as u64, files);
        devices.push(device);
        proof {
            assert(texts(devices@) =~= before.push(device@));
            assert(device_texts(slots, ids).take(i + 1) =~= before.push(device@));
            let next = slots.take(i + 1);
            assert(next.drop_last() =~= slots.take(i as int));
            assert(next.last() == slots[i as int]);
            assert(file_models(files@) =~= start + state_files(next));
        }
    }
    assert(slots.take(slots.len() as int) =~= slots);
    assert(device_texts(slots, ids).take(slots.len() as int) =~= device_texts(slots, ids));
    let mut out = PROJECT_HEAD.to_owned();
    out.append(xe(chain.name.as_str()).as_str());
    out.append(PROJECT_BODY);
    out.append(joined(devices.as_slice(), "\n").as_str());
    out.append(PROJECT_TAIL);
    out
}

/// The path of a state is short and ASCII.
pub proof fn lemma_state_path(i: u64)
    ensures
        vstd::utf8::is_ascii_chars(state_path(i as int)),
        vstd::utf8::encode_utf8(state_path(i as int)).len() <= 65535,
{
    reveal_strlit("plugins/state_");
    reveal_strlit(".bin");
    lemma_decimal_len(i);
    lemma_decimal_digits(i as nat);
    let p = state_path(i as int);
    assert forall|k: int| 0 <= k < p.len() implies 0 <= #[trigger] p[k] as nat <= 127 by {
        let n = decimal(i as nat).len() as int;
        if k < 14 {
            assert(p[k] == "plugins/state_"@[k]);
        } else if k < 14 + n {
            assert(p[k] == decimal(i as nat)[k - 14]);
        } else {
            assert(p[k] == ".bin"@[k - 14 - n]);
        }
    }
    vstd::utf8::is_ascii_chars_encode_utf8(p);
}

/// Each state file stands at the path of its slot.
proof fn lemma_state_files(slots: Seq<SlotModel>, k: int)
    requires
        0 <= k < state_files(slots).len(),
    ensures
        exists|i: int|
            #![trigger state_path(i)]
            0 <= i < slots.len() && state_files(slots)[k].0 == state_path(i),
    decreases slots.len(),
{
    if slots.len() > 0 {
        let before = state_files(slots.drop_last());
        if k < before.len() {
            lemma_state_files(slots.drop_last(), k);
        } else {
            assert(state_files(slots)[k].0 == state_path(slots.len() - 1));
        }
    }
}

/// Each slot with a state has its file.
proof fn lemma_state_file_of_slot(slots: Seq<SlotModel>, i: int)
    requires
        0 <= i < slots.len(),
        state_bytes(slots[i]) is Some,
    ensures
        state_files(slots).contains((state_path(i), state_bytes(slots[i])->0)),
    decreases slots.len(),
{
    let file = (state_path(i), state_bytes(slots[i])->0);
    let before = state_files(slots.drop_last());
    if i < slots.len() - 1 {
        lemma_state_file_of_slot(slots.drop_last(), i);
        let k = choose|k: int| 0 <= k < before.len() && before[k] == file;
        assert(state_files(slots)[k] == file);
    } else {
        assert(state_files(slots)[before.len() as int] == file);
    }
}

/// Whether an archive holds a chain: the text of the project, and the state of
/// each slot that has one, at its path.
pub open spec fn holds_chain(data: Seq<u8>, chain: ChainModel) -> bool {
    &&& zip_text(data, "project.xml"@) == Ok::<Seq<char>, ZipFailureModel>(
        project_xml(chain, identities(chain.slots)),
    )
    &&& forall|i: int|
        0 <= i < chain.slots.len() && state_bytes(#[trigger] chain.slots[i]) is Some ==> zip_bytes(
            data,
            state_path(i),
        ) == state_bytes(chain.slots[i])
}

/// An archive with the project and the states as entries holds the chain.
proof fn lemma_holds_chain(
    data: Seq<u8>,
    chain: ChainModel,
    entries: Seq<(Seq<char>, Seq<u8>)>,
)
    requires
        chain.slots.len() <= u64::MAX,
        entries == seq![
            (
                "project.xml"@,
                vstd::utf8::encode_utf8(project_xml(chain, identities(chain.slots))),
            ),
        ] + state_files(chain.slots),
        forall|i: int|
            0 <= i < entries.len() && vstd::utf8::is_ascii_chars((#[trigger] entries[i]).0)
                ==> zip_bytes(data, entries[i].0) == Some(entries[i].1) && (
            vstd::utf8::valid_utf8(entries[i].1) ==> zip_text(data, entries[i].0) == Ok::<
                Seq<char>,
                ZipFailureModel,
            >(vstd::utf8::decode_utf8(entries[i].1))),
    ensures
        holds_chain(data, chain),
{
    let xml = project_xml(chain, identities(chain.slots));
    reveal_strlit("project.xml");
    assert(vstd::utf8::is_ascii_chars("project.xml"@));
    vstd::utf8::encode_utf8_valid_utf8(xml);
    vstd::utf8::encode_utf8_decode_utf8(xml);
    assert(entries[0] == ("project.xml"@, vstd::utf8::encode_utf8(xml)));
    assert forall|i: int|
        0 <= i < chain.slots.len() && state_bytes(#[trigger] chain.slots[i]) is Some implies zip_bytes(
        data,
        state_path(i),
    ) == state_bytes(chain.slots[i]) by {
        lemma_state_file_of_slot(chain.slots, i);
        lemma_state_path(i as u64);
        let files = state_files(chain.slots);
        let k = choose|k: int|
            0 <= k < files.len() && files[k] == (state_path(i), state_bytes(chain.slots[i])->0);
        assert(entries[k + 1] == files[k]);
    }
}

/// The files of the archive of a chain, in the order in which they are added: the text of
/// the project, and the states of the slots.
pub open spec fn archive_files(chain: ChainModel) -> Seq<(Seq<char>, Seq<u8>)> {
    seq![
        (
            "project.xml"@,
            vstd::utf8::encode_utf8(project_xml(chain, identities(chain.slots))),
        ),
    ] + state_files(chain.slots)
}

/// The message of the first error as the first `n` files of a list are added, in order,
/// to an empty archive.
pub open spec fn add_error(files: Seq<(Seq<char>, Seq<u8>)>, n: nat) -> Option<Seq<char>>
    decreases n,
{
    if n == 0 {
        None
    } else {
        let k = (n - 1) as nat;
        match add_error(files, k) {
            Some(e) => Some(e),
            None => zip_add_error(files.take(k as int), files[k as int].0, files[k as int].1),
        }
    }
}

/// The message of the first error as an archive of the given files is written.
pub open spec fn archive_error(files: Seq<(Seq<char>, Seq<u8>)>) -> Option<Seq<char>> {
    match add_error(files, files.len()) {
        Some(e) => Some(e),
        None => zip_finish_error(files),
    }
}

/// Once adding a file has failed, the error stays.
proof fn lemma_add_error_stays(files: Seq<(Seq<char>, Seq<u8>)>, k: nat, n: nat)
    requires
        k <= n,
        add_error(files, k) is Some,
    ensures
        add_error(files, n) == add_error(files, k),
    decreases n,
{
    if k < n {
        lemma_add_error_stays(files, k, (n - 1) as nat);
    }
}

/// Render a chain into a `.dawproject` archive (binary ZIP).
///
/// The archive holds the text of the project, and the state of each slot that
/// has one in base64. It fails where adding one of these files or finishing the archive
/// does, with the first error.
pub fn write_dawproject(chain: &ChainDetail) -> (out: Result<Vec<u8>, String>)
    ensures
        match out {
            Ok(data) => archive_error(archive_files(chain@)) is None && holds_chain(data@, chain@)
                && data@.len() > 4 && data@.take(4) == seq![0x50u8, 0x4b, 0x03, 0x04],
            Err(e) => archive_error(archive_files(chain@)) == Some(e@),
        },
{
    let n: usize = chain.slots.len();
    let mut files: Vec<(String, Vec<u8>)> = Vec::new();
    let ghost states = state_files(chain@.slots);
    let ghost all = archive_files(chain@);
    let xml = build_project_xml(chain, &mut files);
    assert(file_models(files@) =~= states);
    let empty = begin_zip();
    proof {
        reveal_strlit("project.xml");
        assert(vstd::utf8::is_ascii_chars("project.xml"@));
        vstd::utf8::is_ascii_chars_encode_utf8("project.xml"@);
        assert(all.take(0) =~= zip_entries(empty));
        assert(add_error(all, 0) is None);
    }
    let mut zip = match add_to_zip(empty, "project.xml", xml.as_str().as_bytes()) {
        Ok(z) => z,
        Err(e) => {
            proof {
                assert(add_error(all, 1) == Some(e@));
                lemma_add_error_stays(all, 1, all.len());
            }
            return Err(e);
        },
    };
    assert(zip_entries(zip) =~= all.take(1));
    assert(add_error(all, 1) is None);
    for i in 0..files.len()
        invariant
            n == chain@.slots.len(),
            states == state_files(chain@.slots),
            all == archive_files(chain@),
            file_models(files@) == states,
            zip_entries(zip) == all.take(i + 1),
            add_error(all, (i + 1) as nat) is None,
    {
        proof {
            assert(states[i as int] == (files@[i as int].0@, files@[i as int].1@));
            assert(all[i + 1] == states[i as int]);
            lemma_state_files(chain@.slots, i as int);
            let k = choose|k: int|
                #![trigger state_path(k)]
                0 <= k < chain@.slots.len() && states[i as int].0 == state_path(k);
            lemma_state_path(k as u64);
        }
        zip = match add_to_zip(zip, files[i].0.as_str(), files[i].1.as_slice()) {
            Ok(z) => z,
            Err(e) => {
                proof {
                    assert(add_error(all, (i + 2) as nat) == Some(e@));
                    lemma_add_error_stays(all, (i + 2) as nat, all.len());
                }
                return Err(e);
            },
        };
        assert(zip_entries(zip) =~= all.take(i + 2));
    }
    assert(all.take(all.len() as int) =~= all);
    match finish_zip(zip) {
        Ok(data) => {
            proof {
                lemma_holds_chain(data@, chain@, all);
            }
            Ok(data)
        },
        Err(e) => Err(e),
    }
}

} // verus!
