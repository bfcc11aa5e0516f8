//! Writer for Reaper FX chain presets (`.RfxChain`).
//!
//! An `.RfxChain` is a standalone FXCHAIN block: the same syntax as the
//! FXCHAIN block inside a `.rpp` project file.  Reaper identifies plugins
//! by GUID (VST3), numeric UID (VST2), or type/subtype/manufacturer codes
//! (AU), so the filename field is left empty and Reaper resolves it from
//! the installed-plugin registry.
use vstd::prelude::*;
use vstd::slice::slice_subrange;

use crate::daw_writers::identities;
use crate::db::{slot_models, ChainSlotRow, SlotModel};
use crate::json::{
    member_models, member_text_or, parse_object, text_or, FieldModel, JsonMember,
};
use crate::text::{same_text, utf8_text};

verus! {

/// The tag of the block of an effect of the given format.
pub open spec fn block_tag(format: Seq<char>) -> Seq<char> {
    if format == "AU"@ {
        "AU"@
    } else if format == "CLAP"@ {
        "CLAP"@
    } else {
        "VST"@
    }
}

/// The prefix of the display name of an effect of the given format.
pub open spec fn format_prefix(format: Seq<char>) -> Seq<char> {
    if format == "VST3"@ {
        "VST3: "@
    } else if format == "AU"@ {
        "AU: "@
    } else if format == "CLAP"@ {
        "CLAP: "@
    } else {
        "VST: "@
    }
}

/// The display name of an effect.
pub open spec fn display_name(id: Seq<(Seq<char>, FieldModel)>) -> Seq<char> {
    let name = text_or(id, "name"@, "Unknown"@);
    let vendor = text_or(id, "vendor"@, ""@);
    let prefix = format_prefix(text_or(id, "format"@, "VST2"@));
    if vendor.len() == 0 {
        prefix + name
    } else {
        prefix + name + " ("@ + vendor + ")"@
    }
}

/// The identifier field of an effect: number and GUID for VST3, else the number.
pub open spec fn uid_field(id: Seq<(Seq<char>, FieldModel)>) -> Seq<char> {
    let num = text_or(id, "vst_uid"@, ""@);
    if text_or(id, "format"@, "VST2"@) == "VST3"@ {
        num + text_or(id, "vst3_guid"@, ""@)
    } else {
        num
    }
}

/// The text of a stretch of state bytes. A stretch that is not UTF-8 has none.
pub open spec fn chunk_text(bytes: Seq<u8>) -> Seq<char> {
    if vstd::utf8::valid_utf8(bytes) {
        vstd::utf8::decode_utf8(bytes)
    } else {
        Seq::empty()
    }
}

/// The lines of the state from byte `i` on, 72 bytes to a line.
pub open spec fn state_lines(bytes: Seq<u8>, i: int) -> Seq<char>
    decreases bytes.len() - i,
    when 0 <= i
{
    if i >= bytes.len() {
        Seq::empty()
    } else {
        let end = if i + 72 < bytes.len() {
            i + 72
        } else {
            bytes.len() as int
        };
        "    "@ + chunk_text(bytes.subrange(i, end)) + seq!['\n'] + state_lines(bytes, end)
    }
}

/// The lines of the state, where there is one.
pub open spec fn state_section(state: Option<Seq<char>>) -> Seq<char> {
    match state {
        Some(s) => state_lines(vstd::utf8::encode_utf8(s), 0),
        None => Seq::empty(),
    }
}

/// The opening line of the block of an effect.
pub open spec fn fx_header(slot: SlotModel, id: Seq<(Seq<char>, FieldModel)>) -> Seq<char> {
    "  <"@ + block_tag(text_or(id, "format"@, "VST2"@)) + " \""@ + display_name(id) + "\" \"\" "@
        + (if slot.bypass {
        "1"@
    } else {
        "0"@
    }) + " \""@ + (match slot.preset_name {
        Some(p) => p,
        None => ""@,
    }) + "\" "@ + uid_field(id) + "\n"@
}

/// The block of an effect with the given identity.
pub open spec fn fx_block(slot: SlotModel, id: Seq<(Seq<char>, FieldModel)>) -> Seq<char> {
    fx_header(slot, id) + state_section(slot.opaque_state) + "  >\n"@
}

/// The blocks of the effects of a chain. `ids[i]` identifies the effect of slot `i`.
pub open spec fn fx_blocks(slots: Seq<SlotModel>, ids: Seq<Seq<(Seq<char>, FieldModel)>>) -> Seq<
    char,
>
    decreases slots.len(),
{
    if slots.len() == 0 {
        Seq::empty()
    } else {
        fx_blocks(slots.drop_last(), ids) + fx_block(slots.last(), ids[slots.len() - 1])
    }
}

/// The lines before the first effect of a chain.
pub open spec fn chain_header() -> Seq<char> {
    "<FXCHAIN\n"@ + "  SHOW 0\n"@ + "  LASTSEL 0\n"@ + "  DOCKED 0\n"@ + "  BYPASS 0 0 0\n"@
}

/// The text of a chain. `ids[i]` identifies the effect of slot `i`.
pub open spec fn rfxchain(slots: Seq<SlotModel>, ids: Seq<Seq<(Seq<char>, FieldModel)>>) -> Seq<
    char,
> {
    chain_header() + fx_blocks(slots, ids) + ">\n"@
}

/// Appends the lines of the state, 72 bytes to a line.
fn append_state(state: &str, out: &mut String)
    ensures
        final(out)@ == old(out)@ + state_section(Some(state@)),
{
    let bytes = state.as_bytes();
    let n: usize = bytes.len();
    let ghost whole = state_lines(bytes@, 0);
    let mut i: usize = 0;
    while i < n
        invariant
            n == bytes@.len(),
            i <= n,
            whole == state_lines(bytes@, 0),
            out@ + state_lines(bytes@, i as int) == old(out)@ + whole,
        decreases n - i,
    {
        let ghost before = out@;
        let end: usize = if n - i > 72 {
            i + 72
        } else {
            n
        };
        out.append("    ");
        let chunk = slice_subrange(bytes, i, end);
        match utf8_text(chunk) {
            Some(t) => {
                out.append(t.as_str());
            },
            None => {
                assert(out@ =~= before + "    "@ + chunk_text(chunk@));
            },
        }
        out.push('\n');
        assert(out@ + state_lines(bytes@, end as int) =~= before + state_lines(bytes@, i as int));
        i = end;
    }
    assert(out@ =~= old(out)@ + whole);
}

/// The display name of an effect.
fn display_text(id: &Vec<JsonMember>, format: &str) -> (out: String)
    requires
        format@ == text_or(member_models(id@), "format"@, "VST2"@),
    ensures
        out@ == display_name(member_models(id@)),
{
    let name = member_text_or(id, "name", "Unknown");
    let vendor = member_text_or(id, "vendor", "");
    let prefix = if same_text(format, "VST3") {
        "VST3: "
    } else if same_text(format, "AU") {
        "AU: "
    } else if same_text(format, "CLAP") {
        "CLAP: "
    } else {
        "VST: "
    };
    let mut out = prefix.to_owned();
    out.append(name.as_str());
    if !vendor.as_str().is_empty() {
        out.append(" (");
        out.append(vendor.as_str());
        out.append(")");
    }
    out
}

/// The identifier field of an effect.
fn uid_text(id: &Vec<JsonMember>, format: &str) -> (out: String)
    requires
        format@ == text_or(member_models(id@), "format"@, "VST2"@),
    ensures
        out@ == uid_field(member_models(id@)),
{
    let mut out = member_text_or(id, "vst_uid", "");
    if same_text(format, "VST3") {
        let guid = member_text_or(id, "vst3_guid", "");
        out.append(guid.as_str());
    }
    out
}

/// The opening line of the block of an effect.
fn header_text(slot: &ChainSlotRow, id: &Vec<JsonMember>) -> (out: String)
    ensures
        out@ == fx_header(slot@, member_models(id@)),
{
    let format = member_text_or(id, "format", "VST2");
    let display = display_text(id, format.as_str());
    let uid = uid_text(id, format.as_str());
    let mut out = "  <".to_owned();
    out.append(
        if same_text(format.as_str(), "AU") {
            "AU"
        } else if same_text(format.as_str(), "CLAP") {
            "CLAP"
        } else {
            "VST"
        },
    );
    out.append(" \"");
    out.append(display.as_str());
    out.append("\" \"\" ");
    out.append(
        if slot.bypass {
            "1"
        } else {
            "0"
        },
    );
    out.append(" \"");
    out.append(
        match &slot.preset_name {
            Some(p) => p.as_str(),
            None => "",
        },
    );
    out.append("\" ");
    out.append(uid.as_str());
    out.append("\n");
    out
}

/// Appends the block of the effect of `slot`, which `id` identifies.
pub fn append_fx_block(slot: &ChainSlotRow, id: &Vec<JsonMember>, out: &mut String)
    ensures
        final(out)@ == old(out)@ + fx_block(slot@, member_models(id@)),
{
    let ghost header = fx_header(slot@, member_models(id@));
    let ghost before = out@;
    out.append(header_text(slot, id).as_str());
    if let Some(state) = &slot.opaque_state {
        append_state(state.as_str(), out);
    } else {
        assert(out@ =~= before + header + state_section(None));
    }
    out.append("  >\n");
    assert(out@ =~= before + (header + state_section(slot@.opaque_state) + "  >\n"@));
}

/// Render a slice of chain slots into `.RfxChain` file contents (UTF-8 text).
pub fn write_rfxchain(slots: &[ChainSlotRow]) -> (out: String)
    ensures
        out@ == rfxchain(slot_models(slots@), identities(slot_models(slots@))),
{
    let ghost all = slot_models(slots@);
    let ghost ids = identities(all);
    let mut out = String::new();
    out.append("<FXCHAIN\n");
    out.append("  SHOW 0\n");
    out.append("  LASTSEL 0\n");
    out.append("  DOCKED 0\n");
    out.append("  BYPASS 0 0 0\n");
    assert(out@ =~= chain_header() + fx_blocks(all.take(0), ids));
    for i in 0..slots.len()
        invariant
            all == slot_models(slots@),
            ids == identities(all),
            out@ == chain_header() + fx_blocks(all.take(i as int), ids),
    {
        let slot = &slots[i];
        let id = parse_object(slot.plugin_identity.as_str());
        append_fx_block(slot, &id, &mut out);
        proof {
            let next = all.take(i + 1);
            assert(next.drop_last() =~= all.take(i as int));
            assert(next.last() == slot@);
            assert(member_models(id@) == ids[i as int]);
            assert(out@ =~= chain_header() + fx_blocks(next, ids));
        }
    }
    assert(all.take(all.len() as int) =~= all);
    out.append(">\n");
    out
}

} // verus!
