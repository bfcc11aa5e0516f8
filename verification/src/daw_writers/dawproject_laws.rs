//! What the reader makes of a `.dawproject` archive that was written for a chain.
use vstd::prelude::*;

use crate::base64::encode;
use crate::daw_readers::dawproject::{
    archive_states, channel_of, device_of, devices_in, is_enabled, kind_of, project_of, track_of,
    tracks_in,
    ChannelModel, DeviceModel, KindModel, ProjectModel, TrackModel,
};
use crate::daw_writers::dawproject::{
    device_text, device_texts, enabled_line, holds_chain, plugin_open, project_xml, state_bytes,
    state_element,
    state_path, PROJECT_BODY, PROJECT_HEAD, PROJECT_TAIL,
};
use crate::daw_writers::identities;
use crate::db::{ChainModel, SlotModel};
use crate::json::{integer_member, text_or, FieldModel};
use crate::markup::{
    are_attrs, attr_markup, attrs_markup, can_stand, element, is_attr_name, is_name, is_value,
    is_visible, is_writable, lemma_add_assoc, lemma_attrs_differ, lemma_attrs_push, lemma_bare_tag,
    lemma_element, lemma_escape_plain, lemma_markups_push, lemma_number_plain, lemma_one_attr,
    lemma_stand_push, lemma_stand_three, lemma_three_attrs, lemma_three_nodes,
    lemma_writable_element, markup, markups, plain_attr, text_node, writes, DECLARATION,
};
use crate::number::{decimal, law_decimal_reads_back, lemma_decimal_digits, signed_decimal};
use crate::text::{ascii_lower, escape, join};
use crate::xml::{attr_from, attr_or, child, tagged_from, AttrModel, XmlKind, XmlModel};

verus! {

// ---------------------------------------------------------------------------
// The tree of a project
// ---------------------------------------------------------------------------

/// The identifier of the VST2 plugin that `id` identifies.
pub open spec fn vst2_id(id: Seq<(Seq<char>, FieldModel)>) -> int {
    match integer_member(id, "unique_id"@) {
        Some(n) => n,
        None => 0,
    }
}

/// The tag and the attributes of the device that `id` identifies, where it is a plugin.
pub open spec fn plugin_tag(id: Seq<(Seq<char>, FieldModel)>) -> Option<
    (Seq<char>, Seq<AttrModel>),
> {
    let name = plain_attr("name"@, text_or(id, "name"@, "Unknown"@));
    let vendor = plain_attr("vendor"@, text_or(id, "vendor"@, ""@));
    let format = text_or(id, "format"@, "Builtin"@);
    if format == "VST3"@ {
        let device = plain_attr("deviceID"@, text_or(id, "device_id"@, ""@));
        Some(("Vst3Plugin"@, seq![device, name, vendor]))
    } else if format == "VST2"@ {
        let unique = plain_attr("uniqueId"@, signed_decimal(vst2_id(id)));
        Some(("Vst2Plugin"@, seq![unique, name, vendor]))
    } else if format == "AU"@ {
        let type_code = plain_attr("type"@, text_or(id, "type_code"@, ""@));
        let sub_type = plain_attr("subType"@, text_or(id, "sub_type"@, ""@));
        let maker = plain_attr("manufacturer"@, text_or(id, "manufacturer"@, ""@));
        Some(("AuPlugin"@, seq![type_code, sub_type, maker, name]))
    } else if format == "CLAP"@ {
        let clap = plain_attr("id"@, text_or(id, "id"@, ""@));
        Some(("ClapPlugin"@, seq![clap, name, vendor]))
    } else {
        None
    }
}

/// The element that switches a device on or off.
pub open spec fn enabled_node(enabled: bool) -> XmlModel {
    let value = if enabled {
        "true"@
    } else {
        "false"@
    };
    element("Enabled"@, seq![plain_attr("value"@, value)], Seq::empty())
}

/// The nodes in each device.
pub open spec fn switch_nodes(slot: SlotModel) -> Seq<XmlModel> {
    seq![text_node("\n"@), enabled_node(!slot.bypass), text_node("\n"@)]
}

/// The element that refers to the state of slot `i`.
pub open spec fn state_node(i: int) -> XmlModel {
    element("State"@, seq![plain_attr("path"@, state_path(i))], Seq::empty())
}

/// The nodes in the device of slot `i`.
pub open spec fn inner_nodes(slot: SlotModel, i: int) -> Seq<XmlModel> {
    if state_bytes(slot) is Some {
        switch_nodes(slot).push(state_node(i)).push(text_node("\n"@))
    } else {
        switch_nodes(slot)
    }
}

/// The device of slot `i`, which `id` identifies.
pub open spec fn device_node(slot: SlotModel, id: Seq<(Seq<char>, FieldModel)>, i: int) -> XmlModel {
    match plugin_tag(id) {
        Some(p) => element(p.0, p.1, inner_nodes(slot, i)),
        None => element(
            "Builtin"@,
            seq![plain_attr("name"@, text_or(id, "name"@, "Unknown"@))],
            inner_nodes(slot, i),
        ),
    }
}

/// The first `n` devices, each with its indent before it.
pub open spec fn device_nodes(
    slots: Seq<SlotModel>,
    ids: Seq<Seq<(Seq<char>, FieldModel)>>,
    n: nat,
) -> Seq<XmlModel>
    decreases n,
{
    if n == 0 {
        Seq::empty()
    } else {
        device_nodes(slots, ids, (n - 1) as nat).push(text_node("\n          "@)).push(
            device_node(slots[n - 1], ids[n - 1], n - 1),
        )
    }
}

/// The devices of the track.
pub open spec fn devices_node(
    slots: Seq<SlotModel>,
    ids: Seq<Seq<(Seq<char>, FieldModel)>>,
) -> XmlModel {
    element(
        "Devices"@,
        Seq::empty(),
        if slots.len() == 0 {
            seq![text_node("\n\n        "@)]
        } else {
            device_nodes(slots, ids, slots.len()).push(text_node("\n        "@))
        },
    )
}

/// The channel of the track.
pub open spec fn channel_node(
    slots: Seq<SlotModel>,
    ids: Seq<Seq<(Seq<char>, FieldModel)>>,
) -> XmlModel {
    element(
        "Channel"@,
        seq![
            plain_attr("audioChannels"@, "2"@),
            plain_attr("role"@, "regular"@),
            plain_attr("id"@, "ch0"@),
        ],
        seq![text_node("\n        "@), devices_node(slots, ids), text_node("\n      "@)],
    )
}

/// The track of the chain.
pub open spec fn track_node(chain: ChainModel, ids: Seq<Seq<(Seq<char>, FieldModel)>>) -> XmlModel {
    element(
        "Track"@,
        seq![
            plain_attr("contentType"@, "audio"@),
            plain_attr("id"@, "t0"@),
            plain_attr("name"@, chain.name),
        ],
        seq![text_node("\n      "@), channel_node(chain.slots, ids), text_node("\n    "@)],
    )
}

/// The element that names the program.
pub open spec fn application_node() -> XmlModel {
    element(
        "Application"@,
        seq![plain_attr("name"@, "Patchbay"@), plain_attr("version"@, "1.0.0"@)],
        Seq::empty(),
    )
}

/// The element around the track.
pub open spec fn structure_node(
    chain: ChainModel,
    ids: Seq<Seq<(Seq<char>, FieldModel)>>,
) -> XmlModel {
    element(
        "Structure"@,
        Seq::empty(),
        seq![text_node("\n    "@), track_node(chain, ids), text_node("\n  "@)],
    )
}

/// The project of a chain. `ids[i]` identifies the device of slot `i`.
pub open spec fn project_node(
    chain: ChainModel,
    ids: Seq<Seq<(Seq<char>, FieldModel)>>,
) -> XmlModel {
    element(
        "Project"@,
        seq![plain_attr("version"@, "1.0"@)],
        seq![
            text_node("\n  "@),
            application_node(),
            text_node("\n  "@),
            structure_node(chain, ids),
            text_node("\n"@),
        ],
    )
}

// ---------------------------------------------------------------------------
// The text of the tree
// ---------------------------------------------------------------------------

/// The tags in the texts around the name and the devices of the track.
proof fn lemma_templates()
    ensures
        PROJECT_HEAD@ == DECLARATION@ + "<Project version=\"1.0\">"@ + "\n  "@
            + "<Application name=\"Patchbay\" version=\"1.0.0\"/>"@ + "\n  "@ + "<Structure>"@
            + "\n    "@ + "<Track contentType=\"audio\" id=\"t0\" name=\""@,
        PROJECT_BODY@ == "\">"@ + "\n      "@
            + "<Channel audioChannels=\"2\" role=\"regular\" id=\"ch0\">"@ + "\n        "@
            + "<Devices>"@ + "\n"@,
        PROJECT_TAIL@ == "\n        "@ + "</Devices>"@ + "\n      "@ + "</Channel>"@ + "\n    "@
            + "</Track>"@ + "\n  "@ + "</Structure>"@ + "\n"@ + "</Project>"@,
{
    reveal_strlit("<?xml version=\"1.0\" encoding=\"UTF-8\"?>\n<Project version=\"1.0\">\n  <Application name=\"Patchbay\" version=\"1.0.0\"/>\n  <Structure>\n    <Track contentType=\"audio\" id=\"t0\" name=\"");
    reveal_strlit("\">\n      <Channel audioChannels=\"2\" role=\"regular\" id=\"ch0\">\n        <Devices>\n");
    reveal_strlit("\n        </Devices>\n      </Channel>\n    </Track>\n  </Structure>\n</Project>");
    reveal_strlit("<?xml version=\"1.0\" encoding=\"UTF-8\"?>\n");
    reveal_strlit("<Project version=\"1.0\">");
    reveal_strlit("\n  ");
    reveal_strlit("<Application name=\"Patchbay\" version=\"1.0.0\"/>");
    reveal_strlit("<Structure>");
    reveal_strlit("\n    ");
    reveal_strlit("<Track contentType=\"audio\" id=\"t0\" name=\"");
    reveal_strlit("\">");
    reveal_strlit("\n      ");
    reveal_strlit("<Channel audioChannels=\"2\" role=\"regular\" id=\"ch0\">");
    reveal_strlit("\n        ");
    reveal_strlit("<Devices>");
    reveal_strlit("\n");
    reveal_strlit("</Devices>");
    reveal_strlit("</Channel>");
    reveal_strlit("</Track>");
    reveal_strlit("</Structure>");
    reveal_strlit("</Project>");
    assert(PROJECT_HEAD@ =~= DECLARATION@ + "<Project version=\"1.0\">"@ + "\n  "@
        + "<Application name=\"Patchbay\" version=\"1.0.0\"/>"@ + "\n  "@ + "<Structure>"@
        + "\n    "@ + "<Track contentType=\"audio\" id=\"t0\" name=\""@);
    assert(PROJECT_BODY@ =~= "\">"@ + "\n      "@
        + "<Channel audioChannels=\"2\" role=\"regular\" id=\"ch0\">"@ + "\n        "@
        + "<Devices>"@ + "\n"@);
    assert(PROJECT_TAIL@ =~= "\n        "@ + "</Devices>"@ + "\n      "@ + "</Channel>"@ + "\n    "@
        + "</Track>"@ + "\n  "@ + "</Structure>"@ + "\n"@ + "</Project>"@);
}

/// The line that switches a device on or off is the markup of its element and a line end.
proof fn lemma_enabled(enabled: bool)
    ensures
        enabled_line(enabled) == markup(enabled_node(enabled)) + "\n"@,
{
    broadcast use lemma_add_assoc;

    reveal_strlit("<Enabled value=\"");
    reveal_strlit("\"/>\n");
    reveal_strlit("<");
    reveal_strlit("Enabled");
    reveal_strlit(" ");
    reveal_strlit("value");
    reveal_strlit("=\"");
    reveal_strlit("true");
    reveal_strlit("false");
    reveal_strlit("\"");
    reveal_strlit("/>");
    reveal_strlit("\n");
    let value = if enabled {
        "true"@
    } else {
        "false"@
    };
    lemma_escape_plain(value);
    let a = plain_attr("value"@, value);
    lemma_three_attrs(a, a, a);
    assert("<Enabled value=\""@ =~= "<"@ + "Enabled"@ + " "@ + "value"@ + "=\""@);
    assert("\"/>\n"@ =~= "\""@ + "/>"@ + "\n"@);
}

/// The path of a state is escaped as it stands.
proof fn lemma_path_plain(i: nat)
    ensures
        escape(state_path(i as int)) == state_path(i as int),
{
    reveal_strlit("plugins/state_");
    reveal_strlit(".bin");
    lemma_decimal_digits(i);
    let p = state_path(i as int);
    let n = decimal(i).len() as int;
    assert forall|k: int| 0 <= k < p.len() implies #[trigger] p[k] != '&' && p[k] != '<' && p[k]
        != '>' && p[k] != '"' by {
        if k < 14 {
            assert(p[k] == "plugins/state_"@[k]);
        } else if k < 14 + n {
            assert(p[k] == decimal(i)[k - 14]);
        } else {
            assert(p[k] == ".bin"@[k - 14 - n]);
        }
    }
    lemma_escape_plain(p);
}

/// The reference to a state is the markup of its element and a line end.
proof fn lemma_state(slot: SlotModel, i: nat)
    requires
        state_bytes(slot) is Some,
    ensures
        state_element(slot, i as int) == markup(state_node(i as int)) + "\n"@,
{
    broadcast use lemma_add_assoc;

    reveal_strlit("<State path=\"");
    reveal_strlit("\"/>\n");
    reveal_strlit("<");
    reveal_strlit("State");
    reveal_strlit(" ");
    reveal_strlit("path");
    reveal_strlit("=\"");
    reveal_strlit("\"");
    reveal_strlit("/>");
    reveal_strlit("\n");
    lemma_path_plain(i);
    let a = plain_attr("path"@, state_path(i as int));
    lemma_three_attrs(a, a, a);
    assert("<State path=\""@ =~= "<"@ + "State"@ + " "@ + "path"@ + "=\""@);
    assert("\"/>\n"@ =~= "\""@ + "/>"@ + "\n"@);
}

/// The pieces of the tags of devices.
proof fn lemma_device_words()
    ensures
        "\" name=\""@ == "\""@ + " "@ + "name"@ + "=\""@,
        "\" vendor=\""@ == "\""@ + " "@ + "vendor"@ + "=\""@,
        "\" subType=\""@ == "\""@ + " "@ + "subType"@ + "=\""@,
        "\" manufacturer=\""@ == "\""@ + " "@ + "manufacturer"@ + "=\""@,
        "\">\n"@ == "\""@ + ">"@ + "\n"@,
        "<Vst3Plugin deviceID=\""@ == "<"@ + "Vst3Plugin"@ + " "@ + "deviceID"@ + "=\""@,
        "<Vst2Plugin uniqueId=\""@ == "<"@ + "Vst2Plugin"@ + " "@ + "uniqueId"@ + "=\""@,
        "<AuPlugin type=\""@ == "<"@ + "AuPlugin"@ + " "@ + "type"@ + "=\""@,
        "<ClapPlugin id=\""@ == "<"@ + "ClapPlugin"@ + " "@ + "id"@ + "=\""@,
        "<Builtin name=\""@ == "<"@ + "Builtin"@ + " "@ + "name"@ + "=\""@,
        "</Builtin>"@ == "</"@ + "Builtin"@ + ">"@,
{
    reveal_strlit("\" name=\"");
    reveal_strlit("\"");
    reveal_strlit(" ");
    reveal_strlit("name");
    reveal_strlit("=\"");
    reveal_strlit("\" vendor=\"");
    reveal_strlit("vendor");
    reveal_strlit("\" subType=\"");
    reveal_strlit("subType");
    reveal_strlit("\" manufacturer=\"");
    reveal_strlit("manufacturer");
    reveal_strlit("\">\n");
    reveal_strlit(">");
    reveal_strlit("\n");
    reveal_strlit("<Vst3Plugin deviceID=\"");
    reveal_strlit("<");
    reveal_strlit("Vst3Plugin");
    reveal_strlit("deviceID");
    reveal_strlit("<Vst2Plugin uniqueId=\"");
    reveal_strlit("Vst2Plugin");
    reveal_strlit("uniqueId");
    reveal_strlit("<AuPlugin type=\"");
    reveal_strlit("AuPlugin");
    reveal_strlit("type");
    reveal_strlit("<ClapPlugin id=\"");
    reveal_strlit("ClapPlugin");
    reveal_strlit("id");
    reveal_strlit("<Builtin name=\"");
    reveal_strlit("Builtin");
    reveal_strlit("</Builtin>");
    reveal_strlit("</");
    assert("\" name=\""@ =~= "\""@ + " "@ + "name"@ + "=\""@);
    assert("\" vendor=\""@ =~= "\""@ + " "@ + "vendor"@ + "=\""@);
    assert("\" subType=\""@ =~= "\""@ + " "@ + "subType"@ + "=\""@);
    assert("\" manufacturer=\""@ =~= "\""@ + " "@ + "manufacturer"@ + "=\""@);
    assert("\">\n"@ =~= "\""@ + ">"@ + "\n"@);
    assert("<Vst3Plugin deviceID=\""@ =~= "<"@ + "Vst3Plugin"@ + " "@ + "deviceID"@ + "=\""@);
    assert("<Vst2Plugin uniqueId=\""@ =~= "<"@ + "Vst2Plugin"@ + " "@ + "uniqueId"@ + "=\""@);
    assert("<AuPlugin type=\""@ =~= "<"@ + "AuPlugin"@ + " "@ + "type"@ + "=\""@);
    assert("<ClapPlugin id=\""@ =~= "<"@ + "ClapPlugin"@ + " "@ + "id"@ + "=\""@);
    assert("<Builtin name=\""@ =~= "<"@ + "Builtin"@ + " "@ + "name"@ + "=\""@);
    assert("</Builtin>"@ =~= "</"@ + "Builtin"@ + ">"@);
}

/// The pieces of a tag with one attribute, as they are written and as they are nested.
proof fn lemma_nest_one(
    lt: Seq<char>,
    tag: Seq<char>,
    sp: Seq<char>,
    eq: Seq<char>,
    qt: Seq<char>,
    gt: Seq<char>,
    nl: Seq<char>,
    name: Seq<char>,
    value: Seq<char>,
)
    ensures
        (lt + tag + sp + name + eq) + value + (qt + gt + nl) == lt + tag + (sp + name + eq + value
            + qt) + gt + nl,
{
    broadcast use lemma_add_assoc;

}

/// The pieces of a tag with three attributes, as they are written and as they are nested.
proof fn lemma_nest_three(
    lt: Seq<char>,
    tag: Seq<char>,
    sp: Seq<char>,
    eq: Seq<char>,
    qt: Seq<char>,
    gt: Seq<char>,
    nl: Seq<char>,
    n1: Seq<char>,
    v1: Seq<char>,
    n2: Seq<char>,
    v2: Seq<char>,
    n3: Seq<char>,
    v3: Seq<char>,
)
    ensures
        (lt + tag + sp + n1 + eq) + v1 + (qt + sp + n2 + eq) + v2 + (qt + sp + n3 + eq) + v3 + (qt
            + gt + nl) == lt + tag + ((sp + n1 + eq + v1 + qt) + (sp + n2 + eq + v2 + qt) + (sp + n3
            + eq + v3 + qt)) + gt + nl,
{
    broadcast use lemma_add_assoc;

}

/// The pieces of a tag with four attributes, as they are written and as they are nested.
proof fn lemma_nest_four(
    lt: Seq<char>,
    tag: Seq<char>,
    sp: Seq<char>,
    eq: Seq<char>,
    qt: Seq<char>,
    gt: Seq<char>,
    nl: Seq<char>,
    n1: Seq<char>,
    v1: Seq<char>,
    n2: Seq<char>,
    v2: Seq<char>,
    n3: Seq<char>,
    v3: Seq<char>,
    n4: Seq<char>,
    v4: Seq<char>,
)
    ensures
        (lt + tag + sp + n1 + eq) + v1 + (qt + sp + n2 + eq) + v2 + (qt + sp + n3 + eq) + v3 + (qt
            + sp + n4 + eq) + v4 + (qt + gt + nl) == lt + tag + ((sp + n1 + eq + v1 + qt) + (sp + n2
            + eq + v2 + qt) + (sp + n3 + eq + v3 + qt) + (sp + n4 + eq + v4 + qt)) + gt + nl,
{
    broadcast use lemma_add_assoc;

}

/// The opening tag of a plugin is that of its element, and a line end.
proof fn lemma_plugin_open(id: Seq<(Seq<char>, FieldModel)>)
    ensures
        match plugin_open(id) {
            Some(p) => plugin_tag(id) matches Some(q) && p.1 == q.0 && p.0 == "<"@ + q.0
                + attrs_markup(q.1) + ">"@ + "\n"@,
            None => plugin_tag(id) is None,
        },
{
    if let Some(q) = plugin_tag(id) {
        let a = q.1;
        lemma_device_words();
        lemma_three_attrs(a[0], a[1], a[2]);
        lemma_number_plain(vst2_id(id));
        reveal_strlit("VST3");
        reveal_strlit("VST2");
        reveal_strlit("AU");
        assert("AU"@.len() == 2 && "VST3"@.len() == 4 && "VST2"@.len() == 4);
        if text_or(id, "format"@, "Builtin"@) == "AU"@ {
            lemma_attrs_push(seq![a[0], a[1], a[2]], a[3]);
            assert(a =~= seq![a[0], a[1], a[2]].push(a[3]));
            lemma_nest_four(
                "<"@,
                q.0,
                " "@,
                "=\""@,
                "\""@,
                ">"@,
                "\n"@,
                a[0].name,
                escape(a[0].value),
                a[1].name,
                escape(a[1].value),
                a[2].name,
                escape(a[2].value),
                a[3].name,
                escape(a[3].value),
            );
        } else {
            assert(a =~= seq![a[0], a[1], a[2]]);
            lemma_nest_three(
                "<"@,
                q.0,
                " "@,
                "=\""@,
                "\""@,
                ">"@,
                "\n"@,
                a[0].name,
                escape(a[0].value),
                a[1].name,
                escape(a[1].value),
                a[2].name,
                escape(a[2].value),
            );
        }
    }
}

/// What stands between the tags of a device, behind the first line end.
proof fn lemma_inner(slot: SlotModel, i: nat)
    ensures
        markups(inner_nodes(slot, i as int)) == "\n"@ + enabled_line(!slot.bypass) + state_element(
            slot,
            i as int,
        ),
{
    let end = text_node("\n"@);
    let on = enabled_node(!slot.bypass);
    let state = state_node(i as int);
    let nodes = switch_nodes(slot);
    lemma_enabled(!slot.bypass);
    lemma_three_nodes(end, on, end);
    assert(markup(end) == "\n"@);
    lemma_add_assoc("\n"@, markup(on), "\n"@);
    let line = "\n"@ + (markup(on) + "\n"@);
    if state_bytes(slot) is Some {
        lemma_state(slot, i);
        lemma_markups_push(nodes, state);
        lemma_markups_push(nodes.push(state), end);
        lemma_add_assoc(line, markup(state), "\n"@);
    } else {
        assert(line + Seq::<char>::empty() =~= line);
    }
}

/// A plugin is its indent and the markup of its element.
proof fn lemma_plugin(slot: SlotModel, id: Seq<(Seq<char>, FieldModel)>, i: nat)
    requires
        plugin_tag(id) is Some,
    ensures
        device_text(slot, id, i as int) == "          "@ + markup(device_node(slot, id, i as int)),
{
    let q = plugin_tag(id)->0;
    lemma_plugin_open(id);
    lemma_inner(slot, i);
    let open = "<"@ + q.0 + attrs_markup(q.1) + ">"@;
    let node = device_node(slot, id, i as int);
    assert(markup(node) == open + markups(node.children) + "</"@ + q.0 + ">"@);
    lemma_nest(
        "          "@,
        open,
        "\n"@,
        enabled_line(!slot.bypass),
        state_element(slot, i as int),
        "</"@,
        q.0,
        ">"@,
    );
}

/// A device of the workstation is its indent and the markup of its element.
proof fn lemma_builtin(slot: SlotModel, id: Seq<(Seq<char>, FieldModel)>, i: nat)
    requires
        plugin_tag(id) is None,
    ensures
        device_text(slot, id, i as int) == "          "@ + markup(device_node(slot, id, i as int)),
{
    let name = text_or(id, "name"@, "Unknown"@);
    let a = plain_attr("name"@, name);
    lemma_plugin_open(id);
    lemma_inner(slot, i);
    lemma_three_attrs(a, a, a);
    lemma_device_words();
    let open = "<"@ + "Builtin"@ + attrs_markup(seq![a]) + ">"@;
    let node = device_node(slot, id, i as int);
    assert(markup(node) == open + markups(node.children) + "</"@ + "Builtin"@ + ">"@);
    lemma_nest_one("<"@, "Builtin"@, " "@, "=\""@, "\""@, ">"@, "\n"@, "name"@, escape(name));
    let on = enabled_line(!slot.bypass);
    let state = state_element(slot, i as int);
    lemma_nest("          "@, open, "\n"@, on, state, "</"@, "Builtin"@, ">"@);
    let head = "          "@ + (open + "\n"@) + on + state;
    lemma_add_assoc(head, "</"@, "Builtin"@);
    lemma_add_assoc(head, "</"@ + "Builtin"@, ">"@);
}

/// The pieces of a device, as they are written and as they are nested.
proof fn lemma_nest(
    indent: Seq<char>,
    open: Seq<char>,
    end: Seq<char>,
    on: Seq<char>,
    state: Seq<char>,
    slash: Seq<char>,
    tag: Seq<char>,
    close: Seq<char>,
)
    ensures
        indent + (open + end) + on + state + slash + tag + close == indent + (open + (end + on
            + state) + slash + tag + close),
{
    broadcast use lemma_add_assoc;

}

/// A device is its indent and the markup of its element.
proof fn lemma_device(slot: SlotModel, id: Seq<(Seq<char>, FieldModel)>, i: nat)
    ensures
        device_text(slot, id, i as int) == "          "@ + markup(device_node(slot, id, i as int)),
{
    if plugin_tag(id) is None {
        lemma_builtin(slot, id, i);
    } else {
        lemma_plugin(slot, id, i);
    }
}

/// The devices with line ends between them, behind a line end, are the markup of their
/// elements.
proof fn lemma_devices(slots: Seq<SlotModel>, ids: Seq<Seq<(Seq<char>, FieldModel)>>, n: nat)
    requires
        0 < n <= slots.len(),
    ensures
        "\n"@ + join(device_texts(slots, ids).take(n as int), "\n"@) == markups(
            device_nodes(slots, ids, n),
        ),
    decreases n,
{
    let k = (n - 1) as nat;
    let all = device_texts(slots, ids);
    let before = device_nodes(slots, ids, k);
    let indent = text_node("\n          "@);
    let node = device_node(slots[k as int], ids[k as int], k as int);
    lemma_device(slots[k as int], ids[k as int], k);
    lemma_markups_push(before, indent);
    lemma_markups_push(before.push(indent), node);
    reveal_strlit("\n          ");
    reveal_strlit("\n");
    reveal_strlit("          ");
    assert("\n          "@ =~= "\n"@ + "          "@);
    assert(markup(indent) == "\n"@ + "          "@);
    lemma_add_assoc("\n"@, "          "@, markup(node));
    let line = "\n"@ + all[k as int];
    assert(markup(indent) + markup(node) == line);
    lemma_add_assoc(markups(before), markup(indent), markup(node));
    assert(all.take(n as int).drop_last() =~= all.take(k as int));
    if k == 0 {
        assert(before.len() == 0);
        assert(markups(before) + line =~= line);
    } else {
        lemma_devices(slots, ids, k);
        let s = join(all.take(k as int), "\n"@);
        lemma_add_assoc("\n"@, s + "\n"@, all[k as int]);
        lemma_add_assoc("\n"@, s, "\n"@);
        lemma_add_assoc("\n"@ + s, "\n"@, all[k as int]);
    }
}

/// What stands between the tags of the devices.
proof fn lemma_devices_content(slots: Seq<SlotModel>, ids: Seq<Seq<(Seq<char>, FieldModel)>>)
    ensures
        "\n"@ + join(device_texts(slots, ids), "\n"@) + "\n        "@ == markups(
            devices_node(slots, ids).children,
        ),
{
    let all = device_texts(slots, ids);
    if slots.len() == 0 {
        let blank = text_node("\n\n        "@);
        reveal_strlit("\n\n        ");
        reveal_strlit("\n");
        reveal_strlit("\n        ");
        lemma_three_nodes(blank, blank, blank);
        assert("\n"@ + join(all, "\n"@) + "\n        "@ =~= "\n\n        "@);
    } else {
        assert(all.take(slots.len() as int) =~= all);
        lemma_devices(slots, ids, slots.len());
        lemma_markups_push(device_nodes(slots, ids, slots.len()), text_node("\n        "@));
    }
}

/// The pieces of the tags around the devices.
proof fn lemma_project_words()
    ensures
        "<Project version=\"1.0\">"@ == "<"@ + "Project"@ + attr_markup(
            plain_attr("version"@, "1.0"@),
        ) + ">"@,
        "<Application name=\"Patchbay\" version=\"1.0.0\"/>"@ == "<"@ + "Application"@ + (
        attr_markup(plain_attr("name"@, "Patchbay"@)) + attr_markup(
            plain_attr("version"@, "1.0.0"@),
        )) + "/>"@,
        "<Structure>"@ == "<"@ + "Structure"@ + ">"@,
        "<Track contentType=\"audio\" id=\"t0\" name=\""@ == "<"@ + "Track"@ + (attr_markup(
            plain_attr("contentType"@, "audio"@),
        ) + attr_markup(plain_attr("id"@, "t0"@)) + (" "@ + "name"@ + "=\""@)),
        "\">"@ == "\""@ + ">"@,
        "<Channel audioChannels=\"2\" role=\"regular\" id=\"ch0\">"@ == "<"@ + "Channel"@ + (
        attr_markup(plain_attr("audioChannels"@, "2"@)) + attr_markup(
            plain_attr("role"@, "regular"@),
        ) + attr_markup(plain_attr("id"@, "ch0"@))) + ">"@,
        "<Devices>"@ == "<"@ + "Devices"@ + ">"@,
        "</Devices>"@ == "</"@ + "Devices"@ + ">"@,
        "</Channel>"@ == "</"@ + "Channel"@ + ">"@,
        "</Track>"@ == "</"@ + "Track"@ + ">"@,
        "</Structure>"@ == "</"@ + "Structure"@ + ">"@,
        "</Project>"@ == "</"@ + "Project"@ + ">"@,
{
    reveal_strlit("<Project version=\"1.0\">");
    reveal_strlit("<Application name=\"Patchbay\" version=\"1.0.0\"/>");
    reveal_strlit("<Structure>");
    reveal_strlit("<Track contentType=\"audio\" id=\"t0\" name=\"");
    reveal_strlit("\">");
    reveal_strlit("<Channel audioChannels=\"2\" role=\"regular\" id=\"ch0\">");
    reveal_strlit("<Devices>");
    reveal_strlit("</Devices>");
    reveal_strlit("</Channel>");
    reveal_strlit("</Track>");
    reveal_strlit("</Structure>");
    reveal_strlit("</Project>");
    reveal_strlit("<");
    reveal_strlit("</");
    reveal_strlit(">");
    reveal_strlit("/>");
    reveal_strlit(" ");
    reveal_strlit("=\"");
    reveal_strlit("\"");
    reveal_strlit("Project");
    reveal_strlit("Application");
    reveal_strlit("Structure");
    reveal_strlit("Track");
    reveal_strlit("Channel");
    reveal_strlit("Devices");
    reveal_strlit("version");
    reveal_strlit("name");
    reveal_strlit("contentType");
    reveal_strlit("id");
    reveal_strlit("audioChannels");
    reveal_strlit("role");
    reveal_strlit("1.0");
    reveal_strlit("Patchbay");
    reveal_strlit("1.0.0");
    reveal_strlit("audio");
    reveal_strlit("t0");
    reveal_strlit("2");
    reveal_strlit("regular");
    reveal_strlit("ch0");
    lemma_escape_plain("1.0"@);
    lemma_escape_plain("Patchbay"@);
    lemma_escape_plain("1.0.0"@);
    lemma_escape_plain("audio"@);
    lemma_escape_plain("t0"@);
    lemma_escape_plain("2"@);
    lemma_escape_plain("regular"@);
    lemma_escape_plain("ch0"@);
    assert("<Project version=\"1.0\">"@ =~= "<"@ + "Project"@ + attr_markup(
        plain_attr("version"@, "1.0"@),
    ) + ">"@);
    assert("<Application name=\"Patchbay\" version=\"1.0.0\"/>"@ =~= "<"@ + "Application"@ + (
    attr_markup(plain_attr("name"@, "Patchbay"@)) + attr_markup(
        plain_attr("version"@, "1.0.0"@),
    )) + "/>"@);
    assert("<Structure>"@ =~= "<"@ + "Structure"@ + ">"@);
    assert("<Track contentType=\"audio\" id=\"t0\" name=\""@ =~= "<"@ + "Track"@ + (attr_markup(
        plain_attr("contentType"@, "audio"@),
    ) + attr_markup(plain_attr("id"@, "t0"@)) + (" "@ + "name"@ + "=\""@)));
    assert("\">"@ =~= "\""@ + ">"@);
    assert("<Channel audioChannels=\"2\" role=\"regular\" id=\"ch0\">"@ =~= "<"@ + "Channel"@ + (
    attr_markup(plain_attr("audioChannels"@, "2"@)) + attr_markup(
        plain_attr("role"@, "regular"@),
    ) + attr_markup(plain_attr("id"@, "ch0"@))) + ">"@);
    assert("<Devices>"@ =~= "<"@ + "Devices"@ + ">"@);
    assert("</Devices>"@ =~= "</"@ + "Devices"@ + ">"@);
    assert("</Channel>"@ =~= "</"@ + "Channel"@ + ">"@);
    assert("</Track>"@ =~= "</"@ + "Track"@ + ">"@);
    assert("</Structure>"@ =~= "</"@ + "Structure"@ + ">"@);
    assert("</Project>"@ =~= "</"@ + "Project"@ + ">"@);
}

/// The markup of the track of a chain.
proof fn lemma_track(chain: ChainModel, ids: Seq<Seq<(Seq<char>, FieldModel)>>)
    ensures
        markup(track_node(chain, ids)) == "<Track contentType=\"audio\" id=\"t0\" name=\""@ + escape(
            chain.name,
        ) + "\">"@ + ("\n      "@ + ("<Channel audioChannels=\"2\" role=\"regular\" id=\"ch0\">"@
            + ("\n        "@ + ("<Devices>"@ + markups(devices_node(chain.slots, ids).children)
            + "</Devices>"@) + "\n      "@) + "</Channel>"@) + "\n    "@) + "</Track>"@,
{
    lemma_project_words();
    let devices = devices_node(chain.slots, ids);
    let channel = channel_node(chain.slots, ids);
    lemma_bare_tag("Devices"@);
    lemma_element("Devices"@, Seq::empty(), devices.children, "<Devices>"@, "</Devices>"@);
    lemma_three_attrs(channel.attrs[0], channel.attrs[1], channel.attrs[2]);
    assert(channel.attrs =~= seq![channel.attrs[0], channel.attrs[1], channel.attrs[2]]);
    lemma_element(
        "Channel"@,
        channel.attrs,
        channel.children,
        "<Channel audioChannels=\"2\" role=\"regular\" id=\"ch0\">"@,
        "</Channel>"@,
    );
    lemma_three_nodes(text_node("\n        "@), devices, text_node("\n      "@));
    let track = track_node(chain, ids);
    let open = "<Track contentType=\"audio\" id=\"t0\" name=\""@ + escape(chain.name) + "\">"@;
    lemma_three_attrs(track.attrs[0], track.attrs[1], track.attrs[2]);
    assert(track.attrs =~= seq![track.attrs[0], track.attrs[1], track.attrs[2]]);
    assert(open == "<"@ + "Track"@ + attrs_markup(track.attrs) + ">"@) by {
        broadcast use lemma_add_assoc;

    }
    lemma_element("Track"@, track.attrs, track.children, open, "</Track>"@);
    lemma_three_nodes(text_node("\n      "@), channel, text_node("\n    "@));
}

/// The pieces of a project, as they are written and as they are nested. `w[i]` is what
/// stands between the tags `open[i]` and `close[i]` and those in them.
proof fn lemma_nest_project(
    d: Seq<char>,
    open: Seq<Seq<char>>,
    close: Seq<Seq<char>>,
    w: Seq<Seq<char>>,
    a: Seq<char>,
    name: Seq<char>,
    q: Seq<char>,
    devices: Seq<char>,
    e: Seq<char>,
)
    ensures
        (d + open[0] + w[0] + a + w[0] + open[1] + w[1] + open[2]) + name + (q + w[2] + open[3]
            + w[3] + open[4] + e) + devices + (w[3] + close[4] + w[2] + close[3] + w[1] + close[2]
            + w[0] + close[1] + e + close[0]) == d + (open[0] + (w[0] + a + w[0] + (open[1] + (w[1]
            + (open[2] + name + q + (w[2] + (open[3] + (w[3] + (open[4] + (e + devices + w[3])
            + close[4]) + w[2]) + close[3]) + w[1]) + close[2]) + w[0]) + close[1]) + e)
            + close[0]),
{
    broadcast use lemma_add_assoc;

}

/// The markup of the element around the track.
proof fn lemma_structure(chain: ChainModel, ids: Seq<Seq<(Seq<char>, FieldModel)>>)
    ensures
        markup(structure_node(chain, ids)) == "<Structure>"@ + ("\n    "@ + markup(
            track_node(chain, ids),
        ) + "\n  "@) + "</Structure>"@,
{
    lemma_project_words();
    let structure = structure_node(chain, ids);
    lemma_bare_tag("Structure"@);
    lemma_element("Structure"@, Seq::empty(), structure.children, "<Structure>"@, "</Structure>"@);
    lemma_three_nodes(text_node("\n    "@), track_node(chain, ids), text_node("\n  "@));
}

/// The markup of the project.
proof fn lemma_project_markup(chain: ChainModel, ids: Seq<Seq<(Seq<char>, FieldModel)>>)
    ensures
        markup(project_node(chain, ids)) == "<Project version=\"1.0\">"@ + ("\n  "@
            + "<Application name=\"Patchbay\" version=\"1.0.0\"/>"@ + "\n  "@ + markup(
            structure_node(chain, ids),
        ) + "\n"@) + "</Project>"@,
{
    lemma_project_words();
    let structure = structure_node(chain, ids);
    let application = application_node();
    lemma_three_attrs(application.attrs[0], application.attrs[1], application.attrs[1]);
    assert(application.attrs =~= seq![application.attrs[0], application.attrs[1]]);
    assert(markup(application) == "<Application name=\"Patchbay\" version=\"1.0.0\"/>"@);
    let project = project_node(chain, ids);
    let version = plain_attr("version"@, "1.0"@);
    lemma_three_attrs(version, version, version);
    lemma_element(
        "Project"@,
        project.attrs,
        project.children,
        "<Project version=\"1.0\">"@,
        "</Project>"@,
    );
    let three = seq![text_node("\n  "@), application, text_node("\n  "@)];
    lemma_three_nodes(text_node("\n  "@), application, text_node("\n  "@));
    lemma_markups_push(three, structure);
    lemma_markups_push(three.push(structure), text_node("\n"@));
    assert(project.children =~= three.push(structure).push(text_node("\n"@)));
}

/// The text of `project.xml` is the declaration and the markup of the project.
#[verifier::rlimit(40)]
proof fn lemma_project(chain: ChainModel, ids: Seq<Seq<(Seq<char>, FieldModel)>>)
    ensures
        project_xml(chain, ids) == DECLARATION@ + markup(project_node(chain, ids)),
{
    lemma_track(chain, ids);
    lemma_structure(chain, ids);
    lemma_project_markup(chain, ids);
    lemma_templates();
    lemma_devices_content(chain.slots, ids);
    lemma_nest_project(
        DECLARATION@,
        seq![
            "<Project version=\"1.0\">"@,
            "<Structure>"@,
            "<Track contentType=\"audio\" id=\"t0\" name=\""@,
            "<Channel audioChannels=\"2\" role=\"regular\" id=\"ch0\">"@,
            "<Devices>"@,
        ],
        seq!["</Project>"@, "</Structure>"@, "</Track>"@, "</Channel>"@, "</Devices>"@],
        seq!["\n  "@, "\n    "@, "\n      "@, "\n        "@],
        "<Application name=\"Patchbay\" version=\"1.0.0\"/>"@,
        escape(chain.name),
        "\">"@,
        join(device_texts(chain.slots, ids), "\n"@),
        "\n"@,
    );
}

// ---------------------------------------------------------------------------
// The tree can be written
// ---------------------------------------------------------------------------

/// The tags are names.
proof fn lemma_tags_are_names()
    ensures
        is_name("Project"@),
        is_name("Application"@),
        is_name("Structure"@),
        is_name("Track"@),
        is_name("Channel"@),
        is_name("Devices"@),
        is_name("Enabled"@),
        is_name("State"@),
        is_name("Builtin"@),
        is_name("Vst3Plugin"@),
        is_name("Vst2Plugin"@),
        is_name("AuPlugin"@),
        is_name("ClapPlugin"@),
{
    reveal_strlit("Project");
    reveal_strlit("Application");
    reveal_strlit("Structure");
    reveal_strlit("Track");
    reveal_strlit("Channel");
    reveal_strlit("Devices");
    reveal_strlit("Enabled");
    reveal_strlit("State");
    reveal_strlit("Builtin");
    reveal_strlit("Vst3Plugin");
    reveal_strlit("Vst2Plugin");
    reveal_strlit("AuPlugin");
    reveal_strlit("ClapPlugin");
}

/// The names of attributes are names.
proof fn lemma_attr_names()
    ensures
        is_attr_name("version"@),
        is_attr_name("name"@),
        is_attr_name("contentType"@),
        is_attr_name("id"@),
        is_attr_name("audioChannels"@),
        is_attr_name("role"@),
        is_attr_name("value"@),
        is_attr_name("path"@),
        is_attr_name("vendor"@),
        is_attr_name("deviceID"@),
        is_attr_name("uniqueId"@),
        is_attr_name("type"@),
        is_attr_name("subType"@),
        is_attr_name("manufacturer"@),
{
    reveal_strlit("xmlns");
    assert("xmlns"@[0] == 'x');
    reveal_strlit("version");
    assert("version"@[0] == 'v');
    reveal_strlit("name");
    assert("name"@[0] == 'n');
    reveal_strlit("contentType");
    assert("contentType"@[0] == 'c');
    reveal_strlit("id");
    assert("id"@[0] == 'i');
    reveal_strlit("audioChannels");
    assert("audioChannels"@[0] == 'a');
    reveal_strlit("role");
    assert("role"@[0] == 'r');
    reveal_strlit("value");
    assert("value"@[0] == 'v');
    reveal_strlit("path");
    assert("path"@[0] == 'p');
    reveal_strlit("vendor");
    assert("vendor"@[0] == 'v');
    reveal_strlit("deviceID");
    assert("deviceID"@[0] == 'd');
    reveal_strlit("uniqueId");
    assert("uniqueId"@[0] == 'u');
    reveal_strlit("type");
    assert("type"@[0] == 't');
    reveal_strlit("subType");
    assert("subType"@[0] == 's');
    reveal_strlit("manufacturer");
    assert("manufacturer"@[0] == 'm');
}

/// The values that every project has are values.
proof fn lemma_fixed_values()
    ensures
        is_value("1.0"@),
        is_value("Patchbay"@),
        is_value("1.0.0"@),
        is_value("audio"@),
        is_value("t0"@),
        is_value("2"@),
        is_value("regular"@),
        is_value("ch0"@),
        is_value("true"@),
        is_value("false"@),
{
    reveal_strlit("1.0");
    reveal_strlit("Patchbay");
    reveal_strlit("1.0.0");
    reveal_strlit("audio");
    reveal_strlit("t0");
    reveal_strlit("2");
    reveal_strlit("regular");
    reveal_strlit("ch0");
    reveal_strlit("true");
    reveal_strlit("false");
}

/// Line ends and indents are content.
proof fn lemma_blanks()
    ensures
        is_writable(text_node("\n"@)),
        is_writable(text_node("\n  "@)),
        is_writable(text_node("\n    "@)),
        is_writable(text_node("\n      "@)),
        is_writable(text_node("\n        "@)),
        is_writable(text_node("\n\n        "@)),
        is_writable(text_node("\n          "@)),
{
    reveal_strlit("\n");
    reveal_strlit("\n  ");
    reveal_strlit("\n    ");
    reveal_strlit("\n      ");
    reveal_strlit("\n        ");
    reveal_strlit("\n\n        ");
    reveal_strlit("\n          ");
}

/// Whether what identifies a device can be read back: what names it can be written in
/// attributes, and a number that identifies it has 64 bits.
pub open spec fn is_plain_identity(id: Seq<(Seq<char>, FieldModel)>) -> bool {
    match plugin_tag(id) {
        Some(p) => (forall|k: int| 0 <= k < p.1.len() ==> is_value((#[trigger] p.1[k]).value))
            && (p.0 == "Vst2Plugin"@ ==> i64::MIN <= vst2_id(id) <= i64::MAX),
        None => is_value(text_or(id, "name"@, "Unknown"@)),
    }
}

/// A path is a value.
proof fn lemma_path_value(i: nat)
    ensures
        is_value(state_path(i as int)),
{
    reveal_strlit("plugins/state_");
    reveal_strlit(".bin");
    lemma_decimal_digits(i);
    let p = state_path(i as int);
    let n = decimal(i).len() as int;
    assert forall|k: int| 0 <= k < p.len() implies is_visible(#[trigger] p[k]) by {
        if k < 14 {
            assert(p[k] == "plugins/state_"@[k]);
        } else if k < 14 + n {
            assert(p[k] == decimal(i)[k - 14]);
        } else {
            assert(p[k] == ".bin"@[k - 14 - n]);
        }
    }
}

/// The attributes of a plugin can be written.
proof fn lemma_plugin_attrs(id: Seq<(Seq<char>, FieldModel)>)
    requires
        is_plain_identity(id),
        plugin_tag(id) is Some,
    ensures
        is_name((plugin_tag(id)->0).0),
        are_attrs((plugin_tag(id)->0).1),
{
    let p = plugin_tag(id)->0;
    let list = p.1;
    lemma_tags_are_names();
    lemma_attr_names();
    reveal_strlit("name");
    reveal_strlit("vendor");
    reveal_strlit("deviceID");
    reveal_strlit("uniqueId");
    reveal_strlit("type");
    reveal_strlit("subType");
    reveal_strlit("manufacturer");
    reveal_strlit("id");
    assert("name"@[0] == 'n' && "vendor"@.len() == 6 && "type"@[0] == 't' && "subType"@.len() == 7
        && "manufacturer"@.len() == 12 && "id"@.len() == 2 && "deviceID"@.len() == 8
        && "uniqueId"@.len() == 8);
    assert(is_value(list[0].value) && is_value(list[1].value) && is_value(list[2].value));
    if list.len() == 4 {
        assert(is_value(list[3].value));
    }
}

/// The device of a slot can be written.
proof fn lemma_writable_device(slot: SlotModel, id: Seq<(Seq<char>, FieldModel)>, i: nat)
    requires
        is_plain_identity(id),
    ensures
        is_writable(device_node(slot, id, i as int)),
{
    lemma_tags_are_names();
    lemma_attr_names();
    lemma_fixed_values();
    lemma_blanks();
    let end = text_node("\n"@);
    let on = enabled_node(!slot.bypass);
    let value = if !slot.bypass {
        "true"@
    } else {
        "false"@
    };
    let none = Seq::<XmlModel>::empty();
    assert(can_stand(none));
    lemma_one_attr("value"@, value);
    lemma_writable_element("Enabled"@, seq![plain_attr("value"@, value)], none);
    lemma_stand_three(end, on, end);
    let nodes = switch_nodes(slot);
    let inner = inner_nodes(slot, i as int);
    if state_bytes(slot) is Some {
        let state = state_node(i as int);
        lemma_path_value(i);
        lemma_one_attr("path"@, state_path(i as int));
        lemma_writable_element("State"@, seq![plain_attr("path"@, state_path(i as int))], none);
        lemma_stand_push(nodes, state);
        lemma_stand_push(nodes.push(state), end);
    }
    match plugin_tag(id) {
        Some(p) => {
            lemma_plugin_attrs(id);
            lemma_writable_element(p.0, p.1, inner);
        },
        None => {
            let name = text_or(id, "name"@, "Unknown"@);
            lemma_one_attr("name"@, name);
            lemma_writable_element("Builtin"@, seq![plain_attr("name"@, name)], inner);
        },
    }
}

/// The devices of the slots can be written.
proof fn lemma_writable_devices(
    slots: Seq<SlotModel>,
    ids: Seq<Seq<(Seq<char>, FieldModel)>>,
    n: nat,
)
    requires
        n <= slots.len(),
        forall|i: int| 0 <= i < n ==> is_plain_identity(#[trigger] ids[i]),
    ensures
        can_stand(device_nodes(slots, ids, n)),
        n > 0 ==> device_nodes(slots, ids, n).len() > 0 && device_nodes(slots, ids, n).last().kind
            == XmlKind::Element,
    decreases n,
{
    if n > 0 {
        let k = (n - 1) as nat;
        lemma_writable_devices(slots, ids, k);
        lemma_blanks();
        assert(is_plain_identity(ids[k as int]));
        lemma_writable_device(slots[k as int], ids[k as int], k);
        let before = device_nodes(slots, ids, k);
        let indent = text_node("\n          "@);
        if k == 0 {
            assert(before.len() == 0);
        }
        lemma_stand_push(before, indent);
        lemma_stand_push(
            before.push(indent),
            device_node(slots[k as int], ids[k as int], k as int),
        );
    } else {
        assert(can_stand(Seq::<XmlModel>::empty()));
    }
}

/// The project of a chain can be written.
proof fn lemma_writable_project(chain: ChainModel, ids: Seq<Seq<(Seq<char>, FieldModel)>>)
    requires
        is_value(chain.name),
        forall|i: int| 0 <= i < chain.slots.len() ==> is_plain_identity(#[trigger] ids[i]),
    ensures
        is_writable(project_node(chain, ids)),
{
    lemma_tags_are_names();
    lemma_attr_names();
    lemma_fixed_values();
    lemma_blanks();
    reveal_strlit("version");
    reveal_strlit("name");
    reveal_strlit("contentType");
    reveal_strlit("id");
    reveal_strlit("audioChannels");
    reveal_strlit("role");
    assert("version"@.len() == 7 && "name"@[0] == 'n' && "contentType"@.len() == 11 && "id"@.len()
        == 2 && "audioChannels"@.len() == 13 && "role"@[0] == 'r' && "name"@.len() == 4
        && "role"@.len() == 4);
    let none = Seq::<XmlModel>::empty();
    assert(can_stand(none));
    let bare = Seq::<AttrModel>::empty();
    assert(are_attrs(bare));
    let slots = chain.slots;
    let devices = devices_node(slots, ids);
    lemma_writable_devices(slots, ids, slots.len());
    if slots.len() == 0 {
        let blank = text_node("\n\n        "@);
        lemma_stand_push(none, blank);
        assert(devices.children =~= none.push(blank));
    } else {
        lemma_stand_push(device_nodes(slots, ids, slots.len()), text_node("\n        "@));
    }
    lemma_writable_element("Devices"@, bare, devices.children);
    let channel = channel_node(slots, ids);
    lemma_attrs_differ(
        plain_attr("audioChannels"@, "2"@),
        plain_attr("role"@, "regular"@),
        plain_attr("id"@, "ch0"@),
    );
    lemma_stand_three(text_node("\n        "@), devices, text_node("\n      "@));
    lemma_writable_element("Channel"@, channel.attrs, channel.children);
    let track = track_node(chain, ids);
    lemma_attrs_differ(
        plain_attr("contentType"@, "audio"@),
        plain_attr("id"@, "t0"@),
        plain_attr("name"@, chain.name),
    );
    lemma_stand_three(text_node("\n      "@), channel, text_node("\n    "@));
    lemma_writable_element("Track"@, track.attrs, track.children);
    let structure = structure_node(chain, ids);
    lemma_stand_three(text_node("\n    "@), track, text_node("\n  "@));
    lemma_writable_element("Structure"@, bare, structure.children);
    let application = application_node();
    lemma_attrs_differ(
        plain_attr("name"@, "Patchbay"@),
        plain_attr("version"@, "1.0.0"@),
        plain_attr("id"@, "t0"@),
    );
    lemma_writable_element("Application"@, application.attrs, none);
    let project = project_node(chain, ids);
    lemma_one_attr("version"@, "1.0"@);
    let gap = text_node("\n  "@);
    let three = seq![gap, application, gap];
    lemma_stand_three(gap, application, gap);
    lemma_stand_push(three, structure);
    lemma_stand_push(three.push(structure), text_node("\n"@));
    assert(project.children =~= three.push(structure).push(text_node("\n"@)));
    lemma_writable_element("Project"@, project.attrs, project.children);
}

// ---------------------------------------------------------------------------
// What is read
// ---------------------------------------------------------------------------

/// The kind of the device that `id` identifies.
pub open spec fn kept_kind(id: Seq<(Seq<char>, FieldModel)>) -> KindModel {
    let vendor = Some(text_or(id, "vendor"@, ""@));
    let format = text_or(id, "format"@, "Builtin"@);
    if format == "VST3"@ {
        KindModel::Vst3 {
            device_id: text_or(id, "device_id"@, ""@),
            vendor,
            plugin_version: None,
        }
    } else if format == "VST2"@ {
        KindModel::Vst2 { unique_id: vst2_id(id), vendor, plugin_version: None }
    } else if format == "AU"@ {
        KindModel::Au {
            type_code: text_or(id, "type_code"@, ""@),
            sub_type: text_or(id, "sub_type"@, ""@),
            manufacturer: text_or(id, "manufacturer"@, ""@),
        }
    } else if format == "CLAP"@ {
        KindModel::Clap { id: text_or(id, "id"@, ""@), vendor, plugin_version: None }
    } else {
        KindModel::Builtin
    }
}

/// The device of a slot as it is read back: its name, its kind, whether it is on, and
/// its state.
pub open spec fn kept_device(slot: SlotModel, id: Seq<(Seq<char>, FieldModel)>) -> DeviceModel {
    DeviceModel {
        name: text_or(id, "name"@, "Unknown"@),
        is_enabled: !slot.bypass,
        kind: kept_kind(id),
        opaque_state: match state_bytes(slot) {
            Some(bytes) => Some(encode(bytes)),
            None => None,
        },
    }
}

/// The project of a chain as it is read back: one track with the name of the chain and
/// the devices of its slots, in order.
pub open spec fn kept_project(chain: ChainModel) -> ProjectModel {
    let ids = identities(chain.slots);
    ProjectModel {
        version: "1.0"@,
        application: Some(("Patchbay"@, "1.0.0"@)),
        tracks: seq![
            TrackModel {
                id: Some("t0"@),
                name: chain.name,
                color: None,
                content_type: Some("audio"@),
                channel: Some(
                    ChannelModel {
                        id: Some("ch0"@),
                        role: Some("regular"@),
                        audio_channels: Some(2),
                        devices: Seq::new(
                            chain.slots.len(),
                            |i: int| kept_device(chain.slots[i], ids[i]),
                        ),
                    },
                ),
                children: Seq::empty(),
            },
        ],
    }
}

/// The kind of a device reads back.
proof fn lemma_read_kind(slot: SlotModel, id: Seq<(Seq<char>, FieldModel)>, i: nat)
    requires
        is_plain_identity(id),
    ensures
        kind_of(device_node(slot, id, i as int)) == kept_kind(id),
        attr_or(
            device_node(slot, id, i as int),
            "name"@,
            device_node(slot, id, i as int).tag,
        ) == text_or(id, "name"@, "Unknown"@),
{
    reveal_with_fuel(attr_from, 5);
    reveal_strlit("name");
    reveal_strlit("vendor");
    reveal_strlit("deviceID");
    reveal_strlit("uniqueId");
    reveal_strlit("type");
    reveal_strlit("subType");
    reveal_strlit("manufacturer");
    reveal_strlit("id");
    reveal_strlit("pluginVersion");
    assert("name"@[0] == 'n' && "vendor"@.len() == 6 && "type"@[0] == 't' && "subType"@.len() == 7
        && "manufacturer"@.len() == 12 && "id"@.len() == 2 && "deviceID"@.len() == 8
        && "uniqueId"@.len() == 8 && "pluginVersion"@.len() == 13 && "name"@.len() == 4
        && "type"@.len() == 4);
    reveal_strlit("Vst3Plugin");
    reveal_strlit("Vst2Plugin");
    reveal_strlit("AuPlugin");
    reveal_strlit("ClapPlugin");
    reveal_strlit("Builtin");
    assert("Vst3Plugin"@[3] == '3' && "Vst2Plugin"@[3] == '2' && "AuPlugin"@.len() == 8
        && "ClapPlugin"@[0] == 'C' && "Builtin"@.len() == 7 && "Vst3Plugin"@.len() == 10
        && "Vst2Plugin"@.len() == 10 && "ClapPlugin"@.len() == 10 && "Vst2Plugin"@[0] == 'V'
        && "Vst3Plugin"@[0] == 'V');
    let n = device_node(slot, id, i as int);
    if n.tag == "Vst2Plugin"@ {
        law_decimal_reads_back(vst2_id(id), i64::MIN as int, i64::MAX as int);
    }
}

/// A device reads back.
proof fn lemma_read_device(
    slot: SlotModel,
    id: Seq<(Seq<char>, FieldModel)>,
    i: nat,
    states: spec_fn(Seq<char>) -> Option<Seq<u8>>,
)
    requires
        is_plain_identity(id),
        state_bytes(slot) is Some ==> states(state_path(i as int)) == state_bytes(slot),
    ensures
        device_of(device_node(slot, id, i as int), states) == kept_device(slot, id),
{
    lemma_read_kind(slot, id, i);
    reveal_with_fuel(attr_from, 2);
    reveal_with_fuel(tagged_from, 6);
    reveal_strlit("Enabled");
    reveal_strlit("State");
    reveal_strlit("true");
    reveal_strlit("false");
    assert("Enabled"@.len() == 7 && "State"@.len() == 5);
    let n = device_node(slot, id, i as int);
    assert(child(n, "Enabled"@) == Some(n.children[1]));
    let lower = |c: char| ascii_lower(c);
    if slot.bypass {
        assert(is_enabled(n) == false);
    } else {
        let a = "true"@.map_values(lower);
        let b = "false"@.map_values(lower);
        assert(a.len() == 4 && b.len() == 5);
        assert(is_enabled(n) == true);
    }
    if state_bytes(slot) is Some {
        assert(child(n, "State"@) == Some(n.children[3]));
    } else {
        assert(child(n, "State"@) is None);
    }
}

/// The devices of the slots read back, in order.
proof fn lemma_read_devices(
    slots: Seq<SlotModel>,
    ids: Seq<Seq<(Seq<char>, FieldModel)>>,
    n: nat,
    states: spec_fn(Seq<char>) -> Option<Seq<u8>>,
)
    requires
        n <= slots.len(),
        forall|i: int| 0 <= i < n ==> is_plain_identity(#[trigger] ids[i]),
        forall|i: int|
            0 <= i < slots.len() && state_bytes(#[trigger] slots[i]) is Some ==> states(
                state_path(i),
            ) == state_bytes(slots[i]),
    ensures
        devices_in(device_nodes(slots, ids, n), states) == Seq::new(
            n,
            |i: int| kept_device(slots[i], ids[i]),
        ),
    decreases n,
{
    reveal_with_fuel(devices_in, 3);
    if n > 0 {
        let k = (n - 1) as nat;
        lemma_read_devices(slots, ids, k, states);
        assert(is_plain_identity(ids[k as int]));
        lemma_read_device(slots[k as int], ids[k as int], k, states);
        let before = device_nodes(slots, ids, k);
        let indent = text_node("\n          "@);
        let node = device_node(slots[k as int], ids[k as int], k as int);
        assert(before.push(indent).drop_last() =~= before);
        assert(before.push(indent).push(node).drop_last() =~= before.push(indent));
        assert(devices_in(device_nodes(slots, ids, n), states) =~= Seq::new(
            n,
            |i: int| kept_device(slots[i], ids[i]),
        ));
    } else {
        assert(devices_in(device_nodes(slots, ids, n), states) =~= Seq::new(
            n,
            |i: int| kept_device(slots[i], ids[i]),
        ));
    }
}

/// The channel reads back.
proof fn lemma_read_channel(
    slots: Seq<SlotModel>,
    ids: Seq<Seq<(Seq<char>, FieldModel)>>,
    states: spec_fn(Seq<char>) -> Option<Seq<u8>>,
)
    requires
        forall|i: int| 0 <= i < slots.len() ==> is_plain_identity(#[trigger] ids[i]),
        forall|i: int|
            0 <= i < slots.len() && state_bytes(#[trigger] slots[i]) is Some ==> states(
                state_path(i),
            ) == state_bytes(slots[i]),
    ensures
        channel_of(channel_node(slots, ids), states) == (ChannelModel {
            id: Some("ch0"@),
            role: Some("regular"@),
            audio_channels: Some(2),
            devices: Seq::new(slots.len(), |i: int| kept_device(slots[i], ids[i])),
        }),
{
    reveal_with_fuel(attr_from, 4);
    reveal_with_fuel(tagged_from, 3);
    reveal_with_fuel(devices_in, 2);
    reveal_strlit("audioChannels");
    reveal_strlit("role");
    reveal_strlit("id");
    reveal_strlit("2");
    assert("audioChannels"@.len() == 13 && "role"@.len() == 4 && "id"@.len() == 2);
    assert(signed_decimal(2) =~= "2"@);
    law_decimal_reads_back(2, 0, u32::MAX as int);
    let channel = channel_node(slots, ids);
    let devices = devices_node(slots, ids);
    assert(child(channel, "Devices"@) == Some(devices));
    lemma_read_devices(slots, ids, slots.len(), states);
    let want = Seq::new(slots.len(), |i: int| kept_device(slots[i], ids[i]));
    if slots.len() == 0 {
        assert(devices.children.drop_last() =~= Seq::empty());
        assert(devices_in(devices.children, states) =~= want);
    } else {
        let nodes = device_nodes(slots, ids, slots.len());
        assert(devices.children.drop_last() =~= nodes);
        assert(devices_in(devices.children, states) =~= want);
    }
}

/// The project reads back.
proof fn lemma_read_project(chain: ChainModel, states: spec_fn(Seq<char>) -> Option<Seq<u8>>)
    requires
        forall|i: int|
            0 <= i < chain.slots.len() ==> is_plain_identity(#[trigger] identities(chain.slots)[i]),
        forall|i: int|
            0 <= i < chain.slots.len() && state_bytes(#[trigger] chain.slots[i]) is Some ==> states(
                state_path(i),
            ) == state_bytes(chain.slots[i]),
    ensures
        project_of(project_node(chain, identities(chain.slots)), states) == kept_project(chain),
{
    let ids = identities(chain.slots);
    lemma_read_channel(chain.slots, ids, states);
    reveal_with_fuel(attr_from, 4);
    reveal_with_fuel(tagged_from, 6);
    reveal_with_fuel(tracks_in, 5);
    reveal_with_fuel(track_of, 2);
    reveal_strlit("version");
    reveal_strlit("name");
    reveal_strlit("contentType");
    reveal_strlit("id");
    reveal_strlit("color");
    reveal_strlit("Application");
    reveal_strlit("Structure");
    reveal_strlit("Track");
    reveal_strlit("Channel");
    assert("version"@.len() == 7 && "name"@.len() == 4 && "contentType"@.len() == 11 && "id"@.len()
        == 2 && "color"@.len() == 5 && "Application"@.len() == 11 && "Structure"@.len() == 9
        && "Track"@.len() == 5 && "Channel"@.len() == 7);
    let root = project_node(chain, ids);
    let structure = structure_node(chain, ids);
    let track = track_node(chain, ids);
    let channel = channel_node(chain.slots, ids);
    assert(child(root, "Application"@) == Some(application_node()));
    assert(child(root, "Structure"@) == Some(structure));
    assert(child(track, "Channel"@) == Some(channel));
    let a = text_node("\n      "@);
    let b = text_node("\n    "@);
    let c = text_node("\n  "@);
    let none = Seq::<XmlModel>::empty();
    assert(track.children.drop_last() =~= seq![a, channel]);
    assert(seq![a, channel].drop_last() =~= seq![a]);
    assert(seq![a].drop_last() =~= none);
    assert(tracks_in(track.children, states) =~= Seq::<TrackModel>::empty());
    assert(structure.children.drop_last() =~= seq![b, track]);
    assert(seq![b, track].drop_last() =~= seq![b]);
    assert(seq![b].drop_last() =~= none);
    assert(tracks_in(structure.children, states) =~= seq![track_of(track, states)]);
    assert(track_of(track, states) == kept_project(chain).tracks[0]);
    assert(project_of(root, states).tracks =~= kept_project(chain).tracks);
}

/// Whether a chain can be read back from its archive: its name and what identifies its
/// devices can be written in attributes, and the text of the project is shorter than what
/// 32 bits can count.
pub open spec fn is_plain_chain(chain: ChainModel) -> bool {
    &&& is_value(chain.name)
    &&& forall|i: int|
        0 <= i < chain.slots.len() ==> is_plain_identity(#[trigger] identities(chain.slots)[i])
    &&& project_xml(chain, identities(chain.slots)).len() < u32::MAX
}

/// The text of the project in an archive that holds a chain writes the project of the
/// chain, which reads as the chain.
pub proof fn lemma_archive_of_chain(data: Seq<u8>, chain: ChainModel)
    requires
        holds_chain(data, chain),
        is_plain_chain(chain),
    ensures
        writes(
            project_xml(chain, identities(chain.slots)),
            project_node(chain, identities(chain.slots)),
        ),
        project_of(project_node(chain, identities(chain.slots)), archive_states(data))
            == kept_project(chain),
{
    let ids = identities(chain.slots);
    lemma_project(chain, ids);
    lemma_writable_project(chain, ids);
    let states = archive_states(data);
    assert forall|i: int|
        0 <= i < chain.slots.len() && state_bytes(#[trigger] chain.slots[i]) is Some implies states(
        state_path(i),
    ) == state_bytes(chain.slots[i]) by {}
    lemma_read_project(chain, states);
}

} // verus!
