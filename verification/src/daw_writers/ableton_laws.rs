//! What the reader makes of an `.adg` file that was written for a chain.
use vstd::prelude::*;

use crate::daw_readers::ableton::{
    branch_devices, chain_items, data_text, data_text_from, device_of, devices_in,
    effective_name_of, is_active, node_text, plugin_of, rack_of, rack_type_of, texts_of,
    DeviceModel, ErrorModel, PluginFormat, RackModel, RackType, TypeModel,
};
use crate::daw_writers::ableton::{
    device_text, device_texts, info_body, info_tag, name_and_switch, preset_tag, preset_text,
    rack_xml, truth_text,
    RACK_BODY, RACK_HEAD, RACK_TAIL,
};
use crate::daw_writers::identities;
use crate::db::{ChainModel, SlotModel};
use crate::json::{text_or, FieldModel};
use crate::markup::{
    are_attrs, attrs_markup, can_stand, element, is_attr_name, is_content, is_name, is_value,
    is_writable, led, led_markup, lemma_add_assoc, lemma_attrs_push, lemma_bare_tag,
    lemma_element, lemma_escape_plain, lemma_led_places, lemma_markups_push, lemma_number_plain,
    lemma_one_attr, lemma_spaced_first, lemma_spaced_markup, lemma_spaced_stand,
    lemma_spaced_tagged, lemma_stand_push, lemma_three_attrs, lemma_three_nodes,
    lemma_writable_element, markup, markups, plain_attr, spaced, text_node, writes, DECLARATION,
};
use crate::number::decimal;
use crate::text::{ascii_lower, escape, join, trim};
use crate::xml::{attr, attr_from, child, tagged_from, AttrModel, XmlKind, XmlModel};

verus! {

// ---------------------------------------------------------------------------
// The tree of a device
// ---------------------------------------------------------------------------

/// An element with one value.
pub open spec fn value_node(tag: Seq<char>, value: Seq<char>) -> XmlModel {
    element(tag, seq![plain_attr("Value"@, value)], Seq::empty())
}

/// The name of a device.
pub open spec fn name_node(name: Seq<char>) -> XmlModel {
    element("Name"@, Seq::empty(), seq![value_node("EffectiveName"@, name)])
}

/// The switch of a device.
pub open spec fn on_node(active: bool) -> XmlModel {
    element("On"@, Seq::empty(), seq![value_node("Manual"@, truth_text(active))])
}

/// The attribute of an element without a number of its own.
pub open spec fn zero_id() -> Seq<AttrModel> {
    seq![plain_attr("Id"@, "0"@)]
}

/// The element with the name of a plugin of the given format.
pub open spec fn name_tag(format: Seq<char>) -> Seq<char> {
    if format == "VST3"@ || format == "AU"@ {
        "Name"@
    } else {
        "PlugName"@
    }
}

/// The element with the vendor of a plugin of the given format.
pub open spec fn vendor_tag(format: Seq<char>) -> Seq<char> {
    if format == "AU"@ {
        "Manufacturer"@
    } else {
        "VendorString"@
    }
}

/// The description of a plugin.
pub open spec fn info_node(format: Seq<char>, name: Seq<char>, vendor: Seq<char>) -> XmlModel {
    element(
        info_tag(format),
        zero_id(),
        seq![value_node(name_tag(format), name), value_node(vendor_tag(format), vendor)],
    )
}

/// The element around the description of a plugin.
pub open spec fn desc_node(format: Seq<char>, name: Seq<char>, vendor: Seq<char>) -> XmlModel {
    element("PluginDesc"@, Seq::empty(), seq![info_node(format, name, vendor)])
}

/// The element with the data of a state.
pub open spec fn data_node(data: Seq<char>) -> XmlModel {
    element("Data"@, Seq::empty(), seq![text_node(data)])
}

/// The list of chunks around the data of a VST2 state.
pub open spec fn chunks_node(data: Seq<char>) -> XmlModel {
    element(
        "PluginDataChunkList"@,
        Seq::empty(),
        seq![element("PluginDataChunk"@, zero_id(), seq![data_node(data)])],
    )
}

/// The state of a plugin.
pub open spec fn state_node(format: Seq<char>, state: Option<Seq<char>>) -> XmlModel {
    element(
        preset_tag(format),
        zero_id(),
        match state {
            None => Seq::empty(),
            Some(data) => if format == "VST2"@ {
                seq![chunks_node(data)]
            } else {
                seq![data_node(data)]
            },
        },
    )
}

/// The element around the state of a plugin.
pub open spec fn preset_node(format: Seq<char>, state: Option<Seq<char>>) -> XmlModel {
    element("Preset"@, Seq::empty(), seq![state_node(format, state)])
}

/// The nodes in a device of the workstation.
pub open spec fn builtin_nodes(name: Seq<char>, active: bool) -> Seq<XmlModel> {
    seq![name_node(name), on_node(active)]
}

/// The nodes in a plugin.
pub open spec fn plugin_nodes(slot: SlotModel, id: Seq<(Seq<char>, FieldModel)>) -> Seq<XmlModel> {
    let name = text_or(id, "name"@, "Unknown"@);
    let vendor = text_or(id, "vendor"@, ""@);
    let format = text_or(id, "format"@, "VST2"@);
    seq![
        name_node(name),
        on_node(!slot.bypass),
        desc_node(format, name, vendor),
        preset_node(format, slot.opaque_state),
    ]
}

/// Whether the state of a slot can stand between two tags as it is, where one is
/// written. A device of the workstation is written without its state.
pub open spec fn has_plain_state(slot: SlotModel, id: Seq<(Seq<char>, FieldModel)>) -> bool {
    text_or(id, "format"@, "VST2"@) == "Ableton"@ || match slot.opaque_state {
        Some(data) => is_content(data),
        None => true,
    }
}

/// The device of slot `i`, which `id` identifies.
pub open spec fn device_node(slot: SlotModel, id: Seq<(Seq<char>, FieldModel)>, i: int) -> XmlModel {
    let number = seq![plain_attr("Id"@, decimal(i as nat))];
    if text_or(id, "format"@, "VST2"@) == "Ableton"@ {
        element(
            text_or(id, "tag"@, "UnknownDevice"@),
            number,
            spaced(
                "\n"@,
                builtin_nodes(text_or(id, "name"@, "Unknown"@), !slot.bypass),
                "\n"@,
            ),
        )
    } else {
        element("PluginDevice"@, number, spaced("\n"@, plugin_nodes(slot, id), "\n"@))
    }
}

// ---------------------------------------------------------------------------
// The text of the tree of a device
// ---------------------------------------------------------------------------

/// The pieces of the elements in a device.
proof fn lemma_device_words()
    ensures
        "<Name><EffectiveName Value=\""@ == "<"@ + "Name"@ + ">"@ + "<"@ + "EffectiveName"@ + " "@
            + "Value"@ + "=\""@,
        "\"/></Name>\n<On><Manual Value=\""@ == "\""@ + "/>"@ + "</"@ + "Name"@ + ">"@ + "\n"@
            + "<"@ + "On"@ + ">"@ + "<"@ + "Manual"@ + " "@ + "Value"@ + "=\""@,
        "\"/></On>\n"@ == "\""@ + "/>"@ + "</"@ + "On"@ + ">"@ + "\n"@,
        "<PluginDesc><"@ == "<"@ + "PluginDesc"@ + ">"@ + "<"@,
        " Id=\"0\">"@ == " "@ + "Id"@ + "=\""@ + "0"@ + "\""@ + ">"@,
        " Id=\"0\"/>"@ == " "@ + "Id"@ + "=\""@ + "0"@ + "\""@ + "/>"@,
        "></PluginDesc>\n<Preset>"@ == ">"@ + "</"@ + "PluginDesc"@ + ">"@ + "\n"@ + "<"@
            + "Preset"@ + ">"@,
        "</Preset>\n</PluginDevice>"@ == "</"@ + "Preset"@ + ">"@ + "\n"@ + "</"@
            + "PluginDevice"@ + ">"@,
        "              <PluginDevice Id=\""@ == "              "@ + "<"@ + "PluginDevice"@ + " "@
            + "Id"@ + "=\""@,
        "              <"@ == "              "@ + "<"@,
        " Id=\""@ == " "@ + "Id"@ + "=\""@,
        "\">\n"@ == "\""@ + ">"@ + "\n"@,
{
    reveal_strlit("<Name><EffectiveName Value=\"");
    reveal_strlit("<");
    reveal_strlit("Name");
    reveal_strlit(">");
    reveal_strlit("EffectiveName");
    reveal_strlit(" ");
    reveal_strlit("Value");
    reveal_strlit("=\"");
    reveal_strlit("\"/></Name>\n<On><Manual Value=\"");
    reveal_strlit("\"");
    reveal_strlit("/>");
    reveal_strlit("</");
    reveal_strlit("\n");
    reveal_strlit("On");
    reveal_strlit("Manual");
    reveal_strlit("\"/></On>\n");
    reveal_strlit("<PluginDesc><");
    reveal_strlit("PluginDesc");
    reveal_strlit(" Id=\"0\">");
    reveal_strlit("Id");
    reveal_strlit("0");
    reveal_strlit(" Id=\"0\"/>");
    reveal_strlit("></PluginDesc>\n<Preset>");
    reveal_strlit("Preset");
    reveal_strlit("</Preset>\n</PluginDevice>");
    reveal_strlit("PluginDevice");
    reveal_strlit("              <PluginDevice Id=\"");
    reveal_strlit("              ");
    reveal_strlit("              <");
    reveal_strlit(" Id=\"");
    reveal_strlit("\">\n");
    assert("<Name><EffectiveName Value=\""@ =~= "<"@ + "Name"@ + ">"@ + "<"@ + "EffectiveName"@
        + " "@ + "Value"@ + "=\""@);
    assert("\"/></Name>\n<On><Manual Value=\""@ =~= "\""@ + "/>"@ + "</"@ + "Name"@ + ">"@ + "\n"@
        + "<"@ + "On"@ + ">"@ + "<"@ + "Manual"@ + " "@ + "Value"@ + "=\""@);
    assert("\"/></On>\n"@ =~= "\""@ + "/>"@ + "</"@ + "On"@ + ">"@ + "\n"@);
    assert("<PluginDesc><"@ =~= "<"@ + "PluginDesc"@ + ">"@ + "<"@);
    assert(" Id=\"0\">"@ =~= " "@ + "Id"@ + "=\""@ + "0"@ + "\""@ + ">"@);
    assert(" Id=\"0\"/>"@ =~= " "@ + "Id"@ + "=\""@ + "0"@ + "\""@ + "/>"@);
    assert("></PluginDesc>\n<Preset>"@ =~= ">"@ + "</"@ + "PluginDesc"@ + ">"@ + "\n"@ + "<"@
        + "Preset"@ + ">"@);
    assert("</Preset>\n</PluginDevice>"@ =~= "</"@ + "Preset"@ + ">"@ + "\n"@ + "</"@
        + "PluginDevice"@ + ">"@);
    assert("              <PluginDevice Id=\""@ =~= "              "@ + "<"@ + "PluginDevice"@
        + " "@ + "Id"@ + "=\""@);
    assert("              <"@ =~= "              "@ + "<"@);
    assert(" Id=\""@ =~= " "@ + "Id"@ + "=\""@);
    assert("\">\n"@ =~= "\""@ + ">"@ + "\n"@);
}

/// The pieces of the description and the state of a plugin.
proof fn lemma_plugin_words()
    ensures
        "<Name Value=\""@ == "<"@ + "Name"@ + " "@ + "Value"@ + "=\""@,
        "<PlugName Value=\""@ == "<"@ + "PlugName"@ + " "@ + "Value"@ + "=\""@,
        "\"/><VendorString Value=\""@ == "\""@ + "/>"@ + "<"@ + "VendorString"@ + " "@ + "Value"@
            + "=\""@,
        "\"/><Manufacturer Value=\""@ == "\""@ + "/>"@ + "<"@ + "Manufacturer"@ + " "@ + "Value"@
            + "=\""@,
        "\"/>"@ == "\""@ + "/>"@,
        " Id=\"0\"><Data>"@ == " "@ + "Id"@ + "=\""@ + "0"@ + "\""@ + ">"@ + "<"@ + "Data"@ + ">"@,
        "</Data></"@ == "</"@ + "Data"@ + ">"@ + "</"@,
        " Id=\"0\"><PluginDataChunkList><PluginDataChunk Id=\"0\"><Data>"@ == " "@ + "Id"@
            + "=\""@ + "0"@ + "\""@ + ">"@ + "<"@ + "PluginDataChunkList"@ + ">"@ + "<"@
            + "PluginDataChunk"@ + " "@ + "Id"@ + "=\""@ + "0"@ + "\""@ + ">"@ + "<"@ + "Data"@
            + ">"@,
        "</Data></PluginDataChunk></PluginDataChunkList></"@ == "</"@ + "Data"@ + ">"@ + "</"@
            + "PluginDataChunk"@ + ">"@ + "</"@ + "PluginDataChunkList"@ + ">"@ + "</"@,
        " Id=\"0\"/>"@ == " "@ + "Id"@ + "=\""@ + "0"@ + "\""@ + "/>"@,
{
    reveal_strlit("<Name Value=\"");
    reveal_strlit("<");
    reveal_strlit("Name");
    reveal_strlit(" ");
    reveal_strlit("Value");
    reveal_strlit("=\"");
    reveal_strlit("<PlugName Value=\"");
    reveal_strlit("PlugName");
    reveal_strlit("\"/><VendorString Value=\"");
    reveal_strlit("\"");
    reveal_strlit("/>");
    reveal_strlit("VendorString");
    reveal_strlit("\"/><Manufacturer Value=\"");
    reveal_strlit("Manufacturer");
    reveal_strlit("\"/>");
    reveal_strlit(" Id=\"0\"><Data>");
    reveal_strlit("Id");
    reveal_strlit("0");
    reveal_strlit(">");
    reveal_strlit("Data");
    reveal_strlit("</Data></");
    reveal_strlit("</");
    reveal_strlit(" Id=\"0\"><PluginDataChunkList><PluginDataChunk Id=\"0\"><Data>");
    reveal_strlit("PluginDataChunkList");
    reveal_strlit("PluginDataChunk");
    reveal_strlit("</Data></PluginDataChunk></PluginDataChunkList></");
    reveal_strlit(" Id=\"0\"/>");
    assert("<Name Value=\""@ =~= "<"@ + "Name"@ + " "@ + "Value"@ + "=\""@);
    assert("<PlugName Value=\""@ =~= "<"@ + "PlugName"@ + " "@ + "Value"@ + "=\""@);
    assert("\"/><VendorString Value=\""@ =~= "\""@ + "/>"@ + "<"@ + "VendorString"@ + " "@
        + "Value"@ + "=\""@);
    assert("\"/><Manufacturer Value=\""@ =~= "\""@ + "/>"@ + "<"@ + "Manufacturer"@ + " "@
        + "Value"@ + "=\""@);
    assert("\"/>"@ =~= "\""@ + "/>"@);
    assert(" Id=\"0\"><Data>"@ =~= " "@ + "Id"@ + "=\""@ + "0"@ + "\""@ + ">"@ + "<"@ + "Data"@
        + ">"@);
    assert("</Data></"@ =~= "</"@ + "Data"@ + ">"@ + "</"@);
    assert(" Id=\"0\"><PluginDataChunkList><PluginDataChunk Id=\"0\"><Data>"@ =~= " "@ + "Id"@
        + "=\""@ + "0"@ + "\""@ + ">"@ + "<"@ + "PluginDataChunkList"@ + ">"@ + "<"@
        + "PluginDataChunk"@ + " "@ + "Id"@ + "=\""@ + "0"@ + "\""@ + ">"@ + "<"@ + "Data"@
        + ">"@);
    assert("</Data></PluginDataChunk></PluginDataChunkList></"@ =~= "</"@ + "Data"@ + ">"@ + "</"@
        + "PluginDataChunk"@ + ">"@ + "</"@ + "PluginDataChunkList"@ + ">"@ + "</"@);
    assert(" Id=\"0\"/>"@ =~= " "@ + "Id"@ + "=\""@ + "0"@ + "\""@ + "/>"@);
}

/// The markup of an element with one value.
proof fn lemma_value(tag: Seq<char>, value: Seq<char>)
    ensures
        markup(value_node(tag, value)) == "<"@ + tag + (" "@ + "Value"@ + "=\""@ + escape(value)
            + "\""@) + "/>"@,
{
    let a = plain_attr("Value"@, value);
    lemma_three_attrs(a, a, a);
}

/// The attribute of an element without a number of its own.
proof fn lemma_zero_id()
    ensures
        attrs_markup(zero_id()) == " "@ + "Id"@ + "=\""@ + "0"@ + "\""@,
{
    let a = plain_attr("Id"@, "0"@);
    reveal_strlit("0");
    lemma_three_attrs(a, a, a);
    lemma_number_plain(0);
    assert(decimal(0) =~= "0"@);
}

/// The markup of an element without attributes and with one node in it.
proof fn lemma_around(tag: Seq<char>, n: XmlModel)
    ensures
        markup(element(tag, Seq::empty(), seq![n])) == "<"@ + tag + ">"@ + markup(n) + ("</"@ + tag
            + ">"@),
{
    lemma_bare_tag(tag);
    lemma_element(tag, Seq::empty(), seq![n], "<"@ + tag + ">"@, "</"@ + tag + ">"@);
    lemma_three_nodes(n, n, n);
}

/// The pieces of the name and the switch, as they are written and as they are nested.
proof fn lemma_nest_switch(
    lt: Seq<char>,
    lts: Seq<char>,
    gt: Seq<char>,
    sgt: Seq<char>,
    sp: Seq<char>,
    eq: Seq<char>,
    qt: Seq<char>,
    nl: Seq<char>,
    val: Seq<char>,
    t1: Seq<char>,
    t2: Seq<char>,
    v1: Seq<char>,
    t3: Seq<char>,
    t4: Seq<char>,
    v2: Seq<char>,
)
    ensures
        (lt + t1 + gt + lt + t2 + sp + val + eq) + v1 + (qt + sgt + lts + t1 + gt + nl + lt + t3
            + gt + lt + t4 + sp + val + eq) + v2 + (qt + sgt + lts + t3 + gt + nl) == (lt + t1 + gt
            + (lt + t2 + (sp + val + eq + v1 + qt) + sgt) + (lts + t1 + gt)) + nl + (lt + t3 + gt
            + (lt + t4 + (sp + val + eq + v2 + qt) + sgt) + (lts + t3 + gt)) + nl,
{
    broadcast use lemma_add_assoc;

}

/// The lines with the name and the switch of a device are the markup of their elements.
proof fn lemma_switch(name: Seq<char>, active: bool)
    ensures
        name_and_switch(escape(name), active) == markup(name_node(name)) + "\n"@ + markup(
            on_node(active),
        ) + "\n"@,
{
    lemma_device_words();
    lemma_value("EffectiveName"@, name);
    lemma_around("Name"@, value_node("EffectiveName"@, name));
    let truth = truth_text(active);
    reveal_strlit("true");
    reveal_strlit("false");
    lemma_escape_plain(truth);
    lemma_value("Manual"@, truth);
    lemma_around("On"@, value_node("Manual"@, truth));
    lemma_nest_switch(
        "<"@,
        "</"@,
        ">"@,
        "/>"@,
        " "@,
        "=\""@,
        "\""@,
        "\n"@,
        "Value"@,
        "Name"@,
        "EffectiveName"@,
        escape(name),
        "On"@,
        "Manual"@,
        truth,
    );
}

/// The pieces of two values, as they are written and as they are nested.
proof fn lemma_nest_values(
    lt: Seq<char>,
    sgt: Seq<char>,
    sp: Seq<char>,
    eq: Seq<char>,
    qt: Seq<char>,
    val: Seq<char>,
    t1: Seq<char>,
    v1: Seq<char>,
    t2: Seq<char>,
    v2: Seq<char>,
)
    ensures
        (lt + t1 + sp + val + eq) + v1 + (qt + sgt + lt + t2 + sp + val + eq) + v2 + (qt + sgt) == (
        lt + t1 + (sp + val + eq + v1 + qt) + sgt) + (lt + t2 + (sp + val + eq + v2 + qt) + sgt),
{
    broadcast use lemma_add_assoc;

}

/// What stands in the description of a plugin is the markup of its elements.
proof fn lemma_info_body(format: Seq<char>, name: Seq<char>, vendor: Seq<char>)
    ensures
        info_body(format, escape(name), escape(vendor)) == markup(
            value_node(name_tag(format), name),
        ) + markup(value_node(vendor_tag(format), vendor)),
{
    lemma_plugin_words();
    reveal_strlit("VST3");
    reveal_strlit("AU");
    assert("VST3"@.len() == 4 && "AU"@.len() == 2);
    lemma_value(name_tag(format), name);
    lemma_value(vendor_tag(format), vendor);
    lemma_nest_values(
        "<"@,
        "/>"@,
        " "@,
        "=\""@,
        "\""@,
        "Value"@,
        name_tag(format),
        escape(name),
        vendor_tag(format),
        escape(vendor),
    );
}

/// The markup of the description of a plugin.
proof fn lemma_info(format: Seq<char>, name: Seq<char>, vendor: Seq<char>)
    ensures
        markup(info_node(format, name, vendor)) == ("<"@ + info_tag(format) + (" "@ + "Id"@
            + "=\""@ + "0"@ + "\""@) + ">"@) + info_body(format, escape(name), escape(vendor)) + (
        "</"@ + info_tag(format) + ">"@),
{
    let tag = info_tag(format);
    let a = value_node(name_tag(format), name);
    let b = value_node(vendor_tag(format), vendor);
    lemma_info_body(format, name, vendor);
    lemma_zero_id();
    lemma_element(
        tag,
        zero_id(),
        seq![a, b],
        "<"@ + tag + (" "@ + "Id"@ + "=\""@ + "0"@ + "\""@) + ">"@,
        "</"@ + tag + ">"@,
    );
    let none = Seq::<XmlModel>::empty();
    lemma_markups_push(none, a);
    lemma_markups_push(none.push(a), b);
    assert(seq![a, b] =~= none.push(a).push(b));
    assert(markups(none) + markup(a) =~= markup(a));
}

/// The pieces of a state, as they are written and as they are nested.
proof fn lemma_nest_state(
    lt: Seq<char>,
    lts: Seq<char>,
    gt: Seq<char>,
    id: Seq<char>,
    tag: Seq<char>,
    list: Seq<char>,
    chunk: Seq<char>,
    dat: Seq<char>,
    data: Seq<char>,
)
    ensures
        lt + tag + (id + gt + lt + dat + gt) + data + (lts + dat + gt + lts) + tag + gt == (lt + tag
            + id + gt) + (lt + dat + gt + data + (lts + dat + gt)) + (lts + tag + gt),
        lt + tag + (id + gt + lt + list + gt + lt + chunk + id + gt + lt + dat + gt) + data + (lts
            + dat + gt + lts + chunk + gt + lts + list + gt + lts) + tag + gt == (lt + tag + id + gt)
            + (lt + list + gt + ((lt + chunk + id + gt) + (lt + dat + gt + data + (lts + dat + gt))
            + (lts + chunk + gt)) + (lts + list + gt)) + (lts + tag + gt),
{
    broadcast use lemma_add_assoc;

}

/// The markup of the state of a plugin.
proof fn lemma_state(format: Seq<char>, state: Option<Seq<char>>)
    requires
        state matches Some(data) ==> data.len() > 0,
    ensures
        preset_text(preset_tag(format), format, state) == markup(state_node(format, state)),
{
    let tag = preset_tag(format);
    let id = " "@ + "Id"@ + "=\""@ + "0"@ + "\""@;
    lemma_plugin_words();
    lemma_zero_id();
    match state {
        None => {
            assert("<"@ + tag + " Id=\"0\"/>"@ == "<"@ + tag + id + "/>"@) by {
                broadcast use lemma_add_assoc;

            }
        },
        Some(data) => {
            lemma_around("Data"@, text_node(data));
            assert(markup(text_node(data)) == data);
            lemma_nest_state(
                "<"@,
                "</"@,
                ">"@,
                id,
                tag,
                "PluginDataChunkList"@,
                "PluginDataChunk"@,
                "Data"@,
                data,
            );
            let open = "<"@ + tag + id + ">"@;
            let close = "</"@ + tag + ">"@;
            if format == "VST2"@ {
                let chunk = element("PluginDataChunk"@, zero_id(), seq![data_node(data)]);
                lemma_element(
                    "PluginDataChunk"@,
                    zero_id(),
                    seq![data_node(data)],
                    "<"@ + "PluginDataChunk"@ + id + ">"@,
                    "</"@ + "PluginDataChunk"@ + ">"@,
                );
                lemma_three_nodes(data_node(data), data_node(data), data_node(data));
                lemma_around("PluginDataChunkList"@, chunk);
                let n = chunks_node(data);
                lemma_element(tag, zero_id(), seq![n], open, close);
                lemma_three_nodes(n, n, n);
                assert("<"@ + "PluginDataChunkList"@ + ">"@ + "<"@ + "PluginDataChunk"@ + " "@
                    + "Id"@ + "=\""@ + "0"@ + "\""@ == "<"@ + "PluginDataChunkList"@ + ">"@ + "<"@
                    + "PluginDataChunk"@ + id) by {
                    broadcast use lemma_add_assoc;

                }
                assert(" Id=\"0\"><PluginDataChunkList><PluginDataChunk Id=\"0\"><Data>"@ == id
                    + ">"@ + "<"@ + "PluginDataChunkList"@ + ">"@ + "<"@ + "PluginDataChunk"@ + id
                    + ">"@ + "<"@ + "Data"@ + ">"@) by {
                    broadcast use lemma_add_assoc;

                }
            } else {
                let n = data_node(data);
                lemma_element(tag, zero_id(), seq![n], open, close);
                lemma_three_nodes(n, n, n);
            }
        },
    }
}

/// Two nodes with blanks before them.
proof fn lemma_led_two(lead: Seq<char>, a: XmlModel, b: XmlModel)
    ensures
        led_markup(lead, seq![a, b]) == (lead + markup(a)) + (lead + markup(b)),
{
    reveal_with_fuel(led_markup, 3);
    assert(seq![a, b].drop_last() =~= seq![a]);
    assert(seq![a].drop_last() =~= Seq::<XmlModel>::empty());
    assert(Seq::<char>::empty() + (lead + markup(a)) =~= lead + markup(a));
}

/// Four nodes with blanks before them.
proof fn lemma_led_four(lead: Seq<char>, a: XmlModel, b: XmlModel, c: XmlModel, d: XmlModel)
    ensures
        led_markup(lead, seq![a, b, c, d]) == (lead + markup(a)) + (lead + markup(b)) + (lead
            + markup(c)) + (lead + markup(d)),
{
    lemma_led_two(lead, a, b);
    reveal_with_fuel(led_markup, 3);
    assert(seq![a, b, c, d].drop_last() =~= seq![a, b, c]);
    assert(seq![a, b, c].drop_last() =~= seq![a, b]);
}

/// The pieces of a device of the workstation, as they are written and as they are nested.
proof fn lemma_nest_builtin(
    ind: Seq<char>,
    lt: Seq<char>,
    lts: Seq<char>,
    gt: Seq<char>,
    sp: Seq<char>,
    idn: Seq<char>,
    eq: Seq<char>,
    qt: Seq<char>,
    nl: Seq<char>,
    tag: Seq<char>,
    number: Seq<char>,
    name: Seq<char>,
    on: Seq<char>,
)
    ensures
        (ind + lt) + tag + (sp + idn + eq) + number + (qt + gt + nl) + (name + nl + on + nl) + lts
            + tag + gt == ind + ((lt + tag + (sp + idn + eq + number + qt) + gt) + ((nl + name) + (nl
            + on) + nl) + (lts + tag + gt)),
{
    broadcast use lemma_add_assoc;

}

/// The pieces of a plugin, as they are written and as they are nested.
proof fn lemma_nest_plugin(
    ind: Seq<char>,
    lt: Seq<char>,
    lts: Seq<char>,
    gt: Seq<char>,
    sp: Seq<char>,
    idn: Seq<char>,
    eq: Seq<char>,
    qt: Seq<char>,
    nl: Seq<char>,
    zero: Seq<char>,
    tag: Seq<char>,
    number: Seq<char>,
    name: Seq<char>,
    on: Seq<char>,
    desc: Seq<char>,
    info: Seq<char>,
    body: Seq<char>,
    preset: Seq<char>,
    state: Seq<char>,
)
    ensures
        (ind + lt + tag + sp + idn + eq) + number + (qt + gt + nl) + (name + nl + on + nl) + (lt
            + desc + gt + lt) + info + (sp + idn + eq + zero + qt + gt) + body + lts + info + (gt
            + lts + desc + gt + nl + lt + preset + gt) + state + (lts + preset + gt + nl + lts + tag
            + gt) == ind + ((lt + tag + (sp + idn + eq + number + qt) + gt) + ((nl + name) + (nl
            + on) + (nl + (lt + desc + gt + ((lt + info + (sp + idn + eq + zero + qt) + gt) + body
            + (lts + info + gt)) + (lts + desc + gt))) + (nl + (lt + preset + gt + state + (lts
            + preset + gt))) + nl) + (lts + tag + gt)),
{
    broadcast use lemma_add_assoc;

}

/// The number of a device.
proof fn lemma_number(i: nat)
    ensures
        attrs_markup(seq![plain_attr("Id"@, decimal(i))]) == " "@ + "Id"@ + "=\""@ + decimal(i)
            + "\""@,
{
    let a = plain_attr("Id"@, decimal(i));
    lemma_three_attrs(a, a, a);
    lemma_number_plain(i as int);
}

/// A device is its indent and the markup of its element.
#[verifier::rlimit(40)]
proof fn lemma_device(slot: SlotModel, id: Seq<(Seq<char>, FieldModel)>, i: nat)
    requires
        has_plain_state(slot, id),
    ensures
        device_text(slot, id, i as int) == "              "@ + markup(
            device_node(slot, id, i as int),
        ),
{
    let name = text_or(id, "name"@, "Unknown"@);
    let vendor = text_or(id, "vendor"@, ""@);
    let format = text_or(id, "format"@, "VST2"@);
    let number = seq![plain_attr("Id"@, decimal(i))];
    let n = device_node(slot, id, i as int);
    let a = name_node(name);
    let b = on_node(!slot.bypass);
    lemma_device_words();
    lemma_number(i);
    lemma_switch(name, !slot.bypass);
    let open = "<"@ + n.tag + (" "@ + "Id"@ + "=\""@ + decimal(i) + "\""@) + ">"@;
    let close = "</"@ + n.tag + ">"@;
    lemma_element(n.tag, number, n.children, open, close);
    if format == "Ableton"@ {
        lemma_spaced_markup("\n"@, builtin_nodes(name, !slot.bypass), "\n"@);
        lemma_led_two("\n"@, a, b);
        lemma_nest_builtin(
            "              "@,
            "<"@,
            "</"@,
            ">"@,
            " "@,
            "Id"@,
            "=\""@,
            "\""@,
            "\n"@,
            n.tag,
            decimal(i),
            markup(a),
            markup(b),
        );
    } else {
        let c = desc_node(format, name, vendor);
        let d = preset_node(format, slot.opaque_state);
        lemma_spaced_markup("\n"@, plugin_nodes(slot, id), "\n"@);
        lemma_led_four("\n"@, a, b, c, d);
        lemma_info(format, name, vendor);
        lemma_around("PluginDesc"@, info_node(format, name, vendor));
        lemma_state(format, slot.opaque_state);
        lemma_around("Preset"@, state_node(format, slot.opaque_state));
        lemma_nest_plugin(
            "              "@,
            "<"@,
            "</"@,
            ">"@,
            " "@,
            "Id"@,
            "=\""@,
            "\""@,
            "\n"@,
            "0"@,
            "PluginDevice"@,
            decimal(i),
            markup(a),
            markup(b),
            "PluginDesc"@,
            info_tag(format),
            info_body(format, escape(name), escape(vendor)),
            "Preset"@,
            markup(state_node(format, slot.opaque_state)),
        );
    }
}

// ---------------------------------------------------------------------------
// The tree of a rack
// ---------------------------------------------------------------------------

/// The devices of the slots. `ids[i]` identifies that of slot `i`.
pub open spec fn device_list(
    slots: Seq<SlotModel>,
    ids: Seq<Seq<(Seq<char>, FieldModel)>>,
) -> Seq<XmlModel> {
    Seq::new(slots.len(), |i: int| device_node(slots[i], ids[i], i))
}

/// The nodes around and between the devices.
pub open spec fn devices_content(
    slots: Seq<SlotModel>,
    ids: Seq<Seq<(Seq<char>, FieldModel)>>,
) -> Seq<XmlModel> {
    if slots.len() == 0 {
        seq![text_node("\n\n            "@)]
    } else {
        spaced("\n              "@, device_list(slots, ids), "\n            "@)
    }
}

/// The element around the devices.
pub open spec fn devices_node(
    slots: Seq<SlotModel>,
    ids: Seq<Seq<(Seq<char>, FieldModel)>>,
) -> XmlModel {
    element("Devices"@, Seq::empty(), devices_content(slots, ids))
}

/// The chain of the branch.
pub open spec fn chain_node(
    slots: Seq<SlotModel>,
    ids: Seq<Seq<(Seq<char>, FieldModel)>>,
) -> XmlModel {
    let inner = element(
        "AudioToAudioDeviceChain"@,
        zero_id(),
        spaced("\n            "@, seq![devices_node(slots, ids)], "\n          "@),
    );
    element("DeviceChain"@, Seq::empty(), spaced("\n          "@, seq![inner], "\n        "@))
}

/// The branch of the rack.
pub open spec fn branch_node(
    slots: Seq<SlotModel>,
    ids: Seq<Seq<(Seq<char>, FieldModel)>>,
) -> XmlModel {
    element(
        "AudioEffectBranch"@,
        zero_id(),
        spaced(
            "\n        "@,
            seq![
                value_node("Name"@, "Default"@),
                value_node("IsSelected"@, "true"@),
                chain_node(slots, ids),
            ],
            "\n      "@,
        ),
    )
}

/// The element around the branch.
pub open spec fn branches_node(
    slots: Seq<SlotModel>,
    ids: Seq<Seq<(Seq<char>, FieldModel)>>,
) -> XmlModel {
    element(
        "Branches"@,
        Seq::empty(),
        spaced("\n      "@, seq![branch_node(slots, ids)], "\n    "@),
    )
}

/// The rack.
pub open spec fn group_node(chain: ChainModel, ids: Seq<Seq<(Seq<char>, FieldModel)>>) -> XmlModel {
    element(
        "GroupDevice"@,
        zero_id(),
        spaced(
            "\n    "@,
            seq![name_node(chain.name), on_node(true), branches_node(chain.slots, ids)],
            "\n  "@,
        ),
    )
}

/// The attributes of the root element.
pub open spec fn rack_attrs() -> Seq<AttrModel> {
    seq![
        plain_attr("MajorVersion"@, "11"@),
        plain_attr("MinorVersion"@, "11.0.0"@),
        plain_attr("Creator"@, "Patchbay"@),
        plain_attr("Annotation"@, ""@),
        plain_attr("Id"@, "0"@),
    ]
}

/// The file of a chain. `ids[i]` identifies the device of slot `i`.
pub open spec fn rack_node(chain: ChainModel, ids: Seq<Seq<(Seq<char>, FieldModel)>>) -> XmlModel {
    element("Ableton"@, rack_attrs(), spaced("\n  "@, seq![group_node(chain, ids)], "\n"@))
}

// ---------------------------------------------------------------------------
// The text of the tree of a rack
// ---------------------------------------------------------------------------

/// The tags in the head of a rack.
proof fn lemma_head()
    ensures
        RACK_HEAD@ == DECLARATION@
            + "<Ableton MajorVersion=\"11\" MinorVersion=\"11.0.0\" Creator=\"Patchbay\" Annotation=\"\" Id=\"0\">"@
            + "\n  "@ + "<GroupDevice Id=\"0\">"@ + "\n    "@ + "<Name><EffectiveName Value=\""@,
{
    reveal_strlit("<?xml version=\"1.0\" encoding=\"UTF-8\"?>\n<Ableton MajorVersion=\"11\" MinorVersion=\"11.0.0\" Creator=\"Patchbay\" Annotation=\"\" Id=\"0\">\n  <GroupDevice Id=\"0\">\n    <Name><EffectiveName Value=\"");
    reveal_strlit("<?xml version=\"1.0\" encoding=\"UTF-8\"?>\n");
    reveal_strlit("<Ableton MajorVersion=\"11\" MinorVersion=\"11.0.0\" Creator=\"Patchbay\" Annotation=\"\" Id=\"0\">");
    reveal_strlit("\n  ");
    reveal_strlit("<GroupDevice Id=\"0\">");
    reveal_strlit("\n    ");
    reveal_strlit("<Name><EffectiveName Value=\"");
    assert(RACK_HEAD@ =~= DECLARATION@
        + "<Ableton MajorVersion=\"11\" MinorVersion=\"11.0.0\" Creator=\"Patchbay\" Annotation=\"\" Id=\"0\">"@
        + "\n  "@ + "<GroupDevice Id=\"0\">"@ + "\n    "@ + "<Name><EffectiveName Value=\""@);
}

/// The tags in the body of a rack.
proof fn lemma_body()
    ensures
        RACK_BODY@ == "\"/></Name>"@ + "\n    "@ + "<On><Manual Value=\"true\"/></On>"@
            + "\n    "@ + "<Branches>"@ + "\n      "@ + "<AudioEffectBranch Id=\"0\">"@
            + "\n        "@ + "<Name Value=\"Default\"/>"@ + "\n        "@
            + "<IsSelected Value=\"true\"/>"@ + "\n        "@ + "<DeviceChain>"@ + "\n          "@
            + "<AudioToAudioDeviceChain Id=\"0\">"@ + "\n            "@ + "<Devices>"@ + "\n"@,
{
    reveal_strlit("\"/></Name>\n    <On><Manual Value=\"true\"/></On>\n    <Branches>\n      <AudioEffectBranch Id=\"0\">\n        <Name Value=\"Default\"/>\n        <IsSelected Value=\"true\"/>\n        <DeviceChain>\n          <AudioToAudioDeviceChain Id=\"0\">\n            <Devices>\n");
    reveal_strlit("\"/></Name>");
    reveal_strlit("\n    ");
    reveal_strlit("<On><Manual Value=\"true\"/></On>");
    reveal_strlit("<Branches>");
    reveal_strlit("\n      ");
    reveal_strlit("<AudioEffectBranch Id=\"0\">");
    reveal_strlit("\n        ");
    reveal_strlit("<Name Value=\"Default\"/>");
    reveal_strlit("<IsSelected Value=\"true\"/>");
    reveal_strlit("<DeviceChain>");
    reveal_strlit("\n          ");
    reveal_strlit("<AudioToAudioDeviceChain Id=\"0\">");
    reveal_strlit("\n            ");
    reveal_strlit("<Devices>");
    reveal_strlit("\n");
    assert(RACK_BODY@ =~= "\"/></Name>"@ + "\n    "@ + "<On><Manual Value=\"true\"/></On>"@
        + "\n    "@ + "<Branches>"@ + "\n      "@ + "<AudioEffectBranch Id=\"0\">"@
        + "\n        "@ + "<Name Value=\"Default\"/>"@ + "\n        "@
        + "<IsSelected Value=\"true\"/>"@ + "\n        "@ + "<DeviceChain>"@ + "\n          "@
        + "<AudioToAudioDeviceChain Id=\"0\">"@ + "\n            "@ + "<Devices>"@ + "\n"@);
}

/// The tags in the tail of a rack.
proof fn lemma_tail()
    ensures
        RACK_TAIL@ == "\n            "@ + "</Devices>"@ + "\n          "@
            + "</AudioToAudioDeviceChain>"@ + "\n        "@ + "</DeviceChain>"@ + "\n      "@
            + "</AudioEffectBranch>"@ + "\n    "@ + "</Branches>"@ + "\n  "@ + "</GroupDevice>"@
            + "\n"@ + "</Ableton>"@,
{
    reveal_strlit("\n            </Devices>\n          </AudioToAudioDeviceChain>\n        </DeviceChain>\n      </AudioEffectBranch>\n    </Branches>\n  </GroupDevice>\n</Ableton>");
    reveal_strlit("\n            ");
    reveal_strlit("</Devices>");
    reveal_strlit("\n          ");
    reveal_strlit("</AudioToAudioDeviceChain>");
    reveal_strlit("\n        ");
    reveal_strlit("</DeviceChain>");
    reveal_strlit("\n      ");
    reveal_strlit("</AudioEffectBranch>");
    reveal_strlit("\n    ");
    reveal_strlit("</Branches>");
    reveal_strlit("\n  ");
    reveal_strlit("</GroupDevice>");
    reveal_strlit("\n");
    reveal_strlit("</Ableton>");
    assert(RACK_TAIL@ =~= "\n            "@ + "</Devices>"@ + "\n          "@
        + "</AudioToAudioDeviceChain>"@ + "\n        "@ + "</DeviceChain>"@ + "\n      "@
        + "</AudioEffectBranch>"@ + "\n    "@ + "</Branches>"@ + "\n  "@ + "</GroupDevice>"@
        + "\n"@ + "</Ableton>"@);
}

/// The tags of a rack.
proof fn lemma_rack_words()
    ensures
        "<GroupDevice Id=\"0\">"@ == "<"@ + "GroupDevice"@ + " "@ + "Id"@ + "=\""@ + "0"@ + "\""@
            + ">"@,
        "<Branches>"@ == "<"@ + "Branches"@ + ">"@,
        "<AudioEffectBranch Id=\"0\">"@ == "<"@ + "AudioEffectBranch"@ + " "@ + "Id"@ + "=\""@
            + "0"@ + "\""@ + ">"@,
        "<DeviceChain>"@ == "<"@ + "DeviceChain"@ + ">"@,
        "<AudioToAudioDeviceChain Id=\"0\">"@ == "<"@ + "AudioToAudioDeviceChain"@ + " "@ + "Id"@
            + "=\""@ + "0"@ + "\""@ + ">"@,
        "<Devices>"@ == "<"@ + "Devices"@ + ">"@,
        "</Devices>"@ == "</"@ + "Devices"@ + ">"@,
        "</AudioToAudioDeviceChain>"@ == "</"@ + "AudioToAudioDeviceChain"@ + ">"@,
        "</DeviceChain>"@ == "</"@ + "DeviceChain"@ + ">"@,
        "</AudioEffectBranch>"@ == "</"@ + "AudioEffectBranch"@ + ">"@,
        "</Branches>"@ == "</"@ + "Branches"@ + ">"@,
        "</GroupDevice>"@ == "</"@ + "GroupDevice"@ + ">"@,
        "</Ableton>"@ == "</"@ + "Ableton"@ + ">"@,
{
    reveal_strlit("<GroupDevice Id=\"0\">");
    reveal_strlit("<");
    reveal_strlit("GroupDevice");
    reveal_strlit(" ");
    reveal_strlit("Id");
    reveal_strlit("=\"");
    reveal_strlit("0");
    reveal_strlit("\"");
    reveal_strlit(">");
    reveal_strlit("<Branches>");
    reveal_strlit("Branches");
    reveal_strlit("<AudioEffectBranch Id=\"0\">");
    reveal_strlit("AudioEffectBranch");
    reveal_strlit("<DeviceChain>");
    reveal_strlit("DeviceChain");
    reveal_strlit("<AudioToAudioDeviceChain Id=\"0\">");
    reveal_strlit("AudioToAudioDeviceChain");
    reveal_strlit("<Devices>");
    reveal_strlit("Devices");
    reveal_strlit("</Devices>");
    reveal_strlit("</");
    reveal_strlit("</AudioToAudioDeviceChain>");
    reveal_strlit("</DeviceChain>");
    reveal_strlit("</AudioEffectBranch>");
    reveal_strlit("</Branches>");
    reveal_strlit("</GroupDevice>");
    reveal_strlit("</Ableton>");
    reveal_strlit("Ableton");
    assert("<GroupDevice Id=\"0\">"@ =~= "<"@ + "GroupDevice"@ + " "@ + "Id"@ + "=\""@ + "0"@
        + "\""@ + ">"@);
    assert("<Branches>"@ =~= "<"@ + "Branches"@ + ">"@);
    assert("<AudioEffectBranch Id=\"0\">"@ =~= "<"@ + "AudioEffectBranch"@ + " "@ + "Id"@ + "=\""@
        + "0"@ + "\""@ + ">"@);
    assert("<DeviceChain>"@ =~= "<"@ + "DeviceChain"@ + ">"@);
    assert("<AudioToAudioDeviceChain Id=\"0\">"@ =~= "<"@ + "AudioToAudioDeviceChain"@ + " "@
        + "Id"@ + "=\""@ + "0"@ + "\""@ + ">"@);
    assert("<Devices>"@ =~= "<"@ + "Devices"@ + ">"@);
    assert("</Devices>"@ =~= "</"@ + "Devices"@ + ">"@);
    assert("</AudioToAudioDeviceChain>"@ =~= "</"@ + "AudioToAudioDeviceChain"@ + ">"@);
    assert("</DeviceChain>"@ =~= "</"@ + "DeviceChain"@ + ">"@);
    assert("</AudioEffectBranch>"@ =~= "</"@ + "AudioEffectBranch"@ + ">"@);
    assert("</Branches>"@ =~= "</"@ + "Branches"@ + ">"@);
    assert("</GroupDevice>"@ =~= "</"@ + "GroupDevice"@ + ">"@);
    assert("</Ableton>"@ =~= "</"@ + "Ableton"@ + ">"@);
}

/// The elements of a rack without nodes in them.
proof fn lemma_value_words()
    ensures
        "<Name Value=\"Default\"/>"@ == "<"@ + "Name"@ + " "@ + "Value"@ + "=\""@ + "Default"@
            + "\""@ + "/>"@,
        "<IsSelected Value=\"true\"/>"@ == "<"@ + "IsSelected"@ + " "@ + "Value"@ + "=\""@
            + "true"@ + "\""@ + "/>"@,
        "<Name><EffectiveName Value=\""@ == "<"@ + "Name"@ + ">"@ + "<"@ + "EffectiveName"@ + " "@
            + "Value"@ + "=\""@,
        "\"/></Name>"@ == "\""@ + "/>"@ + "</"@ + "Name"@ + ">"@,
        "<On><Manual Value=\"true\"/></On>"@ == "<"@ + "On"@ + ">"@ + "<"@ + "Manual"@ + " "@
            + "Value"@ + "=\""@ + "true"@ + "\""@ + "/>"@ + "</"@ + "On"@ + ">"@,
{
    reveal_strlit("<Name Value=\"Default\"/>");
    reveal_strlit("<");
    reveal_strlit("Name");
    reveal_strlit(" ");
    reveal_strlit("Value");
    reveal_strlit("=\"");
    reveal_strlit("Default");
    reveal_strlit("\"");
    reveal_strlit("/>");
    reveal_strlit("<IsSelected Value=\"true\"/>");
    reveal_strlit("IsSelected");
    reveal_strlit("true");
    reveal_strlit("<Name><EffectiveName Value=\"");
    reveal_strlit(">");
    reveal_strlit("EffectiveName");
    reveal_strlit("\"/></Name>");
    reveal_strlit("</");
    reveal_strlit("<On><Manual Value=\"true\"/></On>");
    reveal_strlit("On");
    reveal_strlit("Manual");
    assert("<Name Value=\"Default\"/>"@ =~= "<"@ + "Name"@ + " "@ + "Value"@ + "=\""@ + "Default"@
        + "\""@ + "/>"@);
    assert("<IsSelected Value=\"true\"/>"@ =~= "<"@ + "IsSelected"@ + " "@ + "Value"@ + "=\""@
        + "true"@ + "\""@ + "/>"@);
    assert("<Name><EffectiveName Value=\""@ =~= "<"@ + "Name"@ + ">"@ + "<"@ + "EffectiveName"@
        + " "@ + "Value"@ + "=\""@);
    assert("\"/></Name>"@ =~= "\""@ + "/>"@ + "</"@ + "Name"@ + ">"@);
    assert("<On><Manual Value=\"true\"/></On>"@ =~= "<"@ + "On"@ + ">"@ + "<"@ + "Manual"@ + " "@
        + "Value"@ + "=\""@ + "true"@ + "\""@ + "/>"@ + "</"@ + "On"@ + ">"@);
}

/// The root tag.
proof fn lemma_root_words()
    ensures
        "<Ableton MajorVersion=\"11\" MinorVersion=\"11.0.0\" Creator=\"Patchbay\" Annotation=\"\" Id=\"0\">"@ == "<"@
            + "Ableton"@ + " "@ + "MajorVersion"@ + "=\""@ + "11"@ + "\""@ + " "@
            + "MinorVersion"@ + "=\""@ + "11.0.0"@ + "\""@ + " "@ + "Creator"@ + "=\""@
            + "Patchbay"@ + "\""@ + " "@ + "Annotation"@ + "=\""@ + "\""@ + " "@ + "Id"@ + "=\""@
            + "0"@ + "\""@ + ">"@,
{
    reveal_strlit("<Ableton MajorVersion=\"11\" MinorVersion=\"11.0.0\" Creator=\"Patchbay\" Annotation=\"\" Id=\"0\">");
    reveal_strlit("<");
    reveal_strlit("Ableton");
    reveal_strlit(" ");
    reveal_strlit("MajorVersion");
    reveal_strlit("=\"");
    reveal_strlit("11");
    reveal_strlit("\"");
    reveal_strlit("MinorVersion");
    reveal_strlit("11.0.0");
    reveal_strlit("Creator");
    reveal_strlit("Patchbay");
    reveal_strlit("Annotation");
    reveal_strlit("Id");
    reveal_strlit("0");
    reveal_strlit(">");
    assert("<Ableton MajorVersion=\"11\" MinorVersion=\"11.0.0\" Creator=\"Patchbay\" Annotation=\"\" Id=\"0\">"@ =~= "<"@
        + "Ableton"@ + " "@ + "MajorVersion"@ + "=\""@ + "11"@ + "\""@ + " "@ + "MinorVersion"@
        + "=\""@ + "11.0.0"@ + "\""@ + " "@ + "Creator"@ + "=\""@ + "Patchbay"@ + "\""@ + " "@
        + "Annotation"@ + "=\""@ + "\""@ + " "@ + "Id"@ + "=\""@ + "0"@ + "\""@ + ">"@);
}

/// One node with a blank before it.
proof fn lemma_led_one(lead: Seq<char>, a: XmlModel)
    ensures
        led_markup(lead, seq![a]) == lead + markup(a),
{
    reveal_with_fuel(led_markup, 2);
    assert(seq![a].drop_last() =~= Seq::<XmlModel>::empty());
    assert(Seq::<char>::empty() + (lead + markup(a)) =~= lead + markup(a));
}

/// Three nodes with blanks before them.
proof fn lemma_led_three(lead: Seq<char>, a: XmlModel, b: XmlModel, c: XmlModel)
    ensures
        led_markup(lead, seq![a, b, c]) == (lead + markup(a)) + (lead + markup(b)) + (lead + markup(
            c,
        )),
{
    lemma_led_two(lead, a, b);
    reveal_with_fuel(led_markup, 2);
    assert(seq![a, b, c].drop_last() =~= seq![a, b]);
}

/// A tag whose only attribute is the number zero.
proof fn lemma_zero_tag(tag: Seq<char>)
    ensures
        "<"@ + tag + attrs_markup(zero_id()) + ">"@ == "<"@ + tag + " "@ + "Id"@ + "=\""@ + "0"@
            + "\""@ + ">"@,
{
    lemma_zero_id();
    broadcast use lemma_add_assoc;

}

/// An element around one node with blanks on its sides.
proof fn lemma_wrap(
    tag: Seq<char>,
    attrs: Seq<AttrModel>,
    lead: Seq<char>,
    n: XmlModel,
    end: Seq<char>,
    open: Seq<char>,
    close: Seq<char>,
)
    requires
        open == "<"@ + tag + attrs_markup(attrs) + ">"@,
        close == "</"@ + tag + ">"@,
    ensures
        markup(element(tag, attrs, spaced(lead, seq![n], end))) == open + ((lead + markup(n)) + end)
            + close,
{
    lemma_element(tag, attrs, spaced(lead, seq![n], end), open, close);
    lemma_spaced_markup(lead, seq![n], end);
    lemma_led_one(lead, n);
}

/// An element around three nodes with blanks on their sides.
proof fn lemma_wrap_three(
    tag: Seq<char>,
    lead: Seq<char>,
    a: XmlModel,
    b: XmlModel,
    c: XmlModel,
    end: Seq<char>,
    open: Seq<char>,
    close: Seq<char>,
)
    requires
        open == "<"@ + tag + attrs_markup(zero_id()) + ">"@,
        close == "</"@ + tag + ">"@,
    ensures
        markup(element(tag, zero_id(), spaced(lead, seq![a, b, c], end))) == open + ((lead + markup(
            a,
        )) + (lead + markup(b)) + (lead + markup(c)) + end) + close,
{
    lemma_element(tag, zero_id(), spaced(lead, seq![a, b, c], end), open, close);
    lemma_spaced_markup(lead, seq![a, b, c], end);
    lemma_led_three(lead, a, b, c);
}

/// The markup of the chain of the branch.
proof fn lemma_chain(slots: Seq<SlotModel>, ids: Seq<Seq<(Seq<char>, FieldModel)>>)
    ensures
        markup(chain_node(slots, ids)) == "<DeviceChain>"@ + (("\n          "@ + (
        "<AudioToAudioDeviceChain Id=\"0\">"@ + (("\n            "@ + ("<Devices>"@ + markups(
            devices_content(slots, ids),
        ) + "</Devices>"@)) + "\n          "@) + "</AudioToAudioDeviceChain>"@)) + "\n        "@)
            + "</DeviceChain>"@,
{
    lemma_rack_words();
    let devices = devices_node(slots, ids);
    lemma_bare_tag("Devices"@);
    lemma_element("Devices"@, Seq::empty(), devices.children, "<Devices>"@, "</Devices>"@);
    lemma_zero_tag("AudioToAudioDeviceChain"@);
    lemma_wrap(
        "AudioToAudioDeviceChain"@,
        zero_id(),
        "\n            "@,
        devices,
        "\n          "@,
        "<AudioToAudioDeviceChain Id=\"0\">"@,
        "</AudioToAudioDeviceChain>"@,
    );
    let inner = element(
        "AudioToAudioDeviceChain"@,
        zero_id(),
        spaced("\n            "@, seq![devices], "\n          "@),
    );
    lemma_bare_tag("DeviceChain"@);
    lemma_wrap(
        "DeviceChain"@,
        Seq::empty(),
        "\n          "@,
        inner,
        "\n        "@,
        "<DeviceChain>"@,
        "</DeviceChain>"@,
    );
}

/// The elements of a rack without nodes in them, and its name and switch.
proof fn lemma_rack_values(name: Seq<char>)
    ensures
        markup(value_node("Name"@, "Default"@)) == "<Name Value=\"Default\"/>"@,
        markup(value_node("IsSelected"@, "true"@)) == "<IsSelected Value=\"true\"/>"@,
        markup(name_node(name)) == "<Name><EffectiveName Value=\""@ + escape(name) + "\"/></Name>"@,
        markup(on_node(true)) == "<On><Manual Value=\"true\"/></On>"@,
{
    lemma_value_words();
    reveal_strlit("Default");
    reveal_strlit("true");
    lemma_escape_plain("Default"@);
    lemma_escape_plain("true"@);
    lemma_value("Name"@, "Default"@);
    lemma_value("IsSelected"@, "true"@);
    lemma_value("EffectiveName"@, name);
    lemma_value("Manual"@, "true"@);
    lemma_around("Name"@, value_node("EffectiveName"@, name));
    lemma_around("On"@, value_node("Manual"@, "true"@));
    let (lt, lts, gt, sgt) = ("<"@, "</"@, ">"@, "/>"@);
    let (sp, eq, qt, val) = (" "@, "=\""@, "\""@, "Value"@);
    lemma_nest_value(lt, sgt, sp, eq, qt, val, "Name"@, "Default"@);
    lemma_nest_value(lt, sgt, sp, eq, qt, val, "IsSelected"@, "true"@);
    lemma_nest_around(lt, lts, gt, sgt, sp, eq, qt, val, "Name"@, "EffectiveName"@, escape(name));
    lemma_nest_around(lt, lts, gt, sgt, sp, eq, qt, val, "On"@, "Manual"@, "true"@);
    let (on, manual) = ("On"@, "Manual"@);
    let s = lt + on + gt + lt + manual + sp + val + eq + "true"@;
    assert("<On><Manual Value=\"true\"/></On>"@ == s + qt + sgt + lts + on + gt);
    assert(s + qt + sgt + lts + on + gt == s + (qt + sgt + lts + on + gt)) by {
        broadcast use lemma_add_assoc;

    }
}

/// The pieces of an element with one value, as they are written and as they are nested.
proof fn lemma_nest_value(
    lt: Seq<char>,
    sgt: Seq<char>,
    sp: Seq<char>,
    eq: Seq<char>,
    qt: Seq<char>,
    val: Seq<char>,
    tag: Seq<char>,
    value: Seq<char>,
)
    ensures
        lt + tag + sp + val + eq + value + qt + sgt == lt + tag + (sp + val + eq + value + qt) + sgt,
{
    broadcast use lemma_add_assoc;

}

/// The pieces of an element around one value, as they are written and as they are nested.
proof fn lemma_nest_around(
    lt: Seq<char>,
    lts: Seq<char>,
    gt: Seq<char>,
    sgt: Seq<char>,
    sp: Seq<char>,
    eq: Seq<char>,
    qt: Seq<char>,
    val: Seq<char>,
    tag: Seq<char>,
    inner: Seq<char>,
    value: Seq<char>,
)
    ensures
        (lt + tag + gt + lt + inner + sp + val + eq) + value + (qt + sgt + lts + tag + gt) == lt
            + tag + gt + (lt + inner + (sp + val + eq + value + qt) + sgt) + (lts + tag + gt),
{
    broadcast use lemma_add_assoc;

}

/// The markup of the rack.
proof fn lemma_group(chain: ChainModel, ids: Seq<Seq<(Seq<char>, FieldModel)>>)
    ensures
        markup(group_node(chain, ids)) == "<GroupDevice Id=\"0\">"@ + (("\n    "@ + (
        "<Name><EffectiveName Value=\""@ + escape(chain.name) + "\"/></Name>"@)) + ("\n    "@
            + "<On><Manual Value=\"true\"/></On>"@) + ("\n    "@ + ("<Branches>"@ + (("\n      "@ + (
        "<AudioEffectBranch Id=\"0\">"@ + (("\n        "@ + "<Name Value=\"Default\"/>"@) + (
        "\n        "@ + "<IsSelected Value=\"true\"/>"@) + ("\n        "@ + markup(
            chain_node(chain.slots, ids),
        )) + "\n      "@) + "</AudioEffectBranch>"@)) + "\n    "@) + "</Branches>"@)) + "\n  "@)
            + "</GroupDevice>"@,
{
    lemma_rack_words();
    lemma_rack_values(chain.name);
    let slots = chain.slots;
    lemma_zero_tag("AudioEffectBranch"@);
    lemma_wrap_three(
        "AudioEffectBranch"@,
        "\n        "@,
        value_node("Name"@, "Default"@),
        value_node("IsSelected"@, "true"@),
        chain_node(slots, ids),
        "\n      "@,
        "<AudioEffectBranch Id=\"0\">"@,
        "</AudioEffectBranch>"@,
    );
    lemma_bare_tag("Branches"@);
    lemma_wrap(
        "Branches"@,
        Seq::empty(),
        "\n      "@,
        branch_node(slots, ids),
        "\n    "@,
        "<Branches>"@,
        "</Branches>"@,
    );
    lemma_zero_tag("GroupDevice"@);
    lemma_wrap_three(
        "GroupDevice"@,
        "\n    "@,
        name_node(chain.name),
        on_node(true),
        branches_node(slots, ids),
        "\n  "@,
        "<GroupDevice Id=\"0\">"@,
        "</GroupDevice>"@,
    );
}

/// The devices with line ends between them, behind a line end, are the markup of their
/// elements.
proof fn lemma_devices(slots: Seq<SlotModel>, ids: Seq<Seq<(Seq<char>, FieldModel)>>, n: nat)
    requires
        0 < n <= slots.len(),
        forall|i: int| 0 <= i < slots.len() ==> has_plain_state(#[trigger] slots[i], ids[i]),
    ensures
        "\n"@ + join(device_texts(slots, ids).take(n as int), "\n"@) == led_markup(
            "\n              "@,
            device_list(slots, ids).take(n as int),
        ),
    decreases n,
{
    let k = (n - 1) as nat;
    let all = device_texts(slots, ids);
    let nodes = device_list(slots, ids);
    let lead = "\n              "@;
    let node = nodes[k as int];
    assert(has_plain_state(slots[k as int], ids[k as int]));
    lemma_device(slots[k as int], ids[k as int], k);
    reveal_strlit("\n              ");
    reveal_strlit("\n");
    reveal_strlit("              ");
    assert(lead =~= "\n"@ + "              "@);
    lemma_add_assoc("\n"@, "              "@, markup(node));
    let line = "\n"@ + all[k as int];
    assert(lead + markup(node) == line);
    assert(all.take(n as int).drop_last() =~= all.take(k as int));
    assert(nodes.take(n as int).drop_last() =~= nodes.take(k as int));
    if k == 0 {
        assert(led_markup(lead, nodes.take(0)) + line =~= line);
    } else {
        lemma_devices(slots, ids, k);
        let s = join(all.take(k as int), "\n"@);
        lemma_add_assoc("\n"@, s + "\n"@, all[k as int]);
        lemma_add_assoc("\n"@, s, "\n"@);
        lemma_add_assoc("\n"@ + s, "\n"@, all[k as int]);
    }
}

/// What stands between the tags of the devices.
proof fn lemma_devices_content(slots: Seq<SlotModel>, ids: Seq<Seq<(Seq<char>, FieldModel)>>)
    requires
        forall|i: int| 0 <= i < slots.len() ==> has_plain_state(#[trigger] slots[i], ids[i]),
    ensures
        "\n"@ + join(device_texts(slots, ids), "\n"@) + "\n            "@ == markups(
            devices_content(slots, ids),
        ),
{
    let all = device_texts(slots, ids);
    let nodes = device_list(slots, ids);
    if slots.len() == 0 {
        let blank = text_node("\n\n            "@);
        reveal_strlit("\n\n            ");
        reveal_strlit("\n");
        reveal_strlit("\n            ");
        lemma_three_nodes(blank, blank, blank);
        assert("\n"@ + join(all, "\n"@) + "\n            "@ =~= "\n\n            "@);
    } else {
        assert(all.take(slots.len() as int) =~= all);
        assert(nodes.take(slots.len() as int) =~= nodes);
        lemma_devices(slots, ids, slots.len());
        lemma_spaced_markup("\n              "@, nodes, "\n            "@);
    }
}

/// The root tag.
#[verifier::rlimit(40)]
proof fn lemma_root_tag()
    ensures
        "<Ableton MajorVersion=\"11\" MinorVersion=\"11.0.0\" Creator=\"Patchbay\" Annotation=\"\" Id=\"0\">"@
            == "<"@ + "Ableton"@ + attrs_markup(rack_attrs()) + ">"@,
{
    lemma_root_words();
    reveal_strlit("11");
    reveal_strlit("11.0.0");
    reveal_strlit("Patchbay");
    reveal_strlit("");
    reveal_strlit("0");
    lemma_escape_plain("11"@);
    lemma_escape_plain("11.0.0"@);
    lemma_escape_plain("Patchbay"@);
    lemma_escape_plain(""@);
    lemma_escape_plain("0"@);
    let a = rack_attrs();
    lemma_three_attrs(a[0], a[1], a[2]);
    let three = seq![a[0], a[1], a[2]];
    lemma_attrs_push(three, a[3]);
    lemma_attrs_push(three.push(a[3]), a[4]);
    assert(a =~= three.push(a[3]).push(a[4]));
    assert("=\""@ + ""@ =~= "=\""@);
    lemma_nest_root(
        "<"@ + "Ableton"@,
        " "@,
        "=\""@,
        "\""@,
        ">"@,
        seq!["MajorVersion"@, "MinorVersion"@, "Creator"@, "Annotation"@, "Id"@],
        seq!["11"@, "11.0.0"@, "Patchbay"@, "0"@],
    );
    let note = " "@ + "Annotation"@ + "=\""@;
    assert(note + ""@ =~= note);
}

/// The pieces of the root tag, as they are written and as they are nested.
proof fn lemma_nest_root(
    head: Seq<char>,
    sp: Seq<char>,
    eq: Seq<char>,
    qt: Seq<char>,
    gt: Seq<char>,
    n: Seq<Seq<char>>,
    v: Seq<Seq<char>>,
)
    ensures
        head + sp + n[0] + eq + v[0] + qt + sp + n[1] + eq + v[1] + qt + sp + n[2] + eq + v[2] + qt
            + sp + n[3] + eq + qt + sp + n[4] + eq + v[3] + qt + gt == head + ((sp + n[0] + eq + v[0]
            + qt) + (sp + n[1] + eq + v[1] + qt) + (sp + n[2] + eq + v[2] + qt) + (sp + n[3] + eq
            + qt) + (sp + n[4] + eq + v[3] + qt)) + gt,
{
    broadcast use lemma_add_assoc;

}

/// The pieces of a rack, as they are written and as they are nested. `w[i]` is what
/// stands between the tags `o[i]` and `c[i]` and those in them.
proof fn lemma_nest_rack(
    d: Seq<char>,
    o: Seq<Seq<char>>,
    c: Seq<Seq<char>>,
    w: Seq<Seq<char>>,
    n1: Seq<char>,
    name: Seq<char>,
    n2: Seq<char>,
    on: Seq<char>,
    a: Seq<char>,
    b: Seq<char>,
    devices: Seq<char>,
    e: Seq<char>,
)
    ensures
        (d + o[0] + w[0] + o[1] + w[1] + n1) + name + (n2 + w[1] + on + w[1] + o[2] + w[2] + o[3]
            + w[3] + a + w[3] + b + w[3] + o[4] + w[4] + o[5] + w[5] + o[6] + e) + devices + (w[5]
            + c[6] + w[4] + c[5] + w[3] + c[4] + w[2] + c[3] + w[1] + c[2] + w[0] + c[1] + e + c[0])
            == d + (o[0] + ((w[0] + (o[1] + ((w[1] + (n1 + name + n2)) + (w[1] + on) + (w[1] + (o[2]
            + ((w[2] + (o[3] + ((w[3] + a) + (w[3] + b) + (w[3] + (o[4] + ((w[4] + (o[5] + ((w[5] + (
        o[6] + (e + devices + w[5]) + c[6])) + w[4]) + c[5])) + w[3]) + c[4])) + w[2]) + c[3]))
            + w[1]) + c[2])) + w[0]) + c[1])) + e) + c[0]),
{
    broadcast use lemma_add_assoc;

}

/// The pieces of a rack, put together.
proof fn lemma_join_rack(
    d: Seq<char>,
    o: Seq<Seq<char>>,
    c: Seq<Seq<char>>,
    w: Seq<Seq<char>>,
    n1: Seq<char>,
    name: Seq<char>,
    n2: Seq<char>,
    on: Seq<char>,
    a: Seq<char>,
    b: Seq<char>,
    devices: Seq<char>,
    e: Seq<char>,
    head: Seq<char>,
    body: Seq<char>,
    tail: Seq<char>,
    content: Seq<char>,
    chain: Seq<char>,
    group: Seq<char>,
    root: Seq<char>,
)
    requires
        head == d + o[0] + w[0] + o[1] + w[1] + n1,
        body == n2 + w[1] + on + w[1] + o[2] + w[2] + o[3] + w[3] + a + w[3] + b + w[3] + o[4]
            + w[4] + o[5] + w[5] + o[6] + e,
        tail == w[5] + c[6] + w[4] + c[5] + w[3] + c[4] + w[2] + c[3] + w[1] + c[2] + w[0] + c[1]
            + e + c[0],
        content == e + devices + w[5],
        chain == o[4] + ((w[4] + (o[5] + ((w[5] + (o[6] + content + c[6])) + w[4]) + c[5])) + w[3])
            + c[4],
        group == o[1] + ((w[1] + (n1 + name + n2)) + (w[1] + on) + (w[1] + (o[2] + ((w[2] + (o[3] + (
        (w[3] + a) + (w[3] + b) + (w[3] + chain) + w[2]) + c[3])) + w[1]) + c[2])) + w[0]) + c[1],
        root == o[0] + ((w[0] + group) + e) + c[0],
    ensures
        head + name + body + devices + tail == d + root,
{
    lemma_nest_rack(d, o, c, w, n1, name, n2, on, a, b, devices, e);
}

/// The XML text of a rack is the declaration and the markup of its tree.
#[verifier::rlimit(40)]
proof fn lemma_rack(chain: ChainModel, ids: Seq<Seq<(Seq<char>, FieldModel)>>)
    requires
        forall|i: int|
            0 <= i < chain.slots.len() ==> has_plain_state(#[trigger] chain.slots[i], ids[i]),
    ensures
        rack_xml(chain, ids) == DECLARATION@ + markup(rack_node(chain, ids)),
{
    lemma_group(chain, ids);
    lemma_chain(chain.slots, ids);
    lemma_devices_content(chain.slots, ids);
    lemma_root_tag();
    lemma_close_root();
    let root = "<Ableton MajorVersion=\"11\" MinorVersion=\"11.0.0\" Creator=\"Patchbay\" Annotation=\"\" Id=\"0\">"@;
    lemma_wrap(
        "Ableton"@,
        rack_attrs(),
        "\n  "@,
        group_node(chain, ids),
        "\n"@,
        root,
        "</Ableton>"@,
    );
    lemma_head();
    lemma_body();
    lemma_tail();
    lemma_join_rack(
        DECLARATION@,
        seq![
            root,
            "<GroupDevice Id=\"0\">"@,
            "<Branches>"@,
            "<AudioEffectBranch Id=\"0\">"@,
            "<DeviceChain>"@,
            "<AudioToAudioDeviceChain Id=\"0\">"@,
            "<Devices>"@,
        ],
        seq![
            "</Ableton>"@,
            "</GroupDevice>"@,
            "</Branches>"@,
            "</AudioEffectBranch>"@,
            "</DeviceChain>"@,
            "</AudioToAudioDeviceChain>"@,
            "</Devices>"@,
        ],
        seq![
            "\n  "@,
            "\n    "@,
            "\n      "@,
            "\n        "@,
            "\n          "@,
            "\n            "@,
        ],
        "<Name><EffectiveName Value=\""@,
        escape(chain.name),
        "\"/></Name>"@,
        "<On><Manual Value=\"true\"/></On>"@,
        "<Name Value=\"Default\"/>"@,
        "<IsSelected Value=\"true\"/>"@,
        join(device_texts(chain.slots, ids), "\n"@),
        "\n"@,
        RACK_HEAD@,
        RACK_BODY@,
        RACK_TAIL@,
        markups(devices_content(chain.slots, ids)),
        markup(chain_node(chain.slots, ids)),
        markup(group_node(chain, ids)),
        markup(rack_node(chain, ids)),
    );
}

/// The closing tag of the root.
proof fn lemma_close_root()
    ensures
        "</Ableton>"@ == "</"@ + "Ableton"@ + ">"@,
{
    lemma_rack_words();
}

// ---------------------------------------------------------------------------
// The tree can be written
// ---------------------------------------------------------------------------

/// The tags are names.
proof fn lemma_tags_are_names()
    ensures
        is_name("Name"@),
        is_name("EffectiveName"@),
        is_name("On"@),
        is_name("Manual"@),
        is_name("Vst3PluginInfo"@),
        is_name("AuPluginInfo"@),
        is_name("VstPluginInfo"@),
        is_name("PlugName"@),
        is_name("Manufacturer"@),
        is_name("VendorString"@),
        is_name("PluginDesc"@),
        is_name("Data"@),
        is_name("PluginDataChunkList"@),
        is_name("PluginDataChunk"@),
        is_name("Vst3Preset"@),
        is_name("AuPreset"@),
        is_name("VstPreset"@),
        is_name("Preset"@),
        is_name("PluginDevice"@),
        is_name("Devices"@),
        is_name("AudioToAudioDeviceChain"@),
        is_name("DeviceChain"@),
        is_name("AudioEffectBranch"@),
        is_name("IsSelected"@),
        is_name("Branches"@),
        is_name("GroupDevice"@),
        is_name("Ableton"@),
{
    reveal_strlit("Name");
    reveal_strlit("EffectiveName");
    reveal_strlit("On");
    reveal_strlit("Manual");
    reveal_strlit("Vst3PluginInfo");
    reveal_strlit("AuPluginInfo");
    reveal_strlit("VstPluginInfo");
    reveal_strlit("PlugName");
    reveal_strlit("Manufacturer");
    reveal_strlit("VendorString");
    reveal_strlit("PluginDesc");
    reveal_strlit("Data");
    reveal_strlit("PluginDataChunkList");
    reveal_strlit("PluginDataChunk");
    reveal_strlit("Vst3Preset");
    reveal_strlit("AuPreset");
    reveal_strlit("VstPreset");
    reveal_strlit("Preset");
    reveal_strlit("PluginDevice");
    reveal_strlit("Devices");
    reveal_strlit("AudioToAudioDeviceChain");
    reveal_strlit("DeviceChain");
    reveal_strlit("AudioEffectBranch");
    reveal_strlit("IsSelected");
    reveal_strlit("Branches");
    reveal_strlit("GroupDevice");
    reveal_strlit("Ableton");
}

/// The names of attributes are names.
proof fn lemma_attr_names()
    ensures
        is_attr_name("Value"@),
        is_attr_name("Id"@),
        is_attr_name("MajorVersion"@),
        is_attr_name("MinorVersion"@),
        is_attr_name("Creator"@),
        is_attr_name("Annotation"@),
{
    reveal_strlit("xmlns");
    assert("xmlns"@[0] == 'x');
    reveal_strlit("Value");
    assert("Value"@[0] == 'V');
    reveal_strlit("Id");
    assert("Id"@[0] == 'I');
    reveal_strlit("MajorVersion");
    assert("MajorVersion"@[0] == 'M');
    reveal_strlit("MinorVersion");
    assert("MinorVersion"@[0] == 'M');
    reveal_strlit("Creator");
    assert("Creator"@[0] == 'C');
    reveal_strlit("Annotation");
    assert("Annotation"@[0] == 'A');
}

/// The values that every rack has are values.
proof fn lemma_fixed_values()
    ensures
        is_value("true"@),
        is_value("false"@),
        is_value("0"@),
        is_value("11"@),
        is_value("11.0.0"@),
        is_value("Patchbay"@),
        is_value(""@),
        is_value("Default"@),
{
    reveal_strlit("true");
    reveal_strlit("false");
    reveal_strlit("0");
    reveal_strlit("11");
    reveal_strlit("11.0.0");
    reveal_strlit("Patchbay");
    reveal_strlit("");
    reveal_strlit("Default");
}

/// Line ends and indents are content.
proof fn lemma_blanks()
    ensures
        is_writable(text_node("\n"@)),
        is_writable(text_node("\n  "@)),
        is_writable(text_node("\n    "@)),
        is_writable(text_node("\n      "@)),
        is_writable(text_node("\n        "@)),
        is_writable(text_node("\n          "@)),
        is_writable(text_node("\n            "@)),
        is_writable(text_node("\n\n            "@)),
        is_writable(text_node("\n              "@)),
{
    reveal_strlit("\n");
    reveal_strlit("\n  ");
    reveal_strlit("\n    ");
    reveal_strlit("\n      ");
    reveal_strlit("\n        ");
    reveal_strlit("\n          ");
    reveal_strlit("\n            ");
    reveal_strlit("\n\n            ");
    reveal_strlit("\n              ");
}

/// Whether what identifies the device of a slot can be read back: what names it can be
/// written in attributes, and a device of the workstation has a tag that names neither a
/// plugin nor a rack.
pub open spec fn is_plain_device(slot: SlotModel, id: Seq<(Seq<char>, FieldModel)>) -> bool {
    let tag = text_or(id, "tag"@, "UnknownDevice"@);
    &&& is_value(text_or(id, "name"@, "Unknown"@))
    &&& has_plain_state(slot, id)
    &&& if text_or(id, "format"@, "VST2"@) == "Ableton"@ {
        is_name(tag) && tag != "PluginDevice"@ && rack_type_of(tag) is None
    } else {
        is_value(text_or(id, "vendor"@, ""@))
    }
}

/// One element can stand in an element.
proof fn lemma_stand_one(a: XmlModel)
    requires
        is_writable(a),
    ensures
        can_stand(seq![a]),
{
    let none = Seq::<XmlModel>::empty();
    assert(can_stand(none));
    lemma_stand_push(none, a);
    assert(seq![a] =~= none.push(a));
}

/// Two elements can stand in an element.
proof fn lemma_stand_two(a: XmlModel, b: XmlModel)
    requires
        is_writable(a) && is_writable(b),
        b.kind == XmlKind::Element,
    ensures
        can_stand(seq![a, b]),
{
    lemma_stand_one(a);
    lemma_stand_push(seq![a], b);
    assert(seq![a, b] =~= seq![a].push(b));
}

/// An element with one value can be written.
proof fn lemma_writable_value(tag: Seq<char>, value: Seq<char>)
    requires
        is_name(tag),
        is_value(value),
    ensures
        is_writable(value_node(tag, value)),
{
    lemma_attr_names();
    lemma_one_attr("Value"@, value);
    assert(can_stand(Seq::<XmlModel>::empty()));
    lemma_writable_element(tag, seq![plain_attr("Value"@, value)], Seq::empty());
}

/// An element around one node can be written.
proof fn lemma_writable_around(tag: Seq<char>, attrs: Seq<AttrModel>, n: XmlModel)
    requires
        is_name(tag),
        are_attrs(attrs),
        is_writable(n),
    ensures
        is_writable(element(tag, attrs, seq![n])),
{
    lemma_stand_one(n);
    lemma_writable_element(tag, attrs, seq![n]);
}

/// The attribute of an element without a number of its own can be written.
proof fn lemma_writable_zero()
    ensures
        are_attrs(zero_id()),
        are_attrs(Seq::<AttrModel>::empty()),
{
    lemma_attr_names();
    lemma_fixed_values();
    lemma_one_attr("Id"@, "0"@);
}

/// The name and the switch of a device can be written.
proof fn lemma_writable_switch(name: Seq<char>, active: bool)
    requires
        is_value(name),
    ensures
        is_writable(name_node(name)),
        is_writable(on_node(active)),
{
    lemma_tags_are_names();
    lemma_fixed_values();
    lemma_writable_zero();
    lemma_writable_value("EffectiveName"@, name);
    lemma_writable_around("Name"@, Seq::empty(), value_node("EffectiveName"@, name));
    lemma_writable_value("Manual"@, truth_text(active));
    lemma_writable_around("On"@, Seq::empty(), value_node("Manual"@, truth_text(active)));
}

/// The description of a plugin can be written.
proof fn lemma_writable_desc(format: Seq<char>, name: Seq<char>, vendor: Seq<char>)
    requires
        is_value(name),
        is_value(vendor),
    ensures
        is_writable(desc_node(format, name, vendor)),
{
    lemma_tags_are_names();
    lemma_writable_zero();
    let a = value_node(name_tag(format), name);
    let b = value_node(vendor_tag(format), vendor);
    lemma_writable_value(name_tag(format), name);
    lemma_writable_value(vendor_tag(format), vendor);
    lemma_stand_two(a, b);
    lemma_writable_element(info_tag(format), zero_id(), seq![a, b]);
    lemma_writable_around("PluginDesc"@, Seq::empty(), info_node(format, name, vendor));
}

/// The state of a plugin can be written.
proof fn lemma_writable_preset(format: Seq<char>, state: Option<Seq<char>>)
    requires
        state matches Some(data) ==> is_content(data),
    ensures
        is_writable(preset_node(format, state)),
{
    lemma_tags_are_names();
    lemma_writable_zero();
    match state {
        None => {
            assert(can_stand(Seq::<XmlModel>::empty()));
            lemma_writable_element(preset_tag(format), zero_id(), Seq::empty());
        },
        Some(data) => {
            assert(is_writable(text_node(data)));
            lemma_writable_around("Data"@, Seq::empty(), text_node(data));
            if format == "VST2"@ {
                let chunk = element("PluginDataChunk"@, zero_id(), seq![data_node(data)]);
                lemma_writable_around("PluginDataChunk"@, zero_id(), data_node(data));
                lemma_writable_around("PluginDataChunkList"@, Seq::empty(), chunk);
                lemma_writable_around(preset_tag(format), zero_id(), chunks_node(data));
            } else {
                lemma_writable_around(preset_tag(format), zero_id(), data_node(data));
            }
        },
    }
    lemma_writable_around("Preset"@, Seq::empty(), state_node(format, state));
}

/// The device of a slot can be written.
proof fn lemma_writable_device(slot: SlotModel, id: Seq<(Seq<char>, FieldModel)>, i: nat)
    requires
        is_plain_device(slot, id),
    ensures
        is_writable(device_node(slot, id, i as int)),
{
    let name = text_or(id, "name"@, "Unknown"@);
    let vendor = text_or(id, "vendor"@, ""@);
    let format = text_or(id, "format"@, "VST2"@);
    let n = device_node(slot, id, i as int);
    lemma_tags_are_names();
    lemma_attr_names();
    lemma_blanks();
    lemma_number_plain(i as int);
    lemma_one_attr("Id"@, decimal(i));
    lemma_writable_switch(name, !slot.bypass);
    if format == "Ableton"@ {
        lemma_spaced_stand("\n"@, builtin_nodes(name, !slot.bypass), "\n"@);
    } else {
        lemma_writable_desc(format, name, vendor);
        lemma_writable_preset(format, slot.opaque_state);
        lemma_spaced_stand("\n"@, plugin_nodes(slot, id), "\n"@);
    }
    lemma_writable_element(n.tag, n.attrs, n.children);
}

/// An element around elements with blanks between them can be written.
proof fn lemma_writable_wrap(
    tag: Seq<char>,
    attrs: Seq<AttrModel>,
    lead: Seq<char>,
    items: Seq<XmlModel>,
    end: Seq<char>,
)
    requires
        is_name(tag),
        are_attrs(attrs),
        is_writable(text_node(lead)),
        is_writable(text_node(end)),
        forall|i: int|
            0 <= i < items.len() ==> is_writable(#[trigger] items[i]) && items[i].kind
                == XmlKind::Element,
    ensures
        is_writable(element(tag, attrs, spaced(lead, items, end))),
{
    lemma_spaced_stand(lead, items, end);
    lemma_writable_element(tag, attrs, spaced(lead, items, end));
}

/// The attributes of the root element can be written.
proof fn lemma_writable_root()
    ensures
        are_attrs(rack_attrs()),
{
    lemma_attr_names();
    lemma_fixed_values();
    reveal_strlit("Id");
    reveal_strlit("MajorVersion");
    reveal_strlit("MinorVersion");
    reveal_strlit("Creator");
    reveal_strlit("Annotation");
    assert("Id"@.len() == 2 && "Creator"@.len() == 7 && "Annotation"@.len() == 10
        && "MajorVersion"@.len() == 12 && "MinorVersion"@.len() == 12 && "MajorVersion"@[1] == 'a'
        && "MinorVersion"@[1] == 'i');
}

/// The file of a chain can be written.
proof fn lemma_writable_rack(chain: ChainModel, ids: Seq<Seq<(Seq<char>, FieldModel)>>)
    requires
        is_value(chain.name),
        forall|i: int|
            0 <= i < chain.slots.len() ==> is_plain_device(#[trigger] chain.slots[i], ids[i]),
    ensures
        is_writable(rack_node(chain, ids)),
{
    let slots = chain.slots;
    lemma_tags_are_names();
    lemma_fixed_values();
    lemma_blanks();
    lemma_writable_zero();
    lemma_writable_root();
    let list = device_list(slots, ids);
    assert forall|i: int| 0 <= i < list.len() implies is_writable(#[trigger] list[i])
        && list[i].kind == XmlKind::Element by {
        assert(is_plain_device(slots[i], ids[i]));
        lemma_writable_device(slots[i], ids[i], i as nat);
    }
    if slots.len() == 0 {
        lemma_writable_around("Devices"@, Seq::empty(), text_node("\n\n            "@));
    } else {
        lemma_writable_wrap(
            "Devices"@,
            Seq::empty(),
            "\n              "@,
            list,
            "\n            "@,
        );
    }
    let devices = devices_node(slots, ids);
    let inner = element(
        "AudioToAudioDeviceChain"@,
        zero_id(),
        spaced("\n            "@, seq![devices], "\n          "@),
    );
    lemma_writable_wrap(
        "AudioToAudioDeviceChain"@,
        zero_id(),
        "\n            "@,
        seq![devices],
        "\n          "@,
    );
    lemma_writable_wrap(
        "DeviceChain"@,
        Seq::empty(),
        "\n          "@,
        seq![inner],
        "\n        "@,
    );
    lemma_writable_value("Name"@, "Default"@);
    lemma_writable_value("IsSelected"@, "true"@);
    lemma_writable_wrap(
        "AudioEffectBranch"@,
        zero_id(),
        "\n        "@,
        seq![
            value_node("Name"@, "Default"@),
            value_node("IsSelected"@, "true"@),
            chain_node(slots, ids),
        ],
        "\n      "@,
    );
    lemma_writable_wrap(
        "Branches"@,
        Seq::empty(),
        "\n      "@,
        seq![branch_node(slots, ids)],
        "\n    "@,
    );
    lemma_writable_switch(chain.name, true);
    lemma_writable_wrap(
        "GroupDevice"@,
        zero_id(),
        "\n    "@,
        seq![name_node(chain.name), on_node(true), branches_node(slots, ids)],
        "\n  "@,
    );
    lemma_writable_wrap("Ableton"@, rack_attrs(), "\n  "@, seq![group_node(chain, ids)], "\n"@);
}

// ---------------------------------------------------------------------------
// What is read
// ---------------------------------------------------------------------------

/// The format that a plugin is read back with. One that is neither VST3 nor an Audio Unit
/// is written as VST2.
pub open spec fn kept_format(format: Seq<char>) -> PluginFormat {
    if format == "VST3"@ {
        PluginFormat::Vst3
    } else if format == "AU"@ {
        PluginFormat::Au
    } else {
        PluginFormat::Vst2
    }
}

/// The state that a plugin is read back with, without blanks around it.
pub open spec fn kept_state(state: Option<Seq<char>>) -> Option<Seq<char>> {
    match state {
        Some(data) => if trim(data).len() > 0 {
            Some(trim(data))
        } else {
            None
        },
        None => None,
    }
}

/// The device of slot `i` as it is read back: its name, whether it is on, and what
/// identifies it, with the state of a plugin.
pub open spec fn kept_device(
    slot: SlotModel,
    id: Seq<(Seq<char>, FieldModel)>,
    i: int,
) -> DeviceModel {
    let name = text_or(id, "name"@, "Unknown"@);
    let format = text_or(id, "format"@, "VST2"@);
    DeviceModel {
        name,
        is_active: !slot.bypass,
        device_type: if format == "Ableton"@ {
            TypeModel::AbletonBuiltin {
                tag: text_or(id, "tag"@, "UnknownDevice"@),
                params_xml: node_text(device_node(slot, id, i)),
            }
        } else {
            TypeModel::Plugin {
                plugin_name: name,
                vendor: Some(text_or(id, "vendor"@, ""@)),
                format: kept_format(format),
                opaque_state: kept_state(slot.opaque_state),
            }
        },
        macros: Seq::empty(),
        children: Seq::empty(),
    }
}

/// The devices of the slots of a chain as they are read back.
pub open spec fn kept_devices(
    slots: Seq<SlotModel>,
    ids: Seq<Seq<(Seq<char>, FieldModel)>>,
) -> Seq<DeviceModel> {
    Seq::new(slots.len(), |i: int| kept_device(slots[i], ids[i], i))
}

/// The rack of a chain as it is read back: the name of the chain, and the devices of its
/// slots, in order.
pub open spec fn kept_rack(chain: ChainModel) -> RackModel {
    RackModel {
        creator: "Patchbay"@,
        major_version: "11"@,
        device: DeviceModel {
            name: chain.name,
            is_active: true,
            device_type: TypeModel::Rack { rack_type: RackType::AudioEffect },
            macros: Seq::empty(),
            children: kept_devices(chain.slots, identities(chain.slots)),
        },
    }
}

/// An element with one value has it.
proof fn lemma_read_value(tag: Seq<char>, value: Seq<char>)
    ensures
        attr(value_node(tag, value), "Value"@) == Some(value),
{
    reveal_with_fuel(attr_from, 2);
}

/// The name and the switch of a device are read.
proof fn lemma_read_switch(n: XmlModel, name: Seq<char>, active: bool)
    requires
        child(n, "Name"@) == Some(name_node(name)),
        child(n, "On"@) == Some(on_node(active)),
    ensures
        effective_name_of(n) == Some(name),
        is_active(n) == active,
{
    reveal_with_fuel(tagged_from, 2);
    lemma_read_value("EffectiveName"@, name);
    lemma_read_value("Manual"@, truth_text(active));
    assert(child(name_node(name), "EffectiveName"@) == Some(value_node("EffectiveName"@, name)));
    assert(child(on_node(active), "Manual"@) == Some(
        value_node("Manual"@, truth_text(active)),
    ));
    if !active {
        reveal_strlit("true");
        reveal_strlit("false");
        let lower = |c: char| ascii_lower(c);
        assert("false"@.map_values(lower).len() == 5 && "true"@.map_values(lower).len() == 4);
    }
}

/// An element that is no data has the data of the only node in it.
proof fn lemma_data_below(tag: Seq<char>, attrs: Seq<AttrModel>, n: XmlModel)
    requires
        tag != "Data"@,
    ensures
        data_text(element(tag, attrs, seq![n])) == data_text(n),
{
    let all = seq![n];
    assert(data_text_from(all, 1) is None);
    assert(data_text_from(all, 0) == data_text(n));
}

/// The data of a state are read without blanks around them.
proof fn lemma_read_data(data: Seq<char>)
    ensures
        data_text(data_node(data)) == kept_state(Some(data)),
{
    let text = text_node(data);
    let all = seq![text];
    let none = Seq::<XmlModel>::empty();
    reveal_with_fuel(texts_of, 3);
    assert(all.drop_last() =~= none);
    assert(texts_of(all) =~= data);
    assert(data_text_from(none, 0) is None);
    assert(data_text(text) is None);
    assert(data_text_from(all, 1) is None);
    assert(data_text_from(all, 0) is None);
}

/// The state of a plugin is read.
proof fn lemma_read_preset(format: Seq<char>, state: Option<Seq<char>>)
    ensures
        data_text(preset_node(format, state)) == kept_state(state),
{
    reveal_strlit("Data");
    reveal_strlit("Preset");
    reveal_strlit("Vst3Preset");
    reveal_strlit("AuPreset");
    reveal_strlit("VstPreset");
    reveal_strlit("PluginDataChunkList");
    reveal_strlit("PluginDataChunk");
    assert("Data"@.len() == 4 && "Preset"@.len() == 6 && "Vst3Preset"@.len() == 10
        && "AuPreset"@.len() == 8 && "VstPreset"@.len() == 9 && "PluginDataChunkList"@.len() == 19
        && "PluginDataChunk"@.len() == 15);
    let inner = state_node(format, state);
    lemma_data_below("Preset"@, Seq::empty(), inner);
    match state {
        None => {
            assert(data_text_from(Seq::<XmlModel>::empty(), 0) is None);
            assert(data_text(inner) is None);
        },
        Some(data) => {
            lemma_read_data(data);
            if format == "VST2"@ {
                let chunk = element("PluginDataChunk"@, zero_id(), seq![data_node(data)]);
                lemma_data_below("PluginDataChunk"@, zero_id(), data_node(data));
                lemma_data_below("PluginDataChunkList"@, Seq::empty(), chunk);
                lemma_data_below(preset_tag(format), zero_id(), chunks_node(data));
            } else {
                lemma_data_below(preset_tag(format), zero_id(), data_node(data));
            }
        },
    }
}

/// The elements in a device are found.
proof fn lemma_device_children(slot: SlotModel, id: Seq<(Seq<char>, FieldModel)>, i: nat)
    ensures
        ({
            let n = device_node(slot, id, i as int);
            let name = text_or(id, "name"@, "Unknown"@);
            let format = text_or(id, "format"@, "VST2"@);
            &&& child(n, "Name"@) == Some(name_node(name))
            &&& child(n, "On"@) == Some(on_node(!slot.bypass))
            &&& format != "Ableton"@ ==> child(n, "PluginDesc"@) == Some(
                desc_node(format, name, text_or(id, "vendor"@, ""@)),
            ) && child(n, "Preset"@) == Some(preset_node(format, slot.opaque_state))
        }),
{
    reveal_strlit("Name");
    reveal_strlit("On");
    reveal_strlit("PluginDesc");
    reveal_strlit("Preset");
    assert("Name"@.len() == 4 && "On"@.len() == 2 && "PluginDesc"@.len() == 10 && "Preset"@.len()
        == 6);
    reveal_with_fuel(tagged_from, 5);
    let name = text_or(id, "name"@, "Unknown"@);
    let e = "\n"@;
    if text_or(id, "format"@, "VST2"@) == "Ableton"@ {
        let items = builtin_nodes(name, !slot.bypass);
        lemma_spaced_tagged(e, items, e, "Name"@, 0);
        lemma_spaced_tagged(e, items, e, "On"@, 0);
    } else {
        let items = plugin_nodes(slot, id);
        lemma_spaced_tagged(e, items, e, "Name"@, 0);
        lemma_spaced_tagged(e, items, e, "On"@, 0);
        lemma_spaced_tagged(e, items, e, "PluginDesc"@, 0);
        lemma_spaced_tagged(e, items, e, "Preset"@, 0);
    }
}

/// The description of a plugin is read.
proof fn lemma_read_desc(
    n: XmlModel,
    format: Seq<char>,
    name: Seq<char>,
    vendor: Seq<char>,
    state: Option<Seq<char>>,
)
    requires
        child(n, "PluginDesc"@) == Some(desc_node(format, name, vendor)),
        child(n, "Preset"@) == Some(preset_node(format, state)),
    ensures
        plugin_of(n) == Some(
            TypeModel::Plugin {
                plugin_name: name,
                vendor: Some(vendor),
                format: kept_format(format),
                opaque_state: kept_state(state),
            },
        ),
{
    lemma_read_preset(format, state);
    reveal_strlit("Vst3PluginInfo");
    reveal_strlit("AuPluginInfo");
    reveal_strlit("VstPluginInfo");
    reveal_strlit("Name");
    reveal_strlit("PlugName");
    reveal_strlit("VendorString");
    reveal_strlit("Manufacturer");
    reveal_strlit("VST3");
    reveal_strlit("AU");
    assert("Vst3PluginInfo"@.len() == 14 && "AuPluginInfo"@.len() == 12 && "VstPluginInfo"@.len()
        == 13 && "Name"@.len() == 4 && "PlugName"@.len() == 8 && "VendorString"@.len() == 12
        && "Manufacturer"@.len() == 12 && "VST3"@.len() == 4 && "AU"@.len() == 2);
    reveal_with_fuel(tagged_from, 3);
    let desc = desc_node(format, name, vendor);
    let info = info_node(format, name, vendor);
    let a = value_node(name_tag(format), name);
    let b = value_node(vendor_tag(format), vendor);
    lemma_read_value(name_tag(format), name);
    lemma_read_value(vendor_tag(format), vendor);
    assert(child(desc, info_tag(format)) == Some(info));
    assert(child(info, name_tag(format)) == Some(a));
    assert(child(info, vendor_tag(format)) == Some(b));
}

/// A device reads back.
proof fn lemma_read_device(slot: SlotModel, id: Seq<(Seq<char>, FieldModel)>, i: nat)
    requires
        is_plain_device(slot, id),
    ensures
        device_of(device_node(slot, id, i as int)) == Some(kept_device(slot, id, i as int)),
{
    let n = device_node(slot, id, i as int);
    let name = text_or(id, "name"@, "Unknown"@);
    let format = text_or(id, "format"@, "VST2"@);
    lemma_device_children(slot, id, i);
    lemma_read_switch(n, name, !slot.bypass);
    if format != "Ableton"@ {
        lemma_read_desc(n, format, name, text_or(id, "vendor"@, ""@), slot.opaque_state);
    }
}

/// Blanks between devices are no devices.
proof fn lemma_read_list(lead: Seq<char>, items: Seq<XmlModel>, want: Seq<DeviceModel>)
    requires
        items.len() == want.len(),
        forall|i: int|
            0 <= i < items.len() ==> (#[trigger] items[i]).kind == XmlKind::Element && device_of(
                items[i],
            ) == Some(want[i]),
    ensures
        devices_in(led(lead, items)) == want,
    decreases items.len(),
{
    if items.len() == 0 {
        assert(led(lead, items).len() == 0);
        assert(want =~= Seq::empty());
    } else {
        let before = led(lead, items.drop_last());
        let blank = text_node(lead);
        let last = items.last();
        assert forall|i: int| 0 <= i < items.len() - 1 implies (
        #[trigger] items.drop_last()[i]).kind == XmlKind::Element && device_of(items.drop_last()[i])
            == Some(want.drop_last()[i]) by {
            assert(items.drop_last()[i] == items[i]);
        }
        lemma_read_list(lead, items.drop_last(), want.drop_last());
        assert(before.push(blank).drop_last() =~= before);
        assert(before.push(blank).last() == blank);
        assert(devices_in(before.push(blank)) == devices_in(before));
        let all = before.push(blank).push(last);
        assert(all.drop_last() =~= before.push(blank));
        assert(all.last() == last);
        assert(items[items.len() - 1] == last);
        assert(devices_in(all) == devices_in(before.push(blank)).push(want.last()));
        assert(want =~= want.drop_last().push(want.last()));
    }
}

/// The devices of the slots read back, in order.
proof fn lemma_read_devices(slots: Seq<SlotModel>, ids: Seq<Seq<(Seq<char>, FieldModel)>>)
    requires
        forall|i: int| 0 <= i < slots.len() ==> is_plain_device(#[trigger] slots[i], ids[i]),
    ensures
        devices_in(devices_content(slots, ids)) == kept_devices(slots, ids),
{
    let want = kept_devices(slots, ids);
    let all = devices_content(slots, ids);
    if slots.len() == 0 {
        assert(all.drop_last() =~= Seq::<XmlModel>::empty());
        assert(devices_in(all.drop_last()) =~= Seq::empty());
        assert(devices_in(all) =~= want);
    } else {
        let list = device_list(slots, ids);
        let lead = "\n              "@;
        assert forall|i: int| 0 <= i < list.len() implies (#[trigger] list[i]).kind
            == XmlKind::Element && device_of(list[i]) == Some(want[i]) by {
            assert(is_plain_device(slots[i], ids[i]));
            lemma_read_device(slots[i], ids[i], i as nat);
        }
        lemma_read_list(lead, list, want);
        assert(all.drop_last() =~= led(lead, list));
        assert(all.last() == text_node("\n            "@));
    }
}

/// The chain of the branch is found.
proof fn lemma_read_branch(slots: Seq<SlotModel>, ids: Seq<Seq<(Seq<char>, FieldModel)>>)
    ensures
        chain_items(branch_node(slots, ids)) == Some(devices_content(slots, ids)),
{
    let devices = devices_node(slots, ids);
    let inner = element(
        "AudioToAudioDeviceChain"@,
        zero_id(),
        spaced("\n            "@, seq![devices], "\n          "@),
    );
    let chain = chain_node(slots, ids);
    let items = seq![
        value_node("Name"@, "Default"@),
        value_node("IsSelected"@, "true"@),
        chain,
    ];
    reveal_strlit("Name");
    reveal_strlit("IsSelected");
    reveal_strlit("DeviceChain");
    assert("Name"@.len() == 4 && "IsSelected"@.len() == 10 && "DeviceChain"@.len() == 11);
    reveal_with_fuel(tagged_from, 4);
    lemma_spaced_tagged("\n        "@, items, "\n      "@, "DeviceChain"@, 0);
    lemma_spaced_first("\n          "@, seq![inner], "\n        "@);
    lemma_spaced_tagged("\n            "@, seq![devices], "\n          "@, "Devices"@, 0);
}

/// The devices of the only branch are those of the rack.
proof fn lemma_read_branches(slots: Seq<SlotModel>, ids: Seq<Seq<(Seq<char>, FieldModel)>>)
    requires
        forall|i: int| 0 <= i < slots.len() ==> is_plain_device(#[trigger] slots[i], ids[i]),
    ensures
        branch_devices(branches_node(slots, ids).children) == kept_devices(slots, ids),
{
    lemma_read_branch(slots, ids);
    lemma_read_devices(slots, ids);
    let branch = branch_node(slots, ids);
    let lead = text_node("\n      "@);
    let all = branches_node(slots, ids).children;
    let none = Seq::<XmlModel>::empty();
    lemma_led_places("\n      "@, seq![branch], 0);
    assert(all =~= none.push(lead).push(branch).push(text_node("\n    "@)));
    let two = none.push(lead).push(branch);
    assert(all.drop_last() =~= two);
    assert(all.last() == text_node("\n    "@));
    assert(two.drop_last() =~= none.push(lead));
    assert(two.last() == branch);
    assert(none.push(lead).drop_last() =~= none);
    assert(none.push(lead).last() == lead);
    assert(branch_devices(none) =~= Seq::empty());
    assert(branch_devices(none.push(lead)) == branch_devices(none));
    let want = kept_devices(slots, ids);
    assert(branch_devices(two) == branch_devices(none.push(lead)) + want);
    assert(branch_devices(none.push(lead)) + want =~= want);
    assert(branch_devices(all) == branch_devices(two));
}

/// The rack reads back.
proof fn lemma_read_rack(chain: ChainModel)
    requires
        forall|i: int|
            0 <= i < chain.slots.len() ==> is_plain_device(
                #[trigger] chain.slots[i],
                identities(chain.slots)[i],
            ),
    ensures
        rack_of(rack_node(chain, identities(chain.slots))) == Ok::<RackModel, ErrorModel>(
            kept_rack(chain),
        ),
{
    let slots = chain.slots;
    let ids = identities(slots);
    let root = rack_node(chain, ids);
    let group = group_node(chain, ids);
    let items = seq![name_node(chain.name), on_node(true), branches_node(slots, ids)];
    lemma_read_branches(slots, ids);
    lemma_spaced_first("\n  "@, seq![group], "\n"@);
    reveal_strlit("Name");
    reveal_strlit("On");
    reveal_strlit("Branches");
    reveal_strlit("Macros");
    reveal_strlit("GroupDevice");
    reveal_strlit("PluginDevice");
    reveal_strlit("InstrumentGroupDevice");
    reveal_strlit("DrumGroupDevice");
    assert("Name"@.len() == 4 && "On"@.len() == 2 && "Branches"@.len() == 8 && "Macros"@.len() == 6
        && "GroupDevice"@.len() == 11 && "PluginDevice"@.len() == 12
        && "InstrumentGroupDevice"@.len() == 21 && "DrumGroupDevice"@.len() == 15);
    reveal_with_fuel(tagged_from, 4);
    lemma_spaced_tagged("\n    "@, items, "\n  "@, "Name"@, 0);
    lemma_spaced_tagged("\n    "@, items, "\n  "@, "On"@, 0);
    lemma_spaced_tagged("\n    "@, items, "\n  "@, "Branches"@, 0);
    lemma_spaced_tagged("\n    "@, items, "\n  "@, "Macros"@, 0);
    assert(child(group, "Branches"@) == Some(branches_node(slots, ids)));
    assert(child(group, "Macros"@) is None);
    lemma_read_switch(group, chain.name, true);
    assert(device_of(group) == Some(kept_rack(chain).device));
    reveal_strlit("Creator");
    reveal_strlit("MajorVersion");
    reveal_strlit("MinorVersion");
    assert("Creator"@.len() == 7 && "MajorVersion"@.len() == 12 && "MinorVersion"@.len() == 12);
    reveal_with_fuel(attr_from, 4);
}

/// Whether a chain can be read back from its file: its name and what identifies its
/// devices can be written, and the text of the rack is shorter than what 32 bits can
/// count.
pub open spec fn is_plain_rack(chain: ChainModel) -> bool {
    &&& is_value(chain.name)
    &&& forall|i: int|
        0 <= i < chain.slots.len() ==> is_plain_device(
            #[trigger] chain.slots[i],
            identities(chain.slots)[i],
        )
    &&& rack_xml(chain, identities(chain.slots)).len() < u32::MAX
}

/// The XML text of the rack of a chain writes its tree, which reads as the chain.
pub proof fn lemma_rack_of_chain(chain: ChainModel)
    requires
        is_plain_rack(chain),
    ensures
        writes(
            rack_xml(chain, identities(chain.slots)),
            rack_node(chain, identities(chain.slots)),
        ),
        rack_of(rack_node(chain, identities(chain.slots))) == Ok::<RackModel, ErrorModel>(
            kept_rack(chain),
        ),
{
    let ids = identities(chain.slots);
    assert forall|i: int| 0 <= i < chain.slots.len() implies has_plain_state(
        #[trigger] chain.slots[i],
        ids[i],
    ) by {
        assert(is_plain_device(chain.slots[i], ids[i]));
    }
    lemma_rack(chain, ids);
    lemma_writable_rack(chain, ids);
    lemma_read_rack(chain);
}

} // verus!
