use patchbay::daw_readers::ableton::{read_adg, DeviceType, PluginFormat, RackType};
use patchbay::daw_writers::ableton::{build_xml, write_adg};
use patchbay::daw_writers::logicpro::{write_cst, NO_LOGIC_EXPORT};
use patchbay::db::{ChainDetail, ChainSlotRow};

/// The JSON text of an object with the given texts.
fn identity(members: &[(&str, Option<&str>)]) -> String {
    let mut object = serde_json::Map::new();
    for (key, value) in members {
        let value = match value {
            Some(text) => serde_json::Value::String(text.to_string()),
            None => serde_json::Value::Null,
        };
        object.insert(key.to_string(), value);
    }
    serde_json::Value::Object(object).to_string()
}

/// The bits of a mix that is all wet.
const WET: u64 = 0x3ff0_0000_0000_0000;

fn make_chain(slots: Vec<ChainSlotRow>) -> ChainDetail {
    ChainDetail {
        id: 1,
        sync_id: "test".to_string(),
        name: "My Chain".to_string(),
        daw: "Ableton".to_string(),
        source_track: None,
        notes: None,
        tags: None,
        created_at: "2026-01-01T00:00:00Z".to_string(),
        slots,
    }
}

fn slot_vst3(name: &str, vendor: &str, bypass: bool, state: Option<&str>) -> ChainSlotRow {
    ChainSlotRow {
        id: 1,
        plugin_id: None,
        plugin_identity: identity(&[
            ("name", Some(name)),
            ("vendor", Some(vendor)),
            ("format", Some("VST3")),
        ]),
        position: 0,
        bypass,
        wet_bits: WET,
        preset_name: None,
        opaque_state: state.map(str::to_string),
    }
}

fn slot_ableton_builtin(name: &str, tag: &str) -> ChainSlotRow {
    ChainSlotRow {
        id: 2,
        plugin_id: None,
        plugin_identity: identity(&[
            ("name", Some(name)),
            ("vendor", Some("Ableton")),
            ("format", Some("Ableton")),
            ("tag", Some(tag)),
        ]),
        position: 1,
        bypass: false,
        wet_bits: WET,
        preset_name: None,
        opaque_state: None,
    }
}

#[test]
fn produces_valid_gzipped_xml() {
    let chain = make_chain(vec![slot_vst3("Pro-Q 3", "FabFilter", false, Some("AQIDBA=="))]);
    let bytes = write_adg(&chain).unwrap();
    assert!(!bytes.is_empty());
    // gzip magic bytes
    assert_eq!(&bytes[..2], &[0x1f, 0x8b]);
}

#[test]
fn xml_contains_plugin_name_and_vendor() {
    let chain = make_chain(vec![slot_vst3("Pro-Q 3", "FabFilter", false, Some("AQIDBA=="))]);
    let xml = build_xml(&chain);
    assert!(xml.contains("Pro-Q 3"));
    assert!(xml.contains("FabFilter"));
    assert!(xml.contains("Vst3PluginInfo"));
    assert!(xml.contains("AQIDBA=="));
}

#[test]
fn ableton_builtin_emits_tag_element() {
    let chain = make_chain(vec![slot_ableton_builtin("EQ Eight", "Eq8")]);
    let xml = build_xml(&chain);
    assert!(xml.contains("<Eq8 Id=\"0\">"));
    assert!(xml.contains("</Eq8>"));
    assert!(xml.contains("EQ Eight"));
}

#[test]
fn bypassed_plugin_sets_active_false() {
    let chain = make_chain(vec![slot_vst3("Serum", "Xfer", true, None)]);
    let xml = build_xml(&chain);
    assert!(xml.contains("<On><Manual Value=\"false\"/></On>"));
}

#[test]
fn xml_escapes_special_chars_in_name() {
    let chain = make_chain(vec![slot_vst3("A & B <Test>", "FabFilter", false, None)]);
    let xml = build_xml(&chain);
    assert!(xml.contains("A &amp; B &lt;Test&gt;"));
}

#[test]
fn vst2_state_wrapped_in_chunk_list() {
    let slot = ChainSlotRow {
        id: 1,
        plugin_id: None,
        plugin_identity: identity(&[
            ("name", Some("Serum")),
            ("vendor", Some("Xfer Records")),
            ("format", Some("VST2")),
        ]),
        position: 0,
        bypass: false,
        wet_bits: WET,
        preset_name: None,
        opaque_state: Some("c2VydW0=".to_string()),
    };
    let chain = make_chain(vec![slot]);
    let xml = build_xml(&chain);
    assert!(xml.contains("PluginDataChunkList"));
    assert!(xml.contains("c2VydW0="));
}

#[test]
fn written_rack_reads_back() {
    let chain = make_chain(vec![
        slot_vst3("A & B <Test>", "FabFilter", true, Some("AQIDBA==")),
        slot_ableton_builtin("EQ Eight", "Eq8"),
    ]);
    let rack = read_adg(&write_adg(&chain).unwrap()).unwrap();
    assert_eq!(rack.device.name, "My Chain");
    assert!(matches!(rack.device.device_type, DeviceType::Rack { rack_type: RackType::AudioEffect }));
    assert_eq!(rack.device.children.len(), 2);
    let plugin = &rack.device.children[0];
    assert!(!plugin.is_active);
    match &plugin.device_type {
        DeviceType::Plugin { plugin_name, vendor, format, opaque_state } => {
            assert_eq!(plugin_name, "A & B <Test>");
            assert_eq!(vendor.as_deref(), Some("FabFilter"));
            assert_eq!(*format, PluginFormat::Vst3);
            assert_eq!(opaque_state.as_deref(), Some("AQIDBA=="));
        }
        _ => panic!("expected Plugin"),
    }
    match &rack.device.children[1].device_type {
        DeviceType::AbletonBuiltin { tag, .. } => assert_eq!(tag, "Eq8"),
        _ => panic!("expected AbletonBuiltin"),
    }
}

#[test]
fn logic_chains_are_not_written() {
    let chain = make_chain(vec![]);
    assert_eq!(write_cst(&chain).unwrap_err(), NO_LOGIC_EXPORT);
}

#[test]
fn devices_of_a_written_rack_read_back() {
    let mut chain = make_chain(vec![
        slot_vst3("A & B <\"Ünïcode\"> ']]>'", "V & Co 漢", true, Some(" AQID\nBA== ")),
        slot_ableton_builtin("EQ > Eight", "Eq8"),
        slot_vst3("Plain", "", false, None),
    ]);
    chain.slots[2].plugin_identity =
        identity(&[("name", Some("Plain")), ("vendor", None), ("format", Some("CLAP"))]);
    chain.name = "R&B <1>".to_string();
    let rack = read_adg(&write_adg(&chain).unwrap()).unwrap();
    assert_eq!((rack.creator.as_str(), rack.major_version.as_str()), ("Patchbay", "11"));
    assert_eq!(rack.device.name, "R&B <1>");
    assert!(rack.device.macros.is_empty());
    let devices = &rack.device.children;
    assert_eq!(devices.len(), 3);
    assert_eq!(devices[0].name, "A & B <\"Ünïcode\"> ']]>'");
    assert!(!devices[0].is_active);
    match &devices[0].device_type {
        DeviceType::Plugin { plugin_name, vendor, format, opaque_state } => {
            assert_eq!(plugin_name, "A & B <\"Ünïcode\"> ']]>'");
            assert_eq!(vendor.as_deref(), Some("V & Co 漢"));
            assert_eq!(*format, PluginFormat::Vst3);
            assert_eq!(opaque_state.as_deref(), Some("AQID\nBA=="));
        }
        other => panic!("unexpected {other:?}"),
    }
    match &devices[1].device_type {
        DeviceType::AbletonBuiltin { tag, params_xml } => {
            assert_eq!(tag, "Eq8");
            assert!(params_xml.starts_with("<Eq8 Id=\"1\">\n<Name><EffectiveName Value=\"EQ &gt; Eight\"/>"));
        }
        other => panic!("unexpected {other:?}"),
    }
    match &devices[2].device_type {
        DeviceType::Plugin { vendor, format, opaque_state, .. } => {
            assert_eq!(vendor.as_deref(), Some(""));
            assert_eq!(*format, PluginFormat::Vst2);
            assert!(opaque_state.is_none());
        }
        other => panic!("unexpected {other:?}"),
    }
}

#[test]
fn rack_without_devices_reads_back() {
    let rack = read_adg(&write_adg(&make_chain(vec![])).unwrap()).unwrap();
    assert!(rack.device.is_active);
    assert!(matches!(rack.device.device_type, DeviceType::Rack { rack_type: RackType::AudioEffect }));
    assert!(rack.device.children.is_empty());
}
