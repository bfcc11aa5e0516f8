use patchbay::base64::{b64_decode, base64_encode};
use patchbay::daw_readers::dawproject::{read_dawproject, DeviceKind};
use patchbay::daw_writers::dawproject::write_dawproject;
use patchbay::db::{ChainDetail, ChainSlotRow};
use std::io::{Cursor, Read};

/// The JSON text of an object with the given texts.
fn identity(members: &[(&str, Option<&str>)]) -> String {
    let mut object = serde_json::Map::new();
    for (key, value) in members {
        let value = match value {
            Some(text) => serde_json::Value::String(text.to_string()),
            None => serde_json::Value::Null,
        };
        object.insert(key.to_string(), value);
    }
    serde_json::Value::Object(object).to_string()
}

/// The bits of a mix that is all wet.
const WET: u64 = 0x3ff0_0000_0000_0000;

fn chain(slots: Vec<ChainSlotRow>) -> ChainDetail {
    ChainDetail {
        id: 1,
        sync_id: "test".to_string(),
        name: "My Chain".to_string(),
        daw: "Bitwig Studio".to_string(),
        source_track: None,
        notes: None,
        tags: None,
        created_at: "2026-01-01T00:00:00Z".to_string(),
        slots,
    }
}

fn vst3_slot(state: Option<&str>) -> ChainSlotRow {
    ChainSlotRow {
        id: 1,
        plugin_id: None,
        plugin_identity: identity(&[
            ("name", Some("Pro-Q 3")),
            ("vendor", Some("FabFilter")),
            ("format", Some("VST3")),
            ("device_id", Some("{D8D91CE4-6A7D-4670-8BDE-4B688EC18B43}")),
        ]),
        position: 0,
        bypass: false,
        wet_bits: WET,
        preset_name: None,
        opaque_state: state.map(str::to_string),
    }
}

#[test]
fn produces_zip_archive() {
    let bytes = write_dawproject(&chain(vec![vst3_slot(None)])).unwrap();
    // ZIP magic bytes
    assert_eq!(&bytes[..4], b"PK\x03\x04");
}

#[test]
fn zip_contains_project_xml() {
    let bytes = write_dawproject(&chain(vec![vst3_slot(None)])).unwrap();
    let cursor = Cursor::new(bytes);
    let mut archive = zip::ZipArchive::new(cursor).unwrap();
    let mut xml_entry = archive.by_name("project.xml").unwrap();
    let mut xml = String::new();
    xml_entry.read_to_string(&mut xml).unwrap();
    assert!(xml.contains("<Project version=\"1.0\">"));
    assert!(xml.contains("Pro-Q 3"));
}

#[test]
fn state_blob_written_to_zip_file() {
    // base64("hello") = "aGVsbG8="
    let bytes =
        write_dawproject(&chain(vec![vst3_slot(Some("aGVsbG8="))])).unwrap();
    let cursor = Cursor::new(bytes);
    let mut archive = zip::ZipArchive::new(cursor).unwrap();

    let mut state_entry = archive.by_name("plugins/state_0.bin").unwrap();
    let mut state_bytes = Vec::new();
    state_entry.read_to_end(&mut state_bytes).unwrap();
    assert_eq!(state_bytes, b"hello");
}

#[test]
fn xml_references_state_path() {
    let bytes = write_dawproject(&chain(vec![vst3_slot(Some("aGVsbG8="))])).unwrap();
    let cursor = Cursor::new(bytes);
    let mut archive = zip::ZipArchive::new(cursor).unwrap();
    let mut xml_entry = archive.by_name("project.xml").unwrap();
    let mut xml = String::new();
    xml_entry.read_to_string(&mut xml).unwrap();
    assert!(xml.contains("plugins/state_0.bin"));
}

#[test]
fn b64_decode_known_vectors() {
    assert_eq!(b64_decode(""), Some(vec![]));
    assert_eq!(b64_decode("Zg=="), Some(b"f".to_vec()));
    assert_eq!(b64_decode("Zm8="), Some(b"fo".to_vec()));
    assert_eq!(b64_decode("Zm9v"), Some(b"foo".to_vec()));
    assert_eq!(b64_decode("AAECAw=="), Some(vec![0, 1, 2, 3]));
}

#[test]
fn written_project_reads_back() {
    let bytes = write_dawproject(&chain(vec![vst3_slot(Some("aGVsbG8=")), vst3_slot(None)])).unwrap();
    let project = read_dawproject(&bytes).unwrap();
    assert_eq!(project.version, "1.0");
    let devices = &project.tracks[0].channel.as_ref().unwrap().devices;
    assert_eq!(devices.len(), 2);
    assert_eq!(devices[0].name, "Pro-Q 3");
    assert!(devices[0].is_enabled);
    match &devices[0].kind {
        DeviceKind::Vst3 { device_id, vendor, .. } => {
            assert_eq!(device_id, "{D8D91CE4-6A7D-4670-8BDE-4B688EC18B43}");
            assert_eq!(vendor.as_deref(), Some("FabFilter"));
        }
        _ => panic!("expected Vst3"),
    }
    assert_eq!(devices[0].opaque_state.as_deref(), Some("aGVsbG8="));
    assert!(devices[1].opaque_state.is_none());
}

#[test]
fn base64_reads_back() {
    for n in 0..70u8 {
        let bytes: Vec<u8> = (0..n).map(|i| i.wrapping_mul(37).wrapping_add(n)).collect();
        let text = base64_encode(&bytes);
        assert_eq!(text.len(), (bytes.len() + 2) / 3 * 4);
        assert_eq!(b64_decode(&text), Some(bytes));
    }
    assert_eq!(b64_decode("A*=="), None);
}

fn identified(members: &[(&str, Option<&str>)], bypass: bool, state: Option<&str>) -> ChainSlotRow {
    let mut slot = vst3_slot(state);
    slot.plugin_identity = identity(members);
    slot.bypass = bypass;
    slot
}

#[test]
fn devices_of_a_written_archive_read_back() {
    let name = "A & B <\"Ünïcode\"> ']]>'";
    let mut written = chain(vec![
        identified(
            &[("name", Some(name)), ("vendor", Some("漢 & Co")), ("format", Some("VST3")), ("device_id", Some("{G}"))],
            true,
            Some("aGVs bG8="),
        ),
        identified(
            &[
                ("name", Some("Au")),
                ("format", Some("AU")),
                ("type_code", Some("aufx")),
                ("sub_type", Some("<&>")),
                ("manufacturer", Some("appl")),
            ],
            false,
            None,
        ),
        identified(&[("name", Some("Clap")), ("format", Some("CLAP")), ("id", Some("com.x"))], false, Some("?")),
        identified(&[("format", Some("Other"))], false, Some("aGVsbG8=")),
    ]);
    written.slots[1].opaque_state = None;
    written.slots.push(vst3_slot(None));
    let object = "{\"name\":\"Two\",\"vendor\":\"V\",\"format\":\"VST2\",\"unique_id\":-1936880749}";
    written.slots[4].plugin_identity = object.to_string();
    written.name = "R&B <1>".to_string();

    let project = read_dawproject(&write_dawproject(&written).unwrap()).unwrap();
    assert_eq!(project.version, "1.0");
    assert_eq!(project.tracks.len(), 1);
    assert_eq!(project.tracks[0].name, "R&B <1>");
    let channel = project.tracks[0].channel.as_ref().unwrap();
    assert_eq!(channel.audio_channels, Some(2));
    let devices = &channel.devices;
    assert_eq!(devices.len(), 5);
    assert_eq!(devices[0].name, name);
    assert!(!devices[0].is_enabled);
    assert_eq!(devices[0].opaque_state.as_deref(), Some("aGVsbG8="));
    assert!(matches!(&devices[0].kind, DeviceKind::Vst3 { device_id, vendor, plugin_version }
        if device_id == "{G}" && vendor.as_deref() == Some("漢 & Co") && plugin_version.is_none()));
    assert!(matches!(&devices[1].kind, DeviceKind::Au { type_code, sub_type, manufacturer }
        if type_code == "aufx" && sub_type == "<&>" && manufacturer == "appl"));
    assert!(devices[1].is_enabled);
    assert!(matches!(&devices[2].kind, DeviceKind::Clap { id, vendor, .. }
        if id == "com.x" && vendor.as_deref() == Some("")));
    assert!(devices[2].opaque_state.is_none());
    assert_eq!(devices[3].name, "Unknown");
    assert!(matches!(devices[3].kind, DeviceKind::Builtin));
    assert_eq!(devices[3].opaque_state.as_deref(), Some("aGVsbG8="));
    assert!(matches!(&devices[4].kind, DeviceKind::Vst2 { unique_id: -1936880749, .. }));
}

#[test]
fn archive_without_devices_reads_back() {
    let project = read_dawproject(&write_dawproject(&chain(vec![])).unwrap()).unwrap();
    assert!(project.tracks[0].channel.as_ref().unwrap().devices.is_empty());
}

#[test]
fn line_breaks_in_base64_are_skipped() {
    let bytes: Vec<u8> = (0..100).collect();
    let text = base64_encode(&bytes);
    let spread: String = text.chars().flat_map(|c| [c, '\r', '\n', ' ', '\t']).collect();
    assert_eq!(b64_decode(&spread), Some(bytes.clone()));
    assert_eq!(b64_decode(&format!(" \n{text}\n")), Some(bytes));
    assert_eq!(b64_decode("Z\ng=\n="), Some(b"f".to_vec()));
    assert_eq!(b64_decode("Zm\u{a0}8="), None);
}
