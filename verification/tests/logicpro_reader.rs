use patchbay::daw_readers::logicpro::{
    associate_plugins_to_tracks, collect_ucua_entries, extract_name_from_qesm, extract_plugin_name, extract_tracks_plist, four_cc, read_logicx,
    read_project_data, widget_name_in, LogicError, LogicPackage, PackageFile, TrakEntry, UcuaEntry,
    UcuaKind, LOGIC_MAGIC,
};
use patchbay::property_list::parse_plist;
use plist::{Dictionary, Value};

/// An empty package directory.
fn package() -> LogicPackage {
    LogicPackage {
        path: "/tmp/test.logicx".to_string(),
        is_dir: true,
        stem: Some("test".to_string()),
        information: None,
        modern_path: "/tmp/test.logicx/Alternatives/000/ProjectData".to_string(),
        modern: PackageFile::Missing,
        legacy_lower: PackageFile::Missing,
        legacy_upper: PackageFile::Missing,
    }
}

fn xml_bytes(root: Dictionary) -> Vec<u8> {
    let mut bytes = Vec::new();
    Value::Dictionary(root).to_writer_xml(&mut bytes).unwrap();
    bytes
}

#[test]
fn four_cc_effect() {
    assert_eq!(four_cc(0x61756678), "aufx");
}

#[test]
fn four_cc_instrument() {
    assert_eq!(four_cc(0x61756d75), "aumu");
}

#[test]
fn not_a_package_error_on_file() {
    let f = LogicPackage { is_dir: false, ..package() };
    assert!(matches!(read_logicx(&f), Err(LogicError::NotAPackage(_))));
}

#[test]
fn missing_project_data_error() {
    let pkg = package();
    assert!(matches!(
        read_logicx(&pkg),
        Err(LogicError::ProjectDataNotFound(_))
    ));
}

#[test]
fn magic_detection() {
    // Verify both known byte-4 variants are detected by the 4-byte prefix.
    let mut data_cf = LOGIC_MAGIC.to_vec();
    data_cf.extend_from_slice(&[0xcf, 0x09, 0x03, 0x00]);
    assert!(data_cf.starts_with(&LOGIC_MAGIC));

    let mut data_d0 = LOGIC_MAGIC.to_vec();
    data_d0.extend_from_slice(&[0xd0, 0x09, 0x03, 0x00]);
    assert!(data_d0.starts_with(&LOGIC_MAGIC));

    assert!(!b"bplist00".starts_with(&LOGIC_MAGIC));
}

#[test]
fn qesm_name_extraction_synthetic() {
    // Craft a synthetic qeSM block at offset 0 with a name at offset 52.
    let mut data = vec![0u8; 52];
    data.push(5);  // len low byte
    data.push(0);  // len high byte
    data.extend_from_slice(b"SYNTH");
    data.push(0);  // null terminator
    data.extend_from_slice(&[0u8; 20]);

    // extract_name_from_qesm expects the qeSM chunk start at the given offset.
    // We start scanning at qesm_start + 48, so we need 4 bytes of qeSM tag
    // plus the rest of our data.
    let mut full = b"qeSM".to_vec();
    full.extend_from_slice(&[0u8; 44]);  // filler so name lands at qeSM+48+4
    full.push(5);
    full.push(0);
    full.extend_from_slice(b"SYNTH");
    full.push(0);
    full.extend_from_slice(&[0u8; 20]);

    let name = extract_name_from_qesm(&full, 0);
    assert_eq!(name, Some("SYNTH".to_string()));
}

#[test]
fn plist_round_trip() {
    let mut plugin = Dictionary::new();
    plugin.insert("name".into(), Value::String("EQ Eight".into()));
    plugin.insert("manufacturer".into(), Value::String("Ableton".into()));
    plugin.insert("componentType".into(), Value::Integer(0x61756678i64.into()));
    plugin.insert("bypassState".into(), Value::Boolean(false));

    let mut track = Dictionary::new();
    track.insert("name".into(), Value::String("Drums".into()));
    track.insert("trackType".into(), Value::Integer(0i64.into()));
    track.insert(
        "plugins".into(),
        Value::Array(vec![Value::Dictionary(plugin)]),
    );

    let mut root = Dictionary::new();
    root.insert("tracks".into(), Value::Array(vec![Value::Dictionary(track)]));

    let root = parse_plist(&xml_bytes(root)).unwrap();
    let tracks = extract_tracks_plist(&root);
    assert_eq!(tracks.len(), 1);
    assert_eq!(tracks[0].name, "Drums");
    assert_eq!(tracks[0].devices[0].name, "EQ Eight");
    assert_eq!(tracks[0].devices[0].component_type, "aufx");
}

#[test]
fn package_errors_say_what_is_missing() {
    let file = LogicPackage { is_dir: false, ..package() };
    assert_eq!(
        read_logicx(&file).unwrap_err().message(),
        "path is not a .logicx package directory: /tmp/test.logicx"
    );
    assert_eq!(
        read_logicx(&package()).unwrap_err().message(),
        "project data not found; expected at /tmp/test.logicx/Alternatives/000/ProjectData"
    );
    let locked =
        LogicPackage { modern: PackageFile::Unreadable("permission denied".to_string()), ..package() };
    assert_eq!(read_logicx(&locked).unwrap_err().message(), "I/O error: permission denied");
    let broken = LogicPackage { modern: PackageFile::Data(b"neither".to_vec()), ..package() };
    assert!(matches!(read_logicx(&broken), Err(LogicError::Plist(_))));
}

#[test]
fn property_list_project_is_read() {
    let mut plugin = Dictionary::new();
    plugin.insert("name".into(), Value::String("AUReverb2".into()));
    let mut track = Dictionary::new();
    track.insert("name".into(), Value::String("Vox".into()));
    track.insert("plugins".into(), Value::Array(vec![Value::Dictionary(plugin)]));
    let mut root = Dictionary::new();
    root.insert("tracks".into(), Value::Array(vec![Value::Dictionary(track)]));

    let mut info = Dictionary::new();
    info.insert("VariantNames".into(), Value::Dictionary(Dictionary::new()));
    let pkg = LogicPackage {
        information: Some(xml_bytes(info)),
        legacy_upper: PackageFile::Data(xml_bytes(root)),
        ..package()
    };
    let project = read_logicx(&pkg).unwrap();
    assert_eq!(project.name, "test");
    assert_eq!(project.tracks.len(), 1);
    assert_eq!(project.tracks[0].name, "Vox");
    assert_eq!(project.tracks[0].devices[0].name, "AUReverb2");
}

#[test]
fn empty_binary_project_has_no_tracks() {
    let mut data = LOGIC_MAGIC.to_vec();
    data.extend_from_slice(&[0u8; 64]);
    let (tracks, devices) = read_project_data(&data).unwrap();
    assert!(tracks.is_empty());
    assert!(devices.is_empty());
    assert!(extract_plugin_name(&[]).is_none());
}

/// The bytes of an embedded preset with the given component codes.
fn preset(subtype: &[u8; 4], data: Option<&str>) -> Vec<u8> {
    let code = |c: &[u8; 4]| Value::Integer((u32::from_be_bytes(*c) as i64).into());
    let mut root = Dictionary::new();
    root.insert("type".into(), code(b"aufx"));
    root.insert("subtype".into(), code(subtype));
    root.insert("manufacturer".into(), code(b"SToy"));
    if let Some(text) = data {
        root.insert("soundtoys-data".into(), Value::String(text.into()));
    }
    xml_bytes(root)
}

#[test]
fn plugin_slots_of_a_binary_project() {
    let mut data = LOGIC_MAGIC.to_vec();
    data.extend_from_slice(&[0u8; 20]);
    let first = data.len();
    data.extend_from_slice(b"UCuA");
    data.extend_from_slice(&[0u8; 8]);
    data.extend_from_slice(&preset(b"LPlt", Some("WIDGET = Little Plate;VERSION = 4;")));
    let second = data.len();
    data.extend_from_slice(b"UCuA");
    data.extend_from_slice(&[0u8; 8]);
    data.extend_from_slice(b"GAME");
    // A property list in binary form stands first: no plugin slot
    data.extend_from_slice(b"UCuA\0\0bplist00\0\0");

    let slots = collect_ucua_entries(&data);
    assert_eq!(slots.len(), 2);
    assert_eq!(slots[0].pos, first);
    match &slots[0].kind {
        UcuaKind::ThirdParty(d) => {
            assert_eq!(d.name, "Little Plate");
            assert_eq!(d.component_type, "aufx");
            assert_eq!(d.component_subtype, "LPlt");
            assert_eq!(d.manufacturer, "SToy");
            assert!(d.state.ends_with(b"</plist>"));
        }
        _ => panic!("expected a third-party plugin"),
    }
    assert_eq!(slots[1].pos, second);
    assert!(matches!(&slots[1].kind, UcuaKind::BuiltIn(_)));

    // Without a track the plugins belong to none
    let (tracks, devices) = read_project_data(&data).unwrap();
    assert!(tracks.is_empty());
    assert_eq!(devices.len(), 2);
    assert_eq!(widget_name_in("A = B;WIDGET = Decapitator;"), Some("Decapitator".to_string()));
}

#[test]
fn plugins_belong_to_the_nearest_track_before_them() {
    let trak = |pos: usize, name: &str| TrakEntry { pos, name: name.to_string() };
    let slot = |pos: usize, name: &str| UcuaEntry { pos, kind: UcuaKind::BuiltIn(name.to_string()) };
    let (tracks, rest) = associate_plugins_to_tracks(
        vec![trak(300, "Keys"), trak(100, "Drums"), trak(200, "Empty")],
        vec![slot(50, "Early"), slot(150, "Gate"), slot(160, "EQ"), slot(400, "Synth")],
    );
    let names: Vec<&str> = tracks.iter().map(|t| t.name.as_str()).collect();
    assert_eq!(names, vec!["Drums", "Keys"]);
    let devices: Vec<&str> = tracks[0].devices.iter().map(|d| d.name.as_str()).collect();
    assert_eq!(devices, vec!["Gate", "EQ"]);
    assert_eq!(tracks[1].devices[0].name, "Synth");
    assert_eq!(rest.len(), 1);
    assert_eq!(rest[0].name, "Early");
}

#[test]
fn built_in_slots_are_told_from_third_party_ones() {
    let slots = collect_ucua_entries(b"UCuAGAME");
    assert_eq!(slots.len(), 1);
    assert_eq!(slots[0].pos, 0);
    match &slots[0].kind {
        UcuaKind::BuiltIn(name) => assert_eq!(name, "Logic built-in"),
        _ => panic!("expected a built-in plugin"),
    }
    assert!(collect_ucua_entries(b"UCuAbplist00GAME").is_empty());
}
