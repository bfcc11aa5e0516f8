use patchbay::probe::{
    audio_master, check_magic, dispatch_string, executable_name, find_binary, probe_descriptor,
    probe_output, read_cstr, BinaryFacts, Candidate, RawDescriptor, VST_MAGIC,
};

fn candidate(path: &str, is_file: bool) -> Option<Candidate> {
    Some(Candidate { path: path.to_string(), is_file })
}

fn facts() -> BinaryFacts {
    BinaryFacts {
        folder: "/x.vst/Contents/MacOS".to_string(),
        by_stem: candidate("stem", true),
        by_plist: candidate("plist", true),
        first_file: Ok(Some("first".to_string())),
    }
}

#[test]
fn binary_is_looked_for_in_order() {
    assert_eq!(find_binary(&facts()).unwrap(), "stem");
    let f = BinaryFacts { by_stem: candidate("stem", false), ..facts() };
    assert_eq!(find_binary(&f).unwrap(), "plist");
    let f = BinaryFacts { by_stem: None, by_plist: candidate("plist", false), ..facts() };
    assert_eq!(find_binary(&f).unwrap(), "first");
    let f = BinaryFacts { by_stem: None, by_plist: None, first_file: Ok(None), ..facts() };
    assert_eq!(find_binary(&f).unwrap_err(), "no binary found in /x.vst/Contents/MacOS");
    let f = BinaryFacts { by_stem: None, by_plist: None, first_file: Err("gone".to_string()), ..facts() };
    assert_eq!(find_binary(&f).unwrap_err(), "cannot read /x.vst/Contents/MacOS: gone");
}

#[test]
fn executable_is_read_from_the_property_list() {
    let xml = r#"<?xml version="1.0" encoding="UTF-8"?>
<plist version="1.0"><dict><key>CFBundleExecutable</key><string>Serum</string></dict></plist>"#;
    assert_eq!(executable_name(xml.as_bytes()).as_deref(), Some("Serum"));
    assert_eq!(executable_name(b"<plist version=\"1.0\"><dict/></plist>"), None);
    assert_eq!(executable_name(b"broken"), None);
}

#[test]
fn plugin_texts_are_trimmed() {
    assert_eq!(read_cstr(&Some(b"  Pro-Q 3 ".to_vec())).as_deref(), Some("Pro-Q 3"));
    assert_eq!(read_cstr(&Some(b" \t ".to_vec())), None);
    assert_eq!(read_cstr(&None), None);
    assert_eq!(read_cstr(&Some(vec![b'A', 0xff])).as_deref(), Some("A\u{fffd}"));
    assert_eq!(dispatch_string(b"Serum\0junk").as_deref(), Some("Serum"));
    assert_eq!(dispatch_string(b"Serum").as_deref(), Some("Serum"));
    assert_eq!(dispatch_string(&[0u8; 33]), None);
}

#[test]
fn descriptors_are_reported() {
    let raw = RawDescriptor {
        id: None,
        name: Some(b"Vital".to_vec()),
        vendor: Some(b"".to_vec()),
        version: Some(b"1.5 ".to_vec()),
        features: vec![b"instrument".to_vec(), b" synth".to_vec()],
    };
    let desc = probe_descriptor(&raw);
    assert_eq!(desc.id.as_deref(), Some(""));
    assert_eq!(desc.name.as_deref(), Some("Vital"));
    assert!(desc.vendor.is_none());
    assert_eq!(desc.version.as_deref(), Some("1.5"));
    assert_eq!(desc.features, vec!["instrument", " synth"]);
    let out = probe_output(b"Serum\0", b"\0", 2);
    assert_eq!(out.name.as_deref(), Some("Serum"));
    assert!(out.vendor.is_none());
    assert_eq!(out.category, Some(2));
}

#[test]
fn host_answers_and_magic() {
    assert_eq!(audio_master(6), 2400);
    assert_eq!(audio_master(7), 0);
    assert_eq!(VST_MAGIC.to_be_bytes(), *b"VstP");
    assert!(check_magic(VST_MAGIC).is_ok());
    assert_eq!(check_magic(0xDEADBEEF).unwrap_err(), "bad magic: 0xdeadbeef");
}
