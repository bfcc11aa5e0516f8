use patchbay::db::KnownMtimes;
use patchbay::scanner::{
    extract_vendor_from_bundle_id, extract_vendor_from_copyright, find_clap_probe, find_vst2_probe,
    scan_vst3, BundleFacts, ClassInfo, FsNode, ModuleInfo, Platform, PluginFormat, ProgramFolder,
    ScanError,
};

/// What a path splits into: the name without its extension, and the extension.
fn split(path: &str) -> (String, Option<String>) {
    let name = path.rsplit('/').next().unwrap_or("");
    match name.rsplit_once('.') {
        Some((stem, ext)) => (stem.to_string(), Some(ext.to_string())),
        None => (name.to_string(), None),
    }
}

fn no_facts() -> BundleFacts {
    BundleFacts { module_info: None, info_plist: None, clap_probe: None, vst2_probe: None }
}

/// A directory with the given entries.
fn directory(path: &str, entries: Vec<FsNode>) -> FsNode {
    let (stem, extension) = split(path);
    FsNode {
        path: path.to_string(),
        stem,
        extension,
        exists: true,
        is_dir: true,
        is_file: false,
        mtime: Some(1_700_000_000),
        facts: no_facts(),
        unreadable: None,
        entries,
    }
}

/// A path at which there is nothing.
fn missing(path: &str) -> FsNode {
    FsNode { exists: false, is_dir: false, mtime: None, ..directory(path, Vec::new()) }
}

/// A bundle with the given `Info.plist`.
fn bundle(path: &str, plist: Option<&str>) -> FsNode {
    let mut node = directory(path, Vec::new());
    node.facts.info_plist = plist.map(|xml| xml.as_bytes().to_vec());
    node
}

const BATTERY_PLIST: &str = r#"<?xml version="1.0" encoding="UTF-8"?>
<!DOCTYPE plist PUBLIC "-//Apple//DTD PLIST 1.0//EN" "http://www.apple.com/DTDs/PropertyList-1.0.dtd">
<plist version="1.0"><dict>
    <key>CFBundleName</key><string>Battery 4</string>
    <key>CFBundleShortVersionString</key><string>4.3.1</string>
    <key>CFBundleGetInfoString</key><string>4.3.1 (R0), Copyright © 2025 Native Instruments GmbH</string>
    <key>CFBundleIdentifier</key><string>com.native-instruments.Battery4.vst3</string>
</dict></plist>"#;

const AMEK_PLIST: &str = r#"<?xml version="1.0" encoding="UTF-8"?>
<!DOCTYPE plist PUBLIC "-//Apple//DTD PLIST 1.0//EN" "http://www.apple.com/DTDs/PropertyList-1.0.dtd">
<plist version="1.0"><dict>
    <key>CFBundleShortVersionString</key><string>1.1.1</string>
    <key>CFBundleIdentifier</key><string>com.plugin-alliance.vst3.amekmasteringcompressor</string>
</dict></plist>"#;

fn text(value: &serde_json::Value, key: &str) -> Option<String> {
    value.get(key).and_then(|v| v.as_str()).map(str::to_string)
}

/// The content of a `moduleinfo.json`, where it is well-formed.
fn module_info(json: &str) -> Option<ModuleInfo> {
    let root: serde_json::Value = serde_json::from_str(json).ok()?;
    let classes = root.get("Classes").and_then(|c| c.as_array()).cloned().unwrap_or_default();
    Some(ModuleInfo {
        name: text(&root, "Name"),
        version: text(&root, "Version"),
        vendor: root.get("Factory Info").and_then(|f| text(f, "Vendor")),
        classes: classes
            .iter()
            .map(|c| ClassInfo {
                cid: text(c, "CID"),
                name: text(c, "Name"),
                vendor: text(c, "Vendor"),
                version: text(c, "Version"),
                sub_categories: c.get("Sub Categories").and_then(|s| s.as_array()).map(|list| {
                    list.iter().filter_map(|s| s.as_str()).map(str::to_string).collect()
                }),
            })
            .collect(),
    })
}

/// A folder with one VST3 bundle in it.
fn folder_with(name: &str, moduleinfo: Option<&str>, plist: Option<&str>) -> Vec<FsNode> {
    let mut node = bundle(&format!("/plugins/{name}.vst3"), plist);
    node.facts.module_info = moduleinfo.and_then(module_info);
    vec![directory("/plugins", vec![node])]
}

#[test]
fn parses_moduleinfo_json() {
    let roots = folder_with("TestPlugin", Some(r#"{
        "Name": "Test Plugin",
        "Version": "2.1.0",
        "Factory Info": { "Vendor": "Acme Audio" },
        "Classes": [{
            "CID": "AABBCCDD11223344AABBCCDD11223344",
            "Name": "Test Plugin",
            "Vendor": "Acme Audio",
            "Version": "2.1.0",
            "Sub Categories": ["Fx", "EQ"]
        }]
    }"#), None);

    let (plugins, skipped, errors) = scan_vst3(&roots, &KnownMtimes::new());
    assert!(errors.is_empty(), "unexpected errors: {errors:?}");
    assert_eq!(plugins.len(), 1);
    assert_eq!(skipped, 0);
    let p = &plugins[0];
    assert_eq!(p.name, "Test Plugin");
    assert_eq!(p.vendor.as_deref(), Some("Acme Audio"));
    assert_eq!(p.version.as_deref(), Some("2.1.0"));
    assert_eq!(p.category.as_deref(), Some("Fx|EQ"));
    assert_eq!(p.class_id.as_deref(), Some("AABBCCDD11223344AABBCCDD11223344"));
}

#[test]
fn reads_info_plist_with_copyright_vendor() {
    let roots = folder_with("Battery 4", None, Some(BATTERY_PLIST));

    let (plugins, _, errors) = scan_vst3(&roots, &KnownMtimes::new());
    assert!(errors.is_empty());
    assert_eq!(plugins.len(), 1);
    let p = &plugins[0];
    assert_eq!(p.name, "Battery 4");
    assert_eq!(p.version.as_deref(), Some("4.3.1"));
    assert_eq!(p.vendor.as_deref(), Some("Native Instruments GmbH"));
}

#[test]
fn falls_back_to_bundle_id_vendor_when_no_copyright() {
    let roots = folder_with("AMEK Mastering Compressor", None, Some(AMEK_PLIST));

    let (plugins, _, errors) = scan_vst3(&roots, &KnownMtimes::new());
    assert!(errors.is_empty());
    assert_eq!(plugins.len(), 1);
    let p = &plugins[0];
    assert_eq!(p.version.as_deref(), Some("1.1.1"));
    assert_eq!(p.vendor.as_deref(), Some("plugin alliance"));
}

#[test]
fn falls_back_to_bundle_name_when_no_metadata() {
    let roots = folder_with("Legacy Plugin", None, None);

    let (plugins, _, errors) = scan_vst3(&roots, &KnownMtimes::new());
    assert!(errors.is_empty());
    assert_eq!(plugins.len(), 1);
    assert_eq!(plugins[0].name, "Legacy Plugin");
    assert!(plugins[0].vendor.is_none());
}

#[test]
fn mod_skips_nonexistent_paths() {
    let (plugins, skipped, errors) =
        scan_vst3(&vec![missing("/does/not/exist/VST3")], &KnownMtimes::new());
    assert!(plugins.is_empty());
    assert_eq!(skipped, 0);
    assert!(errors.is_empty());
}

#[test]
fn falls_back_when_moduleinfo_json_is_empty() {
    // An empty moduleinfo.json falls back to the file name and is no error
    let roots = folder_with("Serum", Some(""), None);

    let (plugins, _, errors) = scan_vst3(&roots, &KnownMtimes::new());
    assert!(errors.is_empty(), "empty moduleinfo.json should not produce an error");
    assert_eq!(plugins.len(), 1);
    assert_eq!(plugins[0].name, "Serum");
}

#[test]
fn recurses_into_vendor_subdirectory() {
    let mut node = bundle("/plugins/Fabfilter/Pro-Q 3.vst3", None);
    node.facts.module_info = module_info(r#"{
        "Name": "Pro-Q 3",
        "Factory Info": { "Vendor": "FabFilter" },
        "Classes": [{ "CID": "AABB", "Name": "Pro-Q 3", "Sub Categories": ["Fx", "EQ"] }]
    }"#);
    let vendor_dir = directory("/plugins/Fabfilter", vec![node]);
    let roots = vec![directory("/plugins", vec![vendor_dir])];

    let (plugins, _, errors) = scan_vst3(&roots, &KnownMtimes::new());
    assert!(errors.is_empty());
    assert_eq!(plugins.len(), 1);
    assert_eq!(plugins[0].name, "Pro-Q 3");
}

#[test]
fn vst3_records_file_mtime() {
    let roots = folder_with("TestPlugin", None, None);

    let (plugins, _, _) = scan_vst3(&roots, &KnownMtimes::new());
    assert_eq!(plugins.len(), 1);
    assert!(plugins[0].file_mtime.is_some(), "expected file_mtime to be set");
    assert!(plugins[0].file_mtime.unwrap() > 0);
}

#[test]
fn skips_unchanged_vst3_by_mtime() {
    let roots = folder_with("TestPlugin", None, None);

    // First scan: nothing known, the plugin is returned
    let (plugins, skipped, _) = scan_vst3(&roots, &KnownMtimes::new());
    assert_eq!(plugins.len(), 1);
    assert_eq!(skipped, 0);

    // Known with the current mtime
    let current_mtime = roots[0].entries[0].mtime.unwrap();
    let mut known = KnownMtimes::new();
    known.insert(roots[0].entries[0].path.clone(), current_mtime);

    let (plugins, skipped, _) = scan_vst3(&roots, &known);
    assert_eq!(plugins.len(), 0, "unchanged bundle should be skipped");
    assert_eq!(skipped, 1);
}

#[test]
fn rescans_vst3_when_mtime_changes() {
    let roots = folder_with("TestPlugin", None, None);

    // Stale mtime (epoch 0 is always in the past)
    let mut known = KnownMtimes::new();
    known.insert(roots[0].entries[0].path.clone(), 0i64);

    let (plugins, skipped, _) = scan_vst3(&roots, &known);
    assert_eq!(plugins.len(), 1, "changed mtime should trigger re-parse");
    assert_eq!(skipped, 0);
}

#[test]
fn extract_vendor_copyright_parses_correctly() {
    assert_eq!(
        extract_vendor_from_copyright("4.3.1 (R0), Copyright © 2025 Native Instruments GmbH"),
        Some("Native Instruments GmbH".to_string())
    );
    assert_eq!(
        extract_vendor_from_copyright("v1.0, Copyright 2023 Acme Audio Ltd."),
        Some("Acme Audio Ltd".to_string())
    );
    assert_eq!(extract_vendor_from_copyright("no year here"), None);
}

#[test]
fn extract_vendor_bundle_id_parses_correctly() {
    assert_eq!(
        extract_vendor_from_bundle_id("com.plugin-alliance.vst3.amek"),
        Some("plugin alliance".to_string())
    );
    assert_eq!(
        extract_vendor_from_bundle_id("com.native-instruments.Battery4"),
        Some("native instruments".to_string())
    );
    assert_eq!(extract_vendor_from_bundle_id("com.apple.coreaudio"), None);
    assert_eq!(extract_vendor_from_bundle_id("notreversedns"), None);
}

#[test]
fn unreadable_folder_is_an_error_and_the_rest_is_scanned() {
    let mut closed = directory("/closed", Vec::new());
    closed.unreadable = Some("Permission denied (os error 13)".to_string());
    let open = directory("/open", vec![bundle("/open/A.vst3", None)]);
    let (plugins, skipped, errors) = scan_vst3(&vec![closed, open], &KnownMtimes::new());
    assert_eq!(plugins.len(), 1);
    assert_eq!(skipped, 0);
    assert_eq!(errors.len(), 1);
    assert!(matches!(&errors[0], ScanError::Io { path, .. } if path == "/closed"));
    assert!(errors[0].message().contains("/closed"));
    assert!(errors[0].message().contains("Permission denied"));
}

#[test]
fn formats_have_names() {
    assert_eq!(PluginFormat::Vst3.as_str(), "VST3");
    assert_eq!(PluginFormat::Au.as_str(), "AU");
    assert_eq!(PluginFormat::Vst2.as_str(), "VST2");
    assert_eq!(PluginFormat::Clap.as_str(), "CLAP");
}

#[test]
fn probes_are_looked_for_beside_the_program() {
    let folder = Some(ProgramFolder {
        path: "/opt/patchbay/".to_string(),
        files: vec!["patchbay".to_string(), "patchbay-clap-probe".to_string()],
    });
    assert_eq!(
        find_clap_probe(&folder, Platform::MacOs).as_deref(),
        Some("/opt/patchbay/patchbay-clap-probe")
    );
    assert_eq!(find_vst2_probe(&folder, Platform::MacOs), None);
    assert_eq!(find_clap_probe(&folder, Platform::Windows), None);
    assert_eq!(find_clap_probe(&None, Platform::MacOs), None);
}
