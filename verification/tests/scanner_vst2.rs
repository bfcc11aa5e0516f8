use patchbay::db::KnownMtimes;
use patchbay::scanner::vst2::{build_plugin, scan_vst2, vst_category_str, walk_vst_bundles};
use patchbay::scanner::{BundleFacts, FsNode, Platform, PluginFormat, ProbeOutput};

/// What a path splits into: the name without its extension, and the extension.
fn split(path: &str) -> (String, Option<String>) {
    let name = path.rsplit('/').next().unwrap_or("");
    match name.rsplit_once('.') {
        Some((stem, ext)) => (stem.to_string(), Some(ext.to_string())),
        None => (name.to_string(), None),
    }
}

fn no_facts() -> BundleFacts {
    BundleFacts { module_info: None, info_plist: None, clap_probe: None, vst2_probe: None }
}

/// A directory with the given entries.
fn directory(path: &str, entries: Vec<FsNode>) -> FsNode {
    let (stem, extension) = split(path);
    FsNode {
        path: path.to_string(),
        stem,
        extension,
        exists: true,
        is_dir: true,
        is_file: false,
        mtime: Some(1_700_000_000),
        facts: no_facts(),
        unreadable: None,
        entries,
    }
}

/// A path at which there is nothing.
fn missing(path: &str) -> FsNode {
    FsNode { exists: false, is_dir: false, mtime: None, ..directory(path, Vec::new()) }
}

/// A bundle with the given `Info.plist`.
fn bundle(path: &str, plist: Option<&str>) -> FsNode {
    let mut node = directory(path, Vec::new());
    node.facts.info_plist = plist.map(|xml| xml.as_bytes().to_vec());
    node
}

const BATTERY_PLIST: &str = r#"<?xml version="1.0" encoding="UTF-8"?>
<!DOCTYPE plist PUBLIC "-//Apple//DTD PLIST 1.0//EN" "http://www.apple.com/DTDs/PropertyList-1.0.dtd">
<plist version="1.0"><dict>
    <key>CFBundleName</key><string>Battery 4</string>
    <key>CFBundleShortVersionString</key><string>4.3.1</string>
    <key>CFBundleGetInfoString</key><string>4.3.1, Copyright 2025 Native Instruments GmbH</string>
    <key>CFBundleIdentifier</key><string>com.native-instruments.Battery4</string>
</dict></plist>"#;

/// A folder with one VST2 bundle in it.
fn folder_with(name: &str) -> Vec<FsNode> {
    vec![directory("/vst", vec![bundle(&format!("/vst/{name}.vst"), None)])]
}

#[test]
fn walk_finds_vst_bundles() {
    let vendor = directory("/vst/Xfer", vec![bundle("/vst/Xfer/OTT.vst", None)]);
    let root = directory(
        "/vst",
        vec![bundle("/vst/Serum.vst", None), bundle("/vst/Massive.vst", None), vendor],
    );

    let found = walk_vst_bundles(&vec![root], Platform::MacOs);
    assert_eq!(found.len(), 3);
}

#[test]
fn vst2_skips_nonexistent_paths() {
    let found = walk_vst_bundles(&vec![missing("/does/not/exist/VST")], Platform::MacOs);
    assert!(found.is_empty());
}

#[test]
fn fallback_uses_plist_name_and_vendor() {
    let bundle = bundle("/vst/Battery 4.vst", Some(BATTERY_PLIST));

    let plugin = build_plugin(&bundle);
    assert_eq!(plugin.name, "Battery 4");
    assert_eq!(plugin.version.as_deref(), Some("4.3.1"));
    assert_eq!(plugin.vendor.as_deref(), Some("Native Instruments GmbH"));
    assert!(matches!(plugin.format, PluginFormat::Vst2));
}

#[test]
fn vst2_fallback_uses_filename_when_no_plist() {
    let bundle = bundle("/vst/Serum.vst", None);

    let plugin = build_plugin(&bundle);
    assert_eq!(plugin.name, "Serum");
    assert!(plugin.vendor.is_none());
    assert!(plugin.version.is_none());
}

#[test]
fn probe_metadata_wins_over_plist() {
    let mut bundle = bundle("/vst/Battery 4.vst", Some(BATTERY_PLIST));

    let probe_out = ProbeOutput {
        name: Some("Battery 4 (VST2)".to_string()),
        vendor: Some("Native Instruments".to_string()),
        category: Some(2),
    };

    bundle.facts.vst2_probe = Some(probe_out);
    let plugin = build_plugin(&bundle);
    assert_eq!(plugin.name, "Battery 4 (VST2)");
    assert_eq!(plugin.vendor.as_deref(), Some("Native Instruments"));
    assert_eq!(plugin.category.as_deref(), Some("Synth"));
    assert_eq!(plugin.version.as_deref(), Some("4.3.1"));
}

#[test]
fn probe_empty_name_falls_back_to_plist() {
    let mut bundle = bundle("/vst/Battery 4.vst", Some(BATTERY_PLIST));

    let probe_out = ProbeOutput {
        name: Some(String::new()),
        vendor: None,
        category: Some(1),
    };

    bundle.facts.vst2_probe = Some(probe_out);
    let plugin = build_plugin(&bundle);
    assert_eq!(plugin.name, "Battery 4");
}

#[test]
fn vst_category_str_maps_correctly() {
    assert_eq!(vst_category_str(1), "Fx");
    assert_eq!(vst_category_str(2), "Synth");
    assert_eq!(vst_category_str(0), "Unknown");
    assert_eq!(vst_category_str(99), "Unknown");
}

#[test]
fn build_plugin_stores_file_mtime() {
    let bundle = bundle("/vst/Serum.vst", None);
    let mtime = bundle.mtime;
    assert!(mtime.is_some());
    let plugin = build_plugin(&bundle);
    assert_eq!(plugin.file_mtime, mtime);
}

#[test]
fn skips_unchanged_vst2_by_mtime() {
    let roots = folder_with("Serum");

    // First scan: nothing known, the plugin is returned
    let (plugins, skipped, _) = scan_vst2(&roots, Platform::MacOs, &KnownMtimes::new());
    assert_eq!(plugins.len(), 1);
    assert_eq!(skipped, 0);

    // Second scan: the mtime matches, the bundle is skipped
    let current = roots[0].entries[0].mtime.unwrap();
    let mut known = KnownMtimes::new();
    known.insert(roots[0].entries[0].path.clone(), current);
    let (plugins, skipped, _) = scan_vst2(&roots, Platform::MacOs, &known);
    assert_eq!(plugins.len(), 0);
    assert_eq!(skipped, 1);
}

#[test]
fn rescans_vst2_when_mtime_changes() {
    let roots = folder_with("Serum");

    let mut known = KnownMtimes::new();
    known.insert(roots[0].entries[0].path.clone(), 0i64);
    let (plugins, skipped, _) = scan_vst2(&roots, Platform::MacOs, &known);
    assert_eq!(plugins.len(), 1);
    assert_eq!(skipped, 0);
}
