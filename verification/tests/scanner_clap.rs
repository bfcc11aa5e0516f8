use patchbay::db::KnownMtimes;
use patchbay::scanner::clap::{build_fallback, build_from_probe, extend_plugins, scan_clap, walk_clap_bundles};
use patchbay::scanner::{BundleFacts, FsNode, Platform, PluginFormat, ProbeDescriptor};

/// What a path splits into: the name without its extension, and the extension.
fn split(path: &str) -> (String, Option<String>) {
    let name = path.rsplit('/').next().unwrap_or("");
    match name.rsplit_once('.') {
        Some((stem, ext)) => (stem.to_string(), Some(ext.to_string())),
        None => (name.to_string(), None),
    }
}

fn no_facts() -> BundleFacts {
    BundleFacts { module_info: None, info_plist: None, clap_probe: None, vst2_probe: None }
}

/// A directory with the given entries.
fn directory(path: &str, entries: Vec<FsNode>) -> FsNode {
    let (stem, extension) = split(path);
    FsNode {
        path: path.to_string(),
        stem,
        extension,
        exists: true,
        is_dir: true,
        is_file: false,
        mtime: Some(1_700_000_000),
        facts: no_facts(),
        unreadable: None,
        entries,
    }
}

/// A path at which there is nothing.
fn missing(path: &str) -> FsNode {
    FsNode { exists: false, is_dir: false, mtime: None, ..directory(path, Vec::new()) }
}

/// A bundle with the given `Info.plist`.
fn bundle(path: &str, plist: Option<&str>) -> FsNode {
    let mut node = directory(path, Vec::new());
    node.facts.info_plist = plist.map(|xml| xml.as_bytes().to_vec());
    node
}

const PRO_Q_PLIST: &str = r#"<?xml version="1.0" encoding="UTF-8"?>
<!DOCTYPE plist PUBLIC "-//Apple//DTD PLIST 1.0//EN" "http://www.apple.com/DTDs/PropertyList-1.0.dtd">
<plist version="1.0"><dict>
    <key>CFBundleName</key><string>FabFilter Pro-Q 3</string>
    <key>CFBundleShortVersionString</key><string>3.22</string>
    <key>CFBundleGetInfoString</key><string>3.22, Copyright 2023 FabFilter</string>
</dict></plist>"#;

/// A folder with one CLAP bundle in it.
fn folder_with(name: &str) -> Vec<FsNode> {
    vec![directory("/clap", vec![bundle(&format!("/clap/{name}.clap"), None)])]
}

#[test]
fn walk_finds_clap_bundles() {
    let vendor_dir = directory("/clap/FabFilter", vec![bundle("/clap/FabFilter/Pro-L 2.clap", None)]);
    let root = directory(
        "/clap",
        vec![bundle("/clap/Pro-Q 3.clap", None), bundle("/clap/Serum 2.clap", None), vendor_dir],
    );

    let found = walk_clap_bundles(&vec![root], Platform::MacOs);
    assert_eq!(found.len(), 3);
}

#[test]
fn clap_skips_nonexistent_paths() {
    let found = walk_clap_bundles(&vec![missing("/does/not/exist/CLAP")], Platform::MacOs);
    assert!(found.is_empty());
}

#[test]
fn fallback_reads_plist() {
    let bundle = bundle("/clap/FabFilter Pro-Q 3.clap", Some(PRO_Q_PLIST));

    let plugin = build_fallback(&bundle);
    assert_eq!(plugin.name, "FabFilter Pro-Q 3");
    assert_eq!(plugin.version.as_deref(), Some("3.22"));
    assert_eq!(plugin.vendor.as_deref(), Some("FabFilter"));
    assert!(matches!(plugin.format, PluginFormat::Clap));
}

#[test]
fn clap_fallback_uses_filename_when_no_plist() {
    let bundle = bundle("/clap/Serum 2.clap", None);

    let plugin = build_fallback(&bundle);
    assert_eq!(plugin.name, "Serum 2");
    assert!(plugin.vendor.is_none());
    assert!(plugin.version.is_none());
}

#[test]
fn probe_descriptor_builds_correctly() {
    let bundle = bundle("/clap/Pro-Q 3.clap", None);

    let desc = ProbeDescriptor {
        id: Some("com.fabfilter.pro-q-3".to_string()),
        name: Some("FabFilter Pro-Q 3".to_string()),
        vendor: Some("FabFilter".to_string()),
        version: Some("3.22.0".to_string()),
        features: vec!["audio-effect".to_string(), "equalizer".to_string()],
    };

    let plugin = build_from_probe(&bundle, &desc);
    assert_eq!(plugin.name, "FabFilter Pro-Q 3");
    assert_eq!(plugin.vendor.as_deref(), Some("FabFilter"));
    assert_eq!(plugin.version.as_deref(), Some("3.22.0"));
    assert_eq!(plugin.category.as_deref(), Some("audio-effect|equalizer"));
    assert_eq!(plugin.class_id.as_deref(), Some("com.fabfilter.pro-q-3"));
    assert!(matches!(plugin.format, PluginFormat::Clap));
}

#[test]
fn probe_empty_name_falls_back_to_filename() {
    let bundle = bundle("/clap/Serum 2.clap", None);

    let desc = ProbeDescriptor {
        id: None,
        name: None,
        vendor: None,
        version: None,
        features: vec![],
    };

    let plugin = build_from_probe(&bundle, &desc);
    assert_eq!(plugin.name, "Serum 2");
    assert!(plugin.vendor.is_none());
    assert!(plugin.category.is_none());
    assert!(plugin.class_id.is_none());
}

#[test]
fn empty_probe_result_falls_back_to_single_record() {
    let mut bundle = bundle("/clap/Serum 2.clap", None);

    let mut plugins = Vec::new();
    bundle.facts.clap_probe = Some(vec![]);
    extend_plugins(&bundle, &mut plugins);
    assert_eq!(plugins.len(), 1);
    assert_eq!(plugins[0].name, "Serum 2");
}

#[test]
fn none_probe_falls_back_to_single_record() {
    let mut bundle = bundle("/clap/Massive X.clap", None);

    let mut plugins = Vec::new();
    bundle.facts.clap_probe = None;
    extend_plugins(&bundle, &mut plugins);
    assert_eq!(plugins.len(), 1);
    assert_eq!(plugins[0].name, "Massive X");
}

#[test]
fn multiple_descriptors_yield_multiple_plugins() {
    let mut bundle = bundle("/clap/BundleWithTwo.clap", None);

    let descs = vec![
        ProbeDescriptor {
            id: Some("com.vendor.plugin-a".to_string()),
            name: Some("Plugin A".to_string()),
            vendor: Some("Vendor".to_string()),
            version: Some("1.0".to_string()),
            features: vec!["audio-effect".to_string()],
        },
        ProbeDescriptor {
            id: Some("com.vendor.plugin-b".to_string()),
            name: Some("Plugin B".to_string()),
            vendor: Some("Vendor".to_string()),
            version: Some("1.0".to_string()),
            features: vec!["instrument".to_string(), "synthesizer".to_string()],
        },
    ];

    let mut plugins = Vec::new();
    bundle.facts.clap_probe = Some(descs);
    extend_plugins(&bundle, &mut plugins);
    assert_eq!(plugins.len(), 2);
    assert_eq!(plugins[0].name, "Plugin A");
    assert_eq!(plugins[0].category.as_deref(), Some("audio-effect"));
    assert_eq!(plugins[1].name, "Plugin B");
    assert_eq!(plugins[1].category.as_deref(), Some("instrument|synthesizer"));
}

#[test]
fn file_mtime_is_threaded_through_probe() {
    let mut bundle = bundle("/clap/TestPlugin.clap", None);

    let desc = ProbeDescriptor {
        id: None,
        name: Some("Test".to_string()),
        vendor: None,
        version: None,
        features: vec![],
    };
    bundle.mtime = Some(9999);
    let plugin = build_from_probe(&bundle, &desc);
    assert_eq!(plugin.file_mtime, Some(9999));
}

#[test]
fn skips_unchanged_clap_by_mtime() {
    let roots = folder_with("Pro-Q 3");

    let (plugins, skipped, _) = scan_clap(&roots, Platform::MacOs, &KnownMtimes::new());
    assert_eq!(plugins.len(), 1);
    assert_eq!(skipped, 0);

    let current = roots[0].entries[0].mtime.unwrap();
    let mut known = KnownMtimes::new();
    known.insert(roots[0].entries[0].path.clone(), current);
    let (plugins, skipped, _) = scan_clap(&roots, Platform::MacOs, &known);
    assert_eq!(plugins.len(), 0);
    assert_eq!(skipped, 1);
}

#[test]
fn rescans_clap_when_mtime_changes() {
    let roots = folder_with("Pro-Q 3");

    let mut known = KnownMtimes::new();
    known.insert(roots[0].entries[0].path.clone(), 0i64);
    let (plugins, skipped, _) = scan_clap(&roots, Platform::MacOs, &known);
    assert_eq!(plugins.len(), 1);
    assert_eq!(skipped, 0);
}

#[test]
fn outside_macos_a_clap_plugin_is_a_file() {
    let mut file = bundle("/clap/Vital.clap", None);
    file.is_dir = false;
    file.is_file = true;
    let roots = vec![directory("/clap", vec![file, bundle("/clap/Folder.clap", None)])];
    assert_eq!(walk_clap_bundles(&roots, Platform::Windows), vec!["/clap/Vital.clap"]);
    assert_eq!(walk_clap_bundles(&roots, Platform::MacOs), vec!["/clap/Folder.clap"]);
}

#[test]
fn walk_of_two_lists_finds_what_both_hold() {
    let first = || {
        directory(
            "/clap",
            vec![
                directory("/clap/X.clap", vec![bundle("/clap/X.clap/inner.clap", None)]),
                directory("/clap/sub", vec![bundle("/clap/sub/Y.CLAP", None)]),
            ],
        )
    };
    let second = || directory("/more", vec![bundle("/more/Z.clap", None), bundle("/more/Z.vst3", None)]);
    let a = walk_clap_bundles(&vec![first(), missing("/gone")], Platform::MacOs);
    let b = walk_clap_bundles(&vec![second()], Platform::MacOs);
    let both = walk_clap_bundles(&vec![first(), missing("/gone"), second()], Platform::MacOs);
    // A bundle is not searched for bundles
    assert_eq!(a, vec!["/clap/X.clap", "/clap/sub/Y.CLAP"]);
    assert_eq!(b, vec!["/more/Z.clap"]);
    assert_eq!(both, [a, b].concat());
}
