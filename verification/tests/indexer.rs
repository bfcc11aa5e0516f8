use patchbay::indexer::{device_id, index_plugins};
use patchbay::new_sync_id;
use patchbay::scanner::{PluginFormat, ScannedPlugin};

#[test]
fn sync_ids_are_random_uuids() {
    let id = new_sync_id();
    assert_eq!(id.len(), 36);
    for (i, c) in id.chars().enumerate() {
        match i {
            8 | 13 | 18 | 23 => assert_eq!(c, '-'),
            14 => assert_eq!(c, '4'),
            19 => assert!("89ab".contains(c)),
            _ => assert!(c.is_ascii_hexdigit() && !c.is_ascii_uppercase()),
        }
    }
    assert_ne!(id, new_sync_id());
}

#[test]
fn scanned_plugins_become_records() {
    let plugin = |name: &str, format: PluginFormat| ScannedPlugin {
        name: name.to_string(),
        vendor: Some("V".to_string()),
        version: None,
        category: Some("Fx".to_string()),
        class_id: None,
        path: format!("/p/{name}"),
        format,
        file_mtime: Some(3),
    };
    let records = index_plugins(&vec![plugin("A", PluginFormat::Vst3), plugin("B", PluginFormat::Clap)], "dev1");
    assert_eq!(records.len(), 2);
    assert_eq!(records[0].name, "A");
    assert_eq!(records[0].format, "VST3");
    assert_eq!(records[0].path, "/p/A");
    assert_eq!(records[0].device_id, "dev1");
    assert_eq!(records[0].file_mtime, Some(3));
    assert_eq!(records[0].category.as_deref(), Some("Fx"));
    assert!(records[0].version.is_none());
    assert_eq!(records[1].format, "CLAP");
    assert_ne!(records[0].sync_id, records[1].sync_id);
}

#[test]
fn device_is_named_after_the_computer() {
    assert_eq!(device_id(Some("PC".to_string()), Some("h".to_string())), "PC");
    assert_eq!(device_id(None, Some("h".to_string())), "h");
    assert_eq!(device_id(None, None), "local");
}
