use patchbay::scanner::au::{
    au_type_to_category, ostype_to_str, scan_au_registry, split_au_name,
    RegistryComponent,
};
use patchbay::scanner::PluginFormat;

#[test]
fn ostype_printable_roundtrips() {
    let t: u32 = u32::from_be_bytes(*b"aufx");
    assert_eq!(ostype_to_str(t), "aufx");
}

#[test]
fn ostype_non_printable_formats_as_hex() {
    assert_eq!(ostype_to_str(1), "0x00000001");
}

#[test]
fn split_au_name_with_colon_separator() {
    let (name, vendor) = split_au_name("Native Instruments: Battery 4");
    assert_eq!(name, "Battery 4");
    assert_eq!(vendor.as_deref(), Some("Native Instruments"));
}

#[test]
fn split_au_name_without_separator() {
    let (name, vendor) = split_au_name("AUDelay");
    assert_eq!(name, "AUDelay");
    assert!(vendor.is_none());
}

#[test]
fn au_type_codes_map_to_categories() {
    assert_eq!(au_type_to_category("aufx"), Some("Fx"));
    assert_eq!(au_type_to_category("aumu"), Some("Instrument"));
    assert_eq!(au_type_to_category("aumi"), Some("MIDI Processor"));
    assert_eq!(au_type_to_category("auou"), Some("Output"));
    assert_eq!(au_type_to_category("aumf"), Some("Mixer"));
    assert_eq!(au_type_to_category("aupn"), Some("Panner"));
    assert_eq!(au_type_to_category("augn"), Some("Generator"));
    assert_eq!(au_type_to_category("xxxx"), None);
}

#[test]
fn components_become_plugins() {
    let delay = RegistryComponent {
        component_type: u32::from_be_bytes(*b"aufx"),
        sub_type: u32::from_be_bytes(*b"dely"),
        manufacturer: u32::from_be_bytes(*b"appl"),
        name: Some(b"Apple: AUDelay\0rest".to_vec()),
        bundle_path: None,
        file_mtime: None,
    };
    let unnamed = RegistryComponent {
        component_type: u32::from_be_bytes(*b"aumu"),
        sub_type: 1,
        manufacturer: u32::from_be_bytes(*b"Xfer"),
        name: Some(vec![0xff, 0xfe, 0]),
        bundle_path: Some(b"/Library/Audio/Plug-Ins/Components/X.component\0".to_vec()),
        file_mtime: Some(5),
    };
    let (plugins, errors) = scan_au_registry(&vec![delay, unnamed]);
    assert!(errors.is_empty());
    assert_eq!(plugins.len(), 2);
    assert_eq!(plugins[0].name, "AUDelay");
    assert_eq!(plugins[0].vendor.as_deref(), Some("Apple"));
    assert_eq!(plugins[0].class_id.as_deref(), Some("aufx/dely/appl"));
    assert_eq!(plugins[0].category.as_deref(), Some("Fx"));
    assert_eq!(plugins[0].path, "");
    assert_eq!(plugins[0].format, PluginFormat::Au);
    assert_eq!(plugins[1].name, "aumu/0x00000001/Xfer");
    assert!(plugins[1].vendor.is_none());
    assert_eq!(plugins[1].path, "/Library/Audio/Plug-Ins/Components/X.component");
    assert_eq!(plugins[1].file_mtime, Some(5));
}
