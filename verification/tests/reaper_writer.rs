use patchbay::daw_readers::reaper::{parse_rpp, PluginFormat};
use patchbay::daw_writers::reaper::write_rfxchain;
use patchbay::db::ChainSlotRow;

/// The JSON text of an object with the given texts.
fn identity(members: &[(&str, Option<&str>)]) -> String {
    let mut object = serde_json::Map::new();
    for (key, value) in members {
        let value = match value {
            Some(text) => serde_json::Value::String(text.to_string()),
            None => serde_json::Value::Null,
        };
        object.insert(key.to_string(), value);
    }
    serde_json::Value::Object(object).to_string()
}

/// The bits of a mix that is all wet.
const WET: u64 = 0x3ff0_0000_0000_0000;

fn slot(
    format: &str,
    name: &str,
    vendor: &str,
    bypass: bool,
    preset_name: Option<&str>,
    vst_uid: Option<&str>,
    vst3_guid: Option<&str>,
    opaque_state: Option<&str>,
) -> ChainSlotRow {
    let identity = identity(&[
        ("name", Some(name)),
        ("vendor", Some(vendor)),
        ("format", Some(format)),
        ("vst_uid", vst_uid),
        ("vst3_guid", vst3_guid),
    ]);
    ChainSlotRow {
        id: 1,
        plugin_id: None,
        plugin_identity: identity,
        position: 0,
        bypass,
        wet_bits: WET,
        preset_name: preset_name.map(str::to_string),
        opaque_state: opaque_state.map(str::to_string),
    }
}

#[test]
fn vst3_slot_round_trip() {
    let slots = [slot(
        "VST3",
        "Pro-Q 3",
        "FabFilter",
        false,
        None,
        Some("1397572658"),
        Some("{D8D91CE4-6A7D-4670-8BDE-4B688EC18B43}"),
        Some("AQIDBA=="),
    )];
    let out = write_rfxchain(&slots);
    assert!(out.starts_with("<FXCHAIN\n"));
    assert!(out.contains("<VST \"VST3: Pro-Q 3 (FabFilter)\""));
    assert!(out.contains("1397572658{D8D91CE4-6A7D-4670-8BDE-4B688EC18B43}"));
    assert!(out.contains("AQIDBA=="));
    assert!(out.ends_with(">\n"));
}

#[test]
fn vst2_bypassed_with_preset() {
    let slots = [slot(
        "VST2",
        "Serum",
        "Xfer Records",
        true,
        Some("Patch"),
        Some("1936880749"),
        None,
        Some("c2VydW0="),
    )];
    let out = write_rfxchain(&slots);
    assert!(out.contains("<VST \"VST: Serum (Xfer Records)\" \"\" 1 \"Patch\" 1936880749"));
}

#[test]
fn au_slot_no_filename() {
    let slots = [slot(
        "AU",
        "AUPeakLimiter",
        "Apple",
        false,
        None,
        Some("1819304812/aufx/lmtr/appl"),
        None,
        None,
    )];
    let out = write_rfxchain(&slots);
    assert!(out.contains("<AU \"AU: AUPeakLimiter (Apple)\" \"\" 0 \"\" 1819304812/aufx/lmtr/appl"));
}

#[test]
fn empty_slots_produces_bare_fxchain() {
    let out = write_rfxchain(&[]);
    assert_eq!(out, "<FXCHAIN\n  SHOW 0\n  LASTSEL 0\n  DOCKED 0\n  BYPASS 0 0 0\n>\n");
}

/// A project with one track whose FX chain is the given block.
fn in_project(chain: &str) -> String {
    format!("<REAPER_PROJECT 0.1 \"7.0\" 0\n<TRACK {{}}\nNAME T\n{chain}>\n>\n")
}

#[test]
fn written_chain_reads_back() {
    let long = "QUJD".repeat(60);
    let slots = [
        slot(
            "VST3",
            "Pro-Q 3",
            "FabFilter",
            false,
            Some("Tight Low Cut"),
            Some("1397572658"),
            Some("{D8D91CE4-6A7D-4670-8BDE-4B688EC18B43}"),
            Some(&long),
        ),
        slot("CLAP", "Vital", "", true, None, None, None, None),
        slot("AU", "AUPeakLimiter (old)", "Apple", false, None, Some("1/aufx/lmtr/appl"), None, Some("AAEC")),
    ];
    let text = write_rfxchain(&slots);
    let project = parse_rpp(&in_project(&text)).unwrap();
    let fx = &project.tracks[0].fx_chain;
    assert_eq!(fx.len(), 3);

    assert_eq!(fx[0].name, "Pro-Q 3");
    assert_eq!(fx[0].vendor.as_deref(), Some("FabFilter"));
    assert_eq!(fx[0].format, PluginFormat::Vst3);
    assert_eq!(fx[0].filename, "");
    assert!(!fx[0].is_bypassed);
    assert_eq!(fx[0].preset_name.as_deref(), Some("Tight Low Cut"));
    assert_eq!(fx[0].vst_uid.as_deref(), Some("1397572658"));
    assert_eq!(fx[0].vst3_guid.as_deref(), Some("{D8D91CE4-6A7D-4670-8BDE-4B688EC18B43}"));
    assert_eq!(fx[0].opaque_state.as_deref(), Some(long.as_str()));

    assert_eq!(fx[1].name, "Vital");
    assert!(fx[1].vendor.is_none());
    assert_eq!(fx[1].format, PluginFormat::Clap);
    assert!(fx[1].is_bypassed);
    assert!(fx[1].preset_name.is_none());
    assert!(fx[1].vst_uid.is_none());
    assert!(fx[1].opaque_state.is_none());

    assert_eq!(fx[2].name, "AUPeakLimiter (old)");
    assert_eq!(fx[2].vendor.as_deref(), Some("Apple"));
    assert_eq!(fx[2].vst_uid.as_deref(), Some("1/aufx/lmtr/appl"));
    assert!(fx[2].vst3_guid.is_none());
}

#[test]
fn state_is_broken_into_lines_of_72() {
    let state = "A".repeat(150);
    let out = write_rfxchain(&[slot("VST2", "P", "V", false, None, Some("1"), None, Some(&state))]);
    let lines: Vec<&str> = out.lines().collect();
    assert_eq!(lines[6], format!("    {}", "A".repeat(72)));
    assert_eq!(lines[7], format!("    {}", "A".repeat(72)));
    assert_eq!(lines[8], format!("    {}", "A".repeat(6)));
    assert_eq!(lines[9], "  >");
}

#[test]
fn identity_without_fields_has_defaults() {
    let mut bare = slot("VST2", "P", "V", false, None, None, None, None);
    bare.plugin_identity = "no object".to_string();
    let out = write_rfxchain(&[bare]);
    assert!(out.contains("  <VST \"VST: Unknown\" \"\" 0 \"\" \n  >\n"));
}

#[test]
fn chain_in_a_bare_project_reads_back() {
    let slots = [
        slot("VST3", "Pro-Q 3", "FabFilter", false, None, None, None, Some("QUJD")),
        slot("CLAP", "Vital", "Matt Tytel", true, Some("Init"), None, None, None),
    ];
    let text = format!("<REAPER_PROJECT 0.1 7.0\n<TRACK {{A-1}}\n{}>\n>\n", write_rfxchain(&slots));
    let project = parse_rpp(&text).unwrap();
    assert_eq!(project.version, "0.1");
    assert_eq!(project.app_version, "7.0");
    assert_eq!(project.tracks.len(), 1);
    let track = &project.tracks[0];
    assert_eq!(track.name, "");
    assert_eq!(track.guid.as_deref(), Some("{A-1}"));
    let names: Vec<&str> = track.fx_chain.iter().map(|fx| fx.name.as_str()).collect();
    assert_eq!(names, vec!["Pro-Q 3", "Vital"]);
    assert_eq!(track.fx_chain[0].opaque_state.as_deref(), Some("QUJD"));
    assert_eq!(track.fx_chain[1].preset_name.as_deref(), Some("Init"));
    assert!(track.fx_chain[1].is_bypassed);
}

#[test]
fn identifiers_of_one_word_leave_the_rest_readable() {
    for (format, uid, guid, read) in [
        ("VST3", "a{b", "c}", (Some("a"), Some("{bc}"))),
        ("VST3", "1", "{}", (Some("1"), None)),
        ("VST2", "{12", "unused", (None, Some("{12"))),
        ("AU", "1/aufx/lmtr/appl", "", (Some("1/aufx/lmtr/appl"), None)),
        ("CLAP", "\"id\"tail", "", (Some("id"), None)),
    ] {
        let slots = [slot(format, "Name", "Maker", true, Some("Init"), Some(uid), Some(guid), Some("QUJD"))];
        let text = format!("<REAPER_PROJECT 0.1 7 0\n<TRACK {{}}\n{}>\n>\n", write_rfxchain(&slots));
        let project = parse_rpp(&text).unwrap();
        assert_eq!((project.version.as_str(), project.app_version.as_str()), ("0.1", "7"));
        assert_eq!(project.tracks.len(), 1);
        assert_eq!(project.tracks[0].guid.as_deref(), Some("{}"));
        assert_eq!(project.tracks[0].fx_chain.len(), 1);
        let fx = &project.tracks[0].fx_chain[0];
        assert_eq!(fx.name, "Name");
        assert_eq!(fx.vendor.as_deref(), Some("Maker"));
        assert_eq!(fx.filename, "");
        assert!(fx.is_bypassed);
        assert_eq!(fx.preset_name.as_deref(), Some("Init"));
        assert_eq!(fx.opaque_state.as_deref(), Some("QUJD"));
        assert_eq!((fx.vst_uid.as_deref(), fx.vst3_guid.as_deref()), read, "{format} {uid}");
    }
}
