use patchbay::daw_readers::ableton::{
    AbletonFile, AbletonProject, AbletonRack, DeviceNode, DeviceType, PluginFormat, RackType, Track,
    TrackKind,
};
use patchbay::daw_readers::dawproject::{parse_project_xml, StateFiles};
use patchbay::daw_readers::logicpro;
use patchbay::daw_readers::reaper::parse_rpp;
use patchbay::json::JsonField;
use patchbay::live_project::{ableton_nodes_to_slots, from_parsed, slots_fit, LiveSlot, FULLY_WET};
use patchbay::watcher::{DawKind, ParsedProject};

fn plugin(name: &str, is_active: bool) -> DeviceNode {
    DeviceNode {
        name: name.to_string(),
        is_active,
        device_type: DeviceType::Plugin {
            plugin_name: name.to_string(),
            vendor: Some("V".to_string()),
            format: PluginFormat::Vst3,
            opaque_state: Some("AAEC".to_string()),
        },
        macros: Vec::new(),
        children: Vec::new(),
    }
}

fn rack(children: Vec<DeviceNode>) -> DeviceNode {
    DeviceNode {
        name: "Rack".to_string(),
        is_active: true,
        device_type: DeviceType::Rack { rack_type: RackType::AudioEffect },
        macros: Vec::new(),
        children,
    }
}

fn builtin(name: &str, tag: &str) -> DeviceNode {
    DeviceNode {
        name: name.to_string(),
        is_active: true,
        device_type: DeviceType::AbletonBuiltin { tag: tag.to_string(), params_xml: String::new() },
        macros: Vec::new(),
        children: Vec::new(),
    }
}

/// The text of a member of a slot's identity.
fn identity<'a>(slot: &'a LiveSlot, key: &str) -> Option<&'a str> {
    slot.plugin_identity.iter().find(|m| m.name == key).and_then(|m| match &m.value {
        JsonField::Text(s) => Some(s.as_str()),
        _ => None,
    })
}

#[test]
fn ableton_racks_are_flattened_and_numbered() {
    let project = AbletonProject {
        creator: String::new(),
        major_version: String::new(),
        tracks: vec![Track {
            kind: TrackKind::Midi,
            name: "Lead".to_string(),
            color_index: None,
            chain: vec![
                plugin("A", true),
                rack(vec![plugin("B", false), rack(vec![builtin("EQ Eight", "Eq8")])]),
                plugin("C", true),
            ],
        }],
    };
    assert!(slots_fit(&project));
    let live = from_parsed(&ParsedProject::Ableton(AbletonFile::Project(project)), "/a.als").unwrap();
    assert_eq!(live.path, "/a.als");
    assert_eq!(live.daw, "Ableton");
    let track = &live.tracks[0];
    assert_eq!(track.name, "Lead");
    assert_eq!(track.kind, "instrument");
    let names: Vec<&str> = track.slots.iter().map(|s| s.name.as_str()).collect();
    assert_eq!(names, vec!["A", "B", "EQ Eight", "C"]);
    let positions: Vec<i32> = track.slots.iter().map(|s| s.position).collect();
    assert_eq!(positions, vec![0, 1, 2, 3]);
    assert!(track.slots[1].bypass);
    assert_eq!(track.slots[0].wet_bits, FULLY_WET);
    assert_eq!(f64::from_bits(FULLY_WET), 1.0);
    assert_eq!(track.slots[0].opaque_state.as_deref(), Some("AAEC"));
    assert_eq!(identity(&track.slots[0], "format"), Some("VST3"));
    assert_eq!(track.slots[2].vendor.as_deref(), Some("Ableton"));
    assert_eq!(identity(&track.slots[2], "tag"), Some("Eq8"));
}

#[test]
fn reaper_effects_are_slots() {
    let rpp = "<REAPER_PROJECT 0.1 \"7.0\" 0\n<TRACK {}\nNAME Bass\n<FXCHAIN\n<VST \"VST3: Pro-Q 3 (FabFilter)\" \"f.vst3\" 1 \"P\" 12{AB}\nQUJD\n>\n>\n>\n>\n";
    let live = from_parsed(&ParsedProject::Reaper(parse_rpp(rpp).unwrap()), "/b.rpp").unwrap();
    assert_eq!(live.daw, "Reaper");
    let slot = &live.tracks[0].slots[0];
    assert_eq!(slot.name, "Pro-Q 3");
    assert_eq!(slot.vendor.as_deref(), Some("FabFilter"));
    assert_eq!(slot.format.as_deref(), Some("VST3"));
    assert!(slot.bypass);
    assert_eq!(slot.preset_name.as_deref(), Some("P"));
    assert_eq!(slot.opaque_state.as_deref(), Some("QUJD"));
    assert_eq!(identity(slot, "vst_uid"), Some("12"));
    assert_eq!(identity(slot, "vst3_guid"), Some("{AB}"));
}

#[test]
fn logic_plugins_are_slots() {
    let project = logicpro::LogicProject {
        name: "Song".to_string(),
        logic_version: String::new(),
        tracks: vec![logicpro::LogicTrack {
            name: "Vox".to_string(),
            kind: logicpro::TrackKind::Audio,
            devices: vec![logicpro::LogicDevice {
                name: "Little Plate".to_string(),
                manufacturer: "SToy".to_string(),
                component_type: "aufx".to_string(),
                component_subtype: "LPlt".to_string(),
                bypassed: true,
                state: Vec::new(),
            }],
        }],
        all_devices: Vec::new(),
    };
    let live = from_parsed(&ParsedProject::Logic(project), "/c.logicx").unwrap();
    let slot = &live.tracks[0].slots[0];
    assert_eq!(slot.position, 0);
    assert_eq!(slot.name, "Little Plate");
    assert_eq!(slot.format.as_deref(), Some("AU"));
    assert!(slot.bypass);
}

#[test]
fn dawproject_tracks_are_flattened() {
    let xml = "<Project version=\"1.0\"><Structure><Track name=\"Bus\"><Track name=\"Inner\"><Channel><Devices><ClapPlugin id=\"a.b\" name=\"Vital\"><Enabled value=\"false\"/></ClapPlugin></Devices></Channel></Track><Channel><Devices><Compressor name=\"Comp\"/></Devices></Channel></Track></Structure></Project>";
    let project = parse_project_xml(xml, &mut StateFiles { files: Vec::new(), asked: Vec::new() }).unwrap();
    let live = from_parsed(&ParsedProject::DawProject(project), "/d.dawproject").unwrap();
    let names: Vec<&str> = live.tracks.iter().map(|t| t.name.as_str()).collect();
    assert!(names.contains(&"Inner"));
    assert!(names.contains(&"Bus"));
    let inner = live.tracks.iter().find(|t| t.name == "Inner").unwrap();
    assert_eq!(inner.slots[0].name, "Vital");
    assert!(inner.slots[0].bypass);
    assert_eq!(inner.slots[0].format.as_deref(), Some("CLAP"));
}

#[test]
fn racks_and_unknown_projects_are_not_shown() {
    let file = AbletonFile::Rack(AbletonRack {
        creator: String::new(),
        major_version: String::new(),
        device: rack(Vec::new()),
    });
    assert!(from_parsed(&ParsedProject::Ableton(file), "/a.adg").is_none());
    let song = ParsedProject::Unrecognized { daw: DawKind::StudioOne, path: "/x.song".to_string() };
    assert!(from_parsed(&song, "/x.song").is_none());
}

#[test]
fn slots_of_two_lists_are_numbered_on() {
    let first = vec![plugin("A", true), rack(vec![plugin("B", true)])];
    let second = vec![rack(Vec::new()), plugin("C", false)];
    let mut pos = -1;
    let mut slots = ableton_nodes_to_slots(&first, &mut pos);
    assert_eq!(pos, 1);
    slots.extend(ableton_nodes_to_slots(&second, &mut pos));
    assert_eq!(pos, 2);

    let both = vec![plugin("A", true), rack(vec![plugin("B", true)]), rack(Vec::new()), plugin("C", false)];
    let mut at = -1;
    let whole = ableton_nodes_to_slots(&both, &mut at);
    assert_eq!(at, 2);
    let seen = |list: &[LiveSlot]| -> Vec<(i32, String)> {
        list.iter().map(|s| (s.position, s.name.clone())).collect()
    };
    assert_eq!(seen(&slots), seen(&whole));
    assert_eq!(
        seen(&whole),
        vec![(-1, "A".to_string()), (0, "B".to_string()), (1, "C".to_string())]
    );
}
