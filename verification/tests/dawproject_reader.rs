use patchbay::base64::base64_encode;
use patchbay::daw_readers::dawproject::{
    parse_project_xml, read_dawproject, DawProjectError, DeviceKind, StateFiles,
};
use std::io::{Cursor, Write};
use zip::write::SimpleFileOptions;

fn no_state() -> StateFiles {
    StateFiles { files: Vec::new(), asked: Vec::new() }
}

const PROJECT_XML: &str = r##"<?xml version="1.0" encoding="UTF-8"?>
<Project version="1.0">
  <Application name="Bitwig Studio" version="5.1.0"/>
  <Transport>
    <Tempo>120.0</Tempo>
    <TimeSignature numerator="4" denominator="4"/>
  </Transport>
  <Structure>
    <Track contentType="audio notes" id="t0" name="Drums" color="#FF8800">
      <Channel audioChannels="2" role="regular" id="ch0">
        <Devices>
          <Vst3Plugin deviceID="{D8D91CE4-6A7D-4670-8BDE-4B688EC18B43}"
                      name="Pro-Q 3" pluginVersion="3.21" vendor="FabFilter">
            <Enabled value="true"/>
            <State path="plugins/proq3.vstpreset"/>
          </Vst3Plugin>
          <Vst2Plugin uniqueId="1936880749" name="Serum"
                      pluginVersion="1.3.0b8" vendor="Xfer Records">
            <Enabled value="false"/>
            <State path="plugins/serum.fxp"/>
          </Vst2Plugin>
        </Devices>
      </Channel>
    </Track>
    <Track contentType="audio" id="t1" name="Bus">
      <Track contentType="audio" id="t2" name="Nested">
        <Channel audioChannels="2" role="regular" id="ch2">
          <Devices/>
        </Channel>
      </Track>
      <Channel audioChannels="2" role="master" id="ch1">
        <Devices>
          <AuPlugin type="aufx" subType="lmtr" manufacturer="appl" name="AUPeakLimiter">
            <Enabled value="true"/>
          </AuPlugin>
          <ClapPlugin id="com.xferrecords.serum" name="Serum CLAP" vendor="Xfer Records">
            <Enabled value="true"/>
          </ClapPlugin>
          <Compressor name="Compressor">
            <Enabled value="true"/>
          </Compressor>
        </Devices>
      </Channel>
    </Track>
  </Structure>
</Project>"##;

#[test]
fn project_version_and_application() {
    let p = parse_project_xml(PROJECT_XML, &mut no_state()).unwrap();
    assert_eq!(p.version, "1.0");
    let app = p.application.unwrap();
    assert_eq!(app.name, "Bitwig Studio");
    assert_eq!(app.version, "5.1.0");
}

#[test]
fn top_level_track_count() {
    let p = parse_project_xml(PROJECT_XML, &mut no_state()).unwrap();
    assert_eq!(p.tracks.len(), 2);
}

#[test]
fn track_attributes() {
    let p = parse_project_xml(PROJECT_XML, &mut no_state()).unwrap();
    let t = &p.tracks[0];
    assert_eq!(t.name, "Drums");
    assert_eq!(t.id.as_deref(), Some("t0"));
    assert_eq!(t.color.as_deref(), Some("#FF8800"));
    assert_eq!(t.content_type.as_deref(), Some("audio notes"));
}

#[test]
fn nested_tracks() {
    let p = parse_project_xml(PROJECT_XML, &mut no_state()).unwrap();
    let bus = &p.tracks[1];
    assert_eq!(bus.name, "Bus");
    assert_eq!(bus.children.len(), 1);
    assert_eq!(bus.children[0].name, "Nested");
}

#[test]
fn channel_role_and_audio_channels() {
    let p = parse_project_xml(PROJECT_XML, &mut no_state()).unwrap();
    let ch = p.tracks[0].channel.as_ref().unwrap();
    assert_eq!(ch.role.as_deref(), Some("regular"));
    assert_eq!(ch.audio_channels, Some(2));
}

#[test]
fn vst3_plugin_fields() {
    let p = parse_project_xml(PROJECT_XML, &mut no_state()).unwrap();
    let dev = &p.tracks[0].channel.as_ref().unwrap().devices[0];
    assert_eq!(dev.name, "Pro-Q 3");
    assert!(dev.is_enabled);
    match &dev.kind {
        DeviceKind::Vst3 { device_id, vendor, plugin_version } => {
            assert_eq!(device_id, "{D8D91CE4-6A7D-4670-8BDE-4B688EC18B43}");
            assert_eq!(vendor.as_deref(), Some("FabFilter"));
            assert_eq!(plugin_version.as_deref(), Some("3.21"));
        }
        _ => panic!("expected Vst3"),
    }
}

#[test]
fn vst2_bypassed_plugin() {
    let p = parse_project_xml(PROJECT_XML, &mut no_state()).unwrap();
    let dev = &p.tracks[0].channel.as_ref().unwrap().devices[1];
    assert_eq!(dev.name, "Serum");
    assert!(!dev.is_enabled);
    match &dev.kind {
        DeviceKind::Vst2 { unique_id, vendor, .. } => {
            assert_eq!(*unique_id, 1936880749);
            assert_eq!(vendor.as_deref(), Some("Xfer Records"));
        }
        _ => panic!("expected Vst2"),
    }
}

#[test]
fn au_plugin_four_ccs() {
    let p = parse_project_xml(PROJECT_XML, &mut no_state()).unwrap();
    let bus_ch = p.tracks[1].channel.as_ref().unwrap();
    let dev = &bus_ch.devices[0];
    assert_eq!(dev.name, "AUPeakLimiter");
    match &dev.kind {
        DeviceKind::Au { type_code, sub_type, manufacturer } => {
            assert_eq!(type_code, "aufx");
            assert_eq!(sub_type, "lmtr");
            assert_eq!(manufacturer, "appl");
        }
        _ => panic!("expected Au"),
    }
}

#[test]
fn clap_plugin_id() {
    let p = parse_project_xml(PROJECT_XML, &mut no_state()).unwrap();
    let bus_ch = p.tracks[1].channel.as_ref().unwrap();
    let dev = &bus_ch.devices[1];
    assert_eq!(dev.name, "Serum CLAP");
    match &dev.kind {
        DeviceKind::Clap { id, vendor, .. } => {
            assert_eq!(id, "com.xferrecords.serum");
            assert_eq!(vendor.as_deref(), Some("Xfer Records"));
        }
        _ => panic!("expected Clap"),
    }
}

#[test]
fn builtin_device_kind() {
    let p = parse_project_xml(PROJECT_XML, &mut no_state()).unwrap();
    let bus_ch = p.tracks[1].channel.as_ref().unwrap();
    let dev = &bus_ch.devices[2];
    assert_eq!(dev.name, "Compressor");
    assert!(matches!(dev.kind, DeviceKind::Builtin));
}

#[test]
fn empty_devices_list() {
    let p = parse_project_xml(PROJECT_XML, &mut no_state()).unwrap();
    let nested_ch = p.tracks[1].children[0].channel.as_ref().unwrap();
    assert!(nested_ch.devices.is_empty());
}

#[test]
fn state_blob_injected_via_loader() {
    let state_bytes: &[u8] = &[0x00, 0x01, 0x02, 0x03];
    let mut loader = StateFiles {
        files: vec![("plugins/proq3.vstpreset".to_string(), state_bytes.to_vec())],
        asked: Vec::new(),
    };
    let p = parse_project_xml(PROJECT_XML, &mut loader).unwrap();
    let dev = &p.tracks[0].channel.as_ref().unwrap().devices[0];
    assert_eq!(dev.opaque_state.as_deref(), Some("AAECAw=="));
    // Serum's path returns None -> opaque_state is None
    let serum = &p.tracks[0].channel.as_ref().unwrap().devices[1];
    assert!(serum.opaque_state.is_none());
}

#[test]
fn no_state_element_means_none() {
    let p = parse_project_xml(PROJECT_XML, &mut no_state()).unwrap();
    // AU plugin has no <State> element -> None regardless of loader
    let au = &p.tracks[1].channel.as_ref().unwrap().devices[0];
    assert!(au.opaque_state.is_none());
}

#[test]
fn missing_structure_gives_empty_tracks() {
    let xml = r#"<?xml version="1.0" encoding="UTF-8"?>
<Project version="1.0">
  <Application name="Bitwig Studio" version="5.0"/>
</Project>"#;
    let p = parse_project_xml(xml, &mut no_state()).unwrap();
    assert!(p.tracks.is_empty());
}

#[test]
fn base64_encode_known_vectors() {
    assert_eq!(base64_encode(b""), "");
    assert_eq!(base64_encode(b"f"), "Zg==");
    assert_eq!(base64_encode(b"fo"), "Zm8=");
    assert_eq!(base64_encode(b"foo"), "Zm9v");
    assert_eq!(base64_encode(b"foob"), "Zm9vYg==");
    assert_eq!(base64_encode(b"fooba"), "Zm9vYmE=");
    assert_eq!(base64_encode(b"foobar"), "Zm9vYmFy");
    assert_eq!(base64_encode(&[0x00, 0x01, 0x02, 0x03]), "AAECAw==");
}

#[test]
fn zip_round_trip() {
    let xml = PROJECT_XML.as_bytes();
    let state_bytes: &[u8] = &[0xDE, 0xAD, 0xBE, 0xEF];

    let mut buf = Vec::new();
    {
        let cursor = Cursor::new(&mut buf);
        let mut w = zip::ZipWriter::new(cursor);
        let opts = SimpleFileOptions::default();
        w.start_file("project.xml", opts).unwrap();
        w.write_all(xml).unwrap();
        w.start_file("plugins/proq3.vstpreset", opts).unwrap();
        w.write_all(state_bytes).unwrap();
        w.finish().unwrap();
    }

    let project = read_dawproject(&buf).unwrap();

    let dev = &project.tracks[0].channel.as_ref().unwrap().devices[0];
    assert_eq!(dev.name, "Pro-Q 3");
    assert_eq!(dev.opaque_state.as_deref(), Some(base64_encode(state_bytes).as_str()));
}

#[test]
fn damaged_archives_are_errors() {
    assert!(matches!(read_dawproject(b"no archive"), Err(DawProjectError::Zip(_))));
    assert!(matches!(parse_project_xml("<Project", &mut no_state()), Err(DawProjectError::Xml(_))));

    let mut w = zip::ZipWriter::new(Cursor::new(Vec::new()));
    w.start_file("other.xml", SimpleFileOptions::default()).unwrap();
    w.write_all(b"<a/>").unwrap();
    let bytes = w.finish().unwrap().into_inner();
    assert!(matches!(read_dawproject(&bytes), Err(DawProjectError::Zip(_))));
    assert!(read_dawproject(&bytes).unwrap_err().message().starts_with("ZIP error: "));
}

#[test]
fn state_files_are_asked_for_in_the_order_of_the_devices() {
    let mut loader = StateFiles {
        files: vec![("plugins/proq3.vstpreset".to_string(), vec![0, 1, 2, 3])],
        asked: Vec::new(),
    };
    let p = parse_project_xml(PROJECT_XML, &mut loader).unwrap();
    assert_eq!(loader.asked, vec!["plugins/proq3.vstpreset", "plugins/serum.fxp"]);
    for dev in &p.tracks[1].channel.as_ref().unwrap().devices {
        assert!(dev.opaque_state.is_none());
    }

    // The channel of a track comes before the tracks in it, wherever it stands
    let xml = r#"<Project><Structure><Track>
  <Track><Channel><Devices><A><State path="inner"/></A></Devices></Channel></Track>
  <Channel><Devices><B><State path="outer"/></B><C/><D><State path="outer"/></D></Devices></Channel>
</Track></Structure></Project>"#;
    parse_project_xml(xml, &mut loader).unwrap();
    assert_eq!(loader.asked[2..], ["outer", "outer", "inner"]);
    assert!(parse_project_xml("<Project", &mut loader).is_err());
    assert_eq!(loader.asked.len(), 5);
}
