use patchbay::daw_readers::ableton::{
    parse_adg_xml, parse_als_xml, read_adg, read_als, read_file, AbletonError, AbletonFile, DeviceType,
    PluginFormat, RackType, TrackKind,
};

const ALS_XML: &str = r#"<?xml version="1.0" encoding="UTF-8"?>
<Ableton MajorVersion="11" Creator="Ableton Live 11.2.2">
  <LiveSet>
    <Tracks>
      <AudioTrack Id="0">
        <Name><EffectiveName Value="Drums"/></Name>
        <ColorIndex Value="5"/>
        <DeviceChain>
          <AudioToAudioDeviceChain>
            <Devices>
              <Eq8 Id="0">
                <Name><EffectiveName Value="EQ Eight"/></Name>
                <On><Manual Value="true"/></On>
              </Eq8>
              <PluginDevice Id="1">
                <Name><EffectiveName Value="Pro-Q 3"/></Name>
                <On><Manual Value="false"/></On>
                <PluginDesc>
                  <Vst3PluginInfo Id="0">
                    <Name Value="Pro-Q 3"/>
                    <VendorString Value="FabFilter"/>
                  </Vst3PluginInfo>
                </PluginDesc>
                <Preset>
                  <Vst3Preset Id="0">
                    <Data>AQIDBA==</Data>
                  </Vst3Preset>
                </Preset>
              </PluginDevice>
            </Devices>
          </AudioToAudioDeviceChain>
        </DeviceChain>
      </AudioTrack>
      <MidiTrack Id="1">
        <Name><EffectiveName Value="Synth"/></Name>
        <ColorIndex Value="2"/>
        <DeviceChain>
          <MidiToAudioDeviceChain>
            <Devices>
              <PluginDevice Id="2">
                <Name><EffectiveName Value="Serum"/></Name>
                <On><Manual Value="true"/></On>
                <PluginDesc>
                  <VstPluginInfo Id="0">
                    <PlugName Value="Serum"/>
                    <VendorString Value="Xfer Records"/>
                  </VstPluginInfo>
                </PluginDesc>
                <Preset>
                  <VstPreset Id="0">
                    <PluginDataChunkList>
                      <PluginDataChunk Id="0">
                        <Data>c2VydW0=</Data>
                      </PluginDataChunk>
                    </PluginDataChunkList>
                  </VstPreset>
                </Preset>
              </PluginDevice>
            </Devices>
          </MidiToAudioDeviceChain>
        </DeviceChain>
      </MidiTrack>
    </Tracks>
  </LiveSet>
</Ableton>"#;

const ADG_XML: &str = r#"<?xml version="1.0" encoding="UTF-8"?>
<Ableton MajorVersion="11" Creator="Ableton Live 11.2.2">
  <InstrumentGroupDevice Id="0">
    <Name><EffectiveName Value="Synth Rack"/></Name>
    <On><Manual Value="true"/></On>
    <Macros>
      <MacroControls.0>
        <Manual Value="0.5"/>
        <MidiControllerRange><Min Value="0"/><Max Value="1"/></MidiControllerRange>
      </MacroControls.0>
      <MacroControls.1>
        <Manual Value="0.75"/>
        <MidiControllerRange><Min Value="0"/><Max Value="127"/></MidiControllerRange>
      </MacroControls.1>
    </Macros>
    <MacroNames>
      <MacroNames.0 Value="Cutoff"/>
      <MacroNames.1 Value="Resonance"/>
    </MacroNames>
    <Branches>
      <InstrumentBranch Id="0">
        <DeviceChain>
          <MidiToAudioDeviceChain>
            <Devices>
              <Eq8 Id="0">
                <Name><EffectiveName Value="Post EQ"/></Name>
                <On><Manual Value="true"/></On>
              </Eq8>
            </Devices>
          </MidiToAudioDeviceChain>
        </DeviceChain>
      </InstrumentBranch>
    </Branches>
  </InstrumentGroupDevice>
</Ableton>"#;

/// The number that a macro's text holds.
fn number(text: &Option<String>, default: f64) -> f64 {
    text.as_deref().and_then(|t| t.parse().ok()).unwrap_or(default)
}

#[test]
fn track_count_and_kinds() {
    let project = parse_als_xml(ALS_XML).unwrap();
    assert_eq!(project.tracks.len(), 2);
    assert_eq!(project.tracks[0].kind, TrackKind::Audio);
    assert_eq!(project.tracks[1].kind, TrackKind::Midi);
}

#[test]
fn track_name_and_color() {
    let project = parse_als_xml(ALS_XML).unwrap();
    assert_eq!(project.tracks[0].name, "Drums");
    assert_eq!(project.tracks[0].color_index, Some(5));
}

#[test]
fn builtin_device_is_active_and_has_xml() {
    let project = parse_als_xml(ALS_XML).unwrap();
    let eq = &project.tracks[0].chain[0];
    assert_eq!(eq.name, "EQ Eight");
    assert!(eq.is_active);
    match &eq.device_type {
        DeviceType::AbletonBuiltin { tag, params_xml } => {
            assert_eq!(tag, "Eq8");
            assert!(params_xml.contains("Eq8"));
        }
        _ => panic!("expected AbletonBuiltin"),
    }
}

#[test]
fn vst3_plugin_bypassed_with_state() {
    let project = parse_als_xml(ALS_XML).unwrap();
    let plugin = &project.tracks[0].chain[1];
    assert_eq!(plugin.name, "Pro-Q 3");
    assert!(!plugin.is_active);
    match &plugin.device_type {
        DeviceType::Plugin { plugin_name, vendor, format, opaque_state } => {
            assert_eq!(plugin_name, "Pro-Q 3");
            assert_eq!(vendor.as_deref(), Some("FabFilter"));
            assert_eq!(*format, PluginFormat::Vst3);
            assert_eq!(opaque_state.as_deref(), Some("AQIDBA=="));
        }
        _ => panic!("expected Plugin"),
    }
}

#[test]
fn vst2_plugin_state_nested_in_chunk_list() {
    let project = parse_als_xml(ALS_XML).unwrap();
    let plugin = &project.tracks[1].chain[0];
    assert_eq!(plugin.name, "Serum");
    match &plugin.device_type {
        DeviceType::Plugin { format, opaque_state, .. } => {
            assert_eq!(*format, PluginFormat::Vst2);
            assert_eq!(opaque_state.as_deref(), Some("c2VydW0="));
        }
        _ => panic!("expected Plugin"),
    }
}

#[test]
fn adg_rack_name_and_type() {
    let rack = parse_adg_xml(ADG_XML).unwrap();
    assert_eq!(rack.device.name, "Synth Rack");
    assert!(rack.device.is_active);
    assert!(matches!(
        rack.device.device_type,
        DeviceType::Rack { rack_type: RackType::Instrument }
    ));
}

#[test]
fn adg_macros_name_value_range() {
    let rack = parse_adg_xml(ADG_XML).unwrap();
    let macros = &rack.device.macros;
    assert_eq!(macros.len(), 2);

    assert_eq!(macros[0].index, 0);
    assert_eq!(macros[0].name, "Cutoff");
    assert_eq!(number(&macros[0].value, 0.0), 0.5);
    assert_eq!(number(&macros[0].min, 0.0), 0.0);
    assert_eq!(number(&macros[0].max, 127.0), 1.0);

    assert_eq!(macros[1].index, 1);
    assert_eq!(macros[1].name, "Resonance");
    assert_eq!(number(&macros[1].value, 0.0), 0.75);
    assert_eq!(number(&macros[1].max, 127.0), 127.0);
}

#[test]
fn adg_branch_device_parsed() {
    let rack = parse_adg_xml(ADG_XML).unwrap();
    assert_eq!(rack.device.children.len(), 1);
    assert_eq!(rack.device.children[0].name, "Post EQ");
}

fn gzipped(text: &str) -> Vec<u8> {
    let mut encoder = flate2::write::GzEncoder::new(Vec::new(), flate2::Compression::default());
    std::io::Write::write_all(&mut encoder, text.as_bytes()).unwrap();
    encoder.finish().unwrap()
}

#[test]
fn compressed_files_are_read_by_extension() {
    let als = gzipped(ALS_XML);
    let adg = gzipped(ADG_XML);
    assert_eq!(read_als(&als).unwrap().creator, "Ableton Live 11.2.2");
    assert_eq!(read_adg(&adg).unwrap().major_version, "11");
    assert!(matches!(read_file(Some("als"), "/a.als", &als), Ok(AbletonFile::Project(_))));
    assert!(matches!(read_file(Some("adg"), "/a.adg", &adg), Ok(AbletonFile::Rack(_))));
    assert_eq!(
        read_file(Some("wav"), "/a.wav", &als).unwrap_err().message(),
        "Format error: Unsupported extension: /a.wav"
    );
    assert!(matches!(read_file(None, "/a", &als), Err(AbletonError::Format(_))));
}

#[test]
fn damaged_files_are_errors() {
    assert!(matches!(read_als(b"not gzip"), Err(AbletonError::Io(_))));
    assert!(matches!(parse_als_xml("<Ableton"), Err(AbletonError::Xml(_))));
    assert_eq!(
        parse_als_xml("<Ableton/>").unwrap_err().message(),
        "Format error: Missing <LiveSet>"
    );
    assert_eq!(
        parse_als_xml("<Ableton><LiveSet/></Ableton>").unwrap_err().message(),
        "Format error: Missing <Tracks>"
    );
    assert_eq!(
        parse_adg_xml("<Ableton/>").unwrap_err().message(),
        "Format error: No device element in ADG"
    );
}
