use patchbay::daw_readers::reaper::{
    parse_rpp, read_node, read_rpp, tokenize, PluginFormat, ReaperError,
};

const RPP: &str = r#"<REAPER_PROJECT 0.1 "6.77/win64" 1714123456
  <TRACK {A1B2C3D4-E5F6-7890-ABCD-EF1234567890}
    NAME "Drums"
    PEAKCOL 16576
    <FXCHAIN
      SHOW 0
      LASTSEL 0
      DOCKED 0
      BYPASS 0 0 0
      <VST "VST3: Pro-Q 3 (FabFilter)" "FabFilter Pro-Q 3.vst3" 0 "" 1397572658{D8D91CE4-6A7D-4670-8BDE-4B688EC18B43}
        AQIDBA==
      >
      <VST "VST: Serum (Xfer Records)" "Serum_x64.dll" 1 "Patch" 1936880749
        c2VydW0=
      >
    >
  >
  <TRACK {B2C3D4E5-F6A7-8901-BCDE-F12345678901}
    NAME "Synth"
    <FXCHAIN
      SHOW 0
      LASTSEL 0
      DOCKED 0
      BYPASS 0 0 0
      <AU "AU: AUPeakLimiter (Apple)" "" 0 "" 1819304812/aufx/lmtr/appl
        AAAAAAAAAAAAAAABAAAAAAAAAAAAAAAAAAAAAgIA=
      >
    >
  >
  <TRACK {C3D4E5F6-A7B8-9012-CDEF-012345678901}
    NAME "Bus"
  >
>"#;

#[test]
fn track_count() {
    let p = parse_rpp(RPP).unwrap();
    assert_eq!(p.tracks.len(), 3);
}

#[test]
fn project_version_fields() {
    let p = parse_rpp(RPP).unwrap();
    assert_eq!(p.version, "0.1");
    assert_eq!(p.app_version, "6.77/win64");
}

#[test]
fn track_names_and_guids() {
    let p = parse_rpp(RPP).unwrap();
    assert_eq!(p.tracks[0].name, "Drums");
    assert_eq!(p.tracks[0].guid.as_deref(), Some("{A1B2C3D4-E5F6-7890-ABCD-EF1234567890}"));
    assert_eq!(p.tracks[1].name, "Synth");
    assert_eq!(p.tracks[2].name, "Bus");
}

#[test]
fn vst3_plugin_name_vendor_format_guid() {
    let p = parse_rpp(RPP).unwrap();
    let fx = &p.tracks[0].fx_chain[0];
    assert_eq!(fx.name, "Pro-Q 3");
    assert_eq!(fx.vendor.as_deref(), Some("FabFilter"));
    assert_eq!(fx.format, PluginFormat::Vst3);
    assert_eq!(fx.filename, "FabFilter Pro-Q 3.vst3");
    assert_eq!(fx.vst_uid.as_deref(), Some("1397572658"));
    assert_eq!(fx.vst3_guid.as_deref(), Some("{D8D91CE4-6A7D-4670-8BDE-4B688EC18B43}"));
}

#[test]
fn vst3_active_with_state() {
    let p = parse_rpp(RPP).unwrap();
    let fx = &p.tracks[0].fx_chain[0];
    assert!(!fx.is_bypassed);
    assert_eq!(fx.opaque_state.as_deref(), Some("AQIDBA=="));
}

#[test]
fn vst2_bypassed_with_preset_name() {
    let p = parse_rpp(RPP).unwrap();
    let fx = &p.tracks[0].fx_chain[1];
    assert_eq!(fx.name, "Serum");
    assert_eq!(fx.vendor.as_deref(), Some("Xfer Records"));
    assert_eq!(fx.format, PluginFormat::Vst2);
    assert!(fx.is_bypassed);
    assert_eq!(fx.preset_name.as_deref(), Some("Patch"));
    assert_eq!(fx.vst_uid.as_deref(), Some("1936880749"));
    assert!(fx.vst3_guid.is_none());
    assert_eq!(fx.opaque_state.as_deref(), Some("c2VydW0="));
}

#[test]
fn au_plugin_format_and_name() {
    let p = parse_rpp(RPP).unwrap();
    let fx = &p.tracks[1].fx_chain[0];
    assert_eq!(fx.format, PluginFormat::Au);
    assert_eq!(fx.name, "AUPeakLimiter");
    assert_eq!(fx.vendor.as_deref(), Some("Apple"));
    assert!(!fx.is_bypassed);
    assert!(fx.opaque_state.is_some());
}

#[test]
fn track_without_fxchain_is_empty() {
    let p = parse_rpp(RPP).unwrap();
    assert!(p.tracks[2].fx_chain.is_empty());
}

#[test]
fn multiline_state_blob_concatenated() {
    let rpp = r#"<REAPER_PROJECT 0.1 "6.0" 0
  <TRACK {}
    NAME "T"
    <FXCHAIN
      BYPASS 0 0 0
      <VST "VST: Plugin (Vendor)" "plugin.dll" 0 "" 12345
        AAAA
        BBBB
        CC==
      >
    >
  >
>"#;
    let p = parse_rpp(rpp).unwrap();
    assert_eq!(p.tracks[0].fx_chain[0].opaque_state.as_deref(), Some("AAAABBBBCC=="));
}

#[test]
fn empty_preset_name_returns_none() {
    let p = parse_rpp(RPP).unwrap();
    assert!(p.tracks[0].fx_chain[0].preset_name.is_none());
}

#[test]
fn no_reaper_project_block_is_error() {
    assert!(parse_rpp("nothing here\n").is_err());
}

fn tokens(line: &str) -> Vec<String> {
    let chars: Vec<char> = line.chars().collect();
    tokenize(&chars)
}

#[test]
fn words_and_quoted_texts_are_tokens() {
    assert_eq!(tokens("  NAME \"Two words\" 3  "), vec!["NAME", "Two words", "3"]);
    assert_eq!(tokens(r#"A "say \"hi\"" B"#), vec!["A", "say \"hi\"", "B"]);
    assert_eq!(tokens(r#""a\nb" "open"#), vec!["a\nb", "open"]);
    assert_eq!(tokens("\"\" x"), vec!["", "x"]);
    assert!(tokens("   ").is_empty());
}

#[test]
fn missing_project_block_says_so() {
    match parse_rpp("nothing here\n") {
        Err(e) => assert_eq!(e.message(), "Format error: REAPER_PROJECT block not found"),
        Ok(_) => panic!("expected an error"),
    }
}

#[test]
fn bytes_that_are_not_utf8_are_an_io_error() {
    match read_rpp(&[0x3c, 0xff, 0xfe]) {
        Err(ReaperError::Io(e)) => assert_eq!(e, "stream did not contain valid UTF-8"),
        _ => panic!("expected an I/O error"),
    }
    assert_eq!(read_rpp(RPP.as_bytes()).unwrap().tracks.len(), 3);
}

#[test]
fn attribute_lines_are_not_state() {
    let rpp = "<REAPER_PROJECT 0.1 \"7.0\" 0\n<TRACK {}\n<FXCHAIN\n<VST \"CLAP: Vital\" \"\" 0 \"\" 7\nWAK 0 0\nQUJD\nfloatpos 1 2\n>\n>\n>\n>\n";
    let p = parse_rpp(rpp).unwrap();
    let fx = &p.tracks[0].fx_chain[0];
    assert_eq!(fx.format, PluginFormat::Clap);
    assert_eq!(fx.name, "Vital");
    assert!(fx.vendor.is_none());
    assert_eq!(fx.opaque_state.as_deref(), Some("QUJD"));
}

#[test]
fn unknown_display_name_takes_format_from_tag() {
    let rpp = "<REAPER_PROJECT\n<TRACK x\n<FXCHAIN\n<AU Thing\n>\n>\n>\n>\n";
    let p = parse_rpp(rpp).unwrap();
    assert!(p.tracks[0].guid.is_none());
    let fx = &p.tracks[0].fx_chain[0];
    assert_eq!(fx.format, PluginFormat::Au);
    assert_eq!(fx.name, "Thing");
    assert!(fx.vst_uid.is_none());
    assert!(fx.opaque_state.is_none());
}

#[test]
fn block_behind_the_text_is_empty() {
    let raw: Vec<Vec<char>> = vec!["NAME T".chars().collect(), vec!['>'], "BYPASS 0".chars().collect()];
    let mut pos: usize = 9;
    let node = read_node(&raw, &mut pos, "TRACK".to_string(), vec!["{}".to_string()]);
    assert_eq!(pos, 9);
    assert_eq!(node.tag, "TRACK");
    assert_eq!(node.args, vec!["{}"]);
    assert!(node.lines.is_empty() && node.children.is_empty());

    let mut pos: usize = 0;
    let node = read_node(&raw, &mut pos, "TRACK".to_string(), Vec::new());
    assert_eq!(pos, 2);
    assert_eq!(node.lines, vec![vec!["NAME", "T"]]);
}
