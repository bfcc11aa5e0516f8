use patchbay::scanner::au::RegistryComponent;
use patchbay::scanner::folders::{
    default_clap_paths, default_vst2_paths, default_vst3_paths, FolderVariables, SearchFolder,
};
use patchbay::scanner::total::ScanTotal;
use patchbay::scanner::{scan_au, PluginFormat, Platform, ScanError, ScannedPlugin};

fn variables() -> FolderVariables {
    FolderVariables {
        home: Some("/Users/me".to_string()),
        program_files: None,
        program_files_x86: Some("D:\\x86".to_string()),
        common_files: None,
        common_files_x86: None,
    }
}

fn joined(list: Vec<SearchFolder>, separator: &str) -> Vec<String> {
    list.iter().map(|f| format!("{}{separator}{}", f.base, f.below.join(separator))).collect()
}

#[test]
fn folders_of_macos() {
    let env = variables();
    assert_eq!(
        joined(default_vst3_paths(Platform::MacOs, &env), "/"),
        vec!["/Library/Audio/Plug-Ins/VST3", "/Users/me/Library/Audio/Plug-Ins/VST3"]
    );
    assert_eq!(
        joined(default_vst2_paths(Platform::MacOs, &env), "/"),
        vec!["/Library/Audio/Plug-Ins/VST", "/Users/me/Library/Audio/Plug-Ins/VST"]
    );
    let homeless = FolderVariables { home: None, ..variables() };
    assert_eq!(
        joined(default_clap_paths(Platform::MacOs, &homeless), "/"),
        vec!["/Library/Audio/Plug-Ins/CLAP"]
    );
}

#[test]
fn folders_of_windows() {
    let env = variables();
    assert_eq!(
        joined(default_vst3_paths(Platform::Windows, &env), "\\"),
        vec!["C:\\Program Files\\Common Files\\VST3"]
    );
    assert_eq!(
        joined(default_vst2_paths(Platform::Windows, &env), "\\"),
        vec![
            "C:\\Program Files\\VSTPlugins",
            "D:\\x86\\VSTPlugins",
            "C:\\Program Files\\Common Files\\VST2",
            "D:\\x86\\Common Files\\VST2",
            "C:\\Program Files\\Steinberg\\VstPlugins",
            "D:\\x86\\Steinberg\\VstPlugins",
        ]
    );
    assert_eq!(
        joined(default_clap_paths(Platform::Windows, &env), "\\"),
        vec!["C:\\Program Files\\Common Files\\CLAP", "C:\\Program Files (x86)\\Common Files\\CLAP"]
    );
    assert!(default_vst3_paths(Platform::Other, &env).is_empty());
}

#[test]
fn only_macos_has_audio_units() {
    let component = || RegistryComponent {
        component_type: 1,
        sub_type: 2,
        manufacturer: 3,
        name: None,
        bundle_path: None,
        file_mtime: None,
    };
    assert_eq!(scan_au(Platform::MacOs, &vec![component()]).0.len(), 1);
    assert!(scan_au(Platform::Other, &vec![component()]).0.is_empty());
}

fn plugin(name: &str) -> ScannedPlugin {
    ScannedPlugin {
        name: name.to_string(),
        vendor: None,
        version: None,
        category: None,
        class_id: None,
        path: format!("/{name}.vst3"),
        format: PluginFormat::Vst3,
        file_mtime: None,
    }
}

#[test]
fn scans_are_gathered_in_order() {
    let mut total = ScanTotal::new();
    assert_eq!((total.plugins.len(), total.skipped, total.errors.len()), (0, 0, 0));
    let error = ScanError::Io { path: "/p".to_string(), source: "denied".to_string() };
    total.gather((vec![plugin("a"), plugin("b")], 3, vec![error]));
    let error = ScanError::Json { path: "/q".to_string(), source: "eof".to_string() };
    total.gather((vec![plugin("c")], 4, vec![error]));
    let names: Vec<&str> = total.plugins.iter().map(|p| p.name.as_str()).collect();
    assert_eq!(names, vec!["a", "b", "c"]);
    assert_eq!(total.skipped, 7);
    assert_eq!(
        total.errors,
        vec!["IO error at /p: denied", "Bad moduleinfo.json at /q: eof"]
    );
}
