//! The folders in which plugins are installed.
use vstd::prelude::*;

use crate::scanner::Platform;
use crate::text::opt_text;

verus! {

/// The variables of the environment that name folders, where they are set.
#[derive(Debug)]
pub struct FolderVariables {
    /// `HOME`.
    pub home: Option<String>,
    /// `PROGRAMFILES`.
    pub program_files: Option<String>,
    /// `PROGRAMFILES(X86)`.
    pub program_files_x86: Option<String>,
    /// `COMMONPROGRAMFILES`.
    pub common_files: Option<String>,
    /// `COMMONPROGRAMFILES(X86)`.
    pub common_files_x86: Option<String>,
}

/// A folder, as another one and the names of the folders below it that lead there.
#[derive(Debug)]
pub struct SearchFolder {
    pub base: String,
    pub below: Vec<&'static str>,
}

/// What a `SearchFolder` holds.
#[verifier::ext_equal]
pub struct FolderModel {
    pub base: Seq<char>,
    pub below: Seq<Seq<char>>,
}

impl View for SearchFolder {
    type V = FolderModel;

    open spec fn view(&self) -> FolderModel {
        FolderModel { base: self.base@, below: self.below@.map_values(|s: &'static str| s@) }
    }
}

/// What each folder of a list holds.
pub open spec fn folder_models(list: Seq<SearchFolder>) -> Seq<FolderModel> {
    list.map_values(|f: SearchFolder| f@)
}

/// The value of a variable, or `default` where it is not set.
pub open spec fn set_or(variable: Option<String>, default: Seq<char>) -> Seq<char> {
    match opt_text(variable) {
        Some(s) => s,
        None => default,
    }
}

/// The plugin folder with the given name on macOS: that of the system, and that of the
/// user where `HOME` is set.
pub open spec fn mac_folders(env: FolderVariables, name: Seq<char>) -> Seq<FolderModel> {
    let system = FolderModel { base: "/Library/Audio/Plug-Ins"@, below: seq![name] };
    match env.home {
        Some(home) => seq![
            system,
            FolderModel { base: home@, below: seq!["Library"@, "Audio"@, "Plug-Ins"@, name] },
        ],
        None => seq![system],
    }
}

/// The folders of VST3 plugins.
pub open spec fn vst3_folders(platform: Platform, env: FolderVariables) -> Seq<FolderModel> {
    match platform {
        Platform::MacOs => mac_folders(env, "VST3"@),
        Platform::Windows => seq![
            FolderModel {
                base: set_or(env.common_files, "C:\\Program Files\\Common Files"@),
                below: seq!["VST3"@],
            },
        ],
        Platform::Other => Seq::empty(),
    }
}

/// The folders of VST2 plugins.
pub open spec fn vst2_folders(platform: Platform, env: FolderVariables) -> Seq<FolderModel> {
    match platform {
        Platform::MacOs => mac_folders(env, "VST"@),
        Platform::Windows => {
            let pf = set_or(env.program_files, "C:\\Program Files"@);
            let pf86 = set_or(env.program_files_x86, "C:\\Program Files (x86)"@);
            seq![
                FolderModel { base: pf, below: seq!["VSTPlugins"@] },
                FolderModel { base: pf86, below: seq!["VSTPlugins"@] },
                FolderModel { base: pf, below: seq!["Common Files"@, "VST2"@] },
                FolderModel { base: pf86, below: seq!["Common Files"@, "VST2"@] },
                FolderModel { base: pf, below: seq!["Steinberg"@, "VstPlugins"@] },
                FolderModel { base: pf86, below: seq!["Steinberg"@, "VstPlugins"@] },
            ]
        },
        Platform::Other => Seq::empty(),
    }
}

/// The folders of CLAP plugins.
pub open spec fn clap_folders(platform: Platform, env: FolderVariables) -> Seq<FolderModel> {
    match platform {
        Platform::MacOs => mac_folders(env, "CLAP"@),
        Platform::Windows => seq![
            FolderModel {
                base: set_or(env.common_files, "C:\\Program Files\\Common Files"@),
                below: seq!["CLAP"@],
            },
            FolderModel {
                base: set_or(env.common_files_x86, "C:\\Program Files (x86)\\Common Files"@),
                below: seq!["CLAP"@],
            },
        ],
        Platform::Other => Seq::empty(),
    }
}

/// The value of a variable, or `default` where it is not set.
fn value_or(variable: &Option<String>, default: &str) -> (out: String)
    ensures
        out@ == set_or(*variable, default@),
{
    match variable {
        Some(s) => s.clone(),
        None => default.to_owned(),
    }
}

/// The folder below another one.
fn folder(base: String, name: &'static str) -> (out: SearchFolder)
    ensures
        out@ == (FolderModel { base: base@, below: seq![name@] }),
{
    let mut below: Vec<&'static str> = Vec::new();
    below.push(name);
    assert(below@.map_values(|s: &'static str| s@) =~= seq![name@]);
    SearchFolder { base, below }
}

/// The folder below a folder below another one.
fn subfolder(base: String, outer: &'static str, inner: &'static str) -> (out: SearchFolder)
    ensures
        out@ == (FolderModel { base: base@, below: seq![outer@, inner@] }),
{
    let mut below: Vec<&'static str> = Vec::new();
    below.push(outer);
    below.push(inner);
    assert(below@.map_values(|s: &'static str| s@) =~= seq![outer@, inner@]);
    SearchFolder { base, below }
}

/// The plugin folder with the given name on macOS.
fn on_macos(env: &FolderVariables, name: &'static str) -> (out: Vec<SearchFolder>)
    ensures
        folder_models(out@) == mac_folders(*env, name@),
{
    let mut out: Vec<SearchFolder> = Vec::new();
    out.push(folder("/Library/Audio/Plug-Ins".to_owned(), name));
    if let Some(home) = &env.home {
        let mut below: Vec<&'static str> = Vec::new();
        below.push("Library");
        below.push("Audio");
        below.push("Plug-Ins");
        below.push(name);
        assert(below@.map_values(|s: &'static str| s@) =~= seq![
            "Library"@,
            "Audio"@,
            "Plug-Ins"@,
            name@,
        ]);
        out.push(SearchFolder { base: home.clone(), below });
    }
    assert(folder_models(out@) =~= mac_folders(*env, name@));
    out
}

/// The folders in which VST3 plugins are installed.
pub fn default_vst3_paths(platform: Platform, env: &FolderVariables) -> (out: Vec<SearchFolder>)
    ensures
        folder_models(out@) == vst3_folders(platform, *env),
{
    match platform {
        Platform::MacOs => on_macos(env, "VST3"),
        Platform::Windows => {
            let mut out: Vec<SearchFolder> = Vec::new();
            let common = value_or(&env.common_files, "C:\\Program Files\\Common Files");
            out.push(folder(common, "VST3"));
            assert(folder_models(out@) =~= vst3_folders(platform, *env));
            out
        },
        Platform::Other => {
            let out: Vec<SearchFolder> = Vec::new();
            assert(folder_models(out@) =~= vst3_folders(platform, *env));
            out
        },
    }
}

/// The folders in which VST2 plugins are installed.
pub fn default_vst2_paths(platform: Platform, env: &FolderVariables) -> (out: Vec<SearchFolder>)
    ensures
        folder_models(out@) == vst2_folders(platform, *env),
{
    match platform {
        Platform::MacOs => on_macos(env, "VST"),
        Platform::Windows => {
            let mut out: Vec<SearchFolder> = Vec::new();
            let pf = value_or(&env.program_files, "C:\\Program Files");
            let pf86 = value_or(&env.program_files_x86, "C:\\Program Files (x86)");
            out.push(folder(pf.clone(), "VSTPlugins"));
            out.push(folder(pf86.clone(), "VSTPlugins"));
            out.push(subfolder(pf.clone(), "Common Files", "VST2"));
            out.push(subfolder(pf86.clone(), "Common Files", "VST2"));
            out.push(subfolder(pf, "Steinberg", "VstPlugins"));
            out.push(subfolder(pf86, "Steinberg", "VstPlugins"));
            assert(folder_models(out@) =~= vst2_folders(platform, *env));
            out
        },
        Platform::Other => {
            let out: Vec<SearchFolder> = Vec::new();
            assert(folder_models(out@) =~= vst2_folders(platform, *env));
            out
        },
    }
}

/// The folders in which CLAP plugins are installed.
pub fn default_clap_paths(platform: Platform, env: &FolderVariables) -> (out: Vec<SearchFolder>)
    ensures
        folder_models(out@) == clap_folders(platform, *env),
{
    match platform {
        Platform::MacOs => on_macos(env, "CLAP"),
        Platform::Windows => {
            let mut out: Vec<SearchFolder> = Vec::new();
            let pf = value_or(&env.common_files, "C:\\Program Files\\Common Files");
            let pf86 = value_or(&env.common_files_x86, "C:\\Program Files (x86)\\Common Files");
            out.push(folder(pf, "CLAP"));
            out.push(folder(pf86, "CLAP"));
            assert(folder_models(out@) =~= clap_folders(platform, *env));
            out
        },
        Platform::Other => {
            let out: Vec<SearchFolder> = Vec::new();
            assert(folder_models(out@) =~= clap_folders(platform, *env));
            out
        },
    }
}

} // verus!
