//! Detects running DAWs, watches open project files, and emits parse events when
//! content changes.
use vstd::prelude::*;

use crate::daw_readers::ableton::{AbletonFile, FileModel};
use crate::daw_readers::dawproject;
use crate::daw_readers::dawproject::DawProject;
use crate::daw_readers::logicpro;
use crate::daw_readers::logicpro::LogicProject;
use crate::daw_readers::reaper;
use crate::daw_readers::reaper::ReaperProject;
use crate::text::{chars_of, contains_text, has_text, lower, lowercase};

pub mod detect;
pub mod hash;
pub mod laws;
pub mod rounds;
pub mod source;
pub mod worker;

verus! {

// ---------------------------------------------------------------------------
// Types
// ---------------------------------------------------------------------------

/// Which DAW wrote / owns a project file.
#[derive(Debug, Clone, Copy, PartialEq, Eq, Hash, Structural)]
pub enum DawKind {
    Ableton,
    Logic,
    Reaper,
    Bitwig,
    StudioOne,
}

/// Parsed representation of a DAW project.
#[derive(Debug)]
pub enum ParsedProject {
    Ableton(AbletonFile),
    Logic(LogicProject),
    Reaper(ReaperProject),
    DawProject(DawProject),
    /// Detected project type that has no reader (e.g. `.bwproject`, `.song`).
    Unrecognized { daw: DawKind, path: String },
}

/// Events emitted by the background watcher.
#[derive(Debug)]
pub enum WatchEvent {
    /// A new project was detected as open in a DAW.
    ProjectOpened { path: String, daw: DawKind },
    /// A project was re-parsed after a content change.
    ProjectChanged { parsed: ParsedProject },
    /// The DAW that held this project has exited.
    ProjectClosed { path: String, daw: DawKind },
    /// Content changed but parsing failed; last successfully parsed state
    /// remains valid.
    ParseError { path: String, error: String },
}

/// What a `ParsedProject` holds.
#[verifier::ext_equal]
pub enum ParsedModel {
    Ableton(FileModel),
    Logic(logicpro::ProjectModel),
    Reaper(reaper::ProjectModel),
    DawProject(dawproject::ProjectModel),
    Unrecognized { daw: DawKind, path: Seq<char> },
}

/// What a `WatchEvent` says.
#[verifier::ext_equal]
pub enum EventModel {
    ProjectOpened { path: Seq<char>, daw: DawKind },
    ProjectChanged { parsed: ParsedModel },
    ProjectClosed { path: Seq<char>, daw: DawKind },
    ParseError { path: Seq<char>, error: Seq<char> },
}

impl View for ParsedProject {
    type V = ParsedModel;

    open spec fn view(&self) -> ParsedModel {
        match self {
            ParsedProject::Ableton(f) => ParsedModel::Ableton(f@),
            ParsedProject::Logic(p) => ParsedModel::Logic(p@),
            ParsedProject::Reaper(p) => ParsedModel::Reaper(p@),
            ParsedProject::DawProject(p) => ParsedModel::DawProject(p@),
            ParsedProject::Unrecognized { daw, path } => ParsedModel::Unrecognized {
                daw: *daw,
                path: path@,
            },
        }
    }
}

impl View for WatchEvent {
    type V = EventModel;

    open spec fn view(&self) -> EventModel {
        match self {
            WatchEvent::ProjectOpened { path, daw } => EventModel::ProjectOpened {
                path: path@,
                daw: *daw,
            },
            WatchEvent::ProjectChanged { parsed } => EventModel::ProjectChanged { parsed: parsed@ },
            WatchEvent::ProjectClosed { path, daw } => EventModel::ProjectClosed {
                path: path@,
                daw: *daw,
            },
            WatchEvent::ParseError { path, error } => EventModel::ParseError {
                path: path@,
                error: error@,
            },
        }
    }
}

/// What each event of a list says.
pub open spec fn event_models(list: Seq<WatchEvent>) -> Seq<EventModel> {
    list.map_values(|e: WatchEvent| e@)
}

// ---------------------------------------------------------------------------
// DAW table
// ---------------------------------------------------------------------------

impl DawKind {
    /// The texts by which a process name or program path shows the DAW, in small
    /// letters. On macOS Ableton's program is just `Live`.
    pub open spec fn fragments(self) -> Seq<Seq<char>> {
        match self {
            DawKind::Ableton => seq!["ableton"@, "live"@],
            DawKind::Logic => seq!["logic pro"@, "logic"@],
            DawKind::Reaper => seq!["reaper"@],
            DawKind::Bitwig => seq!["bitwig"@],
            DawKind::StudioOne => seq!["studio one"@],
        }
    }

    /// The extensions of the DAW's project files.
    pub open spec fn extension_texts(self) -> Seq<Seq<char>> {
        match self {
            DawKind::Ableton => seq![".als"@, ".adg"@],
            DawKind::Logic => seq![".logicx"@],
            DawKind::Reaper => seq![".rpp"@, ".rpp-bak"@],
            DawKind::Bitwig => seq![".bwproject"@, ".dawproject"@],
            DawKind::StudioOne => seq![".song"@, ".dawproject"@],
        }
    }

    /// The extensions of the DAW's project files.
    pub fn extensions(self) -> (out: Vec<&'static str>)
        ensures
            out@.map_values(|s: &'static str| s@) == self.extension_texts(),
    {
        let mut out: Vec<&'static str> = Vec::new();
        match self {
            DawKind::Ableton => {
                out.push(".als");
                out.push(".adg");
            },
            DawKind::Logic => {
                out.push(".logicx");
            },
            DawKind::Reaper => {
                out.push(".rpp");
                out.push(".rpp-bak");
            },
            DawKind::Bitwig => {
                out.push(".bwproject");
                out.push(".dawproject");
            },
            DawKind::StudioOne => {
                out.push(".song");
                out.push(".dawproject");
            },
        }
        assert(out@.map_values(|s: &'static str| s@) =~= self.extension_texts());
        out
    }
}

/// The name or the path of a process shows the DAW. Both are in small letters.
pub open spec fn shows(kind: DawKind, name: Seq<char>, exe: Seq<char>) -> bool {
    exists|i: int|
        0 <= i < kind.fragments().len() && {
            let f = #[trigger] kind.fragments()[i];
            contains_text(name, f) || contains_text(exe, f)
        }
}

/// The DAW that a process name and a program path show. The first one of the table
/// counts: a path with both `live` and `reaper` in it is Ableton.
pub open spec fn daw_of(name: Seq<char>, exe: Seq<char>) -> Option<DawKind> {
    let n = lower(name);
    let e = lower(exe);
    if shows(DawKind::Ableton, n, e) {
        Some(DawKind::Ableton)
    } else if shows(DawKind::Logic, n, e) {
        Some(DawKind::Logic)
    } else if shows(DawKind::Reaper, n, e) {
        Some(DawKind::Reaper)
    } else if shows(DawKind::Bitwig, n, e) {
        Some(DawKind::Bitwig)
    } else if shows(DawKind::StudioOne, n, e) {
        Some(DawKind::StudioOne)
    } else {
        None
    }
}

/// Whether a text stands in the name or in the path of a process.
fn in_either(name: &[char], exe: &[char], fragment: &str) -> (yes: bool)
    ensures
        yes == (contains_text(name@, fragment@) || contains_text(exe@, fragment@)),
{
    let f = chars_of(fragment);
    has_text(name, f.as_slice()) || has_text(exe, f.as_slice())
}

/// Whether the name or the path of a process shows the DAW.
fn shows_daw(kind: DawKind, name: &[char], exe: &[char]) -> (yes: bool)
    ensures
        yes == shows(kind, name@, exe@),
{
    let (first, second) = match kind {
        DawKind::Ableton => ("ableton", "live"),
        DawKind::Logic => ("logic pro", "logic"),
        DawKind::Reaper => ("reaper", "reaper"),
        DawKind::Bitwig => ("bitwig", "bitwig"),
        DawKind::StudioOne => ("studio one", "studio one"),
    };
    let a = in_either(name, exe, first);
    let b = in_either(name, exe, second);
    proof {
        let fs = kind.fragments();
        assert(fs[0] == first@);
        assert(fs[fs.len() - 1] == second@);
        if shows(kind, name@, exe@) {
            let i = choose|i: int|
                0 <= i < fs.len() && (contains_text(name@, #[trigger] fs[i]) || contains_text(
                    exe@,
                    fs[i],
                ));
            assert(i == 0 || i == fs.len() - 1);
        }
    }
    a || b
}

/// The DAW that a process name and a program path show.
pub fn match_daw(name: &str, exe: &str) -> (out: Option<DawKind>)
    ensures
        out == daw_of(name@, exe@),
{
    let name_l = chars_of(lowercase(name).as_str());
    let exe_l = chars_of(lowercase(exe).as_str());
    let n = name_l.as_slice();
    let e = exe_l.as_slice();
    if shows_daw(DawKind::Ableton, n, e) {
        Some(DawKind::Ableton)
    } else if shows_daw(DawKind::Logic, n, e) {
        Some(DawKind::Logic)
    } else if shows_daw(DawKind::Reaper, n, e) {
        Some(DawKind::Reaper)
    } else if shows_daw(DawKind::Bitwig, n, e) {
        Some(DawKind::Bitwig)
    } else if shows_daw(DawKind::StudioOne, n, e) {
        Some(DawKind::StudioOne)
    } else {
        None
    }
}

} // verus!
