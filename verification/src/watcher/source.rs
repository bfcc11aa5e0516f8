//! Reading an open project with the reader of its DAW.
use vstd::prelude::*;

use crate::daw_readers::ableton;
use crate::daw_readers::dawproject;
use crate::daw_readers::logicpro;
use crate::daw_readers::reaper;
use crate::text::{lower, lowercase, opt_str, opt_text, same_text};
use crate::watcher::{DawKind, ParsedModel, ParsedProject};

verus! {

/// What has to be read of a project.
#[derive(Debug, Clone, Copy, PartialEq, Eq, Structural)]
pub enum SourceKind {
    /// The file, for Ableton's reader.
    Ableton,
    /// The package, for Logic's reader.
    Logic,
    /// The file, for Reaper's reader.
    Reaper,
    /// The file, for the reader of DAWproject archives.
    DawProject,
    /// Nothing: no reader knows the project.
    Unrecognized,
}

/// A project as it was read. Where a file cannot be read, the error says why.
pub enum ProjectSource {
    Ableton { extension: Option<String>, data: Result<Vec<u8>, String> },
    Logic(logicpro::LogicPackage),
    Reaper(Result<Vec<u8>, String>),
    DawProject(Result<Vec<u8>, String>),
    Unrecognized(DawKind),
}

/// What has to be read of a project of a DAW, by the extension of its path.
pub open spec fn kind_of_source(daw: DawKind, extension: Option<Seq<char>>) -> SourceKind {
    match daw {
        DawKind::Ableton => SourceKind::Ableton,
        DawKind::Logic => SourceKind::Logic,
        DawKind::Reaper => SourceKind::Reaper,
        DawKind::Bitwig | DawKind::StudioOne => match extension {
            Some(e) => if lower(e) == "dawproject"@ {
                SourceKind::DawProject
            } else {
                SourceKind::Unrecognized
            },
            None => SourceKind::Unrecognized,
        },
    }
}

/// What has to be read of a project of a DAW, by the extension of its path.
pub fn source_kind(daw: DawKind, extension: Option<&str>) -> (out: SourceKind)
    ensures
        out == kind_of_source(daw, opt_str(extension)),
{
    match daw {
        DawKind::Ableton => SourceKind::Ableton,
        DawKind::Logic => SourceKind::Logic,
        DawKind::Reaper => SourceKind::Reaper,
        DawKind::Bitwig | DawKind::StudioOne => match extension {
            Some(e) => if same_text(lowercase(e).as_str(), "dawproject") {
                SourceKind::DawProject
            } else {
                SourceKind::Unrecognized
            },
            None => SourceKind::Unrecognized,
        },
    }
}

/// The project of an Ableton file. A file of a kind that is not Ableton's is not read.
pub open spec fn ableton_source(
    path: Seq<char>,
    extension: Option<Seq<char>>,
    data: Result<Vec<u8>, String>,
) -> Result<ableton::FileModel, ableton::ErrorModel> {
    match data {
        Ok(bytes) => ableton::ableton_file(extension, path, bytes@),
        Err(e) => match ableton::kind_of_extension(extension) {
            Some(_) => Err(ableton::ErrorModel::Io(e@)),
            None => Err(ableton::ErrorModel::Format("Unsupported extension: "@ + path)),
        },
    }
}

/// The project of a Reaper file, or the message of the error.
pub open spec fn reaper_source(data: Result<Vec<u8>, String>) -> Result<
    reaper::ProjectModel,
    Seq<char>,
> {
    match data {
        Ok(bytes) => if vstd::utf8::valid_utf8(bytes@) {
            match reaper::project_of(vstd::utf8::decode_utf8(bytes@)) {
                Some(p) => Ok(p),
                None => Err("Format error: "@ + "REAPER_PROJECT block not found"@),
            }
        } else {
            Err("I/O error: "@ + "stream did not contain valid UTF-8"@)
        },
        Err(e) => Err("I/O error: "@ + e@),
    }
}

/// The project of a DAWproject archive.
pub open spec fn dawproject_source(data: Result<Vec<u8>, String>) -> Result<
    dawproject::ProjectModel,
    dawproject::ErrorModel,
> {
    match data {
        Ok(bytes) => dawproject::archive_project(bytes@),
        Err(e) => Err(dawproject::ErrorModel::Io(e@)),
    }
}

/// The message of an error of Ableton's reader.
pub open spec fn ableton_message(e: ableton::ErrorModel) -> Seq<char> {
    match e {
        ableton::ErrorModel::Io(e) => "I/O error: "@ + e,
        ableton::ErrorModel::Xml(e) => "XML error: "@ + e,
        ableton::ErrorModel::Format(e) => "Format error: "@ + e,
    }
}

/// The message of an error of Logic's reader.
pub open spec fn logic_message(e: logicpro::ErrorModel) -> Seq<char> {
    match e {
        logicpro::ErrorModel::NotAPackage(p) => "path is not a .logicx package directory: "@ + p,
        logicpro::ErrorModel::ProjectDataNotFound(p) => "project data not found; expected at "@ + p,
        logicpro::ErrorModel::Io(e) => "I/O error: "@ + e,
        logicpro::ErrorModel::Plist(e) => "plist parse error: "@ + e,
    }
}

/// The message of an error of the reader of DAWproject archives.
pub open spec fn dawproject_message(e: dawproject::ErrorModel) -> Seq<char> {
    match e {
        dawproject::ErrorModel::Io(e) => "I/O error: "@ + e,
        dawproject::ErrorModel::Zip(e) => "ZIP error: "@ + e,
        dawproject::ErrorModel::Xml(e) => "XML error: "@ + e,
        dawproject::ErrorModel::Format(e) => "Format error: "@ + e,
    }
}

/// The project that was read at a path, or the message of the error.
pub open spec fn project_at(path: Seq<char>, source: ProjectSource) -> Result<
    ParsedModel,
    Seq<char>,
> {
    match source {
        ProjectSource::Ableton { extension, data } => match ableton_source(
            path,
            opt_text(extension),
            data,
        ) {
            Ok(f) => Ok(ParsedModel::Ableton(f)),
            Err(e) => Err(ableton_message(e)),
        },
        ProjectSource::Logic(package) => match logicpro::package_project(package) {
            Ok(p) => Ok(ParsedModel::Logic(p)),
            Err(e) => Err(logic_message(e)),
        },
        ProjectSource::Reaper(data) => match reaper_source(data) {
            Ok(p) => Ok(ParsedModel::Reaper(p)),
            Err(e) => Err(e),
        },
        ProjectSource::DawProject(data) => match dawproject_source(data) {
            Ok(p) => Ok(ParsedModel::DawProject(p)),
            Err(e) => Err(dawproject_message(e)),
        },
        ProjectSource::Unrecognized(daw) => Ok(ParsedModel::Unrecognized { daw, path }),
    }
}

/// Reads an Ableton file.
fn parse_ableton(path: &str, extension: &Option<String>, data: &Result<Vec<u8>, String>) -> (out:
    Result<ableton::AbletonFile, ableton::AbletonError>)
    ensures
        match out {
            Ok(f) => ableton_source(path@, opt_text(*extension), *data) == Ok::<
                ableton::FileModel,
                ableton::ErrorModel,
            >(f@),
            Err(e) => ableton_source(path@, opt_text(*extension), *data) == Err::<
                ableton::FileModel,
                ableton::ErrorModel,
            >(e@),
        },
{
    let ext = match extension {
        Some(e) => Some(e.as_str()),
        None => None,
    };
    assert(opt_str(ext) == opt_text(*extension));
    match data {
        Ok(bytes) => ableton::read_file(ext, path, bytes.as_slice()),
        Err(e) => match ableton::file_kind(ext) {
            Some(_) => Err(ableton::AbletonError::Io(e.clone())),
            None => {
                let mut message = "Unsupported extension: ".to_owned();
                message.append(path);
                Err(ableton::AbletonError::Format(message))
            },
        },
    }
}

/// Reads a project with the reader of its DAW.
pub fn parse_project(path: &str, source: &ProjectSource) -> (out: Result<ParsedProject, String>)
    ensures
        match out {
            Ok(p) => project_at(path@, *source) == Ok::<ParsedModel, Seq<char>>(p@),
            Err(e) => project_at(path@, *source) == Err::<ParsedModel, Seq<char>>(e@),
        },
{
    match source {
        ProjectSource::Ableton { extension, data } => match parse_ableton(path, extension, data) {
            Ok(f) => Ok(ParsedProject::Ableton(f)),
            Err(e) => Err(e.message()),
        },
        ProjectSource::Logic(package) => match logicpro::read_logicx(package) {
            Ok(p) => Ok(ParsedProject::Logic(p)),
            Err(e) => Err(e.message()),
        },
        ProjectSource::Reaper(data) => {
            let read = match data {
                Ok(bytes) => reaper::read_rpp(bytes.as_slice()),
                Err(e) => Err(reaper::ReaperError::Io(e.clone())),
            };
            match read {
                Ok(p) => Ok(ParsedProject::Reaper(p)),
                Err(e) => Err(e.message()),
            }
        },
        ProjectSource::DawProject(data) => {
            let read = match data {
                Ok(bytes) => dawproject::read_dawproject(bytes.as_slice()),
                Err(e) => Err(dawproject::DawProjectError::Io(e.clone())),
            };
            match read {
                Ok(p) => Ok(ParsedProject::DawProject(p)),
                Err(e) => Err(e.message()),
            }
        },
        ProjectSource::Unrecognized(daw) => Ok(
            ParsedProject::Unrecognized { daw: *daw, path: path.to_owned() },
        ),
    }
}

} // verus!
