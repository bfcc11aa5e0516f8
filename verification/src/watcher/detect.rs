//! Finding the project that a running DAW has open.
use vstd::prelude::*;
use vstd::slice::slice_subrange;

use crate::text::{
    chars_of, lines, lossy, lossy_text, opt_text, rows, same_text, split_lines, text_of, texts,
};
use crate::watcher::DawKind;

verus! {

// ---------------------------------------------------------------------------
// Paths
// ---------------------------------------------------------------------------

/// A path, its extension and whether something is there.
#[derive(Debug)]
pub struct PathFacts {
    pub path: String,
    pub extension: Option<String>,
    pub exists: bool,
}

/// A path with the folders that it lies in, the innermost first.
#[derive(Debug)]
pub struct OpenPath {
    pub file: PathFacts,
    pub ancestors: Vec<PathFacts>,
}

/// What `PathFacts` holds.
#[verifier::ext_equal]
pub struct FactsModel {
    pub path: Seq<char>,
    pub extension: Option<Seq<char>>,
    pub exists: bool,
}

/// What an `OpenPath` holds.
#[verifier::ext_equal]
pub struct OpenModel {
    pub file: FactsModel,
    pub ancestors: Seq<FactsModel>,
}

impl View for PathFacts {
    type V = FactsModel;

    open spec fn view(&self) -> FactsModel {
        FactsModel { path: self.path@, extension: opt_text(self.extension), exists: self.exists }
    }
}

/// What each path of a list holds.
pub open spec fn facts_models(list: Seq<PathFacts>) -> Seq<FactsModel> {
    list.map_values(|p: PathFacts| p@)
}

impl View for OpenPath {
    type V = OpenModel;

    open spec fn view(&self) -> OpenModel {
        OpenModel { file: self.file@, ancestors: facts_models(self.ancestors@) }
    }
}

/// What each path of a list holds.
pub open spec fn open_models(list: Seq<OpenPath>) -> Seq<OpenModel> {
    list.map_values(|p: OpenPath| p@)
}

/// The extension is that of a project file of the DAW.
pub open spec fn is_project_extension(kind: DawKind, extension: Option<Seq<char>>) -> bool {
    match extension {
        Some(e) => kind.extension_texts().contains("."@ + e),
        None => false,
    }
}

/// The path is that of a project file of the DAW, and it is there.
pub open spec fn is_project(kind: DawKind, p: FactsModel) -> bool {
    is_project_extension(kind, p.extension) && p.exists
}

/// Whether the extension is that of a project file of the DAW.
pub fn has_project_extension(kind: DawKind, extension: &Option<String>) -> (yes: bool)
    ensures
        yes == is_project_extension(kind, opt_text(*extension)),
{
    let ext = match extension {
        Some(e) => e,
        None => return false,
    };
    let mut dotted = ".".to_owned();
    dotted.append(ext.as_str());
    let list = kind.extensions();
    let ghost want = kind.extension_texts();
    for i in 0..list.len()
        invariant
            want == kind.extension_texts(),
            want == list@.map_values(|s: &'static str| s@),
            dotted@ == "."@ + ext@,
            opt_text(*extension) == Some(ext@),
            forall|k: int| 0 <= k < i ==> want[k] != dotted@,
    {
        assert(want[i as int] == list@[i as int]@);
        if same_text(list[i], dotted.as_str()) {
            assert(want.contains(dotted@));
            return true;
        }
    }
    false
}

// ---------------------------------------------------------------------------
// macOS: the listing of open files
// ---------------------------------------------------------------------------

/// The file names of a listing with one field on each line: those behind an `n`.
pub open spec fn names_in(list: Seq<Seq<char>>) -> Seq<Seq<char>>
    decreases list.len(),
{
    if list.len() == 0 {
        Seq::empty()
    } else {
        let line = list.last();
        let before = names_in(list.drop_last());
        if line.len() > 0 && line[0] == 'n' {
            before.push(line.skip(1))
        } else {
            before
        }
    }
}

/// The file names that `lsof -F n` lists, in order.
pub fn lsof_names(stdout: &[u8]) -> (out: Vec<String>)
    ensures
        texts(out@) == names_in(lines(lossy(stdout@))),
{
    let text = lossy_text(stdout);
    let cs = chars_of(text.as_str());
    let list = split_lines(cs.as_slice());
    let ghost all = rows(list@);
    let mut out: Vec<String> = Vec::new();
    assert(texts(out@) =~= names_in(all.take(0)));
    for i in 0..list.len()
        invariant
            all == rows(list@),
            texts(out@) == names_in(all.take(i as int)),
    {
        let line = list[i].as_slice();
        let n: usize = line.len();
        let ghost before = texts(out@);
        proof {
            let next = all.take(i + 1);
            assert(next.drop_last() =~= all.take(i as int));
            assert(next.last() == line@);
        }
        if n > 0 && line[0] == 'n' {
            let name = text_of(slice_subrange(line, 1, n));
            assert(name@ =~= line@.skip(1));
            out.push(name);
            assert(texts(out@) =~= before.push(line@.skip(1)));
        }
    }
    assert(all.take(all.len() as int) =~= all);
    out
}

/// The innermost Logic package among folders from index `i` on that is there.
pub open spec fn package_from(list: Seq<FactsModel>, i: int) -> Option<Seq<char>>
    decreases list.len() - i,
{
    if i >= list.len() {
        None
    } else if list[i].extension == Some("logicx"@) && list[i].exists {
        Some(list[i].path)
    } else {
        package_from(list, i + 1)
    }
}

/// The project that an open path belongs to: the path itself, or the Logic package
/// that it lies in.
pub open spec fn project_of_path(kind: DawKind, p: OpenModel) -> Option<Seq<char>> {
    if is_project(kind, p.file) {
        Some(p.file.path)
    } else if kind == DawKind::Logic {
        package_from(p.ancestors, 0)
    } else {
        None
    }
}

/// The project of a DAW among its open paths. The last one counts.
pub open spec fn open_project(kind: DawKind, list: Seq<OpenModel>) -> Option<Seq<char>>
    decreases list.len(),
{
    if list.len() == 0 {
        None
    } else if project_of_path(kind, list.last()) is Some {
        project_of_path(kind, list.last())
    } else {
        open_project(kind, list.drop_last())
    }
}

/// The innermost Logic package among folders that is there.
fn find_package(list: &Vec<PathFacts>) -> (out: Option<String>)
    ensures
        opt_text(out) == package_from(facts_models(list@), 0),
{
    let ghost all = facts_models(list@);
    for i in 0..list.len()
        invariant
            all == facts_models(list@),
            package_from(all, 0) == package_from(all, i as int),
    {
        assert(all[i as int] == list@[i as int]@);
        if let Some(e) = &list[i].extension {
            if list[i].exists && same_text(e.as_str(), "logicx") {
                return Some(list[i].path.clone());
            }
        }
    }
    None
}

/// The project that an open path belongs to.
fn find_project(kind: DawKind, p: &OpenPath) -> (out: Option<String>)
    ensures
        opt_text(out) == project_of_path(kind, p@),
{
    if has_project_extension(kind, &p.file.extension) && p.file.exists {
        Some(p.file.path.clone())
    } else if kind == DawKind::Logic {
        find_package(&p.ancestors)
    } else {
        None
    }
}

/// The project of a DAW among the paths that it has open. Logic opens many files
/// inside a package; the package is the project.
pub fn find_via_lsof(kind: DawKind, paths: &Vec<OpenPath>) -> (out: Option<String>)
    ensures
        opt_text(out) == open_project(kind, open_models(paths@)),
{
    let ghost all = open_models(paths@);
    let mut best: Option<String> = None;
    for i in 0..paths.len()
        invariant
            all == open_models(paths@),
            opt_text(best) == open_project(kind, all.take(i as int)),
    {
        proof {
            let next = all.take(i + 1);
            assert(next.drop_last() =~= all.take(i as int));
            assert(next.last() == paths@[i as int]@);
        }
        if let Some(p) = find_project(kind, &paths[i]) {
            best = Some(p);
        }
    }
    assert(all.take(all.len() as int) =~= all);
    best
}

// ---------------------------------------------------------------------------
// Windows: the command line
// ---------------------------------------------------------------------------

/// The first project of a DAW among arguments from index `i` on.
pub open spec fn argument_from(kind: DawKind, args: Seq<FactsModel>, i: int) -> Option<Seq<char>>
    decreases args.len() - i,
{
    if i >= args.len() {
        None
    } else if is_project(kind, args[i]) {
        Some(args[i].path)
    } else {
        argument_from(kind, args, i + 1)
    }
}

/// The first project among the arguments of a DAW, behind the program's own path.
pub fn find_via_cmdline(kind: DawKind, args: &Vec<PathFacts>) -> (out: Option<String>)
    ensures
        opt_text(out) == argument_from(kind, facts_models(args@), 1),
{
    let ghost all = facts_models(args@);
    let mut i: usize = 1;
    while i < args.len()
        invariant
            i >= 1,
            all == facts_models(args@),
            argument_from(kind, all, 1) == argument_from(kind, all, i as int),
        decreases args@.len() - i,
    {
        assert(all[i as int] == args@[i as int]@);
        if has_project_extension(kind, &args[i].extension) && args[i].exists {
            return Some(args[i].path.clone());
        }
        i = i + 1;
    }
    None
}

// ---------------------------------------------------------------------------
// Windows: recent files
// ---------------------------------------------------------------------------

/// Eight hours in nanoseconds: a working session.
pub const SESSION_NANOS: i128 = 28_800_000_000_000;

/// A file of a folder with its modification time, in nanoseconds since 1970, where it
/// can be read.
#[derive(Debug)]
pub struct RecentFile {
    pub path: String,
    pub extension: Option<String>,
    pub mtime: Option<i128>,
}

/// What a `RecentFile` holds.
#[verifier::ext_equal]
pub struct RecentModel {
    pub path: Seq<char>,
    pub extension: Option<Seq<char>>,
    pub mtime: Option<i128>,
}

impl View for RecentFile {
    type V = RecentModel;

    open spec fn view(&self) -> RecentModel {
        RecentModel { path: self.path@, extension: opt_text(self.extension), mtime: self.mtime }
    }
}

/// What each file of a list holds.
pub open spec fn recent_models(list: Seq<RecentFile>) -> Seq<RecentModel> {
    list.map_values(|f: RecentFile| f@)
}

/// The time from which on a file is recent: a session ago. Where there is no such
/// time it is the beginning of 1970.
pub fn recent_cutoff(now: i128) -> (out: i128)
    ensures
        out == (if now - SESSION_NANOS >= i128::MIN {
            now - SESSION_NANOS
        } else {
            0
        }),
{
    if now >= i128::MIN + SESSION_NANOS {
        now - SESSION_NANOS
    } else {
        0
    }
}

/// The folders in which a DAW's projects are looked for, as the folder names below the
/// user's home. Logic does not run on Windows.
pub fn search_dirs(kind: DawKind) -> (out: Vec<Vec<&'static str>>)
    ensures
        out@.map_values(|d: Vec<&'static str>| d@.map_values(|s: &'static str| s@))
            == search_paths(kind),
{
    let mut out: Vec<Vec<&'static str>> = Vec::new();
    match kind {
        DawKind::Ableton => {
            out.push(folder3("Documents", "Ableton", "Projects"));
            out.push(folder2("Documents", "Ableton"));
            out.push(folder2("Music", "Ableton"));
        },
        DawKind::Reaper => {
            let mut docs: Vec<&'static str> = Vec::new();
            docs.push("Documents");
            assert(docs@.map_values(|s: &'static str| s@) =~= seq!["Documents"@]);
            out.push(docs);
        },
        DawKind::Bitwig => {
            out.push(folder3("Documents", "Bitwig Studio", "Projects"));
        },
        DawKind::StudioOne => {
            out.push(folder3("Documents", "Studio One", "Songs"));
        },
        DawKind::Logic => {},
    }
    assert(out@.map_values(|d: Vec<&'static str>| d@.map_values(|s: &'static str| s@))
        =~= search_paths(kind));
    out
}

/// A folder of a folder.
fn folder2(a: &'static str, b: &'static str) -> (out: Vec<&'static str>)
    ensures
        out@.map_values(|s: &'static str| s@) == seq![a@, b@],
{
    let mut out: Vec<&'static str> = Vec::new();
    out.push(a);
    out.push(b);
    assert(out@.map_values(|s: &'static str| s@) =~= seq![a@, b@]);
    out
}

/// A folder of a folder of a folder.
fn folder3(a: &'static str, b: &'static str, c: &'static str) -> (out: Vec<&'static str>)
    ensures
        out@.map_values(|s: &'static str| s@) == seq![a@, b@, c@],
{
    let mut out: Vec<&'static str> = Vec::new();
    out.push(a);
    out.push(b);
    out.push(c);
    assert(out@.map_values(|s: &'static str| s@) =~= seq![a@, b@, c@]);
    out
}

/// The folders in which a DAW's projects are looked for, as the folder names below the
/// user's home.
pub open spec fn search_paths(kind: DawKind) -> Seq<Seq<Seq<char>>> {
    match kind {
        DawKind::Ableton => seq![
            seq!["Documents"@, "Ableton"@, "Projects"@],
            seq!["Documents"@, "Ableton"@],
            seq!["Music"@, "Ableton"@],
        ],
        DawKind::Reaper => seq![seq!["Documents"@]],
        DawKind::Bitwig => seq![seq!["Documents"@, "Bitwig Studio"@, "Projects"@]],
        DawKind::StudioOne => seq![seq!["Documents"@, "Studio One"@, "Songs"@]],
        DawKind::Logic => Seq::empty(),
    }
}

/// The file is a project of the DAW that changed at or after `cutoff`.
pub open spec fn is_recent(kind: DawKind, f: RecentModel, cutoff: i128) -> bool {
    is_project_extension(kind, f.extension) && f.mtime is Some && f.mtime->0 >= cutoff
}

/// The index of the newest recent project of a folder. Of equally new ones the first
/// counts.
pub open spec fn newest(kind: DawKind, list: Seq<RecentModel>, cutoff: i128) -> Option<int>
    decreases list.len(),
{
    if list.len() == 0 {
        None
    } else {
        let before = newest(kind, list.drop_last(), cutoff);
        let f = list.last();
        if !is_recent(kind, f, cutoff) {
            before
        } else {
            match before {
                Some(k) => if list[k].mtime->0 < f.mtime->0 {
                    Some(list.len() - 1)
                } else {
                    before
                },
                None => Some(list.len() - 1),
            }
        }
    }
}

/// The newest recent project of the first folder, from index `i` on, that has one. A
/// folder that cannot be read has none.
pub open spec fn recent_from(
    kind: DawKind,
    dirs: Seq<Option<Vec<RecentFile>>>,
    cutoff: i128,
    i: int,
) -> Option<Seq<char>>
    decreases dirs.len() - i,
{
    if i >= dirs.len() {
        None
    } else {
        match dirs[i] {
            Some(list) => match newest(kind, recent_models(list@), cutoff) {
                Some(k) => Some(list@[k].path@),
                None => recent_from(kind, dirs, cutoff, i + 1),
            },
            None => recent_from(kind, dirs, cutoff, i + 1),
        }
    }
}

/// The newest recent project of a folder.
fn find_newest(kind: DawKind, list: &Vec<RecentFile>, cutoff: i128) -> (out: Option<usize>)
    ensures
        match out {
            Some(k) => newest(kind, recent_models(list@), cutoff) == Some(k as int) && k
                < list@.len(),
            None => newest(kind, recent_models(list@), cutoff) is None,
        },
{
    let ghost all = recent_models(list@);
    let mut best: Option<usize> = None;
    for i in 0..list.len()
        invariant
            all == recent_models(list@),
            match best {
                Some(k) => newest(kind, all.take(i as int), cutoff) == Some(k as int) && k < i
                    && is_recent(kind, all[k as int], cutoff),
                None => newest(kind, all.take(i as int), cutoff) is None,
            },
    {
        proof {
            let next = all.take(i + 1);
            assert(next.drop_last() =~= all.take(i as int));
            assert(next.last() == all[i as int]);
            assert(all[i as int] == list@[i as int]@);
        }
        if has_project_extension(kind, &list[i].extension) {
            if let Some(mtime) = list[i].mtime {
                if mtime >= cutoff {
                    let replaces = match best {
                        Some(k) => match list[k].mtime {
                            Some(t) => t < mtime,
                            None => false,
                        },
                        None => true,
                    };
                    proof {
                        if best is Some {
                            let k = best->0 as int;
                            assert(all[k] == list@[k]@);
                            assert(all.take(i + 1)[k] == all[k]);
                        }
                    }
                    if replaces {
                        best = Some(i);
                    }
                }
            }
        }
    }
    assert(all.take(all.len() as int) =~= all);
    best
}

/// The newest recent project of the first of the folders that has one.
pub fn find_via_recent_dirs(kind: DawKind, dirs: &Vec<Option<Vec<RecentFile>>>, cutoff: i128) -> (out:
    Option<String>)
    ensures
        opt_text(out) == recent_from(kind, dirs@, cutoff, 0),
{
    for i in 0..dirs.len()
        invariant
            recent_from(kind, dirs@, cutoff, 0) == recent_from(kind, dirs@, cutoff, i as int),
    {
        if let Some(list) = &dirs[i] {
            if let Some(k) = find_newest(kind, list, cutoff) {
                return Some(list[k].path.clone());
            }
        }
    }
    None
}

// ---------------------------------------------------------------------------
// Laws
// ---------------------------------------------------------------------------

/// The newest recent project is one, and no recent project of the folder is newer. A
/// folder has none only where no project in it is recent.
pub proof fn law_newest(kind: DawKind, list: Seq<RecentModel>, cutoff: i128)
    ensures
        match newest(kind, list, cutoff) {
            Some(k) => {
                &&& 0 <= k < list.len()
                &&& is_recent(kind, list[k], cutoff)
                &&& forall|j: int|
                    #![trigger list[j]]
                    0 <= j < list.len() && is_recent(kind, list[j], cutoff) ==> list[j].mtime->0
                        <= list[k].mtime->0
            },
            None => forall|j: int|
                #![trigger list[j]]
                0 <= j < list.len() ==> !is_recent(kind, list[j], cutoff),
        },
    decreases list.len(),
{
    if list.len() > 0 {
        let fewer = list.drop_last();
        law_newest(kind, fewer, cutoff);
        assert forall|j: int|
            #![trigger list[j]]
            0 <= j < fewer.len() implies list[j] == fewer[j] by {}
    }
}

/// A project that is found among open paths is one of them, or a folder that one of
/// them lies in, and it is there.
pub proof fn law_open_project_exists(kind: DawKind, list: Seq<OpenModel>)
    ensures
        match open_project(kind, list) {
            Some(path) => exists|i: int|
                0 <= i < list.len() && project_of_path(kind, #[trigger] list[i]) == Some(path),
            None => forall|i: int|
                0 <= i < list.len() ==> project_of_path(kind, #[trigger] list[i]) is None,
        },
    decreases list.len(),
{
    if list.len() > 0 {
        let fewer = list.drop_last();
        law_open_project_exists(kind, fewer);
        let last = list[list.len() - 1];
        assert(last == list.last());
        if project_of_path(kind, last) is None {
            match open_project(kind, fewer) {
                Some(path) => {
                    let i = choose|i: int|
                        0 <= i < fewer.len() && project_of_path(kind, #[trigger] fewer[i])
                            == Some(path);
                    assert(list[i] == fewer[i]);
                },
                None => {
                    assert forall|i: int| 0 <= i < list.len() implies project_of_path(
                        kind,
                        #[trigger] list[i],
                    ) is None by {
                        if i < fewer.len() {
                            assert(list[i] == fewer[i]);
                        }
                    }
                },
            }
        }
    }
}

} // verus!
