//! What holds of every search for an open project and of every step of the watcher.
use vstd::prelude::*;

use crate::daw_readers::{ableton, dawproject, logicpro, reaper};
use crate::selection::{chosen, is_selection, lemma_chosen};
use crate::text::{contains_text, lower, opt_text};
use crate::watcher::detect::{
    argument_from, is_project_extension, is_recent, law_newest, names_in, newest, open_project,
    package_from, project_of_path, recent_from, recent_models, search_paths, FactsModel, OpenModel,
    RecentFile, RecentModel, SESSION_NANOS,
};
use crate::watcher::hash::{
    by_name, bytes_before, listing_bytes, low_bytes, package_digest, sha256_digest, stamp_digest,
    stamp_models, PackageTimes, StampModel,
};
use crate::watcher::source::{
    ableton_message, dawproject_message, kind_of_source, logic_message, project_at, ProjectSource,
    SourceKind,
};
use crate::watcher::worker::{
    after_check, belongs_to, check_event, closed_events, due, due_parse, has_passed, lies_in,
    not_due, on_found, opening_events, path_from, pending_from, pid_from, process_daw, registered,
    root_from, still_live, with_pending, ActiveModel, FoundModel, PathModel, PendingModel,
    POLL_INTERVAL, POLL_STEP, RECHECK_INTERVAL, SETTLE_DELAY, TIMER_INTERVAL,
};
use crate::watcher::{daw_of, shows, DawKind, EventModel, ParsedModel};

verus! {

// ---------------------------------------------------------------------------
// The table of DAWs
// ---------------------------------------------------------------------------

/// The extension is that of a project file of the DAW.
pub open spec fn is_extension_of(kind: DawKind, e: Seq<char>) -> bool {
    match kind {
        DawKind::Ableton => e == "als"@ || e == "adg"@,
        DawKind::Logic => e == "logicx"@,
        DawKind::Reaper => e == "rpp"@ || e == "rpp-bak"@,
        DawKind::Bitwig => e == "bwproject"@ || e == "dawproject"@,
        DawKind::StudioOne => e == "song"@ || e == "dawproject"@,
    }
}

/// A text with a dot before it is another with a dot before it only where the two are
/// the same.
proof fn lemma_dotted(e: Seq<char>, f: Seq<char>, dotted: Seq<char>)
    requires
        dotted == "."@ + f,
    ensures
        "."@ + e == dotted <==> e == f,
{
    reveal_strlit(".");
    if "."@ + e == dotted {
        assert(("."@ + e).skip(1) =~= e);
        assert(dotted.skip(1) =~= f);
    }
}

/// Projects of Ableton Live have the extension `als`, or `adg` for a rack; those of Logic
/// `logicx`; of Reaper `rpp`, or `rpp-bak` for a backup; of Bitwig `bwproject`, of Studio
/// One `song`, and of both `dawproject`. No other file is a project, nor one without an
/// extension.
pub proof fn law_project_extension(kind: DawKind, e: Seq<char>)
    ensures
        is_project_extension(kind, Some(e)) <==> is_extension_of(kind, e),
        !is_project_extension(kind, None),
{
    reveal_strlit(".");
    reveal_strlit("als");
    reveal_strlit("adg");
    reveal_strlit("logicx");
    reveal_strlit("rpp");
    reveal_strlit("rpp-bak");
    reveal_strlit("bwproject");
    reveal_strlit("song");
    reveal_strlit("dawproject");
    reveal_strlit(".als");
    reveal_strlit(".adg");
    reveal_strlit(".logicx");
    reveal_strlit(".rpp");
    reveal_strlit(".rpp-bak");
    reveal_strlit(".bwproject");
    reveal_strlit(".song");
    reveal_strlit(".dawproject");
    assert(".als"@ =~= "."@ + "als"@);
    assert(".adg"@ =~= "."@ + "adg"@);
    assert(".logicx"@ =~= "."@ + "logicx"@);
    assert(".rpp"@ =~= "."@ + "rpp"@);
    assert(".rpp-bak"@ =~= "."@ + "rpp-bak"@);
    assert(".bwproject"@ =~= "."@ + "bwproject"@);
    assert(".song"@ =~= "."@ + "song"@);
    assert(".dawproject"@ =~= "."@ + "dawproject"@);
    lemma_dotted(e, "als"@, ".als"@);
    lemma_dotted(e, "adg"@, ".adg"@);
    lemma_dotted(e, "logicx"@, ".logicx"@);
    lemma_dotted(e, "rpp"@, ".rpp"@);
    lemma_dotted(e, "rpp-bak"@, ".rpp-bak"@);
    lemma_dotted(e, "bwproject"@, ".bwproject"@);
    lemma_dotted(e, "song"@, ".song"@);
    lemma_dotted(e, "dawproject"@, ".dawproject"@);
    let list = kind.extension_texts();
    let dotted = "."@ + e;
    match kind {
        DawKind::Logic => {
            assert(list[0] == ".logicx"@);
            assert(list.contains(dotted) <==> dotted == list[0]);
        },
        _ => {
            assert(list.len() == 2);
            assert(list.contains(dotted) <==> dotted == list[0] || dotted == list[1]) by {
                if dotted == list[0] {
                    assert(list[0] == dotted);
                }
                if dotted == list[1] {
                    assert(list[1] == dotted);
                }
            }
        },
    }
}

/// One of the texts stands in the name or in the path of the process.
pub open spec fn is_shown(n: Seq<char>, e: Seq<char>, text: Seq<char>) -> bool {
    contains_text(n, text) || contains_text(e, text)
}

/// A process runs Ableton Live where its name or its path holds `ableton` or `live`, in
/// any case; else Logic where it holds `logic`; else Reaper, Bitwig or Studio One.
pub proof fn law_process_daw(name: Seq<char>, exe: Seq<char>)
    ensures
        ({
            let n = lower(name);
            let e = lower(exe);
            let live = is_shown(n, e, "ableton"@) || is_shown(n, e, "live"@);
            let logic = is_shown(n, e, "logic"@) || is_shown(n, e, "logic pro"@);
            let reaper = is_shown(n, e, "reaper"@);
            let bitwig = is_shown(n, e, "bitwig"@);
            let studio = is_shown(n, e, "studio one"@);
            &&& daw_of(name, exe) == Some(DawKind::Ableton) <==> live
            &&& daw_of(name, exe) == Some(DawKind::Logic) <==> logic && !live
            &&& daw_of(name, exe) == Some(DawKind::Reaper) <==> reaper && !live && !logic
            &&& daw_of(name, exe) == Some(DawKind::Bitwig) <==> bitwig && !live && !logic && !reaper
            &&& daw_of(name, exe) == Some(DawKind::StudioOne) <==> studio && !live && !logic
                && !reaper && !bitwig
            &&& process_daw(name, Some(exe)) == daw_of(name, e)
            &&& process_daw(name, None) == daw_of(name, lower(""@))
        }),
{
    let n = lower(name);
    let e = lower(exe);
    lemma_shows(DawKind::Ableton, n, e, "ableton"@, "live"@);
    lemma_shows(DawKind::Logic, n, e, "logic pro"@, "logic"@);
    lemma_shows(DawKind::Reaper, n, e, "reaper"@, "reaper"@);
    lemma_shows(DawKind::Bitwig, n, e, "bitwig"@, "bitwig"@);
    lemma_shows(DawKind::StudioOne, n, e, "studio one"@, "studio one"@);
}

proof fn lemma_shows(kind: DawKind, n: Seq<char>, e: Seq<char>, a: Seq<char>, b: Seq<char>)
    requires
        kind.fragments() == seq![a, b] || (a == b && kind.fragments() == seq![a]),
    ensures
        shows(kind, n, e) <==> is_shown(n, e, a) || is_shown(n, e, b),
{
    let fs = kind.fragments();
    assert(fs[0] == a);
    assert(fs[fs.len() - 1] == b);
    if shows(kind, n, e) {
        let i = choose|i: int|
            0 <= i < fs.len() && (contains_text(n, #[trigger] fs[i]) || contains_text(e, fs[i]));
        assert(i == 0 || i == fs.len() - 1);
    }
}

/// On Windows the projects of Ableton Live are looked for in three folders of the user,
/// those of Reaper, Bitwig and Studio One in one, and those of Logic nowhere.
pub proof fn law_search_paths()
    ensures
        search_paths(DawKind::Ableton).len() == 3,
        search_paths(DawKind::Ableton)[0] == seq!["Documents"@, "Ableton"@, "Projects"@],
        search_paths(DawKind::Ableton)[1] == seq!["Documents"@, "Ableton"@],
        search_paths(DawKind::Ableton)[2] == seq!["Music"@, "Ableton"@],
        search_paths(DawKind::Reaper) == seq![seq!["Documents"@]],
        search_paths(DawKind::Bitwig) == seq![seq!["Documents"@, "Bitwig Studio"@, "Projects"@]],
        search_paths(DawKind::StudioOne) == seq![seq!["Documents"@, "Studio One"@, "Songs"@]],
        search_paths(DawKind::Logic).len() == 0,
{
}

// ---------------------------------------------------------------------------
// Open projects
// ---------------------------------------------------------------------------

/// The path is there, and its extension is that of a project of the DAW.
pub open spec fn is_project_file(kind: DawKind, p: FactsModel) -> bool {
    p.exists && p.extension is Some && is_extension_of(kind, p.extension->Some_0)
}

/// The folder is a Logic package that is there.
pub open spec fn is_package(p: FactsModel) -> bool {
    p.exists && p.extension == Some("logicx"@)
}

/// The open path is that of no project, and lies in none.
pub open spec fn is_no_project(kind: DawKind, p: OpenModel) -> bool {
    &&& !is_project_file(kind, p.file)
    &&& kind == DawKind::Logic ==> forall|i: int|
        0 <= i < p.ancestors.len() ==> !is_package(#[trigger] p.ancestors[i])
}

proof fn lemma_package_from(list: Seq<FactsModel>, i: int) -> (k: int)
    requires
        0 <= i <= list.len(),
    ensures
        match package_from(list, i) {
            Some(path) => i <= k < list.len() && is_package(list[k]) && path == list[k].path
                && forall|j: int| i <= j < k ==> !is_package(#[trigger] list[j]),
            None => forall|j: int| i <= j < list.len() ==> !is_package(#[trigger] list[j]),
        },
    decreases list.len() - i,
{
    if i < list.len() && !is_package(list[i]) {
        lemma_package_from(list, i + 1)
    } else {
        i
    }
}

/// The project of an open path is the path itself, where that is a project file that is
/// there. For Logic it is else the innermost package that the path lies in.
pub proof fn law_project_of_path(kind: DawKind, p: OpenModel) -> (k: int)
    ensures
        is_project_file(kind, p.file) ==> project_of_path(kind, p) == Some(p.file.path),
        is_no_project(kind, p) ==> project_of_path(kind, p) is None,
        !is_project_file(kind, p.file) && kind == DawKind::Logic ==> match project_of_path(kind, p) {
            Some(path) => 0 <= k < p.ancestors.len() && is_package(p.ancestors[k]) && path
                == p.ancestors[k].path && forall|j: int|
                0 <= j < k ==> !is_package(#[trigger] p.ancestors[j]),
            None => is_no_project(kind, p),
        },
        !is_project_file(kind, p.file) && kind != DawKind::Logic ==> project_of_path(kind, p)
            is None,
{
    law_project_extension(
        kind,
        match p.file.extension {
            Some(e) => e,
            None => Seq::empty(),
        },
    );
    lemma_package_from(p.ancestors, 0)
}

/// The project of a running DAW is that of the last of its open paths that has one: a
/// project file that is there is found wherever it stands in the list, unless a later
/// path has a project too.
pub proof fn law_open_project(kind: DawKind, before: Seq<OpenModel>, p: OpenModel, behind: Seq<OpenModel>)
    requires
        forall|i: int| 0 <= i < behind.len() ==> is_no_project(kind, #[trigger] behind[i]),
    ensures
        is_project_file(kind, p.file) ==> open_project(kind, before + seq![p] + behind) == Some(
            p.file.path,
        ),
        project_of_path(kind, p) is Some ==> open_project(kind, before + seq![p] + behind)
            == project_of_path(kind, p),
        is_no_project(kind, p) ==> open_project(kind, before + seq![p] + behind) == open_project(
            kind,
            before,
        ),
    decreases behind.len(),
{
    let all = before + seq![p] + behind;
    law_project_of_path(kind, p);
    if behind.len() == 0 {
        assert(all.last() == p);
        assert(all.drop_last() =~= before);
    } else {
        let last = behind[behind.len() - 1];
        assert(is_no_project(kind, last));
        law_project_of_path(kind, last);
        assert(all.last() == last);
        let fewer = behind.drop_last();
        assert forall|i: int| 0 <= i < fewer.len() implies is_no_project(
            kind,
            #[trigger] fewer[i],
        ) by {
            assert(fewer[i] == behind[i]);
        }
        law_open_project(kind, before, p, fewer);
        assert(all.drop_last() =~= before + seq![p] + fewer);
    }
}

/// Without a path that has one there is no project.
pub proof fn law_no_open_project(kind: DawKind, list: Seq<OpenModel>)
    requires
        forall|i: int| 0 <= i < list.len() ==> is_no_project(kind, #[trigger] list[i]),
    ensures
        open_project(kind, list) is None,
    decreases list.len(),
{
    if list.len() > 0 {
        assert(is_no_project(kind, list[list.len() - 1]));
        law_project_of_path(kind, list[list.len() - 1]);
        let fewer = list.drop_last();
        assert forall|i: int| 0 <= i < fewer.len() implies is_no_project(
            kind,
            #[trigger] fewer[i],
        ) by {
            assert(fewer[i] == list[i]);
        }
        law_no_open_project(kind, fewer);
    }
}

/// A listing gives the names of the lines that begin with an `n`, without that letter, in
/// order.
pub proof fn law_listed_names(list: Seq<Seq<char>>) -> (at: Seq<int>)
    ensures
        is_selection(at, list.len() as int, |i: int| list[i].len() > 0 && list[i][0] == 'n'),
        names_in(list).len() == at.len(),
        forall|k: int|
            0 <= k < at.len() ==> seq!['n'] + #[trigger] names_in(list)[k] == list[at[k]],
{
    let n = list.len() as int;
    let keep = |i: int| list[i].len() > 0 && list[i][0] == 'n';
    lemma_chosen(n, keep);
    lemma_names_in(list, n);
    assert(list.take(n) =~= list);
    let at = chosen(n, keep);
    assert forall|k: int| 0 <= k < at.len() implies seq!['n'] + #[trigger] names_in(list)[k]
        == list[at[k]] by {
        assert(keep(at[k]));
        assert(seq!['n'] + list[at[k]].skip(1) =~= list[at[k]]);
    }
    at
}

proof fn lemma_names_in(list: Seq<Seq<char>>, n: int)
    requires
        0 <= n <= list.len(),
    ensures
        ({
            let at = chosen(n, |i: int| list[i].len() > 0 && list[i][0] == 'n');
            let found = names_in(list.take(n));
            &&& found.len() == at.len()
            &&& forall|k: int| 0 <= k < at.len() ==> #[trigger] found[k] == list[at[k]].skip(1)
        }),
    decreases n,
{
    let keep = |i: int| list[i].len() > 0 && list[i][0] == 'n';
    if n > 0 {
        lemma_names_in(list, n - 1);
        let part = list.take(n);
        assert(part.drop_last() =~= list.take(n - 1));
        assert(part.last() == list[n - 1]);
        assert(keep(n - 1) == (list[n - 1].len() > 0 && list[n - 1][0] == 'n'));
    }
}

proof fn lemma_argument_from(kind: DawKind, args: Seq<FactsModel>, i: int) -> (k: int)
    requires
        0 <= i,
    ensures
        match argument_from(kind, args, i) {
            Some(path) => i <= k < args.len() && is_project_file(kind, args[k]) && path
                == args[k].path && forall|j: int|
                i <= j < k ==> !is_project_file(kind, #[trigger] args[j]),
            None => forall|j: int|
                i <= j < args.len() ==> !is_project_file(kind, #[trigger] args[j]),
        },
    decreases args.len() - i,
{
    if i < args.len() {
        law_project_extension(
            kind,
            match args[i].extension {
                Some(e) => e,
                None => Seq::empty(),
            },
        );
        if !is_project_file(kind, args[i]) {
            lemma_argument_from(kind, args, i + 1)
        } else {
            i
        }
    } else {
        i
    }
}

/// On the command line of a DAW the first argument that is a project file is its project,
/// the program's own path aside.
pub proof fn law_argument(kind: DawKind, args: Seq<FactsModel>) -> (k: int)
    ensures
        match argument_from(kind, args, 1) {
            Some(path) => 1 <= k < args.len() && is_project_file(kind, args[k]) && path
                == args[k].path && forall|j: int|
                1 <= j < k ==> !is_project_file(kind, #[trigger] args[j]),
            None => forall|j: int|
                1 <= j < args.len() ==> !is_project_file(kind, #[trigger] args[j]),
        },
{
    lemma_argument_from(kind, args, 1)
}

/// The file is a project of the DAW that changed at the given time or later.
pub open spec fn changed_since(kind: DawKind, f: RecentModel, cutoff: i128) -> bool {
    &&& f.extension is Some
    &&& is_extension_of(kind, f.extension->Some_0)
    &&& f.mtime is Some
    &&& f.mtime->Some_0 >= cutoff
}

/// The newest file of a folder is a project that changed in time, and none that did is
/// newer. There is none only where none did.
pub proof fn law_newest_file(kind: DawKind, list: Seq<RecentModel>, cutoff: i128)
    ensures
        match newest(kind, list, cutoff) {
            Some(k) => 0 <= k < list.len() && changed_since(kind, list[k], cutoff) && forall|j: int|
                0 <= j < list.len() && changed_since(kind, #[trigger] list[j], cutoff)
                    ==> list[j].mtime->Some_0 <= list[k].mtime->Some_0,
            None => forall|j: int|
                0 <= j < list.len() ==> !changed_since(kind, #[trigger] list[j], cutoff),
        },
{
    law_newest(kind, list, cutoff);
    assert forall|j: int| 0 <= j < list.len() implies is_recent(kind, #[trigger] list[j], cutoff)
        == changed_since(kind, list[j], cutoff) by {
        law_project_extension(
            kind,
            match list[j].extension {
                Some(e) => e,
                None => Seq::empty(),
            },
        );
    }
}

/// The folder holds a project that changed in time.
pub open spec fn has_recent(
    kind: DawKind,
    dir: Option<Vec<RecentFile>>,
    cutoff: i128,
) -> bool {
    match dir {
        Some(list) => exists|j: int|
            0 <= j < list@.len() && changed_since(kind, #[trigger] recent_models(list@)[j], cutoff),
        None => false,
    }
}

/// The project that is found in folders is in the first of them that holds one that
/// changed in time, and is the newest there.
pub proof fn law_recent(
    kind: DawKind,
    dirs: Seq<Option<Vec<RecentFile>>>,
    cutoff: i128,
    i: int,
) -> (k: int)
    requires
        0 <= i <= dirs.len(),
    ensures
        match recent_from(kind, dirs, cutoff, i) {
            Some(path) => {
                &&& i <= k < dirs.len()
                &&& dirs[k] is Some
                &&& newest(kind, recent_models(dirs[k]->Some_0@), cutoff) matches Some(j)
                    && dirs[k]->Some_0@[j].path@ == path
                &&& forall|j: int| i <= j < k ==> !has_recent(kind, #[trigger] dirs[j], cutoff)
            },
            None => forall|j: int|
                i <= j < dirs.len() ==> !has_recent(kind, #[trigger] dirs[j], cutoff),
        },
    decreases dirs.len() - i,
{
    if i < dirs.len() {
        let found = match dirs[i] {
            Some(list) => newest(kind, recent_models(list@), cutoff),
            None => None,
        };
        if dirs[i] is Some {
            law_newest_file(kind, recent_models(dirs[i]->Some_0@), cutoff);
        }
        if found is Some {
            i
        } else {
            assert(!has_recent(kind, dirs[i], cutoff));
            law_recent(kind, dirs, cutoff, i + 1)
        }
    } else {
        i
    }
}

// ---------------------------------------------------------------------------
// Times
// ---------------------------------------------------------------------------

/// Processes are polled every two seconds, tracked ones looked at again every ten, and
/// all projects hashed every minute. A change settles in three tenths of a second, and a
/// wait for the next lasts a twentieth at most. A project of a session is eight hours old
/// at most.
pub proof fn law_times(last: u64, now: u64)
    ensures
        has_passed(last, RECHECK_INTERVAL, now) <==> now - last >= 10 * 1_000_000_000,
        has_passed(last, TIMER_INTERVAL, now) <==> now - last >= 60 * 1_000_000_000,
        POLL_INTERVAL == 2 * 1_000_000_000,
        SETTLE_DELAY == 300 * 1_000_000,
        POLL_STEP == 50 * 1_000_000,
        SESSION_NANOS == 8 * 3600 * 1_000_000_000,
{
}

// ---------------------------------------------------------------------------
// Digests
// ---------------------------------------------------------------------------

/// The digest of a package is that of the time and the path of the first of its data
/// files that is there. Without one it is that of the folder's listing, and a folder that
/// cannot be listed has none.
pub proof fn law_package_digest(p: PackageTimes)
    ensures
        p.modern@.nanos is Some ==> package_digest(p) == stamp_digest(p.modern@),
        p.modern@.nanos is None && p.upper@.nanos is Some ==> package_digest(p) == stamp_digest(
            p.upper@,
        ),
        p.modern@.nanos is None && p.upper@.nanos is None && p.lower@.nanos is Some
            ==> package_digest(p) == stamp_digest(p.lower@),
        p.modern@.nanos is None && p.upper@.nanos is None && p.lower@.nanos is None ==> match p.root {
            Some(list) => package_digest(p) == Some(
                sha256_digest(listing_bytes(by_name(stamp_models(list@)))),
            ),
            None => package_digest(p) is None,
        },
{
}

/// What is hashed of a file is its time in sixteen bytes, lowest first, and its path.
pub proof fn law_stamp(f: StampModel, n: u128)
    ensures
        f.nanos == Some(n) ==> stamp_digest(f) == Some(
            sha256_digest(low_bytes(n as nat, 16) + f.name),
        ),
        f.nanos is None ==> stamp_digest(f) is None,
        low_bytes(n as nat, 16).len() == 16,
        low_bytes(n as nat, 16)[0] == n % 256,
        low_bytes(n as nat, 16)[1] == n / 256 % 256,
{
    reveal_with_fuel(low_bytes, 17);
}

/// What is hashed of a listing is the time of each file that has one, and its name, in
/// order.
pub proof fn law_listing(list: Seq<StampModel>, f: StampModel)
    ensures
        listing_bytes(Seq::empty()).len() == 0,
        f.nanos matches Some(n) ==> listing_bytes(list.push(f)) == listing_bytes(list)
            + low_bytes(n as nat, 16) + f.name,
        f.nanos is None ==> listing_bytes(list.push(f)) == listing_bytes(list) + f.name,
{
    assert(list.push(f).drop_last() =~= list);
}

// ---------------------------------------------------------------------------
// Content
// ---------------------------------------------------------------------------

/// Each DAW's projects are read with its own reader. Those of Bitwig and Studio One are
/// read where they are DAWproject files, and else only named.
pub proof fn law_source_kind(daw: DawKind, extension: Option<Seq<char>>)
    ensures
        kind_of_source(daw, extension) == SourceKind::Ableton <==> daw == DawKind::Ableton,
        kind_of_source(daw, extension) == SourceKind::Logic <==> daw == DawKind::Logic,
        kind_of_source(daw, extension) == SourceKind::Reaper <==> daw == DawKind::Reaper,
        kind_of_source(daw, extension) == SourceKind::DawProject <==> (daw == DawKind::Bitwig || daw
            == DawKind::StudioOne) && extension is Some && lower(extension->Some_0)
            == "dawproject"@,
{
}

/// What was read of a file is the project that its reader finds in it, and what the
/// reader reports of it is an error.
pub proof fn law_project_at(path: Seq<char>, source: ProjectSource)
    ensures
        source matches ProjectSource::Ableton { extension, data } ==> match data {
            Ok(b) => match ableton::ableton_file(opt_text(extension), path, b@) {
                Ok(f) => project_at(path, source) == Ok::<ParsedModel, Seq<char>>(
                    ParsedModel::Ableton(f),
                ),
                Err(_) => project_at(path, source) is Err,
            },
            Err(_) => project_at(path, source) is Err,
        },
        source matches ProjectSource::Logic(p) ==> match logicpro::package_project(p) {
            Ok(f) => project_at(path, source) == Ok::<ParsedModel, Seq<char>>(
                ParsedModel::Logic(f),
            ),
            Err(_) => project_at(path, source) is Err,
        },
        source matches ProjectSource::Reaper(data) ==> match data {
            Ok(b) => if vstd::utf8::valid_utf8(b@) {
                match reaper::project_of(vstd::utf8::decode_utf8(b@)) {
                    Some(f) => project_at(path, source) == Ok::<ParsedModel, Seq<char>>(
                        ParsedModel::Reaper(f),
                    ),
                    None => project_at(path, source) is Err,
                }
            } else {
                project_at(path, source) is Err
            },
            Err(_) => project_at(path, source) is Err,
        },
        source matches ProjectSource::DawProject(data) ==> match data {
            Ok(b) => match dawproject::archive_project(b@) {
                Ok(f) => project_at(path, source) == Ok::<ParsedModel, Seq<char>>(
                    ParsedModel::DawProject(f),
                ),
                Err(_) => project_at(path, source) is Err,
            },
            Err(_) => project_at(path, source) is Err,
        },
        source matches ProjectSource::Unrecognized(daw) ==> project_at(path, source) == Ok::<
            ParsedModel,
            Seq<char>,
        >(ParsedModel::Unrecognized { daw, path }),
{
}

/// The message of an error says what failed, and then why.
pub proof fn law_messages(
    a: ableton::ErrorModel,
    l: logicpro::ErrorModel,
    d: dawproject::ErrorModel,
)
    ensures
        match a {
            ableton::ErrorModel::Io(t) => ableton_message(a) == "I/O error: "@ + t,
            ableton::ErrorModel::Xml(t) => ableton_message(a) == "XML error: "@ + t,
            ableton::ErrorModel::Format(t) => ableton_message(a) == "Format error: "@ + t,
        },
        match l {
            logicpro::ErrorModel::NotAPackage(p) => logic_message(l)
                == "path is not a .logicx package directory: "@ + p,
            logicpro::ErrorModel::ProjectDataNotFound(p) => logic_message(l)
                == "project data not found; expected at "@ + p,
            logicpro::ErrorModel::Io(t) => logic_message(l) == "I/O error: "@ + t,
            logicpro::ErrorModel::Plist(t) => logic_message(l) == "plist parse error: "@ + t,
        },
        match d {
            dawproject::ErrorModel::Io(t) => dawproject_message(d) == "I/O error: "@ + t,
            dawproject::ErrorModel::Zip(t) => dawproject_message(d) == "ZIP error: "@ + t,
            dawproject::ErrorModel::Xml(t) => dawproject_message(d) == "XML error: "@ + t,
            dawproject::ErrorModel::Format(t) => dawproject_message(d) == "Format error: "@ + t,
        },
{
}

/// A file that cannot be read, or that its reader refuses, is told with the message of the
/// error.
pub proof fn law_errors(path: Seq<char>, source: ProjectSource)
    ensures
        source matches ProjectSource::Ableton { extension, data } ==> {
            &&& data matches Ok(b) ==> (ableton::ableton_file(opt_text(extension), path, b@)
                matches Err(e) ==> project_at(path, source) == Err::<ParsedModel, Seq<char>>(
                ableton_message(e),
            ))
            &&& data matches Err(e) ==> {
                let known = opt_text(extension) == Some("als"@) || opt_text(extension) == Some(
                    "adg"@,
                );
                &&& known ==> project_at(path, source) == Err::<ParsedModel, Seq<char>>(
                    "I/O error: "@ + e@,
                )
                &&& !known ==> project_at(path, source) == Err::<ParsedModel, Seq<char>>(
                    "Format error: "@ + ("Unsupported extension: "@ + path),
                )
            }
        },
        source matches ProjectSource::Logic(p) ==> (logicpro::package_project(p) matches Err(e)
            ==> project_at(path, source) == Err::<ParsedModel, Seq<char>>(logic_message(e))),
        source matches ProjectSource::Reaper(data) ==> {
            &&& data matches Err(e) ==> project_at(path, source) == Err::<ParsedModel, Seq<char>>(
                "I/O error: "@ + e@,
            )
            &&& data matches Ok(b) ==> (!vstd::utf8::valid_utf8(b@) ==> project_at(path, source)
                == Err::<ParsedModel, Seq<char>>(
                "I/O error: "@ + "stream did not contain valid UTF-8"@,
            ))
            &&& data matches Ok(b) ==> (vstd::utf8::valid_utf8(b@) && reaper::project_of(
                vstd::utf8::decode_utf8(b@),
            ) is None ==> project_at(path, source) == Err::<ParsedModel, Seq<char>>(
                "Format error: "@ + "REAPER_PROJECT block not found"@,
            ))
        },
        source matches ProjectSource::DawProject(data) ==> {
            &&& data matches Err(e) ==> project_at(path, source) == Err::<ParsedModel, Seq<char>>(
                "I/O error: "@ + e@,
            )
            &&& data matches Ok(b) ==> (dawproject::archive_project(b@) matches Err(e)
                ==> project_at(path, source) == Err::<ParsedModel, Seq<char>>(
                dawproject_message(e),
            ))
        },
{
}

// ---------------------------------------------------------------------------
// Tracked projects
// ---------------------------------------------------------------------------

/// The project at `k` is the first of the list at the path.
pub open spec fn is_at_path(list: Seq<ActiveModel>, parts: Seq<Seq<char>>, k: int) -> bool {
    &&& 0 <= k < list.len()
    &&& list[k].path.parts == parts
    &&& forall|j: int| 0 <= j < k ==> (#[trigger] list[j]).path.parts != parts
}

proof fn lemma_path_index(list: Seq<ActiveModel>, parts: Seq<Seq<char>>, i: int, k: int)
    requires
        0 <= i <= k,
        is_at_path(list, parts, k),
    ensures
        path_from(list, parts, i) == Some(k),
    decreases k - i,
{
    if i < k {
        lemma_path_index(list, parts, i + 1, k);
    }
}

proof fn lemma_no_path(list: Seq<ActiveModel>, parts: Seq<Seq<char>>, i: int)
    requires
        0 <= i,
        forall|j: int| 0 <= j < list.len() ==> (#[trigger] list[j]).path.parts != parts,
    ensures
        path_from(list, parts, i) is None,
    decreases list.len() - i,
{
    if i < list.len() {
        lemma_no_path(list, parts, i + 1);
    }
}

/// A project whose content differs from what was last parsed is due. Where it is then
/// parsed, its new content is told and remembered; where that fails, the error is told
/// and nothing is remembered. Content that is the same is neither parsed nor told.
pub proof fn law_check(
    list: Seq<ActiveModel>,
    path: PathModel,
    hash: Option<Seq<u8>>,
    result: Result<ParsedModel, Seq<char>>,
    k: int,
)
    requires
        is_at_path(list, path.parts, k),
    ensures
        list[k].last_hash == hash ==> due_parse(list, path, hash) is None && check_event(
            list,
            path,
            hash,
            result,
        ) is None && after_check(list, path, hash, result) == list,
        list[k].last_hash != hash ==> due_parse(list, path, hash) == Some(list[k].daw),
        list[k].last_hash != hash ==> match result {
            Ok(parsed) => {
                &&& check_event(list, path, hash, result) == Some(
                    EventModel::ProjectChanged { parsed },
                )
                &&& after_check(list, path, hash, result).len() == list.len()
                &&& after_check(list, path, hash, result)[k].last_hash == hash
                &&& after_check(list, path, hash, result)[k].path == list[k].path
                &&& after_check(list, path, hash, result)[k].daw == list[k].daw
                &&& after_check(list, path, hash, result)[k].pid == list[k].pid
                &&& after_check(list, path, hash, result)[k].is_directory == list[k].is_directory
                &&& forall|j: int|
                    0 <= j < list.len() && j != k ==> #[trigger] after_check(
                        list,
                        path,
                        hash,
                        result,
                    )[j] == list[j]
            },
            Err(error) => {
                &&& check_event(list, path, hash, result) == Some(
                    EventModel::ParseError { path: path.text, error },
                )
                &&& after_check(list, path, hash, result) == list
            },
        },
{
    lemma_path_index(list, path.parts, 0, k);
}

/// A path at which no project is open is not looked at.
pub proof fn law_check_of_no_project(
    list: Seq<ActiveModel>,
    path: PathModel,
    hash: Option<Seq<u8>>,
    result: Result<ParsedModel, Seq<char>>,
)
    requires
        forall|j: int| 0 <= j < list.len() ==> (#[trigger] list[j]).path.parts != path.parts,
    ensures
        due_parse(list, path, hash) is None,
        check_event(list, path, hash, result) is None,
        after_check(list, path, hash, result) == list,
{
    lemma_no_path(list, path.parts, 0);
}

/// A project that is new is said to be open, then what its first parse came to. Where it
/// cannot be watched, that is said first.
pub proof fn law_opening(
    path: PathModel,
    daw: DawKind,
    watch_error: Option<Seq<char>>,
    result: Result<ParsedModel, Seq<char>>,
)
    ensures
        ({
            let events = opening_events(path, daw, watch_error, result);
            let n = events.len() as int;
            &&& n == (if watch_error is Some {
                3int
            } else {
                2int
            })
            &&& events[n - 2] == (EventModel::ProjectOpened { path: path.text, daw })
            &&& watch_error matches Some(e) ==> events[0] == (EventModel::ParseError {
                path: path.text,
                error: "notify watch failed (continuing without live updates): "@ + e,
            })
            &&& match result {
                Ok(parsed) => events[n - 1] == (EventModel::ProjectChanged { parsed }),
                Err(e) => events[n - 1] == (EventModel::ParseError {
                    path: path.text,
                    error: "initial parse failed: "@ + e,
                }),
            }
        }),
{
}

/// A project is tracked under its process, path and DAW. Its content counts as parsed
/// only where it was.
pub proof fn law_tracked(
    pid: u32,
    path: PathModel,
    daw: DawKind,
    is_directory: bool,
    hash: Option<Seq<u8>>,
    result: Result<ParsedModel, Seq<char>>,
)
    ensures
        ({
            let p = registered(pid, path, daw, is_directory, hash, result);
            &&& p.pid == pid
            &&& p.path == path
            &&& p.daw == daw
            &&& p.is_directory == is_directory
            &&& result is Ok ==> p.last_hash == hash
            &&& result is Err ==> p.last_hash is None
        }),
{
}

/// The open project of a process is new where the process has none, kept where it is the
/// same, and else takes the place of the one that was open, which is said to be closed.
pub proof fn law_found(list: Seq<ActiveModel>, pid: u32, daw: DawKind, path: PathModel, k: int)
    requires
        0 <= k < list.len() ==> list[k].pid == pid,
        forall|j: int| 0 <= j < list.len() && j != k ==> (#[trigger] list[j]).pid != pid,
    ensures
        !(0 <= k < list.len()) ==> on_found(list, pid, daw, path) is Register,
        0 <= k < list.len() && list[k].path.parts == path.parts ==> on_found(list, pid, daw, path)
            is Keep,
        0 <= k < list.len() && list[k].path.parts != path.parts ==> on_found(list, pid, daw, path)
            == (FoundModel::Switch {
            old_path: list[k].path.text,
            closed: EventModel::ProjectClosed { path: list[k].path.text, daw },
        }),
{
    lemma_pid(list, pid, 0, k);
}

proof fn lemma_pid(list: Seq<ActiveModel>, pid: u32, i: int, k: int)
    requires
        0 <= i,
        0 <= k < list.len() ==> list[k].pid == pid && i <= k,
        forall|j: int| 0 <= j < list.len() && j != k ==> (#[trigger] list[j]).pid != pid,
    ensures
        0 <= k < list.len() ==> pid_from(list, pid, i) == Some(k),
        !(0 <= k < list.len()) ==> pid_from(list, pid, i) is None,
    decreases list.len() - i,
{
    if i < list.len() && i != k {
        assert(list[i].pid != pid);
        lemma_pid(list, pid, i + 1, k);
    }
}

/// A changed path belongs to the first project that it is, or whose package it lies in.
pub proof fn law_root(list: Seq<ActiveModel>, path: PathModel, i: int) -> (k: int)
    requires
        0 <= i <= list.len(),
    ensures
        match root_from(list, path, i) {
            Some(root) => i <= k < list.len() && root == list[k].path && concerns(path, list[k])
                && forall|j: int| i <= j < k ==> !concerns(path, #[trigger] list[j]),
            None => forall|j: int| i <= j < list.len() ==> !concerns(path, #[trigger] list[j]),
        },
    decreases list.len() - i,
{
    if i < list.len() {
        lemma_concerns(path, list[i]);
        if !concerns(path, list[i]) {
            law_root(list, path, i + 1)
        } else {
            i
        }
    } else {
        i
    }
}

/// The changed path is the project, or lies in it where the project is a package: its
/// components begin with those of the package.
pub open spec fn concerns(path: PathModel, p: ActiveModel) -> bool {
    if p.is_directory {
        p.path.parts.len() <= path.parts.len() && forall|i: int|
            0 <= i < p.path.parts.len() ==> path.parts[i] == #[trigger] p.path.parts[i]
    } else {
        path.parts == p.path.parts
    }
}

proof fn lemma_concerns(path: PathModel, p: ActiveModel)
    ensures
        belongs_to(path, p) == concerns(path, p),
{
    let a = p.path.parts;
    let b = path.parts;
    if p.is_directory {
        if lies_in(path, p.path) {
            assert forall|i: int| 0 <= i < a.len() implies b[i] == #[trigger] a[i] by {
                assert(b.subrange(0, a.len() as int)[i] == b[i]);
            }
        }
        if concerns(path, p) {
            assert(b.subrange(0, a.len() as int) =~= a);
        }
    }
}

// ---------------------------------------------------------------------------
// Waiting
// ---------------------------------------------------------------------------

/// A path that waits at `k`, and at no earlier place, waits on with the new deadline.
/// Nothing else changes.
pub proof fn law_waits_on(list: Seq<PendingModel>, path: PathModel, deadline: u64, k: int)
    requires
        0 <= k < list.len(),
        list[k].path.parts == path.parts,
        forall|j: int| 0 <= j < k ==> (#[trigger] list[j]).path.parts != path.parts,
    ensures
        ({
            let now = with_pending(list, path, deadline);
            &&& now.len() == list.len()
            &&& now[k].path == list[k].path
            &&& now[k].deadline == deadline
            &&& forall|j: int| 0 <= j < list.len() && j != k ==> #[trigger] now[j] == list[j]
        }),
{
    lemma_pending(list, path.parts, 0, k);
}

/// A path that does not wait is put behind those that do.
pub proof fn law_begins_to_wait(list: Seq<PendingModel>, path: PathModel, deadline: u64)
    requires
        forall|j: int| 0 <= j < list.len() ==> (#[trigger] list[j]).path.parts != path.parts,
    ensures
        ({
            let now = with_pending(list, path, deadline);
            &&& now.len() == list.len() + 1
            &&& now[list.len() as int].path == path
            &&& now[list.len() as int].deadline == deadline
            &&& forall|j: int| 0 <= j < list.len() ==> #[trigger] now[j] == list[j]
        }),
{
    lemma_pending(list, path.parts, 0, list.len() as int);
}

proof fn lemma_pending(list: Seq<PendingModel>, parts: Seq<Seq<char>>, i: int, k: int)
    requires
        0 <= i <= k <= list.len(),
        k < list.len() ==> list[k].path.parts == parts,
        forall|j: int| 0 <= j < k ==> (#[trigger] list[j]).path.parts != parts,
    ensures
        k < list.len() ==> pending_from(list, parts, i) == Some(k),
        k == list.len() ==> pending_from(list, parts, i) is None,
    decreases k - i,
{
    if i < k {
        assert(list[i].path.parts != parts);
        lemma_pending(list, parts, i + 1, k);
    }
}

/// The paths that are looked at are those whose deadline has come, all of them, in order.
/// The others wait on as they did.
pub proof fn law_due(list: Seq<PendingModel>, now: u64) -> (at: (Seq<int>, Seq<int>))
    ensures
        is_selection(at.0, list.len() as int, |i: int| list[i].deadline <= now),
        is_selection(at.1, list.len() as int, |i: int| list[i].deadline > now),
        due(list, now).len() == at.0.len(),
        not_due(list, now).len() == at.1.len(),
        forall|k: int| 0 <= k < at.0.len() ==> #[trigger] due(list, now)[k] == list[at.0[k]].path,
        forall|k: int| 0 <= k < at.1.len() ==> #[trigger] not_due(list, now)[k] == list[at.1[k]],
{
    let n = list.len() as int;
    let come = |i: int| list[i].deadline <= now;
    let not_come = |i: int| list[i].deadline > now;
    lemma_chosen(n, come);
    lemma_chosen(n, not_come);
    lemma_due(list, now, n);
    assert(list.take(n) =~= list);
    (chosen(n, come), chosen(n, not_come))
}

proof fn lemma_due(list: Seq<PendingModel>, now: u64, n: int)
    requires
        0 <= n <= list.len(),
    ensures
        ({
            let part = list.take(n);
            let come = chosen(n, |i: int| list[i].deadline <= now);
            let not_come = chosen(n, |i: int| list[i].deadline > now);
            &&& due(part, now).len() == come.len()
            &&& not_due(part, now).len() == not_come.len()
            &&& forall|k: int|
                0 <= k < come.len() ==> #[trigger] due(part, now)[k] == list[come[k]].path
            &&& forall|k: int|
                0 <= k < not_come.len() ==> #[trigger] not_due(part, now)[k] == list[not_come[k]]
        }),
    decreases n,
{
    let come = |i: int| list[i].deadline <= now;
    let not_come = |i: int| list[i].deadline > now;
    if n > 0 {
        lemma_due(list, now, n - 1);
        let part = list.take(n);
        assert(part.drop_last() =~= list.take(n - 1));
        assert(part.last() == list[n - 1]);
        assert(come(n - 1) == (list[n - 1].deadline <= now));
        assert(not_come(n - 1) == (list[n - 1].deadline > now));
    }
}

/// The projects whose process lives stay, all of them, in order. Of each of the others it
/// is said, in order, that it is closed.
pub proof fn law_closed(list: Seq<ActiveModel>, live: Seq<u32>) -> (at: (Seq<int>, Seq<int>))
    ensures
        is_selection(at.0, list.len() as int, |i: int| live.contains(list[i].pid)),
        is_selection(at.1, list.len() as int, |i: int| !live.contains(list[i].pid)),
        still_live(list, live).len() == at.0.len(),
        closed_events(list, live).len() == at.1.len(),
        forall|k: int| 0 <= k < at.0.len() ==> #[trigger] still_live(list, live)[k] == list[at.0[k]],
        forall|k: int|
            0 <= k < at.1.len() ==> #[trigger] closed_events(list, live)[k] == (
            EventModel::ProjectClosed { path: list[at.1[k]].path.text, daw: list[at.1[k]].daw }),
{
    let n = list.len() as int;
    let lives = |i: int| live.contains(list[i].pid);
    let gone = |i: int| !live.contains(list[i].pid);
    lemma_chosen(n, lives);
    lemma_chosen(n, gone);
    lemma_closed(list, live, n);
    assert(list.take(n) =~= list);
    (chosen(n, lives), chosen(n, gone))
}

proof fn lemma_closed(list: Seq<ActiveModel>, live: Seq<u32>, n: int)
    requires
        0 <= n <= list.len(),
    ensures
        ({
            let part = list.take(n);
            let lives = chosen(n, |i: int| live.contains(list[i].pid));
            let gone = chosen(n, |i: int| !live.contains(list[i].pid));
            &&& still_live(part, live).len() == lives.len()
            &&& closed_events(part, live).len() == gone.len()
            &&& forall|k: int|
                0 <= k < lives.len() ==> #[trigger] still_live(part, live)[k] == list[lives[k]]
            &&& forall|k: int|
                0 <= k < gone.len() ==> #[trigger] closed_events(part, live)[k] == (
                EventModel::ProjectClosed { path: list[gone[k]].path.text, daw: list[gone[k]].daw })
        }),
    decreases n,
{
    let lives = |i: int| live.contains(list[i].pid);
    let gone = |i: int| !live.contains(list[i].pid);
    if n > 0 {
        lemma_closed(list, live, n - 1);
        let part = list.take(n);
        assert(part.drop_last() =~= list.take(n - 1));
        assert(part.last() == list[n - 1]);
        assert(lives(n - 1) == live.contains(list[n - 1].pid));
        assert(gone(n - 1) == !live.contains(list[n - 1].pid));
    }
}

/// Names are ordered by their first difference: a name stands before every longer one that
/// begins with it, and else the lower byte decides.
pub proof fn law_bytes_before(common: Seq<u8>, x: u8, y: u8, a: Seq<u8>, b: Seq<u8>)
    ensures
        !bytes_before(common, common),
        bytes_before(common, common + (seq![x] + a)),
        !bytes_before(common + (seq![x] + a), common),
        x != y ==> (bytes_before(common + (seq![x] + a), common + (seq![y] + b)) <==> x < y),
    decreases common.len(),
{
    let p = common + (seq![x] + a);
    let q = common + (seq![y] + b);
    if common.len() == 0 {
        assert(p[0] == x && q[0] == y);
    } else {
        let rest = common.skip(1);
        law_bytes_before(rest, x, y, a, b);
        assert(p.skip(1) =~= rest + (seq![x] + a));
        assert(q.skip(1) =~= rest + (seq![y] + b));
    }
}

} // verus!
