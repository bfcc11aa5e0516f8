use patchbay::watcher::detect::{
    find_via_cmdline, find_via_lsof, find_via_recent_dirs, lsof_names, recent_cutoff, search_dirs,
    OpenPath, PathFacts, RecentFile,
};
use patchbay::watcher::hash::{
    hash_file, hash_logic_package, mtime_hash, same_digest, PackageTimes, StampedFile,
};
use patchbay::watcher::rounds::{worker, WatchOutcome, WatchPhase};
use patchbay::watcher::source::{parse_project, source_kind, ProjectSource, SourceKind};
use patchbay::watcher::worker::{
    init_error, is_write, notify_error, poll_wait, ChangeKind, FoundAction, ProjectPath, WatchState,
    POLL_INTERVAL, POLL_STEP, RECHECK_INTERVAL, SETTLE_DELAY, TIMER_INTERVAL,
};
use patchbay::watcher::{match_daw, DawKind, ParsedProject, WatchEvent};
use sha2::{Digest, Sha256};

const RPP: &[u8] = b"<REAPER_PROJECT 0.1 \"7.0\" 0\n<TRACK {}\nNAME T\n>\n>\n";

fn path(text: &str) -> ProjectPath {
    ProjectPath {
        text: text.to_string(),
        parts: text.split('/').filter(|p| !p.is_empty()).map(str::to_string).collect(),
    }
}

fn digest(bytes: &[u8]) -> Option<[u8; 32]> {
    Some(Sha256::digest(bytes).into())
}

fn good() -> ProjectSource {
    ProjectSource::Reaper(Ok(RPP.to_vec()))
}

fn bad() -> ProjectSource {
    ProjectSource::Reaper(Ok(b"nothing".to_vec()))
}

/// A state that tracks a Reaper project of process 7.
fn tracking() -> WatchState {
    let mut state = WatchState::new(0);
    state.register_project(7, path("/a/x.rpp"), DawKind::Reaper, false, None, digest(b"one"), &good());
    state
}

#[test]
fn daws_are_known_by_name_or_path() {
    assert_eq!(match_daw("Live", ""), Some(DawKind::Ableton));
    assert_eq!(match_daw("x", "C:/Program Files/REAPER (x64)/reaper.exe"), Some(DawKind::Reaper));
    assert_eq!(match_daw("Logic Pro", ""), Some(DawKind::Logic));
    assert_eq!(match_daw("BitwigStudio", ""), Some(DawKind::Bitwig));
    assert_eq!(match_daw("Studio One", ""), Some(DawKind::StudioOne));
    // The first of the table counts
    assert_eq!(match_daw("reaper", "/home/olive/reaper"), Some(DawKind::Ableton));
    assert_eq!(match_daw("bash", "/bin/bash"), None);
    assert_eq!(DawKind::Reaper.extensions(), vec![".rpp", ".rpp-bak"]);
}

#[test]
fn digests_are_sha256() {
    assert_eq!(hash_file(&Some(b"abc".to_vec())), digest(b"abc"));
    assert_eq!(hash_file(&None), None);
    let mut bytes = 258u128.to_le_bytes().to_vec();
    bytes.extend_from_slice(b"/p");
    let file = StampedFile { name: b"/p".to_vec(), nanos: Some(258) };
    assert_eq!(mtime_hash(&file), digest(&bytes));
    assert_eq!(mtime_hash(&StampedFile { name: b"/p".to_vec(), nanos: None }), None);
    assert!(same_digest(&digest(b"a"), &digest(b"a")));
    assert!(!same_digest(&digest(b"a"), &digest(b"b")));
    assert!(!same_digest(&digest(b"a"), &None));
    assert!(same_digest(&None, &None));
}

#[test]
fn packages_are_hashed_by_their_project_file() {
    let none = |name: &str| StampedFile { name: name.as_bytes().to_vec(), nanos: None };
    let some = |name: &str, n: u128| StampedFile { name: name.as_bytes().to_vec(), nanos: Some(n) };
    let mut times = PackageTimes {
        modern: some("/m", 1),
        upper: some("/u", 2),
        lower: some("/l", 3),
        root: None,
    };
    assert_eq!(hash_logic_package(&times), mtime_hash(&some("/m", 1)));
    times.modern = none("/m");
    assert_eq!(hash_logic_package(&times), mtime_hash(&some("/u", 2)));
    times.upper = none("/u");
    assert_eq!(hash_logic_package(&times), mtime_hash(&some("/l", 3)));
    times.lower = none("/l");
    assert_eq!(hash_logic_package(&times), None);

    times.root = Some(vec![some("b", 5), none("c"), some("a", 4)]);
    let mut bytes = 4u128.to_le_bytes().to_vec();
    bytes.extend_from_slice(b"a");
    bytes.extend_from_slice(&5u128.to_le_bytes());
    bytes.extend_from_slice(b"bc");
    assert_eq!(hash_logic_package(&times), digest(&bytes));
    // The order of the listing does not matter
    times.root = Some(vec![none("c"), some("a", 4), some("b", 5)]);
    assert_eq!(hash_logic_package(&times), digest(&bytes));
}

#[test]
fn projects_are_read_with_the_reader_of_their_daw() {
    assert_eq!(source_kind(DawKind::Ableton, None), SourceKind::Ableton);
    assert_eq!(source_kind(DawKind::Bitwig, Some("DAWproject")), SourceKind::DawProject);
    assert_eq!(source_kind(DawKind::Bitwig, Some("bwproject")), SourceKind::Unrecognized);
    assert_eq!(source_kind(DawKind::StudioOne, None), SourceKind::Unrecognized);

    assert!(matches!(parse_project("/a.rpp", &good()), Ok(ParsedProject::Reaper(_))));
    assert_eq!(
        parse_project("/a.rpp", &bad()).unwrap_err(),
        "Format error: REAPER_PROJECT block not found"
    );
    assert_eq!(
        parse_project("/a.rpp", &ProjectSource::Reaper(Err("gone".to_string()))).unwrap_err(),
        "I/O error: gone"
    );
    let als = |ext: &str| ProjectSource::Ableton {
        extension: Some(ext.to_string()),
        data: Err("gone".to_string()),
    };
    assert_eq!(parse_project("/a.als", &als("als")).unwrap_err(), "I/O error: gone");
    assert_eq!(
        parse_project("/a.x", &als("x")).unwrap_err(),
        "Format error: Unsupported extension: /a.x"
    );
    assert!(parse_project("/a", &ProjectSource::DawProject(Ok(b"x".to_vec())))
        .unwrap_err()
        .starts_with("ZIP error: "));
    match parse_project("/a.song", &ProjectSource::Unrecognized(DawKind::StudioOne)) {
        Ok(ParsedProject::Unrecognized { daw, path }) => {
            assert_eq!(daw, DawKind::StudioOne);
            assert_eq!(path, "/a.song");
        }
        _ => panic!("expected an unrecognized project"),
    }
}

fn facts(path: &str, exists: bool) -> PathFacts {
    let name = path.rsplit('/').next().unwrap_or("");
    PathFacts {
        path: path.to_string(),
        extension: name.rsplit_once('.').map(|(_, e)| e.to_string()),
        exists,
    }
}

fn open(path: &str, exists: bool) -> OpenPath {
    let mut ancestors = Vec::new();
    let mut rest = path;
    while let Some((parent, _)) = rest.rsplit_once('/') {
        ancestors.push(facts(parent, exists));
        rest = parent;
    }
    OpenPath { file: facts(path, exists), ancestors }
}

#[test]
fn open_files_show_the_project() {
    assert_eq!(lsof_names(b"p123\nfcwd\nn/a/b\nn/c.rpp\n"), vec!["/a/b", "/c.rpp"]);
    let list = vec![open("/a/x.rpp", true), open("/a/y.rpp", true), open("/a/z.rpp", false), open("/a/w.wav", true)];
    assert_eq!(find_via_lsof(DawKind::Reaper, &list).as_deref(), Some("/a/y.rpp"));
    assert_eq!(find_via_lsof(DawKind::Ableton, &list), None);
    let inside = vec![open("/s/Song.logicx/Media/a.wav", true), open("/usr/lib", true)];
    assert_eq!(find_via_lsof(DawKind::Logic, &inside).as_deref(), Some("/s/Song.logicx"));
}

#[test]
fn arguments_show_the_project() {
    let args = vec![facts("/bin/x.rpp", true), facts("-v", false), facts("/a.rpp", true), facts("/b.rpp", true)];
    assert_eq!(find_via_cmdline(DawKind::Reaper, &args).as_deref(), Some("/a.rpp"));
    assert_eq!(find_via_cmdline(DawKind::Reaper, &vec![facts("/bin/x.rpp", true)]), None);
}

#[test]
fn recent_files_show_the_project() {
    let file = |path: &str, mtime: Option<i128>| RecentFile {
        path: path.to_string(),
        extension: Some("rpp".to_string()),
        mtime,
    };
    let now: i128 = 100_000_000_000_000;
    let cutoff = recent_cutoff(now);
    assert_eq!(cutoff, now - 8 * 3600 * 1_000_000_000);
    let dirs = vec![
        None,
        Some(vec![file("/old.rpp", Some(cutoff - 1)), file("/unknown.rpp", None)]),
        Some(vec![file("/a.rpp", Some(cutoff)), file("/b.rpp", Some(now)), file("/c.rpp", Some(now))]),
        Some(vec![file("/d.rpp", Some(now + 1))]),
    ];
    assert_eq!(find_via_recent_dirs(DawKind::Reaper, &dirs, cutoff).as_deref(), Some("/b.rpp"));
    assert_eq!(find_via_recent_dirs(DawKind::Bitwig, &dirs, cutoff), None);
    assert_eq!(search_dirs(DawKind::Reaper), vec![vec!["Documents"]]);
    assert_eq!(search_dirs(DawKind::Ableton).len(), 3);
    assert!(search_dirs(DawKind::Logic).is_empty());
}

#[test]
fn opening_a_project_says_so_and_parses_it() {
    let mut state = WatchState::new(0);
    let events = state.register_project(
        7,
        path("/a/x.rpp"),
        DawKind::Reaper,
        false,
        Some("no handles"),
        digest(b"one"),
        &good(),
    );
    assert_eq!(events.len(), 3);
    match &events[0] {
        WatchEvent::ParseError { path, error } => {
            assert_eq!(path, "/a/x.rpp");
            assert_eq!(error, "notify watch failed (continuing without live updates): no handles");
        }
        _ => panic!("expected a watch failure"),
    }
    assert!(matches!(&events[1], WatchEvent::ProjectOpened { daw: DawKind::Reaper, .. }));
    assert!(matches!(&events[2], WatchEvent::ProjectChanged { parsed: ParsedProject::Reaper(_) }));
    assert_eq!(state.is_directory_at(&path("/a/x.rpp")), Some(false));
    assert_eq!(state.is_directory_at(&path("/other.rpp")), None);
    assert_eq!(state.needs_parse(&path("/a/x.rpp"), &digest(b"one")), None);
    assert_eq!(state.needs_parse(&path("/a/x.rpp"), &digest(b"two")), Some(DawKind::Reaper));
    assert_eq!(state.needs_parse(&path("/other.rpp"), &digest(b"two")), None);
}

#[test]
fn failed_opening_is_tried_again() {
    let mut state = WatchState::new(0);
    let events =
        state.register_project(7, path("/a/x.rpp"), DawKind::Reaper, false, None, digest(b"one"), &bad());
    assert_eq!(events.len(), 2);
    match &events[1] {
        WatchEvent::ParseError { error, .. } => assert_eq!(
            error,
            "initial parse failed: Format error: REAPER_PROJECT block not found"
        ),
        _ => panic!("expected a parse error"),
    }
    assert_eq!(state.needs_parse(&path("/a/x.rpp"), &digest(b"one")), Some(DawKind::Reaper));
}

#[test]
fn changed_content_is_parsed_once() {
    let mut state = tracking();
    let p = path("/a//x.rpp");
    assert!(state.check_and_emit(&p, digest(b"one"), &good()).is_none());
    assert!(matches!(
        state.check_and_emit(&p, digest(b"two"), &good()),
        Some(WatchEvent::ProjectChanged { .. })
    ));
    assert!(state.check_and_emit(&p, digest(b"two"), &good()).is_none());
    assert!(matches!(
        state.check_and_emit(&p, digest(b"three"), &bad()),
        Some(WatchEvent::ParseError { .. })
    ));
    // A failure is tried again, and what was parsed before stays
    assert_eq!(state.needs_parse(&p, &digest(b"three")), Some(DawKind::Reaper));
    assert_eq!(state.needs_parse(&p, &digest(b"two")), None);
}

#[test]
fn processes_are_looked_up_when_due() {
    let mut state = tracking();
    let mut live = Vec::new();
    assert_eq!(state.see_process(7, "reaper", None, false, &mut live), None);
    assert_eq!(state.see_process(7, "reaper", None, true, &mut live), Some(DawKind::Reaper));
    assert_eq!(state.see_process(8, "x", Some("/opt/Bitwig/x"), false, &mut live), Some(DawKind::Bitwig));
    assert_eq!(state.see_process(9, "bash", None, true, &mut live), None);
    assert_eq!(live, vec![7, 7, 8]);

    assert!(!state.begin_round(RECHECK_INTERVAL - 1));
    assert!(state.begin_round(RECHECK_INTERVAL));
    assert!(!state.begin_round(RECHECK_INTERVAL + 1));
}

#[test]
fn another_project_of_a_process_is_a_switch() {
    let mut state = tracking();
    assert!(matches!(state.found_project(7, DawKind::Reaper, &path("/a/x.rpp")), FoundAction::Keep));
    assert!(matches!(state.found_project(8, DawKind::Reaper, &path("/b.rpp")), FoundAction::Register));
    match state.found_project(7, DawKind::Reaper, &path("/b.rpp")) {
        FoundAction::Switch { old_path, closed } => {
            assert_eq!(old_path, "/a/x.rpp");
            assert!(matches!(closed, WatchEvent::ProjectClosed { daw: DawKind::Reaper, .. }));
        }
        _ => panic!("expected a switch"),
    }
    state.register_project(7, path("/b.rpp"), DawKind::Reaper, false, None, None, &good());
    assert_eq!(state.active.len(), 1);
    assert_eq!(state.active[0].path.text, "/b.rpp");
}

#[test]
fn projects_of_exited_processes_are_closed() {
    let mut state = tracking();
    state.register_project(8, path("/b.rpp"), DawKind::Reaper, false, None, None, &good());
    assert!(state.close_stale(&vec![7, 8, 9]).is_empty());
    let events = state.close_stale(&vec![8]);
    assert_eq!(events.len(), 1);
    assert!(matches!(&events[0], WatchEvent::ProjectClosed { path, .. } if path == "/a/x.rpp"));
    assert_eq!(state.active.len(), 1);
    assert_eq!(state.active[0].pid, 8);
}

#[test]
fn changes_wait_until_they_settle() {
    let mut state = tracking();
    state.register_project(8, path("/s/Song.logicx"), DawKind::Logic, true, None, None, &good());
    state.path_changed(ChangeKind::Other, &path("/a/x.rpp"), 0);
    state.path_changed(ChangeKind::ModifyData, &path("/a/x.rpp.tmp"), 0);
    assert!(state.pending.is_empty());
    state.path_changed(ChangeKind::ModifyData, &path("/a/x.rpp"), 0);
    state.path_changed(ChangeKind::Create, &path("/s/Song.logicx/Media/a.wav"), 5);
    assert_eq!(state.pending.len(), 2);
    // A further write starts the wait anew
    state.path_changed(ChangeKind::ModifyAny, &path("/a/x.rpp"), 10);
    assert_eq!(state.pending.len(), 2);
    assert!(state.settled(SETTLE_DELAY).is_empty());
    let ready = state.settled(SETTLE_DELAY + 5);
    assert_eq!(ready.len(), 1);
    assert_eq!(ready[0].text, "/s/Song.logicx");
    let ready = state.settled(SETTLE_DELAY + 10);
    assert_eq!(ready.len(), 1);
    assert_eq!(ready[0].text, "/a/x.rpp");
    assert!(state.pending.is_empty());
    assert!(is_write(ChangeKind::Create));
    assert!(!is_write(ChangeKind::Other));
}

#[test]
fn timer_names_every_project() {
    let mut state = tracking();
    assert!(state.timer(TIMER_INTERVAL - 1).is_empty());
    let all = state.timer(TIMER_INTERVAL);
    assert_eq!(all.len(), 1);
    assert_eq!(all[0].text, "/a/x.rpp");
    assert!(state.timer(TIMER_INTERVAL + 1).is_empty());
}

#[test]
fn polls_wait_in_steps() {
    assert_eq!(poll_wait(5, 5), None);
    assert_eq!(poll_wait(6, 5), None);
    assert_eq!(poll_wait(0, 10), Some(10));
    assert_eq!(poll_wait(0, POLL_STEP + 1), Some(POLL_STEP));
}

#[test]
fn paths_are_compared_by_component() {
    assert!(path("/a/b").is_same(&path("/a//b/")));
    assert!(!path("/a/b").is_same(&path("/a/bc")));
    assert!(path("/a/b/c").starts_with(&path("/a/b")));
    assert!(!path("/a/bc").starts_with(&path("/a/b")));
}

#[test]
fn notification_failures_are_events() {
    match init_error("limit") {
        WatchEvent::ParseError { path, error } => {
            assert_eq!(path, "");
            assert_eq!(error, "notify init error: limit");
        }
        _ => panic!("expected a parse error"),
    }
    assert!(matches!(notify_error("x"), WatchEvent::ParseError { error, .. } if error == "notify error: x"));
}

#[test]
fn rounds_go_in_order_until_a_stop() {
    let steps = [
        (WatchOutcome::Done, WatchPhase::Listen),
        (WatchOutcome::Nothing, WatchPhase::Refresh),
        (WatchOutcome::Done, WatchPhase::Drain { end: 7 + POLL_INTERVAL }),
        (WatchOutcome::Notified, WatchPhase::Drain { end: 7 + POLL_INTERVAL }),
        (WatchOutcome::Quiet, WatchPhase::Settle),
        (WatchOutcome::Done, WatchPhase::Timer),
        (WatchOutcome::Done, WatchPhase::Listen),
        (WatchOutcome::Stopped, WatchPhase::Ended),
        (WatchOutcome::Nothing, WatchPhase::Ended),
    ];
    let mut phase = WatchPhase::Setup;
    for (outcome, next) in steps {
        phase = worker(phase, outcome, 7);
        assert_eq!(phase, next);
    }
    assert_eq!(worker(WatchPhase::Listen, WatchOutcome::Disconnected, 0), WatchPhase::Ended);
    assert_eq!(worker(WatchPhase::Setup, WatchOutcome::Failed, 0), WatchPhase::Ended);
    // A stop is heard where it is asked for
    assert_eq!(worker(WatchPhase::Timer, WatchOutcome::Stopped, 0), WatchPhase::Listen);
}
