//! The decisions of the background watcher: which processes to look at, which projects
//! to read, and which events to emit.
use vstd::prelude::*;

use crate::text::{lower, lowercase, opt_str, same_text, texts};
use crate::watcher::hash::{digest_of, same_digest};
use crate::watcher::source::{parse_project, project_at, ProjectSource};
use crate::watcher::{daw_of, event_models, match_daw, DawKind, EventModel, ParsedModel, WatchEvent};

verus! {

// ---------------------------------------------------------------------------
// Timing
// ---------------------------------------------------------------------------

/// How often to poll for new and exited DAW processes, in nanoseconds.
pub const POLL_INTERVAL: u64 = 2_000_000_000;

/// How often to look again for the open project of a process that is already
/// tracked, which notices that another project was opened.
pub const RECHECK_INTERVAL: u64 = 10_000_000_000;

/// How often to hash every watched project even without a notification.
pub const TIMER_INTERVAL: u64 = 60_000_000_000;

/// How long to wait after a notification before reading, so that the DAW finishes its
/// write.
pub const SETTLE_DELAY: u64 = 300_000_000;

/// How long to wait for a notification at a time.
pub const POLL_STEP: u64 = 50_000_000;

/// How long to wait for the next notification of a poll that ends at `end`. The poll
/// is over at its end.
pub fn poll_wait(now: u64, end: u64) -> (out: Option<u64>)
    ensures
        out == (if now >= end {
            None
        } else if end - now <= POLL_STEP {
            Some((end - now) as u64)
        } else {
            Some(POLL_STEP)
        }),
{
    if now >= end {
        None
    } else if end - now <= POLL_STEP {
        Some(end - now)
    } else {
        Some(POLL_STEP)
    }
}

/// Whether an interval has passed since `last`.
pub open spec fn has_passed(last: u64, interval: u64, now: u64) -> bool {
    now - last >= interval
}

/// Whether an interval has passed since `last`.
fn passed(last: u64, interval: u64, now: u64) -> (yes: bool)
    requires
        interval > 0,
    ensures
        yes == has_passed(last, interval, now),
{
    now >= last && now - last >= interval
}

// ---------------------------------------------------------------------------
// Paths
// ---------------------------------------------------------------------------

/// A path as it was written and by its components. Two paths with the same components
/// are the same.
#[derive(Debug)]
pub struct ProjectPath {
    pub text: String,
    pub parts: Vec<String>,
}

/// What a `ProjectPath` holds.
#[verifier::ext_equal]
pub struct PathModel {
    pub text: Seq<char>,
    pub parts: Seq<Seq<char>>,
}

impl View for ProjectPath {
    type V = PathModel;

    open spec fn view(&self) -> PathModel {
        PathModel { text: self.text@, parts: texts(self.parts@) }
    }
}

/// The path is the folder, or lies in it.
pub open spec fn lies_in(path: PathModel, folder: PathModel) -> bool {
    folder.parts.is_prefix_of(path.parts)
}

/// Whether the first `n` components of two paths agree.
fn same_parts(a: &Vec<String>, b: &Vec<String>, n: usize) -> (same: bool)
    requires
        n <= a@.len(),
        n <= b@.len(),
    ensures
        same == (texts(a@).take(n as int) == texts(b@).take(n as int)),
{
    let ghost x = texts(a@);
    let ghost y = texts(b@);
    for i in 0..n
        invariant
            n <= a@.len(),
            n <= b@.len(),
            x == texts(a@),
            y == texts(b@),
            forall|k: int| 0 <= k < i ==> x[k] == y[k],
    {
        if !same_text(a[i].as_str(), b[i].as_str()) {
            assert(x.take(n as int)[i as int] != y.take(n as int)[i as int]);
            return false;
        }
        assert(x[i as int] == y[i as int]);
    }
    assert(x.take(n as int) =~= y.take(n as int));
    true
}

impl ProjectPath {
    /// Whether two paths are the same.
    pub fn is_same(&self, other: &ProjectPath) -> (yes: bool)
        ensures
            yes == (self@.parts == other@.parts),
    {
        let n: usize = self.parts.len();
        if n != other.parts.len() {
            return false;
        }
        let yes = same_parts(&self.parts, &other.parts, n);
        proof {
            assert(self@.parts.take(n as int) =~= self@.parts);
            assert(other@.parts.take(n as int) =~= other@.parts);
        }
        yes
    }

    /// Whether the path is the folder, or lies in it.
    pub fn starts_with(&self, folder: &ProjectPath) -> (yes: bool)
        ensures
            yes == lies_in(self@, folder@),
    {
        let n: usize = folder.parts.len();
        if n > self.parts.len() {
            return false;
        }
        let yes = same_parts(&self.parts, &folder.parts, n);
        proof {
            assert(folder@.parts.take(n as int) =~= folder@.parts);
            assert(self@.parts.take(n as int) =~= self@.parts.subrange(0, n as int));
        }
        yes
    }

    /// A copy of the path.
    pub fn copy(&self) -> (out: ProjectPath)
        ensures
            out@ == self@,
    {
        let mut parts: Vec<String> = Vec::new();
        let ghost all = texts(self.parts@);
        assert(texts(parts@) =~= all.take(0));
        for i in 0..self.parts.len()
            invariant
                all == texts(self.parts@),
                texts(parts@) == all.take(i as int),
        {
            let ghost before = texts(parts@);
            parts.push(self.parts[i].clone());
            assert(texts(parts@) =~= before.push(all[i as int]));
            assert(all.take(i + 1) =~= all.take(i as int).push(all[i as int]));
        }
        assert(all.take(all.len() as int) =~= all);
        ProjectPath { text: self.text.clone(), parts }
    }
}

// ---------------------------------------------------------------------------
// State
// ---------------------------------------------------------------------------

/// A project that a running DAW has open.
#[derive(Debug)]
pub struct ActiveProject {
    pub pid: u32,
    pub path: ProjectPath,
    pub daw: DawKind,
    /// SHA-256 of the last content that was successfully parsed.
    pub last_hash: Option<[u8; 32]>,
    /// True for `.logicx` package directories.
    pub is_directory: bool,
}

/// What an `ActiveProject` holds.
#[verifier::ext_equal]
pub struct ActiveModel {
    pub pid: u32,
    pub path: PathModel,
    pub daw: DawKind,
    pub last_hash: Option<Seq<u8>>,
    pub is_directory: bool,
}

impl View for ActiveProject {
    type V = ActiveModel;

    open spec fn view(&self) -> ActiveModel {
        ActiveModel {
            pid: self.pid,
            path: self.path@,
            daw: self.daw,
            last_hash: digest_of(self.last_hash),
            is_directory: self.is_directory,
        }
    }
}

/// What each project of a list holds.
pub open spec fn active_models(list: Seq<ActiveProject>) -> Seq<ActiveModel> {
    list.map_values(|p: ActiveProject| p@)
}

/// A project that waits to be read, and when it may be.
#[derive(Debug)]
pub struct PendingProject {
    pub path: ProjectPath,
    pub deadline: u64,
}

/// What a `PendingProject` holds.
#[verifier::ext_equal]
pub struct PendingModel {
    pub path: PathModel,
    pub deadline: u64,
}

impl View for PendingProject {
    type V = PendingModel;

    open spec fn view(&self) -> PendingModel {
        PendingModel { path: self.path@, deadline: self.deadline }
    }
}

/// What each waiting project of a list holds.
pub open spec fn pending_models(list: Seq<PendingProject>) -> Seq<PendingModel> {
    list.map_values(|p: PendingProject| p@)
}

/// What each path of a list holds.
pub open spec fn path_models(list: Seq<ProjectPath>) -> Seq<PathModel> {
    list.map_values(|p: ProjectPath| p@)
}

/// The state of the watcher.
pub struct WatchState {
    pub active: Vec<ActiveProject>,
    pub pending: Vec<PendingProject>,
    pub last_recheck: u64,
    pub last_timer: u64,
}

/// What a `WatchState` holds.
#[verifier::ext_equal]
pub struct StateModel {
    pub active: Seq<ActiveModel>,
    pub pending: Seq<PendingModel>,
    pub last_recheck: u64,
    pub last_timer: u64,
}

impl View for WatchState {
    type V = StateModel;

    open spec fn view(&self) -> StateModel {
        StateModel {
            active: active_models(self.active@),
            pending: pending_models(self.pending@),
            last_recheck: self.last_recheck,
            last_timer: self.last_timer,
        }
    }
}

/// Each process has one project at most, and each path waits once at most.
pub open spec fn is_consistent(s: StateModel) -> bool {
    &&& forall|i: int, j: int|
        #![trigger s.active[i], s.active[j]]
        0 <= i < j < s.active.len() ==> s.active[i].pid != s.active[j].pid
    &&& forall|i: int, j: int|
        #![trigger s.pending[i], s.pending[j]]
        0 <= i < j < s.pending.len() ==> s.pending[i].path.parts != s.pending[j].path.parts
}

/// The index from `i` on of the project of a process.
pub open spec fn pid_from(list: Seq<ActiveModel>, pid: u32, i: int) -> Option<int>
    decreases list.len() - i,
{
    if i >= list.len() {
        None
    } else if list[i].pid == pid {
        Some(i)
    } else {
        pid_from(list, pid, i + 1)
    }
}

/// The index of the project of a process.
pub open spec fn pid_index(list: Seq<ActiveModel>, pid: u32) -> Option<int> {
    pid_from(list, pid, 0)
}

/// The index from `i` on of the project at a path.
pub open spec fn path_from(list: Seq<ActiveModel>, parts: Seq<Seq<char>>, i: int) -> Option<int>
    decreases list.len() - i,
{
    if i >= list.len() {
        None
    } else if list[i].path.parts == parts {
        Some(i)
    } else {
        path_from(list, parts, i + 1)
    }
}

/// The index of the project at a path.
pub open spec fn path_index(list: Seq<ActiveModel>, parts: Seq<Seq<char>>) -> Option<int> {
    path_from(list, parts, 0)
}

/// The projects with one more, in place of the one that its process had.
pub open spec fn with_active(list: Seq<ActiveModel>, p: ActiveModel) -> Seq<ActiveModel> {
    match pid_index(list, p.pid) {
        Some(k) => list.update(k, p),
        None => list.push(p),
    }
}

/// An index that is found is one of the list.
proof fn lemma_pid_from(list: Seq<ActiveModel>, pid: u32, i: int)
    requires
        0 <= i,
    ensures
        match pid_from(list, pid, i) {
            Some(k) => i <= k < list.len() && list[k].pid == pid,
            None => forall|j: int| i <= j < list.len() ==> (#[trigger] list[j]).pid != pid,
        },
    decreases list.len() - i,
{
    if i < list.len() && list[i].pid != pid {
        lemma_pid_from(list, pid, i + 1);
    }
}

/// An index that is found is one of the list.
proof fn lemma_path_from(list: Seq<ActiveModel>, parts: Seq<Seq<char>>, i: int)
    requires
        0 <= i,
    ensures
        match path_from(list, parts, i) {
            Some(k) => i <= k < list.len() && list[k].path.parts == parts,
            None => forall|j: int| i <= j < list.len() ==> (#[trigger] list[j]).path.parts != parts,
        },
    decreases list.len() - i,
{
    if i < list.len() && list[i].path.parts != parts {
        lemma_path_from(list, parts, i + 1);
    }
}

// ---------------------------------------------------------------------------
// Processes
// ---------------------------------------------------------------------------

/// The DAW that a process runs. A process whose program is not known has an empty path.
pub open spec fn process_daw(name: Seq<char>, exe: Option<Seq<char>>) -> Option<DawKind> {
    match exe {
        Some(e) => daw_of(name, lower(e)),
        None => daw_of(name, lower(""@)),
    }
}

/// What was found of the open project of a process.
#[derive(Debug)]
pub enum FoundAction {
    /// The project is the one that is watched.
    Keep,
    /// The project is new.
    Register,
    /// Another project was watched: its path and the event that says so.
    Switch { old_path: String, closed: WatchEvent },
}

/// What a `FoundAction` says.
#[verifier::ext_equal]
pub enum FoundModel {
    Keep,
    Register,
    Switch { old_path: Seq<char>, closed: EventModel },
}

impl View for FoundAction {
    type V = FoundModel;

    open spec fn view(&self) -> FoundModel {
        match self {
            FoundAction::Keep => FoundModel::Keep,
            FoundAction::Register => FoundModel::Register,
            FoundAction::Switch { old_path, closed } => FoundModel::Switch {
                old_path: old_path@,
                closed: closed@,
            },
        }
    }
}

/// What to do with the open project of a process.
pub open spec fn on_found(list: Seq<ActiveModel>, pid: u32, daw: DawKind, path: PathModel) -> FoundModel {
    match pid_index(list, pid) {
        Some(k) => if list[k].path.parts == path.parts {
            FoundModel::Keep
        } else {
            FoundModel::Switch {
                old_path: list[k].path.text,
                closed: EventModel::ProjectClosed { path: list[k].path.text, daw },
            }
        },
        None => FoundModel::Register,
    }
}

/// The projects whose process is among the live ones.
pub open spec fn still_live(list: Seq<ActiveModel>, live: Seq<u32>) -> Seq<ActiveModel>
    decreases list.len(),
{
    if list.len() == 0 {
        Seq::empty()
    } else if live.contains(list.last().pid) {
        still_live(list.drop_last(), live).push(list.last())
    } else {
        still_live(list.drop_last(), live)
    }
}

/// The events of the projects whose process is not among the live ones.
pub open spec fn closed_events(list: Seq<ActiveModel>, live: Seq<u32>) -> Seq<EventModel>
    decreases list.len(),
{
    if list.len() == 0 {
        Seq::empty()
    } else {
        let p = list.last();
        if live.contains(p.pid) {
            closed_events(list.drop_last(), live)
        } else {
            closed_events(list.drop_last(), live).push(
                EventModel::ProjectClosed { path: p.path.text, daw: p.daw },
            )
        }
    }
}

// ---------------------------------------------------------------------------
// Content
// ---------------------------------------------------------------------------

/// The DAW of the project at a path, where its content differs from what was last
/// parsed.
pub open spec fn due_parse(list: Seq<ActiveModel>, path: PathModel, hash: Option<Seq<u8>>) -> Option<
    DawKind,
> {
    match path_index(list, path.parts) {
        Some(k) => if list[k].last_hash == hash {
            None
        } else {
            Some(list[k].daw)
        },
        None => None,
    }
}

/// The projects after the content at a path was hashed and, where it was due, parsed.
/// A failure leaves the hash of what was parsed before, so that the next look tries
/// again.
pub open spec fn after_check(
    list: Seq<ActiveModel>,
    path: PathModel,
    hash: Option<Seq<u8>>,
    result: Result<ParsedModel, Seq<char>>,
) -> Seq<ActiveModel> {
    match path_index(list, path.parts) {
        Some(k) => if list[k].last_hash != hash && result is Ok {
            list.update(k, ActiveModel { last_hash: hash, ..list[k] })
        } else {
            list
        },
        None => list,
    }
}

/// The event of a look at the content at a path.
pub open spec fn check_event(
    list: Seq<ActiveModel>,
    path: PathModel,
    hash: Option<Seq<u8>>,
    result: Result<ParsedModel, Seq<char>>,
) -> Option<EventModel> {
    match due_parse(list, path, hash) {
        Some(_) => match result {
            Ok(parsed) => Some(EventModel::ProjectChanged { parsed }),
            Err(error) => Some(EventModel::ParseError { path: path.text, error }),
        },
        None => None,
    }
}

/// The project as it is tracked after a first parse. One whose first parse failed has
/// no content that was parsed.
pub open spec fn registered(
    pid: u32,
    path: PathModel,
    daw: DawKind,
    is_directory: bool,
    hash: Option<Seq<u8>>,
    result: Result<ParsedModel, Seq<char>>,
) -> ActiveModel {
    ActiveModel {
        pid,
        path,
        daw,
        last_hash: if result is Ok {
            hash
        } else {
            None
        },
        is_directory,
    }
}

/// The events of a project that is new: why it cannot be watched, where it cannot;
/// that it is open; and what its first parse came to.
pub open spec fn opening_events(
    path: PathModel,
    daw: DawKind,
    watch_error: Option<Seq<char>>,
    result: Result<ParsedModel, Seq<char>>,
) -> Seq<EventModel> {
    let unwatched = match watch_error {
        Some(e) => seq![
            EventModel::ParseError {
                path: path.text,
                error: "notify watch failed (continuing without live updates): "@ + e,
            },
        ],
        None => Seq::empty(),
    };
    let opened = unwatched.push(EventModel::ProjectOpened { path: path.text, daw });
    match result {
        Ok(parsed) => opened.push(EventModel::ProjectChanged { parsed }),
        Err(e) => opened.push(
            EventModel::ParseError { path: path.text, error: "initial parse failed: "@ + e },
        ),
    }
}

// ---------------------------------------------------------------------------
// Notifications
// ---------------------------------------------------------------------------

/// What a notification of the file system says.
#[derive(Debug, Clone, Copy, PartialEq, Eq, Structural)]
pub enum ChangeKind {
    /// Data of a file was modified.
    ModifyData,
    /// Something was modified, it is not said what. macOS says so for most writes.
    ModifyAny,
    /// Something was created.
    Create,
    /// Anything else.
    Other,
}

/// Whether a notification may mean new content.
pub fn is_write(kind: ChangeKind) -> (yes: bool)
    ensures
        yes == (kind != ChangeKind::Other),
{
    kind != ChangeKind::Other
}

/// The changed path belongs to the project: it lies in the package, or is the file.
pub open spec fn belongs_to(path: PathModel, p: ActiveModel) -> bool {
    if p.is_directory {
        lies_in(path, p.path)
    } else {
        path.parts == p.path.parts
    }
}

/// The path from index `i` on of the project that a changed path belongs to.
pub open spec fn root_from(list: Seq<ActiveModel>, path: PathModel, i: int) -> Option<PathModel>
    decreases list.len() - i,
{
    if i >= list.len() {
        None
    } else if belongs_to(path, list[i]) {
        Some(list[i].path)
    } else {
        root_from(list, path, i + 1)
    }
}

/// The index from `i` on at which a path waits.
pub open spec fn pending_from(list: Seq<PendingModel>, parts: Seq<Seq<char>>, i: int) -> Option<int>
    decreases list.len() - i,
{
    if i >= list.len() {
        None
    } else if list[i].path.parts == parts {
        Some(i)
    } else {
        pending_from(list, parts, i + 1)
    }
}

/// The waiting projects with the path at a new deadline.
pub open spec fn with_pending(list: Seq<PendingModel>, path: PathModel, deadline: u64) -> Seq<
    PendingModel,
> {
    match pending_from(list, path.parts, 0) {
        Some(k) => list.update(k, PendingModel { path: list[k].path, deadline }),
        None => list.push(PendingModel { path, deadline }),
    }
}

/// The waiting projects whose deadline has come.
pub open spec fn due(list: Seq<PendingModel>, now: u64) -> Seq<PathModel>
    decreases list.len(),
{
    if list.len() == 0 {
        Seq::empty()
    } else if list.last().deadline <= now {
        due(list.drop_last(), now).push(list.last().path)
    } else {
        due(list.drop_last(), now)
    }
}

/// The waiting projects whose deadline has not come.
pub open spec fn not_due(list: Seq<PendingModel>, now: u64) -> Seq<PendingModel>
    decreases list.len(),
{
    if list.len() == 0 {
        Seq::empty()
    } else if list.last().deadline <= now {
        not_due(list.drop_last(), now)
    } else {
        not_due(list.drop_last(), now).push(list.last())
    }
}

/// An index that is found is one of the list.
proof fn lemma_pending_from(list: Seq<PendingModel>, parts: Seq<Seq<char>>, i: int)
    requires
        0 <= i,
    ensures
        match pending_from(list, parts, i) {
            Some(k) => i <= k < list.len() && list[k].path.parts == parts,
            None => forall|j: int| i <= j < list.len() ==> (#[trigger] list[j]).path.parts != parts,
        },
    decreases list.len() - i,
{
    if i < list.len() && list[i].path.parts != parts {
        lemma_pending_from(list, parts, i + 1);
    }
}

/// The event of a watcher that cannot be set up.
pub fn init_error(e: &str) -> (out: WatchEvent)
    ensures
        out@ == (EventModel::ParseError { path: Seq::empty(), error: "notify init error: "@ + e@ }),
{
    let mut error = "notify init error: ".to_owned();
    error.append(e);
    let path = String::new();
    assert(path@ =~= Seq::<char>::empty());
    WatchEvent::ParseError { path, error }
}

/// The event of a notification that failed.
pub fn notify_error(e: &str) -> (out: WatchEvent)
    ensures
        out@ == (EventModel::ParseError { path: Seq::empty(), error: "notify error: "@ + e@ }),
{
    let mut error = "notify error: ".to_owned();
    error.append(e);
    let path = String::new();
    assert(path@ =~= Seq::<char>::empty());
    WatchEvent::ParseError { path, error }
}

// ---------------------------------------------------------------------------
// Steps
// ---------------------------------------------------------------------------

/// Whether a pid is in a list.
fn has_pid(list: &Vec<u32>, pid: u32) -> (yes: bool)
    ensures
        yes == list@.contains(pid),
{
    for i in 0..list.len()
        invariant
            forall|k: int| 0 <= k < i ==> list@[k] != pid,
    {
        if list[i] == pid {
            return true;
        }
    }
    false
}

impl WatchState {
    /// Nothing watched, at a time in nanoseconds.
    pub fn new(now: u64) -> (out: WatchState)
        ensures
            out@ == (StateModel {
                active: Seq::empty(),
                pending: Seq::empty(),
                last_recheck: now,
                last_timer: now,
            }),
            is_consistent(out@),
    {
        let out = WatchState {
            active: Vec::new(),
            pending: Vec::new(),
            last_recheck: now,
            last_timer: now,
        };
        assert(out@.active =~= Seq::empty());
        assert(out@.pending =~= Seq::empty());
        out
    }

    /// The index of the project of a process.
    fn index_of_pid(&self, pid: u32) -> (out: Option<usize>)
        ensures
            match out {
                Some(k) => pid_index(self@.active, pid) == Some(k as int) && k < self.active@.len(),
                None => pid_index(self@.active, pid) is None,
            },
    {
        let ghost all = self@.active;
        for i in 0..self.active.len()
            invariant
                all == active_models(self.active@),
                pid_from(all, pid, 0) == pid_from(all, pid, i as int),
        {
            assert(all[i as int] == self.active@[i as int]@);
            if self.active[i].pid == pid {
                return Some(i);
            }
        }
        None
    }

    /// The index of the project at a path.
    fn index_of_path(&self, path: &ProjectPath) -> (out: Option<usize>)
        ensures
            match out {
                Some(k) => path_index(self@.active, path@.parts) == Some(k as int) && k
                    < self.active@.len(),
                None => path_index(self@.active, path@.parts) is None,
            },
    {
        let ghost all = self@.active;
        for i in 0..self.active.len()
            invariant
                all == active_models(self.active@),
                path_from(all, path@.parts, 0) == path_from(all, path@.parts, i as int),
        {
            assert(all[i as int] == self.active@[i as int]@);
            if self.active[i].path.is_same(path) {
                return Some(i);
            }
        }
        None
    }

    /// Begins a round. Says whether the open projects of tracked processes are due to
    /// be looked up again.
    pub fn begin_round(&mut self, now: u64) -> (check_existing: bool)
        ensures
            check_existing == has_passed(old(self)@.last_recheck, RECHECK_INTERVAL, now),
            final(self)@ == (StateModel {
                last_recheck: if check_existing {
                    now
                } else {
                    old(self)@.last_recheck
                },
                ..old(self)@
            }),
    {
        let check_existing = passed(self.last_recheck, RECHECK_INTERVAL, now);
        if check_existing {
            self.last_recheck = now;
        }
        check_existing
    }

    /// Looks at a process. One that runs a DAW joins the live ones. Its open project is
    /// to be looked up where it is not tracked, or where the tracked ones are due.
    pub fn see_process(
        &self,
        pid: u32,
        name: &str,
        exe: Option<&str>,
        check_existing: bool,
        live: &mut Vec<u32>,
    ) -> (lookup: Option<DawKind>)
        ensures
            ({
                let daw = process_daw(name@, opt_str(exe));
                &&& final(live)@ == (if daw is Some {
                    old(live)@.push(pid)
                } else {
                    old(live)@
                })
                &&& lookup == (if pid_index(self@.active, pid) is None || check_existing {
                    daw
                } else {
                    None
                })
            }),
    {
        let exe_l = match exe {
            Some(e) => lowercase(e),
            None => lowercase(""),
        };
        let daw = match_daw(name, exe_l.as_str());
        if daw.is_some() {
            live.push(pid);
        }
        if check_existing || self.index_of_pid(pid).is_none() {
            daw
        } else {
            None
        }
    }

    /// Says what to do with the open project of a process.
    pub fn found_project(&self, pid: u32, daw: DawKind, path: &ProjectPath) -> (out: FoundAction)
        ensures
            out@ == on_found(self@.active, pid, daw, path@),
    {
        match self.index_of_pid(pid) {
            Some(k) => {
                let ap = &self.active[k];
                assert(self@.active[k as int] == ap@);
                if ap.path.is_same(path) {
                    FoundAction::Keep
                } else {
                    FoundAction::Switch {
                        old_path: ap.path.text.clone(),
                        closed: WatchEvent::ProjectClosed { path: ap.path.text.clone(), daw },
                    }
                }
            },
            None => FoundAction::Register,
        }
    }

    /// Tracks a project, after an attempt to watch it, with its hash and its content.
    /// A watch that failed does not hinder: the timer hashes the project nevertheless.
    pub fn register_project(
        &mut self,
        pid: u32,
        path: ProjectPath,
        daw: DawKind,
        is_directory: bool,
        watch_error: Option<&str>,
        hash: Option<[u8; 32]>,
        source: &ProjectSource,
    ) -> (events: Vec<WatchEvent>)
        ensures
            ({
                let result = project_at(path@.text, *source);
                &&& final(self)@ == (StateModel {
                    active: with_active(
                        old(self)@.active,
                        registered(pid, path@, daw, is_directory, digest_of(hash), result),
                    ),
                    ..old(self)@
                })
                &&& event_models(events@) == opening_events(
                    path@,
                    daw,
                    opt_str(watch_error),
                    result,
                )
            }),
    {
        let mut events: Vec<WatchEvent> = Vec::new();
        let ghost mut said: Seq<EventModel> = Seq::empty();
        assert(event_models(events@) =~= said);
        if let Some(e) = watch_error {
            let mut error = "notify watch failed (continuing without live updates): ".to_owned();
            error.append(e);
            events.push(WatchEvent::ParseError { path: path.text.clone(), error });
            proof {
                said = said.push(
                    EventModel::ParseError {
                        path: path@.text,
                        error: "notify watch failed (continuing without live updates): "@ + e@,
                    },
                );
                assert(event_models(events@) =~= said);
            }
        }
        let ghost unwatched = said;
        events.push(WatchEvent::ProjectOpened { path: path.text.clone(), daw });
        let ghost opened = unwatched.push(EventModel::ProjectOpened { path: path@.text, daw });
        assert(event_models(events@) =~= opened);
        let last_hash = match parse_project(path.text.as_str(), source) {
            Ok(parsed) => {
                let ghost p = parsed@;
                events.push(WatchEvent::ProjectChanged { parsed });
                assert(event_models(events@) =~= opened.push(
                    EventModel::ProjectChanged { parsed: p },
                ));
                hash
            },
            Err(e) => {
                let mut error = "initial parse failed: ".to_owned();
                error.append(e.as_str());
                events.push(WatchEvent::ParseError { path: path.text.clone(), error });
                assert(event_models(events@) =~= opened.push(
                    EventModel::ParseError {
                        path: path@.text,
                        error: "initial parse failed: "@ + e@,
                    },
                ));
                None
            },
        };
        proof {
            let want = match opt_str(watch_error) {
                Some(e) => seq![
                    EventModel::ParseError {
                        path: path@.text,
                        error: "notify watch failed (continuing without live updates): "@ + e,
                    },
                ],
                None => Seq::empty(),
            };
            assert(unwatched =~= want);
            lemma_pid_from(self@.active, pid, 0);
        }
        let ghost before = self@.active;
        let project = ActiveProject { pid, path, daw, last_hash, is_directory };
        let ghost p = project@;
        match self.index_of_pid(pid) {
            Some(k) => {
                self.active.set(k, project);
                assert(self@.active =~= before.update(k as int, p));
            },
            None => {
                self.active.push(project);
                assert(self@.active =~= before.push(p));
            },
        }
        events
    }

    /// Drops the projects whose process is not among the live ones, and says that they
    /// are closed.
    pub fn close_stale(&mut self, live: &Vec<u32>) -> (events: Vec<WatchEvent>)
        ensures
            final(self)@ == (StateModel {
                active: still_live(old(self)@.active, live@),
                ..old(self)@
            }),
            event_models(events@) == closed_events(old(self)@.active, live@),
    {
        let mut events: Vec<WatchEvent> = Vec::new();
        let mut kept: Vec<ActiveProject> = Vec::new();
        let ghost all = self@.active;
        assert(active_models(kept@) =~= still_live(all.take(0), live@));
        assert(event_models(events@) =~= closed_events(all.take(0), live@));
        for i in 0..self.active.len()
            invariant
                all == active_models(self.active@),
                self@ == old(self)@,
                active_models(kept@) == still_live(all.take(i as int), live@),
                event_models(events@) == closed_events(all.take(i as int), live@),
        {
            let ap = &self.active[i];
            let ghost kept_before = active_models(kept@);
            let ghost said_before = event_models(events@);
            proof {
                let next = all.take(i + 1);
                assert(next.drop_last() =~= all.take(i as int));
                assert(next.last() == ap@);
            }
            if has_pid(live, ap.pid) {
                kept.push(
                    ActiveProject {
                        pid: ap.pid,
                        path: ap.path.copy(),
                        daw: ap.daw,
                        last_hash: ap.last_hash,
                        is_directory: ap.is_directory,
                    },
                );
                assert(active_models(kept@) =~= kept_before.push(ap@));
            } else {
                events.push(
                    WatchEvent::ProjectClosed { path: ap.path.text.clone(), daw: ap.daw },
                );
                assert(event_models(events@) =~= said_before.push(
                    EventModel::ProjectClosed { path: ap@.path.text, daw: ap@.daw },
                ));
            }
        }
        assert(all.take(all.len() as int) =~= all);
        self.active = kept;
        events
    }

    /// Notes that a path changed. The project that it belongs to waits until the DAW
    /// has finished its write; a further change starts the wait anew.
    pub fn path_changed(&mut self, kind: ChangeKind, path: &ProjectPath, now: u64)
        requires
            now + SETTLE_DELAY <= u64::MAX,
        ensures
            final(self)@ == (StateModel {
                pending: match root_from(old(self)@.active, path@, 0) {
                    Some(root) => if kind != ChangeKind::Other {
                        with_pending(old(self)@.pending, root, (now + SETTLE_DELAY) as u64)
                    } else {
                        old(self)@.pending
                    },
                    None => old(self)@.pending,
                },
                ..old(self)@
            }),
    {
        if !is_write(kind) {
            return;
        }
        let ghost all = self@.active;
        let mut root: Option<ProjectPath> = None;
        let mut i: usize = 0;
        while i < self.active.len() && root.is_none()
            invariant
                i <= self.active@.len(),
                all == active_models(self.active@),
                self@ == old(self)@,
                match root {
                    Some(r) => root_from(all, path@, 0) == Some(r@),
                    None => root_from(all, path@, 0) == root_from(all, path@, i as int),
                },
            decreases self.active@.len() - i,
        {
            let ap = &self.active[i];
            assert(all[i as int] == ap@);
            let belongs = if ap.is_directory {
                path.starts_with(&ap.path)
            } else {
                path.is_same(&ap.path)
            };
            if belongs {
                root = Some(ap.path.copy());
            }
            i = i + 1;
        }
        if let Some(root) = root {
            self.wait_for(root, now + SETTLE_DELAY);
        }
    }

    /// The index at which a path waits.
    fn index_of_pending(&self, path: &ProjectPath) -> (out: Option<usize>)
        ensures
            match out {
                Some(k) => pending_from(self@.pending, path@.parts, 0) == Some(k as int) && k
                    < self.pending@.len(),
                None => pending_from(self@.pending, path@.parts, 0) is None,
            },
    {
        let ghost all = self@.pending;
        for i in 0..self.pending.len()
            invariant
                all == pending_models(self.pending@),
                pending_from(all, path@.parts, 0) == pending_from(all, path@.parts, i as int),
        {
            assert(all[i as int] == self.pending@[i as int]@);
            if self.pending[i].path.is_same(path) {
                return Some(i);
            }
        }
        None
    }

    /// Lets a path wait until a deadline.
    fn wait_for(&mut self, path: ProjectPath, deadline: u64)
        ensures
            final(self)@ == (StateModel {
                pending: with_pending(old(self)@.pending, path@, deadline),
                ..old(self)@
            }),
    {
        let ghost all = self@.pending;
        match self.index_of_pending(&path) {
            Some(k) => {
                let kept = self.pending[k].path.copy();
                assert(all[k as int] == self.pending@[k as int]@);
                self.pending.set(k, PendingProject { path: kept, deadline });
                assert(self@.pending =~= all.update(
                    k as int,
                    PendingModel { path: all[k as int].path, deadline },
                ));
            },
            None => {
                self.pending.push(PendingProject { path, deadline });
                assert(self@.pending =~= all.push(PendingModel { path: path@, deadline }));
            },
        }
    }

    /// The waiting projects whose deadline has come. They wait no longer.
    pub fn settled(&mut self, now: u64) -> (out: Vec<ProjectPath>)
        ensures
            path_models(out@) == due(old(self)@.pending, now),
            final(self)@ == (StateModel { pending: not_due(old(self)@.pending, now), ..old(self)@ }),
    {
        let mut out: Vec<ProjectPath> = Vec::new();
        let mut kept: Vec<PendingProject> = Vec::new();
        let ghost all = self@.pending;
        assert(path_models(out@) =~= due(all.take(0), now));
        assert(pending_models(kept@) =~= not_due(all.take(0), now));
        for i in 0..self.pending.len()
            invariant
                self@ == old(self)@,
                all == pending_models(self.pending@),
                path_models(out@) == due(all.take(i as int), now),
                pending_models(kept@) == not_due(all.take(i as int), now),
        {
            let p = &self.pending[i];
            let ghost out_before = path_models(out@);
            let ghost kept_before = pending_models(kept@);
            proof {
                let next = all.take(i + 1);
                assert(next.drop_last() =~= all.take(i as int));
                assert(next.last() == p@);
            }
            if p.deadline <= now {
                out.push(p.path.copy());
                assert(path_models(out@) =~= out_before.push(p@.path));
            } else {
                kept.push(PendingProject { path: p.path.copy(), deadline: p.deadline });
                assert(pending_models(kept@) =~= kept_before.push(p@));
            }
        }
        assert(all.take(all.len() as int) =~= all);
        self.pending = kept;
        out
    }

    /// The paths of all projects, where the timer is due.
    pub fn timer(&mut self, now: u64) -> (out: Vec<ProjectPath>)
        ensures
            ({
                let rings = has_passed(old(self)@.last_timer, TIMER_INTERVAL, now);
                &&& path_models(out@) == (if rings {
                    old(self)@.active.map_values(|p: ActiveModel| p.path)
                } else {
                    Seq::empty()
                })
                &&& final(self)@ == (StateModel {
                    last_timer: if rings {
                        now
                    } else {
                        old(self)@.last_timer
                    },
                    ..old(self)@
                })
            }),
    {
        let mut out: Vec<ProjectPath> = Vec::new();
        if !passed(self.last_timer, TIMER_INTERVAL, now) {
            assert(path_models(out@) =~= Seq::empty());
            return out;
        }
        self.last_timer = now;
        let ghost want = self@.active.map_values(|p: ActiveModel| p.path);
        assert(path_models(out@) =~= want.take(0));
        for i in 0..self.active.len()
            invariant
                want == self@.active.map_values(|p: ActiveModel| p.path),
                want.len() == self.active@.len(),
                path_models(out@) == want.take(i as int),
        {
            let ghost before = path_models(out@);
            assert(want[i as int] == self.active@[i as int]@.path);
            out.push(self.active[i].path.copy());
            assert(path_models(out@) =~= before.push(want[i as int]));
            assert(want.take(i + 1) =~= want.take(i as int).push(want[i as int]));
        }
        assert(want.take(want.len() as int) =~= want);
        out
    }

    /// Whether the project at a path is a package directory, where one is open there.
    pub fn is_directory_at(&self, path: &ProjectPath) -> (out: Option<bool>)
        ensures
            out == match path_index(self@.active, path@.parts) {
                Some(k) => Some(self@.active[k].is_directory),
                None => None,
            },
    {
        match self.index_of_path(path) {
            Some(k) => {
                assert(self@.active[k as int] == self.active@[k as int]@);
                Some(self.active[k].is_directory)
            },
            None => None,
        }
    }

    /// The DAW of the project at a path, where its content differs from what was last
    /// parsed.
    pub fn needs_parse(&self, path: &ProjectPath, hash: &Option<[u8; 32]>) -> (out: Option<DawKind>)
        ensures
            out == due_parse(self@.active, path@, digest_of(*hash)),
    {
        match self.index_of_path(path) {
            Some(k) => {
                assert(self@.active[k as int] == self.active@[k as int]@);
                if same_digest(&self.active[k].last_hash, hash) {
                    None
                } else {
                    Some(self.active[k].daw)
                }
            },
            None => None,
        }
    }

    /// Parses the content at a path, where it differs from what was last parsed, and
    /// says what came of it.
    pub fn check_and_emit(
        &mut self,
        path: &ProjectPath,
        hash: Option<[u8; 32]>,
        source: &ProjectSource,
    ) -> (event: Option<WatchEvent>)
        ensures
            ({
                let result = match path_index(old(self)@.active, path@.parts) {
                    Some(k) => project_at(old(self)@.active[k].path.text, *source),
                    None => project_at(path@.text, *source),
                };
                &&& final(self)@ == (StateModel {
                    active: after_check(old(self)@.active, path@, digest_of(hash), result),
                    ..old(self)@
                })
                &&& match event {
                    Some(e) => check_event(old(self)@.active, path@, digest_of(hash), result)
                        == Some(e@),
                    None => check_event(old(self)@.active, path@, digest_of(hash), result) is None,
                }
            }),
    {
        let k: usize = match self.index_of_path(path) {
            Some(k) => k,
            None => return None,
        };
        let ghost before = self@.active;
        assert(before[k as int] == self.active@[k as int]@);
        if same_digest(&self.active[k].last_hash, &hash) {
            return None;
        }
        match parse_project(self.active[k].path.text.as_str(), source) {
            Ok(parsed) => {
                let ap = &self.active[k];
                let project = ActiveProject {
                    pid: ap.pid,
                    path: ap.path.copy(),
                    daw: ap.daw,
                    last_hash: hash,
                    is_directory: ap.is_directory,
                };
                self.active.set(k, project);
                assert(self@.active =~= before.update(
                    k as int,
                    ActiveModel { last_hash: digest_of(hash), ..before[k as int] },
                ));
                Some(WatchEvent::ProjectChanged { parsed })
            },
            Err(error) => Some(WatchEvent::ParseError { path: path.text.clone(), error }),
        }
    }
}

// ---------------------------------------------------------------------------
// Laws
// ---------------------------------------------------------------------------

/// Content that was parsed is not parsed again while it stays the same.
pub proof fn law_parsed_once(
    list: Seq<ActiveModel>,
    path: PathModel,
    hash: Option<Seq<u8>>,
    parsed: ParsedModel,
)
    ensures
        due_parse(after_check(list, path, hash, Ok(parsed)), path, hash) is None,
{
    lemma_path_from(list, path.parts, 0);
    let after = after_check(list, path, hash, Ok(parsed));
    if let Some(k) = path_index(list, path.parts) {
        lemma_same_paths(list, after, path.parts, 0);
    }
}

/// A search by path finds the same index in lists with the same paths.
proof fn lemma_same_paths(a: Seq<ActiveModel>, b: Seq<ActiveModel>, parts: Seq<Seq<char>>, i: int)
    requires
        0 <= i,
        a.len() == b.len(),
        forall|k: int|
            #![trigger b[k]]
            0 <= k < a.len() ==> a[k].path.parts == b[k].path.parts,
    ensures
        path_from(a, parts, i) == path_from(b, parts, i),
    decreases a.len() - i,
{
    if i < a.len() {
        assert(a[i].path.parts == b[i].path.parts);
        lemma_same_paths(a, b, parts, i + 1);
    }
}

/// Content that could not be parsed is parsed again at the next look, and what was
/// parsed before it stays in place.
pub proof fn law_failed_parse_is_retried(
    list: Seq<ActiveModel>,
    path: PathModel,
    hash: Option<Seq<u8>>,
    error: Seq<char>,
)
    ensures
        after_check(list, path, hash, Err(error)) == list,
        due_parse(after_check(list, path, hash, Err(error)), path, hash) == due_parse(
            list,
            path,
            hash,
        ),
{
}

/// A project whose first parse failed is parsed as soon as its content can be hashed.
pub proof fn law_failed_opening_is_retried(
    list: Seq<ActiveModel>,
    pid: u32,
    path: PathModel,
    daw: DawKind,
    is_directory: bool,
    hash: Option<Seq<u8>>,
    error: Seq<char>,
    later: Seq<u8>,
)
    requires
        path_index(list, path.parts) is None,
    ensures
        due_parse(
            with_active(list, registered(pid, path, daw, is_directory, hash, Err(error))),
            path,
            Some(later),
        ) == Some(daw),
{
    let p = registered(pid, path, daw, is_directory, hash, Err(error));
    let now = with_active(list, p);
    lemma_path_from(list, path.parts, 0);
    lemma_pid_from(list, pid, 0);
    lemma_path_from(now, path.parts, 0);
    let at = match pid_index(list, pid) {
        Some(k) => k,
        None => list.len() as int,
    };
    assert(now[at] == p);
    assert forall|i: int| 0 <= i < now.len() && i != at implies (#[trigger] now[i]).path.parts
        != path.parts by {
        assert(now[i] == list[i]);
    }
}

/// Tracking a project gives its process that project, and leaves the other processes
/// with theirs.
pub proof fn law_registered(list: Seq<ActiveModel>, p: ActiveModel)
    ensures
        with_active(list, p).contains(p),
        forall|i: int|
            #![trigger list[i]]
            0 <= i < list.len() && list[i].pid != p.pid ==> with_active(list, p)[i] == list[i],
        with_active(list, p).len() == list.len() + if pid_index(list, p.pid) is None {
            1int
        } else {
            0int
        },
{
    lemma_pid_from(list, p.pid, 0);
    match pid_index(list, p.pid) {
        Some(k) => {
            assert(list.update(k, p)[k] == p);
        },
        None => {
            assert(list.push(p)[list.len() as int] == p);
        },
    }
}

/// The live projects of a list, and how many are not.
proof fn lemma_still_live(list: Seq<ActiveModel>, live: Seq<u32>)
    ensures
        still_live(list, live).len() + closed_events(list, live).len() == list.len(),
        forall|p: ActiveModel| #[trigger]
            still_live(list, live).contains(p) <==> list.contains(p) && live.contains(p.pid),
    decreases list.len(),
{
    if list.len() > 0 {
        let fewer = list.drop_last();
        let last = list.last();
        lemma_still_live(fewer, live);
        let kept = still_live(fewer, live);
        let now = still_live(list, live);
        assert forall|p: ActiveModel| #[trigger]
            now.contains(p) <==> list.contains(p) && live.contains(p.pid) by {
            assert(list.contains(p) <==> fewer.contains(p) || p == last) by {
                if fewer.contains(p) {
                    let i = choose|i: int| 0 <= i < fewer.len() && fewer[i] == p;
                    assert(list[i] == p);
                }
                if list.contains(p) {
                    let i = choose|i: int| 0 <= i < list.len() && list[i] == p;
                    if i < fewer.len() {
                        assert(fewer[i] == p);
                    }
                }
                assert(list[list.len() - 1] == last);
            }
            if live.contains(last.pid) {
                assert(now.contains(p) <==> kept.contains(p) || p == last) by {
                    if kept.contains(p) {
                        let i = choose|i: int| 0 <= i < kept.len() && kept[i] == p;
                        assert(now[i] == p);
                    }
                    if now.contains(p) {
                        let i = choose|i: int| 0 <= i < now.len() && now[i] == p;
                        if i < kept.len() {
                            assert(kept[i] == p);
                        }
                    }
                    assert(now[now.len() - 1] == last);
                }
            }
        }
    }
}

/// After the stale projects are dropped exactly those of live processes are left, and
/// every other one was said to be closed.
pub proof fn law_stale_projects_closed(list: Seq<ActiveModel>, live: Seq<u32>)
    ensures
        forall|p: ActiveModel| #[trigger]
            still_live(list, live).contains(p) <==> list.contains(p) && live.contains(p.pid),
        forall|p: ActiveModel| #[trigger]
            list.contains(p) && !live.contains(p.pid) ==> closed_events(list, live).contains(
                EventModel::ProjectClosed { path: p.path.text, daw: p.daw },
            ),
        still_live(list, live).len() + closed_events(list, live).len() == list.len(),
    decreases list.len(),
{
    lemma_still_live(list, live);
    if list.len() > 0 {
        let fewer = list.drop_last();
        let last = list.last();
        law_stale_projects_closed(fewer, live);
        let said = closed_events(fewer, live);
        let now = closed_events(list, live);
        assert forall|p: ActiveModel| #[trigger]
            list.contains(p) && !live.contains(p.pid) implies now.contains(
            EventModel::ProjectClosed { path: p.path.text, daw: p.daw },
        ) by {
            let event = EventModel::ProjectClosed { path: p.path.text, daw: p.daw };
            let i = choose|i: int| 0 <= i < list.len() && list[i] == p;
            if i < fewer.len() {
                assert(fewer[i] == p);
                assert(fewer.contains(p));
                let j = choose|j: int| 0 <= j < said.len() && said[j] == event;
                assert(now[j] == event);
            } else {
                assert(now[now.len() - 1] == event);
            }
        }
    }
}

/// No project is lost while it waits: one that waits is either due or waits on, and
/// what waits on is not due.
pub proof fn law_pending_settles(list: Seq<PendingModel>, now: u64)
    ensures
        due(list, now).len() + not_due(list, now).len() == list.len(),
        forall|i: int|
            #![trigger not_due(list, now)[i]]
            0 <= i < not_due(list, now).len() ==> not_due(list, now)[i].deadline > now,
        forall|p: PendingModel| #[trigger]
            list.contains(p) ==> if p.deadline <= now {
                due(list, now).contains(p.path)
            } else {
                not_due(list, now).contains(p)
            },
    decreases list.len(),
{
    if list.len() > 0 {
        let fewer = list.drop_last();
        let last = list.last();
        law_pending_settles(fewer, now);
        assert forall|p: PendingModel| #[trigger] list.contains(p) implies if p.deadline <= now {
            due(list, now).contains(p.path)
        } else {
            not_due(list, now).contains(p)
        } by {
            let i = choose|i: int| 0 <= i < list.len() && list[i] == p;
            if i < fewer.len() {
                assert(fewer[i] == p);
                assert(fewer.contains(p));
                if p.deadline <= now {
                    let was = due(fewer, now);
                    let j = choose|j: int| 0 <= j < was.len() && was[j] == p.path;
                    assert(due(list, now)[j] == p.path);
                } else {
                    let was = not_due(fewer, now);
                    let j = choose|j: int| 0 <= j < was.len() && was[j] == p;
                    assert(not_due(list, now)[j] == p);
                }
            } else {
                assert(p == last);
                if p.deadline <= now {
                    let all = due(list, now);
                    assert(all[all.len() - 1] == p.path);
                } else {
                    let all = not_due(list, now);
                    assert(all[all.len() - 1] == p);
                }
            }
        }
    }
}

/// A write in a project that is tracked lets it wait until the DAW has had time to
/// finish: no earlier deadline is left for it.
pub proof fn law_change_waits(list: Seq<PendingModel>, path: PathModel, deadline: u64)
    ensures
        exists|i: int|
            0 <= i < with_pending(list, path, deadline).len() && (#[trigger] with_pending(
                list,
                path,
                deadline,
            )[i]).path.parts == path.parts && with_pending(list, path, deadline)[i].deadline
                == deadline,
{
    lemma_pending_from(list, path.parts, 0);
    let now = with_pending(list, path, deadline);
    match pending_from(list, path.parts, 0) {
        Some(k) => {
            assert(now[k].path.parts == path.parts && now[k].deadline == deadline);
        },
        None => {
            let k = list.len() as int;
            assert(now[k].path.parts == path.parts && now[k].deadline == deadline);
        },
    }
}

/// The live projects of a list stand in it in the same order.
proof fn lemma_live_distinct(list: Seq<ActiveModel>, live: Seq<u32>)
    requires
        forall|i: int, j: int|
            #![trigger list[i], list[j]]
            0 <= i < j < list.len() ==> list[i].pid != list[j].pid,
    ensures
        forall|i: int, j: int|
            #![trigger still_live(list, live)[i], still_live(list, live)[j]]
            0 <= i < j < still_live(list, live).len() ==> still_live(list, live)[i].pid
                != still_live(list, live)[j].pid,
    decreases list.len(),
{
    if list.len() > 0 {
        let fewer = list.drop_last();
        assert forall|i: int, j: int|
            #![trigger fewer[i], fewer[j]]
            0 <= i < j < fewer.len() implies fewer[i].pid != fewer[j].pid by {
            assert(fewer[i] == list[i] && fewer[j] == list[j]);
        }
        lemma_live_distinct(fewer, live);
        lemma_still_live(fewer, live);
        let kept = still_live(fewer, live);
        let now = still_live(list, live);
        assert forall|i: int, j: int|
            #![trigger now[i], now[j]]
            0 <= i < j < now.len() implies now[i].pid != now[j].pid by {
            assert(now[i] == kept[i]);
            if j < kept.len() {
                assert(now[j] == kept[j]);
            } else {
                assert(kept.contains(kept[i]));
                assert(fewer.contains(kept[i]));
                let a = choose|a: int| 0 <= a < fewer.len() && fewer[a] == kept[i];
                assert(list[a].pid != list[list.len() - 1].pid);
            }
        }
    }
}

/// What waits on of paths that wait once stands in the list, and waits once.
proof fn lemma_not_due_distinct(list: Seq<PendingModel>, now: u64)
    requires
        forall|i: int, j: int|
            #![trigger list[i], list[j]]
            0 <= i < j < list.len() ==> list[i].path.parts != list[j].path.parts,
    ensures
        forall|i: int|
            #![trigger not_due(list, now)[i]]
            0 <= i < not_due(list, now).len() ==> list.contains(not_due(list, now)[i]),
        forall|i: int, j: int|
            #![trigger not_due(list, now)[i], not_due(list, now)[j]]
            0 <= i < j < not_due(list, now).len() ==> not_due(list, now)[i].path.parts
                != not_due(list, now)[j].path.parts,
    decreases list.len(),
{
    if list.len() > 0 {
        let fewer = list.drop_last();
        assert forall|i: int, j: int|
            #![trigger fewer[i], fewer[j]]
            0 <= i < j < fewer.len() implies fewer[i].path.parts != fewer[j].path.parts by {
            assert(fewer[i] == list[i] && fewer[j] == list[j]);
        }
        lemma_not_due_distinct(fewer, now);
        let kept = not_due(fewer, now);
        let all = not_due(list, now);
        assert forall|i: int|
            #![trigger all[i]]
            0 <= i < all.len() implies list.contains(all[i]) by {
            if i < kept.len() {
                assert(all[i] == kept[i]);
                let a = choose|a: int| 0 <= a < fewer.len() && fewer[a] == kept[i];
                assert(list[a] == kept[i]);
            } else {
                assert(list[list.len() - 1] == all[i]);
            }
        }
        assert forall|i: int, j: int|
            #![trigger all[i], all[j]]
            0 <= i < j < all.len() implies all[i].path.parts != all[j].path.parts by {
            assert(all[i] == kept[i]);
            if j < kept.len() {
                assert(all[j] == kept[j]);
            } else {
                let a = choose|a: int| 0 <= a < fewer.len() && fewer[a] == kept[i];
                assert(list[a].path.parts != list[list.len() - 1].path.parts);
            }
        }
    }
}

/// Every step keeps the state consistent: tracking a project, looking at its content,
/// dropping the stale ones, letting a path wait and taking the settled ones.
pub proof fn law_steps_keep_consistency(
    s: StateModel,
    p: ActiveModel,
    path: PathModel,
    hash: Option<Seq<u8>>,
    result: Result<ParsedModel, Seq<char>>,
    live: Seq<u32>,
    deadline: u64,
)
    requires
        is_consistent(s),
    ensures
        is_consistent((StateModel { active: with_active(s.active, p), ..s })),
        is_consistent((StateModel { active: after_check(s.active, path, hash, result), ..s })),
        is_consistent((StateModel { active: still_live(s.active, live), ..s })),
        is_consistent((StateModel { pending: with_pending(s.pending, path, deadline), ..s })),
        is_consistent((StateModel { pending: not_due(s.pending, deadline), ..s })),
{
    let list = s.active;
    lemma_pid_from(list, p.pid, 0);
    let with = with_active(list, p);
    assert forall|i: int, j: int|
        #![trigger with[i], with[j]]
        0 <= i < j < with.len() implies with[i].pid != with[j].pid by {
        match pid_index(list, p.pid) {
            Some(k) => {
                assert(with[i].pid == list[i].pid && with[j].pid == list[j].pid);
            },
            None => {
                assert(with[i] == list[i]);
                if j < list.len() {
                    assert(with[j] == list[j]);
                }
            },
        }
    }
    lemma_path_from(list, path.parts, 0);
    let checked = after_check(list, path, hash, result);
    assert forall|i: int, j: int|
        #![trigger checked[i], checked[j]]
        0 <= i < j < checked.len() implies checked[i].pid != checked[j].pid by {
        assert(checked[i].pid == list[i].pid && checked[j].pid == list[j].pid);
    }
    lemma_live_distinct(list, live);
    let waiting = s.pending;
    lemma_pending_from(waiting, path.parts, 0);
    let more = with_pending(waiting, path, deadline);
    assert forall|i: int, j: int|
        #![trigger more[i], more[j]]
        0 <= i < j < more.len() implies more[i].path.parts != more[j].path.parts by {
        match pending_from(waiting, path.parts, 0) {
            Some(k) => {
                assert(more[i].path == waiting[i].path && more[j].path == waiting[j].path);
            },
            None => {
                assert(more[i] == waiting[i]);
                if j < waiting.len() {
                    assert(more[j] == waiting[j]);
                }
            },
        }
    }
    lemma_not_due_distinct(waiting, deadline);
}

} // verus!
