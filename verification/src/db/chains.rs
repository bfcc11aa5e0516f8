//! Saving a chain with its slots in one transaction, and reading it back.
use vstd::prelude::*;

use crate::db::{slot_models, ChainDetail, ChainModel, ChainRecord, ChainSlotRecord, ChainSlotRow, SlotModel};
use crate::text::{copy_opt, opt_text};

verus! {

// ---------------------------------------------------------------------------
// Statements
// ---------------------------------------------------------------------------

/// Inserts a chain, or updates the one with its `sync_id`.
pub const UPSERT_CHAIN: &'static str =
    "INSERT INTO chains (sync_id, name, daw, source_track, notes, tags, device_id)
     VALUES (?1, ?2, ?3, ?4, ?5, ?6, ?7)
     ON CONFLICT(sync_id) DO UPDATE SET
         name         = excluded.name,
         daw          = excluded.daw,
         source_track = excluded.source_track,
         notes        = excluded.notes,
         tags         = excluded.tags,
         updated_at   = strftime('%Y-%m-%dT%H:%M:%SZ', 'now')";

/// The row id of a chain. The last inserted row id says nothing after an update.
pub const FIND_CHAIN: &'static str = "SELECT id FROM chains WHERE sync_id = ?1";

/// Removes the slots of a chain.
pub const DELETE_SLOTS: &'static str = "DELETE FROM chain_slots WHERE chain_id = ?1";

/// Adds a slot to a chain.
pub const INSERT_SLOT: &'static str =
    "INSERT INTO chain_slots
         (chain_id, plugin_id, plugin_identity, position,
          bypass, wet, preset_name, opaque_state)
     VALUES (?1, ?2, ?3, ?4, ?5, ?6, ?7, ?8)";

/// The chains of a device, the last changed one first.
pub const LIST_CHAINS: &'static str =
    "SELECT id, sync_id, name, daw, tags, source_track, created_at
     FROM chains
     WHERE device_id = ?1
     ORDER BY updated_at DESC";

/// A chain without its slots.
pub const GET_CHAIN: &'static str =
    "SELECT id, sync_id, name, daw, source_track, notes, tags, created_at
     FROM chains WHERE id = ?1";

/// The slots of a chain in their order.
pub const GET_SLOTS: &'static str =
    "SELECT id, plugin_id, plugin_identity, position, bypass, wet, preset_name, opaque_state
     FROM chain_slots WHERE chain_id = ?1 ORDER BY position ASC";

/// Removes a chain. Its slots go with it.
pub const DELETE_CHAIN: &'static str = "DELETE FROM chains WHERE id = ?1";

// ---------------------------------------------------------------------------
// Columns
// ---------------------------------------------------------------------------

/// The columns of a row of the slot table, beside its own id and its chain's.
#[derive(Debug)]
pub struct SlotColumns {
    pub plugin_id: Option<i64>,
    pub plugin_identity: String,
    pub position: i32,
    pub bypass: i32,
    pub wet_bits: u64,
    pub preset_name: Option<String>,
    pub opaque_state: Option<String>,
}

/// What `SlotColumns` holds.
#[verifier::ext_equal]
pub struct ColumnsModel {
    pub plugin_id: Option<i64>,
    pub plugin_identity: Seq<char>,
    pub position: i32,
    pub bypass: i32,
    pub wet_bits: u64,
    pub preset_name: Option<Seq<char>>,
    pub opaque_state: Option<Seq<char>>,
}

/// What a `ChainSlotRecord` holds.
#[verifier::ext_equal]
pub struct SlotRecordModel {
    pub plugin_id: Option<i64>,
    pub plugin_identity: Seq<char>,
    pub position: i32,
    pub bypass: bool,
    pub wet_bits: u64,
    pub preset_name: Option<Seq<char>>,
    pub opaque_state: Option<Seq<char>>,
}

/// What a `ChainRecord` holds.
#[verifier::ext_equal]
pub struct RecordModel {
    pub sync_id: Seq<char>,
    pub name: Seq<char>,
    pub daw: Seq<char>,
    pub source_track: Option<Seq<char>>,
    pub notes: Option<Seq<char>>,
    pub tags: Option<Seq<char>>,
    pub device_id: Seq<char>,
}

impl View for SlotColumns {
    type V = ColumnsModel;

    open spec fn view(&self) -> ColumnsModel {
        ColumnsModel {
            plugin_id: self.plugin_id,
            plugin_identity: self.plugin_identity@,
            position: self.position,
            bypass: self.bypass,
            wet_bits: self.wet_bits,
            preset_name: opt_text(self.preset_name),
            opaque_state: opt_text(self.opaque_state),
        }
    }
}

impl View for ChainSlotRecord {
    type V = SlotRecordModel;

    open spec fn view(&self) -> SlotRecordModel {
        SlotRecordModel {
            plugin_id: self.plugin_id,
            plugin_identity: self.plugin_identity@,
            position: self.position,
            bypass: self.bypass,
            wet_bits: self.wet_bits,
            preset_name: opt_text(self.preset_name),
            opaque_state: opt_text(self.opaque_state),
        }
    }
}

impl View for ChainRecord {
    type V = RecordModel;

    open spec fn view(&self) -> RecordModel {
        RecordModel {
            sync_id: self.sync_id@,
            name: self.name@,
            daw: self.daw@,
            source_track: opt_text(self.source_track),
            notes: opt_text(self.notes),
            tags: opt_text(self.tags),
            device_id: self.device_id@,
        }
    }
}

/// The columns that a slot is saved in. The bypass is saved as one or zero.
pub open spec fn columns_of(s: SlotRecordModel) -> ColumnsModel {
    ColumnsModel {
        plugin_id: s.plugin_id,
        plugin_identity: s.plugin_identity,
        position: s.position,
        bypass: if s.bypass {
            1
        } else {
            0
        },
        wet_bits: s.wet_bits,
        preset_name: s.preset_name,
        opaque_state: s.opaque_state,
    }
}

/// The slot that a row of the slot table holds. Any bypass but zero is one.
pub open spec fn slot_of(id: i64, c: ColumnsModel) -> SlotModel {
    SlotModel {
        id,
        plugin_id: c.plugin_id,
        plugin_identity: c.plugin_identity,
        position: c.position,
        bypass: c.bypass != 0,
        wet_bits: c.wet_bits,
        preset_name: c.preset_name,
        opaque_state: c.opaque_state,
    }
}

/// The columns that a slot is saved in.
pub fn slot_columns(slot: &ChainSlotRecord) -> (out: SlotColumns)
    ensures
        out@ == columns_of(slot@),
{
    SlotColumns {
        plugin_id: slot.plugin_id,
        plugin_identity: slot.plugin_identity.clone(),
        position: slot.position,
        bypass: if slot.bypass {
            1
        } else {
            0
        },
        wet_bits: slot.wet_bits,
        preset_name: copy_opt(&slot.preset_name),
        opaque_state: copy_opt(&slot.opaque_state),
    }
}

/// The slot that a row of the slot table holds.
pub fn slot_row(id: i64, columns: &SlotColumns) -> (out: ChainSlotRow)
    ensures
        out@ == slot_of(id, columns@),
{
    ChainSlotRow {
        id,
        plugin_id: columns.plugin_id,
        plugin_identity: columns.plugin_identity.clone(),
        position: columns.position,
        bypass: columns.bypass != 0,
        wet_bits: columns.wet_bits,
        preset_name: copy_opt(&columns.preset_name),
        opaque_state: copy_opt(&columns.opaque_state),
    }
}

/// A slot that was saved reads back as it was.
pub proof fn law_slot_columns(id: i64, s: SlotRecordModel)
    ensures
        ({
            let read = slot_of(id, columns_of(s));
            &&& read.id == id
            &&& read.plugin_id == s.plugin_id
            &&& read.plugin_identity == s.plugin_identity
            &&& read.position == s.position
            &&& read.bypass == s.bypass
            &&& read.wet_bits == s.wet_bits
            &&& read.preset_name == s.preset_name
            &&& read.opaque_state == s.opaque_state
        }),
{
}

/// Each row of the slot table with its id.
pub open spec fn slots_of(rows: Seq<(i64, SlotColumns)>) -> Seq<SlotModel> {
    rows.map_values(|r: (i64, SlotColumns)| slot_of(r.0, r.1@))
}

/// The chain of a row of the chain table and the rows of its slots. Without a row
/// there is no chain.
pub fn get_chain(header: Option<ChainDetail>, rows: &Vec<(i64, SlotColumns)>) -> (out: Option<
    ChainDetail,
>)
    ensures
        match header {
            Some(h) => out is Some && out->0@ == (ChainModel { slots: slots_of(rows@), ..h@ }),
            None => out is None,
        },
{
    let mut chain = match header {
        Some(h) => h,
        None => return None,
    };
    let mut slots: Vec<ChainSlotRow> = Vec::new();
    let ghost all = slots_of(rows@);
    assert(slot_models(slots@) =~= all.take(0));
    for i in 0..rows.len()
        invariant
            all == slots_of(rows@),
            slot_models(slots@) == all.take(i as int),
    {
        let ghost before = slot_models(slots@);
        slots.push(slot_row(rows[i].0, &rows[i].1));
        assert(slot_models(slots@) =~= before.push(all[i as int]));
        assert(all.take(i + 1) =~= all.take(i as int).push(all[i as int]));
    }
    assert(all.take(all.len() as int) =~= all);
    chain.slots = slots;
    Some(chain)
}

// ---------------------------------------------------------------------------
// Saving
// ---------------------------------------------------------------------------

/// The step that a save has come to, and with it the statement to run next.
#[derive(Debug, Clone, Copy, PartialEq, Eq, Structural)]
pub enum SavePhase {
    /// Open the transaction.
    Begin,
    /// Insert or update the chain.
    Upsert,
    /// Ask for the row id of the chain.
    Find,
    /// Remove the slots that the chain had.
    Clear(i64),
    /// Insert the slot at an index.
    Insert(i64, usize),
    /// Keep the changes.
    Commit(i64),
    /// Drop the changes.
    Rollback,
    /// The chain is saved under this row id.
    Saved(i64),
    /// The save failed with the first error that a statement gave.
    Failed,
}

/// What a statement came to.
#[derive(Debug, Clone, Copy, PartialEq, Eq, Structural)]
pub enum StepOutcome {
    Done,
    /// The row id that the database gave.
    Found(i64),
    Error,
}

/// The step after the one that came to `outcome`, for a chain of `slots` slots. An
/// error before the transaction is open, or in keeping the changes, ends the save; any
/// other error drops the changes first.
pub open spec fn next_phase(phase: SavePhase, outcome: StepOutcome, slots: usize) -> SavePhase {
    match phase {
        SavePhase::Begin => if outcome == StepOutcome::Error {
            SavePhase::Failed
        } else {
            SavePhase::Upsert
        },
        SavePhase::Upsert => if outcome == StepOutcome::Error {
            SavePhase::Rollback
        } else {
            SavePhase::Find
        },
        SavePhase::Find => match outcome {
            StepOutcome::Found(id) => SavePhase::Clear(id),
            _ => SavePhase::Rollback,
        },
        SavePhase::Clear(id) => if outcome == StepOutcome::Error {
            SavePhase::Rollback
        } else if slots == 0 {
            SavePhase::Commit(id)
        } else {
            SavePhase::Insert(id, 0)
        },
        SavePhase::Insert(id, i) => if outcome == StepOutcome::Error {
            SavePhase::Rollback
        } else if i + 1 < slots {
            SavePhase::Insert(id, (i + 1) as usize)
        } else {
            SavePhase::Commit(id)
        },
        SavePhase::Commit(id) => if outcome == StepOutcome::Error {
            SavePhase::Failed
        } else {
            SavePhase::Saved(id)
        },
        SavePhase::Rollback => SavePhase::Failed,
        SavePhase::Saved(id) => SavePhase::Saved(id),
        SavePhase::Failed => SavePhase::Failed,
    }
}

/// The step after the one that came to `outcome`, for a chain of `slots` slots.
pub fn save_chain(phase: SavePhase, outcome: StepOutcome, slots: usize) -> (out: SavePhase)
    ensures
        out == next_phase(phase, outcome, slots),
{
    let failed = outcome == StepOutcome::Error;
    match phase {
        SavePhase::Begin => if failed {
            SavePhase::Failed
        } else {
            SavePhase::Upsert
        },
        SavePhase::Upsert => if failed {
            SavePhase::Rollback
        } else {
            SavePhase::Find
        },
        SavePhase::Find => match outcome {
            StepOutcome::Found(id) => SavePhase::Clear(id),
            _ => SavePhase::Rollback,
        },
        SavePhase::Clear(id) => if failed {
            SavePhase::Rollback
        } else if slots == 0 {
            SavePhase::Commit(id)
        } else {
            SavePhase::Insert(id, 0)
        },
        SavePhase::Insert(id, i) => if failed {
            SavePhase::Rollback
        } else if i < slots && i + 1 < slots {
            SavePhase::Insert(id, i + 1)
        } else {
            SavePhase::Commit(id)
        },
        SavePhase::Commit(id) => if failed {
            SavePhase::Failed
        } else {
            SavePhase::Saved(id)
        },
        SavePhase::Rollback => SavePhase::Failed,
        SavePhase::Saved(id) => SavePhase::Saved(id),
        SavePhase::Failed => SavePhase::Failed,
    }
}

// ---------------------------------------------------------------------------
// What the statements do to the tables
// ---------------------------------------------------------------------------

/// A row of the chain table.
#[verifier::ext_equal]
pub struct ChainEntry {
    pub id: i64,
    pub record: RecordModel,
    pub created_at: Seq<char>,
}

/// What the database gives a row that it inserts: an id that no row has, and the time.
#[verifier::ext_equal]
pub struct FreshRow {
    pub id: i64,
    pub created_at: Seq<char>,
}

/// The chain tables: the rows of the chains by `sync_id`, and the slots of each row id by
/// position.
#[verifier::ext_equal]
pub struct ChainTables {
    pub chains: Map<Seq<char>, ChainEntry>,
    pub slots: Map<i64, Map<i32, ColumnsModel>>,
}

/// A database: the tables that are kept, and those of the open transaction.
#[verifier::ext_equal]
pub struct ChainStore {
    pub kept: ChainTables,
    pub open: Option<ChainTables>,
}

/// The tables after a chain is inserted as the row `fresh`, or updated in the row that it
/// has. An update leaves the id, the device and the date of the row as they were.
pub open spec fn upserted(t: ChainTables, c: RecordModel, fresh: FreshRow) -> ChainTables {
    let row = if t.chains.contains_key(c.sync_id) {
        let had = t.chains[c.sync_id];
        ChainEntry { record: RecordModel { device_id: had.record.device_id, ..c }, ..had }
    } else {
        ChainEntry { id: fresh.id, record: c, created_at: fresh.created_at }
    };
    ChainTables { chains: t.chains.insert(c.sync_id, row), slots: t.slots }
}

/// The slots by position.
pub open spec fn by_position(slots: Seq<SlotRecordModel>) -> Map<i32, ColumnsModel>
    decreases slots.len(),
{
    if slots.len() == 0 {
        Map::empty()
    } else {
        by_position(slots.drop_last()).insert(slots.last().position, columns_of(slots.last()))
    }
}

/// The tables with the chain and exactly its slots.
pub open spec fn with_chain(
    t: ChainTables,
    c: RecordModel,
    slots: Seq<SlotRecordModel>,
    fresh: FreshRow,
) -> ChainTables {
    let u = upserted(t, c, fresh);
    ChainTables { chains: u.chains, slots: u.slots.insert(u.chains[c.sync_id].id, by_position(slots)) }
}

/// Whether the statement of a step runs. It runs where the database is able to
/// (`able`), but a slot at a position that the chain already has is refused.
pub open spec fn runs(phase: SavePhase, s: ChainStore, slots: Seq<SlotRecordModel>, able: bool) -> bool {
    able && match (phase, s.open) {
        (SavePhase::Insert(id, i), Some(t)) => !(t.slots[id].contains_key(slots[i as int].position)),
        _ => true,
    }
}

/// What the statement of a step comes to.
pub open spec fn outcome_of(
    phase: SavePhase,
    s: ChainStore,
    c: RecordModel,
    slots: Seq<SlotRecordModel>,
    able: bool,
) -> StepOutcome {
    if !runs(phase, s, slots, able) {
        StepOutcome::Error
    } else if phase is Find && s.open is Some {
        StepOutcome::Found(s.open->0.chains[c.sync_id].id)
    } else {
        StepOutcome::Done
    }
}

/// The database after the statement of a step. One that is refused changes nothing,
/// except that dropping the changes leaves no transaction.
pub open spec fn effect(
    phase: SavePhase,
    s: ChainStore,
    c: RecordModel,
    slots: Seq<SlotRecordModel>,
    fresh: FreshRow,
    able: bool,
) -> ChainStore {
    if !runs(phase, s, slots, able) {
        s
    } else {
        match (phase, s.open) {
            (SavePhase::Begin, _) => ChainStore { kept: s.kept, open: Some(s.kept) },
            (SavePhase::Upsert, Some(t)) => ChainStore {
                kept: s.kept,
                open: Some(upserted(t, c, fresh)),
            },
            (SavePhase::Clear(id), Some(t)) => ChainStore {
                kept: s.kept,
                open: Some(ChainTables { chains: t.chains, slots: t.slots.insert(id, Map::empty()) }),
            },
            (SavePhase::Insert(id, i), Some(t)) => ChainStore {
                kept: s.kept,
                open: Some(
                    ChainTables {
                        chains: t.chains,
                        slots: t.slots.insert(
                            id,
                            t.slots[id].insert(
                                slots[i as int].position,
                                columns_of(slots[i as int]),
                            ),
                        ),
                    },
                ),
            },
            (SavePhase::Commit(_), Some(t)) => ChainStore { kept: t, open: None },
            (SavePhase::Rollback, _) => ChainStore { kept: s.kept, open: None },
            _ => s,
        }
    }
}

/// The step and the database that a save comes to, from `phase` on: the `k`-th
/// statement runs where `able[k]` holds.
pub open spec fn save_run(
    phase: SavePhase,
    s: ChainStore,
    c: RecordModel,
    slots: Seq<SlotRecordModel>,
    fresh: FreshRow,
    able: Seq<bool>,
) -> (SavePhase, ChainStore)
    decreases able.len(),
{
    if able.len() == 0 {
        (phase, s)
    } else {
        let outcome = outcome_of(phase, s, c, slots, able[0]);
        save_run(
            next_phase(phase, outcome, slots.len() as usize),
            effect(phase, s, c, slots, fresh, able[0]),
            c,
            slots,
            fresh,
            able.skip(1),
        )
    }
}

/// No two slots have one position.
pub open spec fn positions_differ(slots: Seq<SlotRecordModel>) -> bool {
    forall|i: int, j: int|
        #![trigger slots[i], slots[j]]
        0 <= i < j < slots.len() ==> slots[i].position != slots[j].position
}

/// The slots by position hold every slot, and nothing else.
proof fn lemma_by_position(slots: Seq<SlotRecordModel>)
    ensures
        forall|p: i32| #[trigger]
            by_position(slots).contains_key(p) <==> exists|i: int|
                0 <= i < slots.len() && (#[trigger] slots[i]).position == p,
        positions_differ(slots) ==> forall|i: int|
            #![trigger slots[i]]
            0 <= i < slots.len() ==> by_position(slots)[slots[i].position] == columns_of(slots[i]),
    decreases slots.len(),
{
    if slots.len() > 0 {
        let fewer = slots.drop_last();
        let last = slots.last();
        lemma_by_position(fewer);
        assert forall|p: i32| #[trigger]
            by_position(slots).contains_key(p) <==> exists|i: int|
                0 <= i < slots.len() && (#[trigger] slots[i]).position == p by {
            if by_position(fewer).contains_key(p) {
                let i = choose|i: int| 0 <= i < fewer.len() && (#[trigger] fewer[i]).position == p;
                assert(slots[i].position == p);
            }
            if p == last.position {
                assert(slots[slots.len() - 1].position == p);
            }
            if exists|i: int| 0 <= i < slots.len() && (#[trigger] slots[i]).position == p {
                let i = choose|i: int| 0 <= i < slots.len() && (#[trigger] slots[i]).position == p;
                if i < fewer.len() {
                    assert(fewer[i].position == p);
                }
            }
        }
        if positions_differ(slots) {
            assert(positions_differ(fewer)) by {
                assert forall|i: int, j: int|
                    #![trigger fewer[i], fewer[j]]
                    0 <= i < j < fewer.len() implies fewer[i].position != fewer[j].position by {
                    assert(fewer[i] == slots[i] && fewer[j] == slots[j]);
                }
            }
            assert forall|i: int|
                #![trigger slots[i]]
                0 <= i < slots.len() implies by_position(slots)[slots[i].position] == columns_of(
                slots[i],
            ) by {
                if i < fewer.len() {
                    assert(fewer[i] == slots[i]);
                    assert(slots[i].position != slots[slots.len() - 1].position);
                }
            }
        }
    }
}

/// What holds of the database at each step of a save that began with the tables `t`.
pub open spec fn save_invariant(
    phase: SavePhase,
    s: ChainStore,
    t: ChainTables,
    c: RecordModel,
    slots: Seq<SlotRecordModel>,
    fresh: FreshRow,
) -> bool {
    let u = upserted(t, c, fresh);
    match phase {
        SavePhase::Begin => s.kept == t,
        SavePhase::Upsert => s.kept == t && s.open == Some(t),
        SavePhase::Find => s.kept == t && s.open == Some(u),
        SavePhase::Clear(id) => s.kept == t && s.open == Some(u) && id == u.chains[c.sync_id].id,
        SavePhase::Insert(id, i) => {
            &&& s.kept == t
            &&& i < slots.len()
            &&& id == u.chains[c.sync_id].id
            &&& positions_differ(slots.take(i as int))
            &&& s.open == Some(with_chain(t, c, slots.take(i as int), fresh))
        },
        SavePhase::Commit(id) => {
            &&& s.kept == t
            &&& id == u.chains[c.sync_id].id
            &&& positions_differ(slots)
            &&& s.open == Some(with_chain(t, c, slots, fresh))
        },
        SavePhase::Rollback => s.kept == t,
        SavePhase::Saved(id) => {
            &&& s.kept == with_chain(t, c, slots, fresh)
            &&& id == u.chains[c.sync_id].id
            &&& positions_differ(slots)
        },
        SavePhase::Failed => s.kept == t,
    }
}

/// A step keeps the invariant.
proof fn lemma_save_step(
    phase: SavePhase,
    s: ChainStore,
    t: ChainTables,
    c: RecordModel,
    slots: Seq<SlotRecordModel>,
    fresh: FreshRow,
    able: bool,
)
    requires
        save_invariant(phase, s, t, c, slots, fresh),
        slots.len() <= usize::MAX,
    ensures
        save_invariant(
            next_phase(phase, outcome_of(phase, s, c, slots, able), slots.len() as usize),
            effect(phase, s, c, slots, fresh, able),
            t,
            c,
            slots,
            fresh,
        ),
{
    let u = upserted(t, c, fresh);
    let after = effect(phase, s, c, slots, fresh, able);
    if runs(phase, s, slots, able) {
        match phase {
            SavePhase::Clear(id) => {
                let none = slots.take(0);
                assert(by_position(none) =~= Map::empty());
                assert(after.open->0 =~= with_chain(t, c, none, fresh));
                if slots.len() == 0 {
                    assert(none =~= slots);
                }
            },
            SavePhase::Insert(id, i) => {
                let done = slots.take(i as int);
                let more = slots.take(i + 1);
                let slot = slots[i as int];
                assert(more.drop_last() =~= done);
                assert(more.last() == slot);
                lemma_by_position(done);
                let had = with_chain(t, c, done, fresh);
                assert(had.slots[id] == by_position(done));
                assert(by_position(more) == by_position(done).insert(slot.position, columns_of(slot)));
                assert(after.open->0.slots =~= with_chain(t, c, more, fresh).slots);
                assert(after.open->0 =~= with_chain(t, c, more, fresh));
                assert(positions_differ(more)) by {
                    assert forall|a: int, b: int|
                        #![trigger more[a], more[b]]
                        0 <= a < b < more.len() implies more[a].position != more[b].position by {
                        assert(more[a] == done[a]);
                        if b < i {
                            assert(more[b] == done[b]);
                        } else {
                            assert(more[b] == slot);
                        }
                    }
                }
                if i + 1 == slots.len() {
                    assert(more =~= slots);
                }
            },
            _ => {},
        }
    }
}

/// Every step of a save keeps the invariant.
proof fn lemma_save_run(
    phase: SavePhase,
    s: ChainStore,
    t: ChainTables,
    c: RecordModel,
    slots: Seq<SlotRecordModel>,
    fresh: FreshRow,
    able: Seq<bool>,
)
    requires
        save_invariant(phase, s, t, c, slots, fresh),
        slots.len() <= usize::MAX,
    ensures
        save_invariant(
            save_run(phase, s, c, slots, fresh, able).0,
            save_run(phase, s, c, slots, fresh, able).1,
            t,
            c,
            slots,
            fresh,
        ),
    decreases able.len(),
{
    if able.len() > 0 {
        lemma_save_step(phase, s, t, c, slots, fresh, able[0]);
        let outcome = outcome_of(phase, s, c, slots, able[0]);
        lemma_save_run(
            next_phase(phase, outcome, slots.len() as usize),
            effect(phase, s, c, slots, fresh, able[0]),
            t,
            c,
            slots,
            fresh,
            able.skip(1),
        );
    }
}

/// A save happens as a whole or not at all: whichever statements the database refuses,
/// the kept tables are those of before until the save is done, and then they hold the
/// chain and exactly its slots in place of those it had.
pub proof fn law_save_is_atomic(
    t: ChainTables,
    c: RecordModel,
    slots: Seq<SlotRecordModel>,
    fresh: FreshRow,
    able: Seq<bool>,
)
    requires
        slots.len() <= usize::MAX,
    ensures
        ({
            let (phase, s) = save_run(
                SavePhase::Begin,
                ChainStore { kept: t, open: None },
                c,
                slots,
                fresh,
                able,
            );
            match phase {
                SavePhase::Saved(id) => {
                    &&& s.kept == with_chain(t, c, slots, fresh)
                    &&& s.kept.chains[c.sync_id].id == id
                },
                _ => s.kept == t,
            }
        }),
{
    lemma_save_run(
        SavePhase::Begin,
        ChainStore { kept: t, open: None },
        t,
        c,
        slots,
        fresh,
        able,
    );
}

/// A saved chain reads back: under its row id every slot stands at its position, and
/// no other slot does. The slots of other chains are as they were.
pub proof fn law_saved_chain_reads_back(
    t: ChainTables,
    c: RecordModel,
    slots: Seq<SlotRecordModel>,
    fresh: FreshRow,
    able: Seq<bool>,
    id: i64,
)
    requires
        slots.len() <= usize::MAX,
        save_run(SavePhase::Begin, (ChainStore { kept: t, open: None }), c, slots, fresh, able).0
            == SavePhase::Saved(id),
    ensures
        ({
            let kept = save_run(
                SavePhase::Begin,
                ChainStore { kept: t, open: None },
                c,
                slots,
                fresh,
                able,
            ).1.kept;
            &&& kept.chains[c.sync_id].record.name == c.name
            &&& kept.chains[c.sync_id].record.daw == c.daw
            &&& kept.chains[c.sync_id].record.source_track == c.source_track
            &&& kept.chains[c.sync_id].record.notes == c.notes
            &&& kept.chains[c.sync_id].record.tags == c.tags
            &&& forall|i: int|
                #![trigger slots[i]]
                0 <= i < slots.len() ==> kept.slots[id].contains_key(slots[i].position)
                    && kept.slots[id][slots[i].position] == columns_of(slots[i])
            &&& forall|p: i32| #[trigger]
                kept.slots[id].contains_key(p) ==> exists|i: int|
                    0 <= i < slots.len() && (#[trigger] slots[i]).position == p
            &&& forall|other: i64| other != id ==> #[trigger] kept.slots[other] == t.slots[other]
        }),
{
    let s = ChainStore { kept: t, open: None };
    lemma_save_run(SavePhase::Begin, s, t, c, slots, fresh, able);
    lemma_by_position(slots);
    let kept = save_run(SavePhase::Begin, s, c, slots, fresh, able).1.kept;
    assert(kept.slots[id] == by_position(slots));
    assert forall|i: int|
        #![trigger slots[i]]
        0 <= i < slots.len() implies kept.slots[id].contains_key(slots[i].position)
        && kept.slots[id][slots[i].position] == columns_of(slots[i]) by {
        assert(by_position(slots).contains_key(slots[i].position));
    }
}

/// A chain that is saved again keeps its row, with its id, its device and its date. The
/// rest of the row is that of the new save, exactly the new slots are left, and no other
/// row appears or goes.
pub proof fn law_saved_again(
    t: ChainTables,
    c: RecordModel,
    slots: Seq<SlotRecordModel>,
    fresh: FreshRow,
    able: Seq<bool>,
    id: i64,
)
    requires
        slots.len() <= usize::MAX,
        t.chains.contains_key(c.sync_id),
        save_run(SavePhase::Begin, (ChainStore { kept: t, open: None }), c, slots, fresh, able).0
            == SavePhase::Saved(id),
    ensures
        ({
            let kept = save_run(
                SavePhase::Begin,
                ChainStore { kept: t, open: None },
                c,
                slots,
                fresh,
                able,
            ).1.kept;
            let had = t.chains[c.sync_id];
            &&& id == had.id
            &&& kept.chains[c.sync_id] == (ChainEntry {
                record: RecordModel { device_id: had.record.device_id, ..c },
                ..had
            })
            &&& kept.chains.dom() == t.chains.dom()
            &&& kept.slots[id] == by_position(slots)
        }),
{
    lemma_save_run(
        SavePhase::Begin,
        ChainStore { kept: t, open: None },
        t,
        c,
        slots,
        fresh,
        able,
    );
    let u = upserted(t, c, fresh);
    assert(u.chains.dom() =~= t.chains.dom());
}

// ---------------------------------------------------------------------------
// Reading the tables
// ---------------------------------------------------------------------------

/// No two chains have one row id.
pub open spec fn ids_differ(t: ChainTables) -> bool {
    forall|a: Seq<char>, b: Seq<char>|
        #![trigger t.chains[a], t.chains[b]]
        t.chains.contains_key(a) && t.chains.contains_key(b) && a != b ==> t.chains[a].id
            != t.chains[b].id
}

/// Whether no chain has the row id.
pub open spec fn is_free(t: ChainTables, id: i64) -> bool {
    forall|a: Seq<char>| #[trigger] t.chains.contains_key(a) ==> t.chains[a].id != id
}

/// Whether `h` is what `GET_CHAIN` selects under a row id: the columns of the row of a
/// chain with that id.
pub open spec fn selects_chain(t: ChainTables, id: i64, h: ChainModel) -> bool {
    &&& t.chains.contains_key(h.sync_id)
    &&& t.chains[h.sync_id].id == id
    &&& h.id == id
    &&& h.name == t.chains[h.sync_id].record.name
    &&& h.daw == t.chains[h.sync_id].record.daw
    &&& h.source_track == t.chains[h.sync_id].record.source_track
    &&& h.notes == t.chains[h.sync_id].record.notes
    &&& h.tags == t.chains[h.sync_id].record.tags
    &&& h.created_at == t.chains[h.sync_id].created_at
}

/// Whether rows are what `GET_SLOTS` selects under a row id: the columns of every slot of
/// the chain, in the order of their positions.
pub open spec fn selects_slots(t: ChainTables, id: i64, rows: Seq<(i64, SlotColumns)>) -> bool {
    &&& forall|i: int, j: int|
        #![trigger rows[i], rows[j]]
        0 <= i < j < rows.len() ==> rows[i].1.position < rows[j].1.position
    &&& forall|k: int|
        #![trigger rows[k]]
        0 <= k < rows.len() ==> t.slots[id].contains_key(rows[k].1.position)
            && t.slots[id][rows[k].1.position] == rows[k].1@
    &&& forall|p: i32| #[trigger]
        t.slots[id].contains_key(p) ==> exists|k: int|
            0 <= k < rows.len() && (#[trigger] rows[k]).1.position == p
}

/// Whether a slot that was read is the slot that was saved, under an id of its own.
pub open spec fn is_kept(read: SlotModel, saved: SlotRecordModel) -> bool {
    read == slot_of(read.id, columns_of(saved))
}

/// The rows of the slots of a chain and the slots that were saved are the same, row by
/// row and slot by slot.
proof fn lemma_slots_kept(
    t: ChainTables,
    id: i64,
    slots: Seq<SlotRecordModel>,
    rows: Seq<(i64, SlotColumns)>,
)
    requires
        positions_differ(slots),
        t.slots[id] == by_position(slots),
        selects_slots(t, id, rows),
    ensures
        ({
            let read = slots_of(rows);
            &&& forall|k: int|
                #![trigger read[k]]
                0 <= k < read.len() ==> exists|i: int|
                    0 <= i < slots.len() && is_kept(read[k], #[trigger] slots[i])
            &&& forall|i: int|
                #![trigger slots[i]]
                0 <= i < slots.len() ==> exists|k: int|
                    0 <= k < read.len() && is_kept(#[trigger] read[k], slots[i])
        }),
{
    lemma_by_position(slots);
    let read = slots_of(rows);
    assert forall|k: int|
        #![trigger read[k]]
        0 <= k < read.len() implies exists|i: int|
            0 <= i < slots.len() && is_kept(read[k], #[trigger] slots[i]) by {
        let p = rows[k].1.position;
        assert(by_position(slots).contains_key(p));
        let i = choose|i: int| 0 <= i < slots.len() && (#[trigger] slots[i]).position == p;
        assert(by_position(slots)[slots[i].position] == columns_of(slots[i]));
        assert(is_kept(read[k], slots[i]));
    }
    assert forall|i: int|
        #![trigger slots[i]]
        0 <= i < slots.len() implies exists|k: int|
            0 <= k < read.len() && is_kept(#[trigger] read[k], slots[i]) by {
        let p = slots[i].position;
        assert(by_position(slots).contains_key(p));
        let k = choose|k: int| 0 <= k < rows.len() && (#[trigger] rows[k]).1.position == p;
        assert(by_position(slots)[p] == columns_of(slots[i]));
        assert(is_kept(read[k], slots[i]));
    }
}

/// As many rows are selected as slots were saved.
proof fn lemma_as_many_slots(
    t: ChainTables,
    id: i64,
    slots: Seq<SlotRecordModel>,
    rows: Seq<(i64, SlotColumns)>,
)
    requires
        positions_differ(slots),
        t.slots[id] == by_position(slots),
        selects_slots(t, id, rows),
    ensures
        rows.len() == slots.len(),
{
    lemma_by_position(slots);
    let a = Seq::new(rows.len(), |k: int| rows[k].1.position);
    let b = Seq::new(slots.len(), |i: int| slots[i].position);
    assert(a.no_duplicates()) by {
        assert forall|i: int, j: int| 0 <= i < a.len() && 0 <= j < a.len() && i != j implies a[i]
            != a[j] by {
            if i < j {
                assert(rows[i].1.position < rows[j].1.position);
            } else {
                assert(rows[j].1.position < rows[i].1.position);
            }
        }
    }
    assert(b.no_duplicates()) by {
        assert forall|i: int, j: int| 0 <= i < b.len() && 0 <= j < b.len() && i != j implies b[i]
            != b[j] by {
            if i < j {
                assert(slots[i].position != slots[j].position);
            } else {
                assert(slots[j].position != slots[i].position);
            }
        }
    }
    assert forall|p: i32| a.to_set().contains(p) <==> b.to_set().contains(p) by {
        if a.to_set().contains(p) {
            let k = choose|k: int| 0 <= k < a.len() && a[k] == p;
            assert(rows[k].1.position == p);
            assert(by_position(slots).contains_key(p));
            let i = choose|i: int| 0 <= i < slots.len() && (#[trigger] slots[i]).position == p;
            assert(b[i] == p);
        }
        if b.to_set().contains(p) {
            let i = choose|i: int| 0 <= i < b.len() && b[i] == p;
            assert(slots[i].position == p);
            assert(by_position(slots).contains_key(p));
            let k = choose|k: int| 0 <= k < rows.len() && (#[trigger] rows[k]).1.position == p;
            assert(a[k] == p);
        }
    }
    assert(a.to_set() =~= b.to_set());
    a.unique_seq_to_set();
    b.unique_seq_to_set();
}

/// A chain that was saved reads back: what the tables hold of it under its row id gives
/// the saved chain, and its slots in the order of their positions, each as it was saved,
/// with none lost and none added.
pub proof fn law_chain_reads_back(
    t: ChainTables,
    c: RecordModel,
    slots: Seq<SlotRecordModel>,
    fresh: FreshRow,
    able: Seq<bool>,
    id: i64,
    h: ChainModel,
    rows: Seq<(i64, SlotColumns)>,
)
    requires
        slots.len() <= usize::MAX,
        ids_differ(t),
        is_free(t, fresh.id),
        save_run(SavePhase::Begin, (ChainStore { kept: t, open: None }), c, slots, fresh, able).0
            == SavePhase::Saved(id),
        ({
            let kept = save_run(
                SavePhase::Begin,
                ChainStore { kept: t, open: None },
                c,
                slots,
                fresh,
                able,
            ).1.kept;
            selects_chain(kept, id, h) && selects_slots(kept, id, rows)
        }),
    ensures
        ({
            let read = ChainModel { slots: slots_of(rows), ..h };
            &&& read.id == id
            &&& read.sync_id == c.sync_id
            &&& read.name == c.name
            &&& read.daw == c.daw
            &&& read.source_track == c.source_track
            &&& read.notes == c.notes
            &&& read.tags == c.tags
            &&& read.slots.len() == slots.len()
            &&& forall|i: int, j: int|
                #![trigger read.slots[i], read.slots[j]]
                0 <= i < j < read.slots.len() ==> read.slots[i].position < read.slots[j].position
            &&& forall|k: int|
                #![trigger read.slots[k]]
                0 <= k < read.slots.len() ==> exists|i: int|
                    0 <= i < slots.len() && is_kept(read.slots[k], #[trigger] slots[i])
            &&& forall|i: int|
                #![trigger slots[i]]
                0 <= i < slots.len() ==> exists|k: int|
                    0 <= k < read.slots.len() && is_kept(#[trigger] read.slots[k], slots[i])
        }),
{
    let s = ChainStore { kept: t, open: None };
    let kept = save_run(SavePhase::Begin, s, c, slots, fresh, able).1.kept;
    lemma_save_run(SavePhase::Begin, s, t, c, slots, fresh, able);
    let u = upserted(t, c, fresh);
    assert(kept.chains == u.chains);
    assert(kept.slots[id] == by_position(slots));
    if h.sync_id != c.sync_id {
        assert(t.chains.contains_key(h.sync_id));
        assert(u.chains[h.sync_id] == t.chains[h.sync_id]);
        if t.chains.contains_key(c.sync_id) {
            assert(t.chains[h.sync_id].id != t.chains[c.sync_id].id);
        }
        assert(false);
    }
    lemma_slots_kept(kept, id, slots, rows);
    lemma_as_many_slots(kept, id, slots, rows);
    let read = slots_of(rows);
    assert forall|i: int, j: int|
        #![trigger read[i], read[j]]
        0 <= i < j < read.len() implies read[i].position < read[j].position by {
        assert(rows[i].1.position < rows[j].1.position);
    }
}

/// The steps of a save that nothing hinders.
pub open spec fn steps_needed(slots: Seq<SlotRecordModel>) -> nat {
    slots.len() + 5
}

/// From the insertion of the slot at `i` on, a save that nothing hinders is done.
proof fn lemma_inserts_done(
    id: i64,
    i: int,
    s: ChainStore,
    t: ChainTables,
    c: RecordModel,
    slots: Seq<SlotRecordModel>,
    fresh: FreshRow,
    able: Seq<bool>,
)
    requires
        0 <= i < slots.len() <= usize::MAX,
        positions_differ(slots),
        save_invariant(SavePhase::Insert(id, i as usize), s, t, c, slots, fresh),
        able.len() == slots.len() - i + 1,
        forall|k: int| 0 <= k < able.len() ==> able[k],
    ensures
        save_run(SavePhase::Insert(id, i as usize), s, c, slots, fresh, able).0
            == SavePhase::Saved(id),
    decreases slots.len() - i,
{
    let phase = SavePhase::Insert(id, i as usize);
    let done = slots.take(i);
    lemma_by_position(done);
    assert(with_chain(t, c, done, fresh).slots[id] == by_position(done));
    assert(!by_position(done).contains_key(slots[i].position)) by {
        if by_position(done).contains_key(slots[i].position) {
            let k = choose|k: int|
                0 <= k < done.len() && (#[trigger] done[k]).position == slots[i].position;
            assert(slots[k].position == slots[i].position);
        }
    }
    assert(runs(phase, s, slots, able[0]));
    lemma_save_step(phase, s, t, c, slots, fresh, able[0]);
    let after = effect(phase, s, c, slots, fresh, able[0]);
    if i + 1 < slots.len() {
        lemma_inserts_done(id, i + 1, after, t, c, slots, fresh, able.skip(1));
    } else {
        reveal_with_fuel(save_run, 3);
    }
}

/// A save of slots at different positions is done where the database refuses nothing.
pub proof fn law_save_succeeds(
    t: ChainTables,
    c: RecordModel,
    slots: Seq<SlotRecordModel>,
    fresh: FreshRow,
)
    requires
        slots.len() <= usize::MAX,
        positions_differ(slots),
    ensures
        save_run(
            SavePhase::Begin,
            (ChainStore { kept: t, open: None }),
            c,
            slots,
            fresh,
            Seq::new(steps_needed(slots), |k: int| true),
        ).0 is Saved,
{
    let able = Seq::new(steps_needed(slots), |k: int| true);
    let s0 = ChainStore { kept: t, open: None };
    let id = upserted(t, c, fresh).chains[c.sync_id].id;
    lemma_save_step(SavePhase::Begin, s0, t, c, slots, fresh, true);
    let s1 = effect(SavePhase::Begin, s0, c, slots, fresh, true);
    lemma_save_step(SavePhase::Upsert, s1, t, c, slots, fresh, true);
    let s2 = effect(SavePhase::Upsert, s1, c, slots, fresh, true);
    lemma_save_step(SavePhase::Find, s2, t, c, slots, fresh, true);
    let s3 = effect(SavePhase::Find, s2, c, slots, fresh, true);
    lemma_save_step(SavePhase::Clear(id), s3, t, c, slots, fresh, true);
    let s4 = effect(SavePhase::Clear(id), s3, c, slots, fresh, true);
    let rest = able.skip(1).skip(1).skip(1).skip(1);
    reveal_with_fuel(save_run, 6);
    if slots.len() > 0 {
        lemma_inserts_done(id, 0, s4, t, c, slots, fresh, rest);
    }
}

} // verus!
