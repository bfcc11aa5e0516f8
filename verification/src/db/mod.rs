//! Rows of the plugin and chain tables, and what the library makes of them.
use vstd::hash_map::StringHashMap;
use vstd::prelude::*;

use crate::text::{copy_opt, opt_text};

pub mod chains;
pub mod dossier;
pub mod laws;
pub mod migrations;

verus! {

// ---------------------------------------------------------------------------
// Plugins
// ---------------------------------------------------------------------------

/// Inserts a plugin, or updates the one with its path and class id.
pub const UPSERT_PLUGIN: &'static str =
    "INSERT INTO plugins
         (sync_id, name, vendor, format, path, version, class_id, category, device_id, file_mtime)
     VALUES (?1, ?2, ?3, ?4, ?5, ?6, ?7, ?8, ?9, ?10)
     ON CONFLICT(path, class_id) DO UPDATE SET
         name       = excluded.name,
         vendor     = excluded.vendor,
         version    = excluded.version,
         category   = excluded.category,
         file_mtime = excluded.file_mtime,
         updated_at = strftime('%Y-%m-%dT%H:%M:%SZ', 'now')";

/// The plugins of a device by format, then name.
pub const LIST_PLUGINS: &'static str =
    "SELECT name, vendor, format, category FROM plugins
     WHERE device_id = ?1
     ORDER BY format, name COLLATE NOCASE";

/// The rows of a plugin name on a device, the oldest first.
pub const PLUGIN_ROWS: &'static str =
    "SELECT id, vendor, format, path, version, category
     FROM plugins
     WHERE name = ?1 AND device_id = ?2
     ORDER BY id ASC";

/// The note of a plugin row.
pub const PLUGIN_NOTE: &'static str = "SELECT body FROM plugin_notes WHERE plugin_id = ?1";

/// Inserts or replaces the note of a plugin row.
pub const UPSERT_NOTE: &'static str =
    "INSERT INTO plugin_notes (plugin_id, body, updated_at)
     VALUES (?1, ?2, strftime('%Y-%m-%dT%H:%M:%SZ', 'now'))
     ON CONFLICT(plugin_id) DO UPDATE SET
         body       = excluded.body,
         updated_at = strftime('%Y-%m-%dT%H:%M:%SZ', 'now')";

/// The rows of the dossier of a device by name, then age.
pub const DOSSIER_ROWS: &'static str =
    "SELECT p.name, p.vendor, p.category, p.format, p.path, p.version, p.created_at, pn.body
     FROM plugins p
     LEFT JOIN plugin_notes pn ON pn.plugin_id = p.id
     WHERE p.device_id = ?1
     ORDER BY p.name COLLATE NOCASE, p.id ASC";

/// The paths and modification times of the plugins of a device that have one.
pub const KNOWN_MTIMES: &'static str =
    "SELECT path, file_mtime FROM plugins WHERE device_id = ?1 AND file_mtime IS NOT NULL";

/// A plugin to index.
#[derive(Debug)]
pub struct PluginRecord {
    pub sync_id: String,
    pub name: String,
    pub vendor: Option<String>,
    pub format: String,
    pub path: String,
    pub version: Option<String>,
    pub class_id: Option<String>,
    pub category: Option<String>,
    pub device_id: String,
    pub file_mtime: Option<i64>,
}

/// A plugin of a listing.
#[derive(Debug)]
pub struct PluginRow {
    pub name: String,
    pub vendor: Option<String>,
    pub format: String,
    pub category: Option<String>,
}

/// An installed format of a plugin.
#[derive(Debug)]
pub struct PluginFormatInstance {
    pub format: String,
    pub path: String,
    pub version: Option<String>,
}

/// A plugin with all its installed formats.
#[derive(Debug)]
pub struct PluginDetail {
    pub id: i64,
    pub name: String,
    pub vendor: Option<String>,
    pub category: Option<String>,
    pub instances: Vec<PluginFormatInstance>,
    pub note: String,
}

/// A row of the plugin table under a name that is known.
#[derive(Debug)]
pub struct NamedRow {
    pub id: i64,
    pub vendor: Option<String>,
    pub format: String,
    pub path: String,
    pub version: Option<String>,
    pub category: Option<String>,
}

/// What a `PluginFormatInstance` holds.
#[verifier::ext_equal]
pub struct FormatModel {
    pub format: Seq<char>,
    pub path: Seq<char>,
    pub version: Option<Seq<char>>,
}

/// What a `PluginDetail` holds.
#[verifier::ext_equal]
pub struct DetailModel {
    pub id: i64,
    pub name: Seq<char>,
    pub vendor: Option<Seq<char>>,
    pub category: Option<Seq<char>>,
    pub instances: Seq<FormatModel>,
    pub note: Seq<char>,
}

impl View for PluginFormatInstance {
    type V = FormatModel;

    open spec fn view(&self) -> FormatModel {
        FormatModel { format: self.format@, path: self.path@, version: opt_text(self.version) }
    }
}

/// What each instance of a list holds.
pub open spec fn format_models(list: Seq<PluginFormatInstance>) -> Seq<FormatModel> {
    list.map_values(|i: PluginFormatInstance| i@)
}

impl View for PluginDetail {
    type V = DetailModel;

    open spec fn view(&self) -> DetailModel {
        DetailModel {
            id: self.id,
            name: self.name@,
            vendor: opt_text(self.vendor),
            category: opt_text(self.category),
            instances: format_models(self.instances@),
            note: self.note@,
        }
    }
}

/// The installed format of a row.
pub open spec fn format_of(r: NamedRow) -> FormatModel {
    FormatModel { format: r.format@, path: r.path@, version: opt_text(r.version) }
}

/// The installed formats of rows.
pub open spec fn formats_of(rows: Seq<NamedRow>) -> Seq<FormatModel> {
    rows.map_values(|r: NamedRow| format_of(r))
}

/// The row that a note hangs on: the oldest one of the name.
pub fn note_anchor(rows: &Vec<NamedRow>) -> (out: Option<i64>)
    ensures
        out == (if rows@.len() > 0 {
            Some(rows@[0].id)
        } else {
            None
        }),
{
    if rows.len() > 0 {
        Some(rows[0].id)
    } else {
        None
    }
}

/// The plugin of the rows of a name, the oldest first, with the note of the oldest.
/// The oldest row says the id, the vendor and the category. Without a note the text is
/// empty, and without rows there is no plugin.
pub fn get_plugin_detail(name: &str, rows: &Vec<NamedRow>, note: Option<String>) -> (out: Option<
    PluginDetail,
>)
    ensures
        match out {
            Some(d) => rows@.len() > 0 && d@ == (DetailModel {
                id: rows@[0].id,
                name: name@,
                vendor: opt_text(rows@[0].vendor),
                category: opt_text(rows@[0].category),
                instances: formats_of(rows@),
                note: match note {
                    Some(n) => n@,
                    None => Seq::empty(),
                },
            }),
            None => rows@.len() == 0,
        },
{
    if rows.len() == 0 {
        return None;
    }
    let mut instances: Vec<PluginFormatInstance> = Vec::new();
    let ghost all = formats_of(rows@);
    assert(format_models(instances@) =~= all.take(0));
    for i in 0..rows.len()
        invariant
            all == formats_of(rows@),
            format_models(instances@) == all.take(i as int),
    {
        let ghost before = format_models(instances@);
        instances.push(
            PluginFormatInstance {
                format: rows[i].format.clone(),
                path: rows[i].path.clone(),
                version: copy_opt(&rows[i].version),
            },
        );
        assert(format_models(instances@) =~= before.push(all[i as int]));
        assert(all.take(i + 1) =~= all.take(i as int).push(all[i as int]));
    }
    assert(all.take(all.len() as int) =~= all);
    let note = match note {
        Some(n) => n,
        None => String::new(),
    };
    Some(
        PluginDetail {
            id: rows[0].id,
            name: name.to_owned(),
            vendor: copy_opt(&rows[0].vendor),
            category: copy_opt(&rows[0].category),
            instances,
            note,
        },
    )
}

// ---------------------------------------------------------------------------
// Chains
// ---------------------------------------------------------------------------

/// A chain to save.
#[derive(Debug)]
pub struct ChainRecord {
    pub sync_id: String,
    pub name: String,
    pub daw: String,
    pub source_track: Option<String>,
    pub notes: Option<String>,
    pub tags: Option<String>,
    pub device_id: String,
}

/// A slot of a chain to save.
#[derive(Debug)]
pub struct ChainSlotRecord {
    pub plugin_id: Option<i64>,
    /// A JSON object that identifies the plugin.
    pub plugin_identity: String,
    pub position: i32,
    pub bypass: bool,
    /// The bits of the wet/dry mix as a double-precision number.
    pub wet_bits: u64,
    pub preset_name: Option<String>,
    pub opaque_state: Option<String>,
}

/// A saved chain without its slots.
#[derive(Debug)]
pub struct ChainRow {
    pub id: i64,
    pub sync_id: String,
    pub name: String,
    pub daw: String,
    pub tags: Option<String>,
    pub source_track: Option<String>,
    pub created_at: String,
}

/// A saved slot of a chain.
#[derive(Debug)]
pub struct ChainSlotRow {
    pub id: i64,
    pub plugin_id: Option<i64>,
    /// A JSON object that identifies the plugin.
    pub plugin_identity: String,
    pub position: i32,
    pub bypass: bool,
    /// The bits of the wet/dry mix as a double-precision number.
    pub wet_bits: u64,
    pub preset_name: Option<String>,
    pub opaque_state: Option<String>,
}

/// A saved chain with its slots.
#[derive(Debug)]
pub struct ChainDetail {
    pub id: i64,
    pub sync_id: String,
    pub name: String,
    pub daw: String,
    pub source_track: Option<String>,
    pub notes: Option<String>,
    pub tags: Option<String>,
    pub created_at: String,
    pub slots: Vec<ChainSlotRow>,
}

/// What a `ChainSlotRow` holds.
#[verifier::ext_equal]
pub struct SlotModel {
    pub id: i64,
    pub plugin_id: Option<i64>,
    pub plugin_identity: Seq<char>,
    pub position: i32,
    pub bypass: bool,
    pub wet_bits: u64,
    pub preset_name: Option<Seq<char>>,
    pub opaque_state: Option<Seq<char>>,
}

/// What a `ChainDetail` holds.
#[verifier::ext_equal]
pub struct ChainModel {
    pub id: i64,
    pub sync_id: Seq<char>,
    pub name: Seq<char>,
    pub daw: Seq<char>,
    pub source_track: Option<Seq<char>>,
    pub notes: Option<Seq<char>>,
    pub tags: Option<Seq<char>>,
    pub created_at: Seq<char>,
    pub slots: Seq<SlotModel>,
}

impl View for ChainSlotRow {
    type V = SlotModel;

    open spec fn view(&self) -> SlotModel {
        SlotModel {
            id: self.id,
            plugin_id: self.plugin_id,
            plugin_identity: self.plugin_identity@,
            position: self.position,
            bypass: self.bypass,
            wet_bits: self.wet_bits,
            preset_name: opt_text(self.preset_name),
            opaque_state: opt_text(self.opaque_state),
        }
    }
}

/// What each slot of a list holds.
pub open spec fn slot_models(list: Seq<ChainSlotRow>) -> Seq<SlotModel> {
    list.map_values(|s: ChainSlotRow| s@)
}

impl View for ChainDetail {
    type V = ChainModel;

    open spec fn view(&self) -> ChainModel {
        ChainModel {
            id: self.id,
            sync_id: self.sync_id@,
            name: self.name@,
            daw: self.daw@,
            source_track: opt_text(self.source_track),
            notes: opt_text(self.notes),
            tags: opt_text(self.tags),
            created_at: self.created_at@,
            slots: slot_models(self.slots@),
        }
    }
}

// ---------------------------------------------------------------------------
// Known modification times
// ---------------------------------------------------------------------------

/// The modification times of the indexed plugins, by path.
pub struct KnownMtimes {
    map: StringHashMap<i64>,
}

impl View for KnownMtimes {
    type V = Map<Seq<char>, i64>;

    closed spec fn view(&self) -> Map<Seq<char>, i64> {
        self.map@
    }
}

impl KnownMtimes {
    /// No times.
    pub fn new() -> (out: KnownMtimes)
        ensures
            out@ == Map::<Seq<char>, i64>::empty(),
    {
        KnownMtimes { map: StringHashMap::new() }
    }

    /// Sets the time of a path.
    pub fn insert(&mut self, path: String, mtime: i64)
        ensures
            final(self)@ == old(self)@.insert(path@, mtime),
    {
        self.map.insert(path, mtime);
    }

    /// The time of a path.
    pub fn get(&self, path: &str) -> (out: Option<i64>)
        ensures
            match out {
                Some(t) => self@.contains_key(path@) && self@[path@] == t,
                None => !self@.contains_key(path@),
            },
    {
        match self.map.get(path) {
            Some(t) => Some(*t),
            None => None,
        }
    }

    /// The number of paths.
    pub fn len(&self) -> (out: usize)
        ensures
            out == self@.len(),
    {
        self.map.len()
    }
}

/// The times that rows of path and time give. A later row of a path counts.
pub open spec fn times_of(rows: Seq<(String, i64)>) -> Map<Seq<char>, i64>
    decreases rows.len(),
{
    if rows.len() == 0 {
        Map::empty()
    } else {
        times_of(rows.drop_last()).insert(rows.last().0@, rows.last().1)
    }
}

/// The times that rows of path and time give. A later row of a path counts.
pub fn get_known_mtimes(rows: &Vec<(String, i64)>) -> (out: KnownMtimes)
    ensures
        out@ == times_of(rows@),
{
    let mut out = KnownMtimes::new();
    for i in 0..rows.len()
        invariant
            out@ == times_of(rows@.take(i as int)),
    {
        assert(rows@.take(i + 1).drop_last() =~= rows@.take(i as int));
        out.insert(rows[i].0.clone(), rows[i].1);
    }
    assert(rows@.take(rows@.len() as int) =~= rows@);
    out
}

} // verus!
