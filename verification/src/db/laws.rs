//! What holds of every record, row and entry of the library.
use vstd::prelude::*;

use crate::db::chains::{
    columns_of, slots_of, SlotColumns, SlotRecordModel, DELETE_CHAIN, DELETE_SLOTS,
    FIND_CHAIN, GET_CHAIN, GET_SLOTS, LIST_CHAINS,
};
use crate::db::dossier::{
    dossier, instance_of, law_dossier_names_differ, named_from, text_before, DossierModel, RowModel,
};
use crate::db::{
    formats_of, times_of, NamedRow, PluginRecord, DOSSIER_ROWS, KNOWN_MTIMES, LIST_PLUGINS,
    PLUGIN_NOTE, PLUGIN_ROWS,
};
use crate::indexer::records;
use crate::scanner::{PluginFormat, PluginModel};
use crate::text::opt_text;

verus! {

// ---------------------------------------------------------------------------
// Dossier
// ---------------------------------------------------------------------------

/// The entry lists the file of the row as its last.
pub open spec fn ends_with_file(p: DossierModel, r: RowModel) -> bool {
    &&& p.instances.len() > 0
    &&& p.instances[p.instances.len() - 1].format == r.format
    &&& p.instances[p.instances.len() - 1].path == r.path
    &&& p.instances[p.instances.len() - 1].version == r.version
}

/// Whether an entry of the list has the name.
pub open spec fn has_entry(list: Seq<DossierModel>, name: Seq<char>) -> bool {
    exists|k: int| 0 <= k < list.len() && (#[trigger] list[k]).name == name
}

proof fn lemma_named(list: Seq<DossierModel>, name: Seq<char>, i: int)
    requires
        0 <= i,
    ensures
        match named_from(list, name, i) {
            Some(k) => i <= k < list.len() && list[k].name == name && forall|j: int|
                i <= j < k ==> (#[trigger] list[j]).name != name,
            None => forall|j: int| i <= j < list.len() ==> (#[trigger] list[j]).name != name,
        },
    decreases list.len() - i,
{
    if i < list.len() && list[i].name != name {
        lemma_named(list, name, i + 1);
    }
}

/// A row with a new name adds an entry behind the others, which is made of that row alone:
/// its name, vendor, category, format, file, note and date.
pub proof fn law_row_of_new_name(rows: Seq<RowModel>, r: RowModel)
    requires
        !has_entry(dossier(rows), r.name),
    ensures
        ({
            let was = dossier(rows);
            let now = dossier(rows.push(r));
            let p = now[was.len() as int];
            &&& now.len() == was.len() + 1
            &&& forall|j: int| 0 <= j < was.len() ==> #[trigger] now[j] == was[j]
            &&& p.name == r.name
            &&& p.vendor == r.vendor
            &&& p.category == r.category
            &&& p.formats == seq![r.format]
            &&& p.instances.len() == 1
            &&& ends_with_file(p, r)
            &&& p.note == r.note
            &&& p.first_seen == r.created_at
        }),
{
    assert(rows.push(r).drop_last() =~= rows);
    lemma_named(dossier(rows), r.name, 0);
}

/// A row of a name that has an entry joins that entry and changes no other. The file is
/// added behind the others, and the format where it is new. The vendor, the category and
/// a note that is there stay, and the earlier date counts.
pub proof fn law_row_of_known_name(rows: Seq<RowModel>, r: RowModel, k: int)
    requires
        0 <= k < dossier(rows).len(),
        dossier(rows)[k].name == r.name,
    ensures
        ({
            let was = dossier(rows);
            let now = dossier(rows.push(r));
            let (p, q) = (was[k], now[k]);
            &&& now.len() == was.len()
            &&& forall|j: int| 0 <= j < was.len() && j != k ==> #[trigger] now[j] == was[j]
            &&& q.name == p.name
            &&& q.vendor == p.vendor
            &&& q.category == p.category
            &&& q.instances.len() == p.instances.len() + 1
            &&& forall|j: int|
                0 <= j < p.instances.len() ==> #[trigger] q.instances[j] == p.instances[j]
            &&& ends_with_file(q, r)
            &&& p.formats.contains(r.format) ==> q.formats == p.formats
            &&& !p.formats.contains(r.format) ==> q.formats == p.formats + seq![r.format]
            &&& p.note is Some ==> q.note == p.note
            &&& p.note is None ==> q.note == r.note
            &&& text_before(r.created_at, p.first_seen) ==> q.first_seen == r.created_at
            &&& !text_before(r.created_at, p.first_seen) ==> q.first_seen == p.first_seen
        }),
{
    assert(rows.push(r).drop_last() =~= rows);
    let was = dossier(rows);
    lemma_named(was, r.name, 0);
    let i = named_from(was, r.name, 0)->Some_0;
    assert(was[k].name == r.name);
    if i < k {
        law_dossier_names_differ(rows, i, k);
    }
    assert(was[k].formats.push(r.format) =~= was[k].formats + seq![r.format]);
}

/// Without rows there is no entry.
pub proof fn law_no_rows()
    ensures
        dossier(Seq::empty()).len() == 0,
{
}

/// The date of an entry is that of one of the rows of its name.
pub proof fn law_first_seen(rows: Seq<RowModel>, i: int) -> (k: int)
    requires
        0 <= i < dossier(rows).len(),
    ensures
        0 <= k < rows.len(),
        rows[k].name == dossier(rows)[i].name,
        rows[k].created_at == dossier(rows)[i].first_seen,
    decreases rows.len(),
{
    let fewer = rows.drop_last();
    let r = rows.last();
    let was = dossier(fewer);
    lemma_named(was, r.name, 0);
    if i < was.len() && dossier(rows)[i].first_seen == was[i].first_seen {
        let k = law_first_seen(fewer, i);
        assert(rows[k] == fewer[k]);
        k
    } else {
        rows.len() - 1
    }
}

/// Texts are ordered by their first difference: a text stands before every longer one that
/// begins with it, and else the character with the lower number decides.
pub proof fn law_text_before(common: Seq<char>, x: char, y: char, a: Seq<char>, b: Seq<char>)
    ensures
        !text_before(common, common),
        text_before(common, common + (seq![x] + a)),
        !text_before(common + (seq![x] + a), common),
        x != y ==> (text_before(common + (seq![x] + a), common + (seq![y] + b)) <==> (x as u32) < (
        y as u32)),
    decreases common.len(),
{
    let s = common + (seq![x] + a);
    let t = common + (seq![y] + b);
    if common.len() == 0 {
        assert(s =~= seq![x] + a);
        assert(t =~= seq![y] + b);
    } else {
        let rest = common.skip(1);
        law_text_before(rest, x, y, a, b);
        assert(s.skip(1) =~= rest + (seq![x] + a));
        assert(t.skip(1) =~= rest + (seq![y] + b));
    }
}

/// The file of a row is its format, path and version.
pub proof fn law_instance(r: RowModel)
    ensures
        instance_of(r).format == r.format,
        instance_of(r).path == r.path,
        instance_of(r).version == r.version,
{
}

// ---------------------------------------------------------------------------
// Plugins
// ---------------------------------------------------------------------------

/// The installed formats of a plugin are those of its rows, in order.
pub proof fn law_formats(rows: Seq<NamedRow>)
    ensures
        formats_of(rows).len() == rows.len(),
        forall|i: int|
            0 <= i < rows.len() ==> (#[trigger] formats_of(rows)[i]).format == rows[i].format@
                && formats_of(rows)[i].path == rows[i].path@ && formats_of(rows)[i].version
                == opt_text(rows[i].version),
{
}

/// The time of a path is that of its last row. A row changes the time of no other path.
pub proof fn law_times(rows: Seq<(String, i64)>, row: (String, i64), path: Seq<char>)
    ensures
        times_of(Seq::empty()) == Map::<Seq<char>, i64>::empty(),
        times_of(rows.push(row)).contains_key(row.0@),
        times_of(rows.push(row))[row.0@] == row.1,
        path != row.0@ ==> (times_of(rows.push(row)).contains_key(path) <==> times_of(
            rows,
        ).contains_key(path)) && times_of(rows.push(row))[path] == times_of(rows)[path],
{
    assert(rows.push(row).drop_last() =~= rows);
}

/// A record holds all that was found of a plugin, under the name of its format, and the
/// device that it was found on.
pub proof fn law_records(r: PluginRecord, p: PluginModel, device_id: Seq<char>)
    requires
        records(r, p, device_id),
    ensures
        r.name@ == p.name,
        opt_text(r.vendor) == p.vendor,
        opt_text(r.version) == p.version,
        opt_text(r.category) == p.category,
        opt_text(r.class_id) == p.class_id,
        r.path@ == p.path,
        r.file_mtime == p.file_mtime,
        r.device_id@ == device_id,
        p.format == PluginFormat::Vst3 ==> r.format@ == "VST3"@,
        p.format == PluginFormat::Vst2 ==> r.format@ == "VST2"@,
        p.format == PluginFormat::Au ==> r.format@ == "AU"@,
        p.format == PluginFormat::Clap ==> r.format@ == "CLAP"@,
{
}

// ---------------------------------------------------------------------------
// Chains
// ---------------------------------------------------------------------------

/// The slots of a chain are the rows of its table, in order. A slot is bypassed unless its
/// column is zero, and is saved as one or zero.
pub proof fn law_slots(rows: Seq<(i64, SlotColumns)>, s: SlotRecordModel)
    ensures
        slots_of(rows).len() == rows.len(),
        forall|i: int|
            0 <= i < rows.len() ==> {
                let c = rows[i].1@;
                &&& (#[trigger] slots_of(rows)[i]).id == rows[i].0
                &&& slots_of(rows)[i].plugin_id == c.plugin_id
                &&& slots_of(rows)[i].plugin_identity == c.plugin_identity
                &&& slots_of(rows)[i].position == c.position
                &&& slots_of(rows)[i].bypass == (c.bypass != 0)
                &&& slots_of(rows)[i].wet_bits == c.wet_bits
                &&& slots_of(rows)[i].preset_name == c.preset_name
                &&& slots_of(rows)[i].opaque_state == c.opaque_state
            },
        columns_of(s).bypass == (if s.bypass {
            1int
        } else {
            0int
        }),
{
}

// ---------------------------------------------------------------------------
// Statements
// ---------------------------------------------------------------------------

/// The text ends with another.
pub open spec fn ends_with(s: Seq<char>, t: Seq<char>) -> bool {
    exists|head: Seq<char>| s == #[trigger] (head + t)
}

proof fn lemma_ends_with(s: Seq<char>, t: Seq<char>)
    requires
        s.len() >= t.len(),
        forall|i: int| 0 <= i < t.len() ==> s[s.len() - t.len() + i] == #[trigger] t[i],
    ensures
        ends_with(s, t),
{
    let head = s.take(s.len() - t.len());
    assert(s =~= head + t);
}

/// The chains of a device are listed with the last changed first, and the slots of a chain
/// by their positions.
pub proof fn law_chain_statements()
    ensures
        ends_with(LIST_CHAINS@, "WHERE device_id = ?1\n     ORDER BY updated_at DESC"@),
        ends_with(GET_SLOTS@, "FROM chain_slots WHERE chain_id = ?1 ORDER BY position ASC"@),
        ends_with(GET_CHAIN@, "FROM chains WHERE id = ?1"@),
        FIND_CHAIN@ == "SELECT id FROM chains WHERE sync_id = ?1"@,
        DELETE_SLOTS@ == "DELETE FROM chain_slots WHERE chain_id = ?1"@,
        DELETE_CHAIN@ == "DELETE FROM chains WHERE id = ?1"@,
{
    let a = LIST_CHAINS@;
    let b = GET_SLOTS@;
    let c = GET_CHAIN@;
    reveal_strlit(
        "SELECT id, sync_id, name, daw, tags, source_track, created_at
     FROM chains
     WHERE device_id = ?1
     ORDER BY updated_at DESC",
    );
    reveal_strlit("WHERE device_id = ?1\n     ORDER BY updated_at DESC");
    reveal_strlit(
        "SELECT id, plugin_id, plugin_identity, position, bypass, wet, preset_name, opaque_state
     FROM chain_slots WHERE chain_id = ?1 ORDER BY position ASC",
    );
    reveal_strlit("FROM chain_slots WHERE chain_id = ?1 ORDER BY position ASC");
    reveal_strlit(
        "SELECT id, sync_id, name, daw, source_track, notes, tags, created_at
     FROM chains WHERE id = ?1",
    );
    reveal_strlit("FROM chains WHERE id = ?1");
    lemma_ends_with(a, "WHERE device_id = ?1\n     ORDER BY updated_at DESC"@);
    lemma_ends_with(b, "FROM chain_slots WHERE chain_id = ?1 ORDER BY position ASC"@);
    lemma_ends_with(c, "FROM chains WHERE id = ?1"@);
}

/// Plugins are listed for one device, by format and then name; the rows of a plugin and
/// those of the dossier with the oldest first; and only known times are asked for.
pub proof fn law_plugin_statements()
    ensures
        ends_with(
            LIST_PLUGINS@,
            "WHERE device_id = ?1\n     ORDER BY format, name COLLATE NOCASE"@,
        ),
        ends_with(PLUGIN_ROWS@, "WHERE name = ?1 AND device_id = ?2\n     ORDER BY id ASC"@),
        ends_with(
            DOSSIER_ROWS@,
            "WHERE p.device_id = ?1\n     ORDER BY p.name COLLATE NOCASE, p.id ASC"@,
        ),
        PLUGIN_NOTE@ == "SELECT body FROM plugin_notes WHERE plugin_id = ?1"@,
        KNOWN_MTIMES@
            == "SELECT path, file_mtime FROM plugins WHERE device_id = ?1 AND file_mtime IS NOT NULL"@,
{
    reveal_strlit(
        "SELECT name, vendor, format, category FROM plugins
     WHERE device_id = ?1
     ORDER BY format, name COLLATE NOCASE",
    );
    reveal_strlit("WHERE device_id = ?1\n     ORDER BY format, name COLLATE NOCASE");
    lemma_ends_with(
        LIST_PLUGINS@,
        "WHERE device_id = ?1\n     ORDER BY format, name COLLATE NOCASE"@,
    );
    reveal_strlit(
        "SELECT id, vendor, format, path, version, category
     FROM plugins
     WHERE name = ?1 AND device_id = ?2
     ORDER BY id ASC",
    );
    reveal_strlit("WHERE name = ?1 AND device_id = ?2\n     ORDER BY id ASC");
    lemma_ends_with(PLUGIN_ROWS@, "WHERE name = ?1 AND device_id = ?2\n     ORDER BY id ASC"@);
    reveal_strlit(
        "SELECT p.name, p.vendor, p.category, p.format, p.path, p.version, p.created_at, pn.body
     FROM plugins p
     LEFT JOIN plugin_notes pn ON pn.plugin_id = p.id
     WHERE p.device_id = ?1
     ORDER BY p.name COLLATE NOCASE, p.id ASC",
    );
    reveal_strlit("WHERE p.device_id = ?1\n     ORDER BY p.name COLLATE NOCASE, p.id ASC");
    lemma_ends_with(
        DOSSIER_ROWS@,
        "WHERE p.device_id = ?1\n     ORDER BY p.name COLLATE NOCASE, p.id ASC"@,
    );
}

} // verus!
