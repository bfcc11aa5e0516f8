//! The library dossier: every plugin of a device with all its installed formats.
use vstd::prelude::*;

use crate::text::{copy_opt, opt_text, same_text, texts};

verus! {

/// One installed file of a plugin.
#[derive(Debug)]
pub struct DossierInstance {
    pub format: String,
    pub path: String,
    pub version: Option<String>,
}

/// A plugin of the dossier: all formats under one name.
#[derive(Debug)]
pub struct DossierPlugin {
    pub name: String,
    pub vendor: Option<String>,
    pub category: Option<String>,
    pub formats: Vec<String>,
    pub instances: Vec<DossierInstance>,
    pub note: Option<String>,
    pub first_seen: String,
}

/// A row of the plugin table with the note that is attached to it.
#[derive(Debug)]
pub struct DossierRow {
    pub name: String,
    pub vendor: Option<String>,
    pub category: Option<String>,
    pub format: String,
    pub path: String,
    pub version: Option<String>,
    pub created_at: String,
    pub note: Option<String>,
}

// ---------------------------------------------------------------------------
// Models
// ---------------------------------------------------------------------------

/// What a `DossierInstance` holds.
#[verifier::ext_equal]
pub struct InstanceModel {
    pub format: Seq<char>,
    pub path: Seq<char>,
    pub version: Option<Seq<char>>,
}

/// What a `DossierPlugin` holds.
#[verifier::ext_equal]
pub struct DossierModel {
    pub name: Seq<char>,
    pub vendor: Option<Seq<char>>,
    pub category: Option<Seq<char>>,
    pub formats: Seq<Seq<char>>,
    pub instances: Seq<InstanceModel>,
    pub note: Option<Seq<char>>,
    pub first_seen: Seq<char>,
}

/// What a `DossierRow` holds.
#[verifier::ext_equal]
pub struct RowModel {
    pub name: Seq<char>,
    pub vendor: Option<Seq<char>>,
    pub category: Option<Seq<char>>,
    pub format: Seq<char>,
    pub path: Seq<char>,
    pub version: Option<Seq<char>>,
    pub created_at: Seq<char>,
    pub note: Option<Seq<char>>,
}

impl View for DossierInstance {
    type V = InstanceModel;

    open spec fn view(&self) -> InstanceModel {
        InstanceModel { format: self.format@, path: self.path@, version: opt_text(self.version) }
    }
}

/// What each instance of a list holds.
pub open spec fn instance_models(list: Seq<DossierInstance>) -> Seq<InstanceModel> {
    list.map_values(|i: DossierInstance| i@)
}

impl View for DossierPlugin {
    type V = DossierModel;

    open spec fn view(&self) -> DossierModel {
        DossierModel {
            name: self.name@,
            vendor: opt_text(self.vendor),
            category: opt_text(self.category),
            formats: texts(self.formats@),
            instances: instance_models(self.instances@),
            note: opt_text(self.note),
            first_seen: self.first_seen@,
        }
    }
}

/// What each plugin of a list holds.
pub open spec fn dossier_models(list: Seq<DossierPlugin>) -> Seq<DossierModel> {
    list.map_values(|p: DossierPlugin| p@)
}

impl View for DossierRow {
    type V = RowModel;

    open spec fn view(&self) -> RowModel {
        RowModel {
            name: self.name@,
            vendor: opt_text(self.vendor),
            category: opt_text(self.category),
            format: self.format@,
            path: self.path@,
            version: opt_text(self.version),
            created_at: self.created_at@,
            note: opt_text(self.note),
        }
    }
}

/// What each row of a list holds.
pub open spec fn row_models(list: Seq<DossierRow>) -> Seq<RowModel> {
    list.map_values(|r: DossierRow| r@)
}

// ---------------------------------------------------------------------------
// Order of texts
// ---------------------------------------------------------------------------

/// `a` stands before `b` in the order of their characters' code points, the order
/// of Rust's strings.
pub open spec fn text_before(a: Seq<char>, b: Seq<char>) -> bool
    decreases a.len(),
{
    if b.len() == 0 {
        false
    } else if a.len() == 0 {
        true
    } else if a[0] != b[0] {
        (a[0] as u32) < (b[0] as u32)
    } else {
        text_before(a.skip(1), b.skip(1))
    }
}

/// Whether `a` stands before `b` in the order of strings.
pub fn is_before(a: &str, b: &str) -> (yes: bool)
    ensures
        yes == text_before(a@, b@),
{
    let la: usize = a.unicode_len();
    let lb: usize = b.unicode_len();
    let mut i: usize = 0;
    assert(a@.skip(0) =~= a@);
    assert(b@.skip(0) =~= b@);
    while i < la && i < lb
        invariant
            la == a@.len(),
            lb == b@.len(),
            i <= la,
            i <= lb,
            text_before(a@, b@) == text_before(a@.skip(i as int), b@.skip(i as int)),
        decreases la - i,
    {
        let x = a.get_char(i);
        let y = b.get_char(i);
        proof {
            assert(a@.skip(i as int)[0] == x);
            assert(b@.skip(i as int)[0] == y);
            assert(a@.skip(i as int).skip(1) =~= a@.skip(i + 1));
            assert(b@.skip(i as int).skip(1) =~= b@.skip(i + 1));
        }
        if x != y {
            return (x as u32) < (y as u32);
        }
        i += 1;
    }
    i < lb
}

// ---------------------------------------------------------------------------
// Grouping
// ---------------------------------------------------------------------------

/// The installed file of a row.
pub open spec fn instance_of(r: RowModel) -> InstanceModel {
    InstanceModel { format: r.format, path: r.path, version: r.version }
}

/// The dossier entry that a first row of a name makes.
pub open spec fn entry_of(r: RowModel) -> DossierModel {
    DossierModel {
        name: r.name,
        vendor: r.vendor,
        category: r.category,
        formats: seq![r.format],
        instances: seq![instance_of(r)],
        note: r.note,
        first_seen: r.created_at,
    }
}

/// The entry with one more row of its name: the format joins the formats unless it
/// is there, a note fills an entry without one, and the earlier date counts.
pub open spec fn with_row(p: DossierModel, r: RowModel) -> DossierModel {
    DossierModel {
        formats: if p.formats.contains(r.format) {
            p.formats
        } else {
            p.formats.push(r.format)
        },
        instances: p.instances.push(instance_of(r)),
        note: if p.note is None {
            r.note
        } else {
            p.note
        },
        first_seen: if text_before(r.created_at, p.first_seen) {
            r.created_at
        } else {
            p.first_seen
        },
        ..p
    }
}

/// The index of the first entry at or after `i` with the given name.
pub open spec fn named_from(list: Seq<DossierModel>, name: Seq<char>, i: int) -> Option<int>
    decreases list.len() - i,
{
    if i >= list.len() {
        None
    } else if list[i].name == name {
        Some(i)
    } else {
        named_from(list, name, i + 1)
    }
}

/// The entries with one more row, which joins the entry of its name wherever that stands,
/// or makes a new one behind the others.
pub open spec fn with_any_row(list: Seq<DossierModel>, r: RowModel) -> Seq<DossierModel> {
    match named_from(list, r.name, 0) {
        Some(k) => list.update(k, with_row(list[k], r)),
        None => list.push(entry_of(r)),
    }
}

/// The dossier of the rows of a device: one entry for each name, in the order of the
/// first rows.
pub open spec fn dossier(rows: Seq<RowModel>) -> Seq<DossierModel>
    decreases rows.len(),
{
    if rows.len() == 0 {
        Seq::empty()
    } else {
        with_any_row(dossier(rows.drop_last()), rows.last())
    }
}

/// `named_from` is the least index at or after `i` of an entry with the name.
proof fn lemma_named_from(list: Seq<DossierModel>, name: Seq<char>, i: int)
    requires
        0 <= i,
    ensures
        match named_from(list, name, i) {
            Some(k) => i <= k < list.len() && list[k].name == name && forall|j: int|
                i <= j < k ==> (#[trigger] list[j]).name != name,
            None => forall|j: int| i <= j < list.len() ==> (#[trigger] list[j]).name != name,
        },
    decreases list.len() - i,
{
    if i < list.len() && list[i].name != name {
        lemma_named_from(list, name, i + 1);
    }
}

/// Whether `list` holds the text.
fn holds_text(list: &Vec<String>, text: &String) -> (yes: bool)
    ensures
        yes == texts(list@).contains(text@),
{
    for i in 0..list.len()
        invariant
            forall|j: int| 0 <= j < i ==> texts(list@)[j] != text@,
    {
        if same_text(list[i].as_str(), text.as_str()) {
            assert(texts(list@)[i as int] == text@);
            return true;
        }
    }
    false
}

/// The installed file of a row.
fn row_instance(row: &DossierRow) -> (out: DossierInstance)
    ensures
        out@ == instance_of(row@),
{
    DossierInstance {
        format: row.format.clone(),
        path: row.path.clone(),
        version: copy_opt(&row.version),
    }
}

/// The dossier entry that a first row of a name makes.
fn new_entry(row: &DossierRow) -> (out: DossierPlugin)
    ensures
        out@ == entry_of(row@),
{
    let mut formats: Vec<String> = Vec::new();
    formats.push(row.format.clone());
    let mut instances: Vec<DossierInstance> = Vec::new();
    instances.push(row_instance(row));
    assert(texts(formats@) =~= seq![row.format@]);
    assert(instance_models(instances@) =~= seq![instance_of(row@)]);
    DossierPlugin {
        name: row.name.clone(),
        vendor: copy_opt(&row.vendor),
        category: copy_opt(&row.category),
        formats,
        instances,
        note: copy_opt(&row.note),
        first_seen: row.created_at.clone(),
    }
}

/// Adds a row to the entry of its name.
fn add_row(entry: DossierPlugin, row: &DossierRow) -> (out: DossierPlugin)
    ensures
        out@ == with_row(entry@, row@),
{
    let mut formats = entry.formats;
    let ghost old_formats = texts(formats@);
    if !holds_text(&formats, &row.format) {
        formats.push(row.format.clone());
        assert(texts(formats@) =~= old_formats.push(row.format@));
    }
    let mut instances = entry.instances;
    let ghost old_instances = instance_models(instances@);
    instances.push(row_instance(row));
    assert(instance_models(instances@) =~= old_instances.push(instance_of(row@)));
    let note = match entry.note {
        Some(n) => Some(n),
        None => copy_opt(&row.note),
    };
    let first_seen = if is_before(row.created_at.as_str(), entry.first_seen.as_str()) {
        row.created_at.clone()
    } else {
        entry.first_seen
    };
    DossierPlugin {
        name: entry.name,
        vendor: entry.vendor,
        category: entry.category,
        formats,
        instances,
        note,
        first_seen,
    }
}

/// The index of the entry with the given name.
fn find_named(list: &Vec<DossierPlugin>, name: &str) -> (out: Option<usize>)
    ensures
        match out {
            Some(k) => named_from(dossier_models(list@), name@, 0) == Some(k as int) && k
                < list@.len(),
            None => named_from(dossier_models(list@), name@, 0) is None,
        },
{
    let ghost all = dossier_models(list@);
    for i in 0..list.len()
        invariant
            all == dossier_models(list@),
            named_from(all, name@, 0) == named_from(all, name@, i as int),
    {
        assert(all[i as int] == list@[i as int]@);
        if same_text(list[i].name.as_str(), name) {
            return Some(i);
        }
    }
    None
}

/// Groups the plugin rows of a device by name into the dossier.
pub fn export_dossier(rows: &Vec<DossierRow>) -> (out: Vec<DossierPlugin>)
    ensures
        dossier_models(out@) == dossier(row_models(rows@)),
        forall|i: int, j: int|
            0 <= i < j < out@.len() ==> (#[trigger] out@[i]).name@ != (#[trigger] out@[j]).name@,
{
    let mut out: Vec<DossierPlugin> = Vec::new();
    let ghost all = row_models(rows@);
    assert(dossier_models(out@) =~= Seq::empty());
    for i in 0..rows.len()
        invariant
            all == row_models(rows@),
            dossier_models(out@) == dossier(all.take(i as int)),
    {
        let row = &rows[i];
        let ghost before = dossier_models(out@);
        proof {
            let next = all.take(i + 1);
            assert(next.drop_last() =~= all.take(i as int));
            assert(next.last() == row@);
        }
        match find_named(&out, row.name.as_str()) {
            Some(k) => {
                let entry = out.remove(k);
                assert(entry@ == before[k as int]);
                out.insert(k, add_row(entry, row));
                assert(dossier_models(out@) =~= before.update(
                    k as int,
                    with_row(before[k as int], row@),
                ));
            },
            None => {
                out.push(new_entry(row));
                assert(dossier_models(out@) =~= before.push(entry_of(row@)));
            },
        }
    }
    proof {
        assert(all.take(all.len() as int) =~= all);
        assert forall|i: int, j: int| 0 <= i < j < out@.len() implies (#[trigger] out@[i]).name@ != (
        #[trigger] out@[j]).name@ by {
            law_dossier_names_differ(all, i, j);
            assert(dossier(all)[i] == out@[i]@ && dossier(all)[j] == out@[j]@);
        }
    }
    out
}

// ---------------------------------------------------------------------------
// Laws
// ---------------------------------------------------------------------------

/// The rows with the given name, in their order.
pub open spec fn rows_named(rows: Seq<RowModel>, name: Seq<char>) -> Seq<RowModel>
    decreases rows.len(),
{
    if rows.len() == 0 {
        Seq::empty()
    } else {
        let before = rows_named(rows.drop_last(), name);
        if rows.last().name == name {
            before.push(rows.last())
        } else {
            before
        }
    }
}

/// No two entries have the same name.
pub proof fn law_dossier_names_differ(rows: Seq<RowModel>, i: int, j: int)
    requires
        0 <= i < j < dossier(rows).len(),
    ensures
        dossier(rows)[i].name != dossier(rows)[j].name,
    decreases rows.len(),
{
    let before = dossier(rows.drop_last());
    lemma_named_from(before, rows.last().name, 0);
    if j < before.len() {
        law_dossier_names_differ(rows.drop_last(), i, j);
    }
}

/// A name has an entry exactly where a row has it.
pub proof fn law_dossier_names(rows: Seq<RowModel>, name: Seq<char>)
    ensures
        (exists|i: int| 0 <= i < dossier(rows).len() && (#[trigger] dossier(rows)[i]).name == name)
            <==> (exists|k: int| 0 <= k < rows.len() && (#[trigger] rows[k]).name == name),
    decreases rows.len(),
{
    if rows.len() > 0 {
        let fewer = rows.drop_last();
        let before = dossier(fewer);
        let now = dossier(rows);
        let r = rows.last();
        law_dossier_names(fewer, name);
        lemma_named_from(before, r.name, 0);
        if exists|i: int| 0 <= i < now.len() && (#[trigger] now[i]).name == name {
            let i = choose|i: int| 0 <= i < now.len() && (#[trigger] now[i]).name == name;
            if i < before.len() {
                assert(before[i].name == name);
                let k = choose|k: int| 0 <= k < fewer.len() && (#[trigger] fewer[k]).name == name;
                assert(rows[k] == fewer[k]);
            } else {
                assert(rows[rows.len() - 1].name == name);
            }
        }
        if exists|k: int| 0 <= k < rows.len() && (#[trigger] rows[k]).name == name {
            let k = choose|k: int| 0 <= k < rows.len() && (#[trigger] rows[k]).name == name;
            if k < fewer.len() {
                assert(fewer[k].name == name);
                let i = choose|i: int| 0 <= i < before.len() && (#[trigger] before[i]).name == name;
                assert(now[i].name == name);
            } else {
                match named_from(before, name, 0) {
                    Some(i) => assert(now[i].name == name),
                    None => assert(now[before.len() as int].name == name),
                }
            }
        }
    }
}

/// An entry is what the rows of its name alone would make.
pub proof fn law_dossier_entry(rows: Seq<RowModel>, i: int)
    requires
        0 <= i < dossier(rows).len(),
    ensures
        dossier(rows_named(rows, dossier(rows)[i].name)) == seq![dossier(rows)[i]],
    decreases rows.len(),
{
    let fewer = rows.drop_last();
    let before = dossier(fewer);
    let r = rows.last();
    let now = dossier(rows)[i];
    let part = rows_named(rows, now.name);
    lemma_named_from(before, r.name, 0);
    reveal_with_fuel(named_from, 2);
    if i < before.len() {
        law_dossier_entry(fewer, i);
        if r.name == now.name {
            let k = named_from(before, r.name, 0)->0;
            if k != i {
                if k < i {
                    law_dossier_names_differ(fewer, k, i);
                } else {
                    law_dossier_names_differ(fewer, i, k);
                }
            }
            assert(part.drop_last() =~= rows_named(fewer, now.name));
            assert(dossier(part) =~= seq![now]);
        }
    } else {
        lemma_unnamed(fewer, r.name);
        let none = Seq::<RowModel>::empty();
        assert(part =~= none.push(r));
        assert(part.drop_last() =~= none);
        assert(dossier(none) =~= Seq::empty());
        assert(dossier(part) =~= seq![now]);
    }
}

/// A name without an entry has no rows.
proof fn lemma_unnamed(rows: Seq<RowModel>, name: Seq<char>)
    requires
        named_from(dossier(rows), name, 0) is None,
    ensures
        rows_named(rows, name) == Seq::<RowModel>::empty(),
    decreases rows.len(),
{
    if rows.len() > 0 {
        let before = dossier(rows.drop_last());
        lemma_named_from(dossier(rows), name, 0);
        lemma_named_from(before, name, 0);
        lemma_named_from(before, rows.last().name, 0);
        match named_from(before, name, 0) {
            Some(k) => assert(dossier(rows)[k].name == name),
            None => {},
        }
        if rows.last().name == name {
            assert(dossier(rows)[before.len() as int].name == name);
        }
        lemma_unnamed(rows.drop_last(), name);
    }
}

/// The index of the first row at or after `i` with the given name, or the length.
pub open spec fn first_row(rows: Seq<RowModel>, name: Seq<char>, i: int) -> int
    decreases rows.len() - i,
{
    if i >= rows.len() {
        rows.len() as int
    } else if rows[i].name == name {
        i
    } else {
        first_row(rows, name, i + 1)
    }
}

/// One row more leaves the first row of a name that has one.
proof fn lemma_first_row(rows: Seq<RowModel>, name: Seq<char>, i: int)
    requires
        rows.len() > 0,
        0 <= i < rows.len(),
    ensures
        i <= first_row(rows, name, i) <= rows.len(),
        first_row(rows.drop_last(), name, i) <= rows.len() - 1,
        first_row(rows, name, i) == (if first_row(rows.drop_last(), name, i) < rows.len() - 1 {
            first_row(rows.drop_last(), name, i)
        } else if rows.last().name == name {
            rows.len() - 1
        } else {
            rows.len() as int
        }),
    decreases rows.len() - i,
{
    reveal_with_fuel(first_row, 2);
    if i < rows.len() - 1 {
        assert(rows.drop_last()[i] == rows[i]);
        if rows[i].name != name {
            lemma_first_row(rows, name, i + 1);
        }
    }
}

/// The entries stand in the order of the first rows of their names.
pub proof fn law_dossier_order(rows: Seq<RowModel>, i: int, j: int)
    requires
        0 <= i < j < dossier(rows).len(),
    ensures
        first_row(rows, dossier(rows)[i].name, 0) < first_row(rows, dossier(rows)[j].name, 0)
            < rows.len(),
    decreases rows.len(),
{
    let fewer = rows.drop_last();
    let before = dossier(fewer);
    let r = rows.last();
    let a = dossier(rows)[i].name;
    let b = dossier(rows)[j].name;
    lemma_named_from(before, r.name, 0);
    lemma_first_row(rows, a, 0);
    lemma_first_row(rows, b, 0);
    if j < before.len() {
        law_dossier_order(fewer, i, j);
    } else {
        lemma_entry_has_row(fewer, i);
        lemma_unnamed(fewer, r.name);
        lemma_no_first_row(fewer, r.name, 0);
    }
}

/// The name of an entry has a row.
proof fn lemma_entry_has_row(rows: Seq<RowModel>, i: int)
    requires
        0 <= i < dossier(rows).len(),
    ensures
        first_row(rows, dossier(rows)[i].name, 0) < rows.len(),
    decreases rows.len(),
{
    let fewer = rows.drop_last();
    let name = dossier(rows)[i].name;
    lemma_named_from(dossier(fewer), rows.last().name, 0);
    lemma_first_row(rows, name, 0);
    if i < dossier(fewer).len() {
        lemma_entry_has_row(fewer, i);
    }
}

/// A name without rows has no first row.
proof fn lemma_no_first_row(rows: Seq<RowModel>, name: Seq<char>, i: int)
    requires
        0 <= i <= rows.len(),
        rows_named(rows, name).len() == 0,
    ensures
        first_row(rows, name, i) == rows.len(),
    decreases rows.len() - i,
{
    if i < rows.len() {
        lemma_no_first_row(rows, name, i + 1);
        lemma_row_is_named(rows, i);
    }
}

/// A row is among those of its name.
proof fn lemma_row_is_named(rows: Seq<RowModel>, i: int)
    requires
        0 <= i < rows.len(),
    ensures
        rows_named(rows, rows[i].name).len() > 0,
    decreases rows.len(),
{
    if i < rows.len() - 1 {
        assert(rows.drop_last()[i] == rows[i]);
        lemma_row_is_named(rows.drop_last(), i);
    }
}

/// No installed file is lost, added or moved: an entry holds the files of the rows of its
/// name, in their order.
pub proof fn law_dossier_keeps_instances(rows: Seq<RowModel>, i: int)
    requires
        0 <= i < dossier(rows).len(),
    ensures
        dossier(rows)[i].instances == rows_named(rows, dossier(rows)[i].name).map_values(
            |r: RowModel| instance_of(r),
        ),
    decreases rows.len(),
{
    let fewer = rows.drop_last();
    let before = dossier(fewer);
    let r = rows.last();
    let now = dossier(rows)[i];
    let part = rows_named(rows, now.name);
    lemma_named_from(before, r.name, 0);
    if i < before.len() {
        law_dossier_keeps_instances(fewer, i);
        if r.name == now.name {
            let k = named_from(before, r.name, 0)->0;
            if k < i {
                law_dossier_names_differ(fewer, k, i);
            } else if i < k {
                law_dossier_names_differ(fewer, i, k);
            }
            assert(now.instances =~= part.map_values(|r: RowModel| instance_of(r)));
        }
    } else {
        lemma_unnamed(fewer, r.name);
        assert(now.instances =~= part.map_values(|r: RowModel| instance_of(r)));
    }
}

/// No entry lists a format twice.
pub proof fn law_dossier_formats_once(rows: Seq<RowModel>, i: int)
    requires
        0 <= i < dossier(rows).len(),
    ensures
        dossier(rows)[i].formats.no_duplicates(),
    decreases rows.len(),
{
    let before = dossier(rows.drop_last());
    lemma_named_from(before, rows.last().name, 0);
    if i < before.len() {
        law_dossier_formats_once(rows.drop_last(), i);
    }
}

/// An entry lists exactly the formats of its installed files.
pub proof fn law_dossier_formats(rows: Seq<RowModel>, i: int, format: Seq<char>)
    requires
        0 <= i < dossier(rows).len(),
    ensures
        dossier(rows)[i].formats.contains(format) <==> exists|k: int|
            #![trigger dossier(rows)[i].instances[k]]
            0 <= k < dossier(rows)[i].instances.len() && dossier(rows)[i].instances[k].format
                == format,
    decreases rows.len(),
{
    let fewer = rows.drop_last();
    let before = dossier(fewer);
    let r = rows.last();
    let now = dossier(rows)[i];
    lemma_named_from(before, r.name, 0);
    if i < before.len() {
        law_dossier_formats(fewer, i, format);
        let was = before[i];
        if named_from(before, r.name, 0) == Some(i) {
            assert(now == with_row(was, r));
            if now.formats.contains(format) {
                if was.formats.contains(format) {
                    let k = choose|k: int|
                        #![trigger was.instances[k]]
                        0 <= k < was.instances.len() && was.instances[k].format == format;
                    assert(now.instances[k] == was.instances[k]);
                } else {
                    assert(now.formats == was.formats.push(r.format));
                    let j = choose|j: int| 0 <= j < now.formats.len() && now.formats[j] == format;
                    assert(j == was.formats.len());
                    assert(now.instances[was.instances.len() as int] == instance_of(r));
                }
            }
            if exists|k: int|
                #![trigger now.instances[k]]
                0 <= k < now.instances.len() && now.instances[k].format == format {
                let k = choose|k: int|
                    #![trigger now.instances[k]]
                    0 <= k < now.instances.len() && now.instances[k].format == format;
                if k < was.instances.len() {
                    assert(was.instances[k].format == format);
                    let j = choose|j: int| 0 <= j < was.formats.len() && was.formats[j] == format;
                    assert(now.formats[j] == format);
                } else {
                    assert(format == r.format);
                    if !was.formats.contains(format) {
                        assert(now.formats[was.formats.len() as int] == format);
                    }
                }
            }
        } else {
            assert(now == was);
        }
    } else {
        assert(now == entry_of(r));
        assert(now.formats[0] == r.format);
        assert(now.instances[0].format == r.format);
    }
}

/// The order of texts is transitive.
proof fn lemma_before_transitive(a: Seq<char>, b: Seq<char>, c: Seq<char>)
    requires
        text_before(a, b),
        text_before(b, c),
    ensures
        text_before(a, c),
    decreases a.len(),
{
    if a.len() > 0 && a[0] == b[0] && b[0] == c[0] {
        lemma_before_transitive(a.skip(1), b.skip(1), c.skip(1));
    }
}

/// No text stands before itself.
proof fn lemma_not_before_itself(a: Seq<char>)
    ensures
        !text_before(a, a),
    decreases a.len(),
{
    if a.len() > 0 {
        lemma_not_before_itself(a.skip(1));
    }
}

/// The first note that a row carries.
pub open spec fn first_note(rows: Seq<RowModel>) -> Option<Seq<char>>
    decreases rows.len(),
{
    if rows.len() == 0 {
        None
    } else if rows[0].note is Some {
        rows[0].note
    } else {
        first_note(rows.skip(1))
    }
}

/// One more row gives its note only where no earlier row carries one.
proof fn lemma_first_note(rows: Seq<RowModel>)
    requires
        rows.len() > 0,
    ensures
        first_note(rows) == (if first_note(rows.drop_last()) is Some {
            first_note(rows.drop_last())
        } else {
            rows.last().note
        }),
    decreases rows.len(),
{
    if rows.len() == 1 {
        assert(first_note(rows.skip(1)) is None);
        assert(first_note(rows.drop_last()) is None);
    } else {
        lemma_first_note(rows.skip(1));
        assert(rows.skip(1).drop_last() =~= rows.drop_last().skip(1));
        assert(rows.drop_last()[0] == rows[0]);
    }
}

/// Rows of one name form one entry. Its vendor and category are those of the first
/// row, its note is the first one, and no row is older than its first date.
pub proof fn law_dossier_of_one_name(rows: Seq<RowModel>)
    requires
        rows.len() > 0,
        forall|i: int| 0 <= i < rows.len() ==> (#[trigger] rows[i]).name == rows[0].name,
    ensures
        dossier(rows).len() == 1,
        dossier(rows)[0].name == rows[0].name,
        dossier(rows)[0].vendor == rows[0].vendor,
        dossier(rows)[0].category == rows[0].category,
        dossier(rows)[0].note == first_note(rows),
        forall|i: int|
            0 <= i < rows.len() ==> !text_before(
                (#[trigger] rows[i]).created_at,
                dossier(rows)[0].first_seen,
            ),
    decreases rows.len(),
{
    let fewer = rows.drop_last();
    let r = rows.last();
    lemma_first_note(rows);
    if rows.len() == 1 {
        assert(dossier(fewer) =~= Seq::empty());
        lemma_not_before_itself(r.created_at);
    } else {
        assert(fewer[0] == rows[0]);
        assert forall|i: int| 0 <= i < fewer.len() implies (#[trigger] fewer[i]).name
            == fewer[0].name by {
            assert(fewer[i] == rows[i]);
        }
        law_dossier_of_one_name(fewer);
        let was = dossier(fewer)[0];
        let now = dossier(rows)[0];
        assert(named_from(dossier(fewer), r.name, 0) == Some(0int));
        assert(now == with_row(was, r));
        assert forall|i: int| 0 <= i < rows.len() implies !text_before(
            (#[trigger] rows[i]).created_at,
            now.first_seen,
        ) by {
            if i < fewer.len() {
                assert(fewer[i] == rows[i]);
                if text_before(rows[i].created_at, now.first_seen) && now.first_seen
                    != was.first_seen {
                    lemma_before_transitive(rows[i].created_at, now.first_seen, was.first_seen);
                }
            } else {
                lemma_not_before_itself(r.created_at);
            }
        }
    }
}

} // verus!
