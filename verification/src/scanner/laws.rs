//! What holds of every record that a scan brings.
use vstd::prelude::*;

use crate::bytes::zero_from;
use crate::property_list::{as_text, entry, plist_document, PlistModel};
use crate::scanner::au::{
    au_plugin, buffer_text, component_plugin, hex_char, hex_digit, name_and_vendor, ostype_text,
    separator_from, type_category, RegistryComponent,
};
use crate::scanner::clap::{bundle_plugins, clap_scan, probed_plugin};
use crate::scanner::folders::{
    clap_folders, vst2_folders, vst3_folders, FolderModel, FolderVariables,
};
use crate::scanner::vst2::{category_name, vst2_plugin, vst2_scan};
use crate::scanner::{
    bundle_id_vendor, copyright_vendor, info_plist_fields, is_bundle, is_name_char, last_year,
    moduleinfo_plugin, plist_fields, plist_plugin, scan_nothing, scan_sum, sibling, trim_name_end,
    trim_name_start, unicode_alphanumeric, vst3_entries, vst3_entry, vst3_folder, vst3_plugin,
    vst3_roots, vst3_scan, year_at, FsModel, ModuleInfo, Platform, PluginFormat, PluginModel,
    ProbeDescriptor, ProgramFolder, ScanError, ScanErrorModel, ScanModel, WalkFormat,
};
use crate::selection::{chosen, is_selection, lemma_chosen};
use crate::text::{
    eq_ignore_case, join, lemma_find_from_is, opt_text, stands_at, texts,
};
use crate::text_laws::{is_bounded, law_trim};

verus! {

// ---------------------------------------------------------------------------
// Vendors
// ---------------------------------------------------------------------------

/// A decimal digit.
pub open spec fn is_numeral(c: char) -> bool {
    '0' <= c <= '9'
}

/// Four digits, and no fifth before or behind, stand at `i`.
pub open spec fn is_year(s: Seq<char>, i: int) -> bool {
    &&& 0 <= i
    &&& i + 4 <= s.len()
    &&& forall|k: int| i <= k < i + 4 ==> is_numeral(#[trigger] s[k])
    &&& i > 0 ==> !is_numeral(s[i - 1])
    &&& i + 4 < s.len() ==> !is_numeral(s[i + 4])
}

/// No year stands behind the place `i`.
pub open spec fn no_year_behind(s: Seq<char>, i: int) -> bool {
    forall|j: int| i < j ==> !#[trigger] is_year(s, j)
}

proof fn lemma_year(s: Seq<char>, i: int)
    ensures
        year_at(s, i) == is_year(s, i),
{
    if year_at(s, i) {
        assert forall|k: int| i <= k < i + 4 implies is_numeral(#[trigger] s[k]) by {
            assert(k == i || k == i + 1 || k == i + 2 || k == i + 3);
        }
    }
    if is_year(s, i) {
        assert(is_numeral(s[i]) && is_numeral(s[i + 1]) && is_numeral(s[i + 2]) && is_numeral(
            s[i + 3],
        ));
    }
}

proof fn lemma_last_year(s: Seq<char>, n: int)
    requires
        0 <= n,
    ensures
        match last_year(s, n) {
            Some(i) => 0 <= i < n && is_year(s, i) && forall|j: int|
                i < j < n ==> !#[trigger] is_year(s, j),
            None => forall|j: int| 0 <= j < n ==> !#[trigger] is_year(s, j),
        },
    decreases n,
{
    if n > 0 {
        lemma_year(s, n - 1);
        if !year_at(s, n - 1) {
            lemma_last_year(s, n - 1);
        }
    }
}

/// A character of a vendor's name: a letter, a digit or a hyphen.
pub open spec fn is_of_name(c: char) -> bool {
    ||| c == '-'
    ||| 'a' <= c <= 'z' || 'A' <= c <= 'Z' || '0' <= c <= '9'
    ||| c as u32 >= 0x80 && unicode_alphanumeric(c)
}

/// No character of the text belongs to a name.
pub open spec fn is_nameless(s: Seq<char>) -> bool {
    forall|i: int| 0 <= i < s.len() ==> !is_of_name(#[trigger] s[i])
}

proof fn lemma_name_char(c: char)
    ensures
        is_name_char(c) == is_of_name(c),
{
}

proof fn lemma_trim_name_start(a: Seq<char>, s: Seq<char>)
    requires
        is_nameless(a),
        s.len() > 0 ==> is_of_name(s[0]),
    ensures
        trim_name_start(a + s) == s,
    decreases a.len(),
{
    let all = a + s;
    if a.len() == 0 {
        assert(all =~= s);
        if s.len() > 0 {
            lemma_name_char(s[0]);
        }
    } else {
        assert(all[0] == a[0]);
        lemma_name_char(a[0]);
        let rest = a.drop_first();
        assert(all.drop_first() =~= rest + s);
        assert forall|i: int| 0 <= i < rest.len() implies !is_of_name(#[trigger] rest[i]) by {
            assert(rest[i] == a[i + 1]);
        }
        lemma_trim_name_start(rest, s);
    }
}

proof fn lemma_trim_name_end(s: Seq<char>, b: Seq<char>)
    requires
        is_nameless(b),
        s.len() > 0 ==> is_of_name(s[s.len() - 1]),
    ensures
        trim_name_end(s + b) == s,
    decreases b.len(),
{
    let all = s + b;
    if b.len() == 0 {
        assert(all =~= s);
        if s.len() > 0 {
            lemma_name_char(s.last());
        }
    } else {
        assert(all.last() == b[b.len() - 1]);
        lemma_name_char(b[b.len() - 1]);
        let rest = b.drop_last();
        assert(all.drop_last() =~= s + rest);
        assert forall|i: int| 0 <= i < rest.len() implies !is_of_name(#[trigger] rest[i]) by {
            assert(rest[i] == b[i]);
        }
        lemma_trim_name_end(s, rest);
    }
}

/// The vendor of a copyright text stands behind its last year: behind the year that is
/// used no other stands. It is what is left there without the characters at both ends
/// that belong to no name.
pub proof fn law_copyright_vendor(
    s: Seq<char>,
    i: int,
    a: Seq<char>,
    vendor: Seq<char>,
    b: Seq<char>,
)
    requires
        is_year(s, i),
        no_year_behind(s, i),
        s.skip(i + 4) == a + vendor + b,
        is_nameless(a),
        is_nameless(b),
        vendor.len() > 0 ==> is_of_name(vendor[0]) && is_of_name(vendor[vendor.len() - 1]),
        is_bounded(vendor),
    ensures
        vendor.len() > 0 ==> copyright_vendor(s) == Some(vendor),
        vendor.len() == 0 ==> copyright_vendor(s) is None,
{
    let n = s.len() as int;
    lemma_last_year(s, n);
    assert(last_year(s, n) == Some(i)) by {
        match last_year(s, n) {
            Some(k) => {
                if k < i {
                    assert(is_year(s, i));
                }
            },
            None => {
                assert(is_year(s, i));
            },
        }
    }
    let none = Seq::<char>::empty();
    if vendor.len() > 0 {
        assert(a + vendor + b =~= a + (vendor + b));
        assert((vendor + b)[0] == vendor[0]);
        lemma_trim_name_start(a, vendor + b);
    } else {
        let all = a + vendor + b;
        assert forall|k: int| 0 <= k < all.len() implies !is_of_name(#[trigger] all[k]) by {
            if k < a.len() {
                assert(all[k] == a[k]);
            } else {
                assert(all[k] == b[k - a.len()]);
            }
        }
        lemma_trim_name_start(all, none);
        assert(all + none =~= all);
        assert(vendor =~= none);
        assert(none + none =~= none);
    }
    if vendor.len() > 0 {
        lemma_trim_name_end(vendor, b);
    } else {
        lemma_trim_name_end(vendor, none);
    }
    law_trim(none, vendor, none);
    assert(none + vendor + none =~= vendor);
}

/// A copyright text without a year names no vendor.
pub proof fn law_no_copyright_vendor(s: Seq<char>)
    requires
        no_year_behind(s, -1),
    ensures
        copyright_vendor(s) is None,
{
    lemma_last_year(s, s.len() as int);
}

/// The vendor of a bundle identifier is its second part, with spaces for hyphens, where
/// the first is a domain of vendors. Apple is none.
pub proof fn law_bundle_id_vendor(domain: Seq<char>, vendor: Seq<char>, rest: Seq<char>)
    requires
        forall|i: int| 0 <= i < domain.len() ==> #[trigger] domain[i] != '.',
        forall|i: int| 0 <= i < vendor.len() ==> #[trigger] vendor[i] != '.',
    ensures
        ({
            let known = domain == "com"@ || domain == "net"@ || domain == "org"@ || domain
                == "io"@;
            let id = domain + seq!['.'] + vendor + seq!['.'] + rest;
            let short = domain + seq!['.'] + vendor;
            &&& bundle_id_vendor(domain) is None
            &&& bundle_id_vendor(id) == bundle_id_vendor(short)
            &&& bundle_id_vendor(short) is Some <==> known && vendor.len() > 0 && vendor
                != "apple"@
            &&& bundle_id_vendor(short) matches Some(v) ==> {
                &&& v.len() == vendor.len()
                &&& forall|i: int|
                    0 <= i < v.len() ==> #[trigger] v[i] == (if vendor[i] == '-' {
                        ' '
                    } else {
                        vendor[i]
                    })
            }
        }),
{
    let id = domain + seq!['.'] + vendor + seq!['.'] + rest;
    let short = domain + seq!['.'] + vendor;
    let d = domain.len() as int;
    let e = d + 1 + vendor.len();
    lemma_find_from_is(domain, '.', 0, d);
    assert forall|j: int| 0 <= j < d implies id[j] != '.' && short[j] != '.' by {
        assert(id[j] == domain[j] && short[j] == domain[j]);
    }
    assert(id[d] == '.' && short[d] == '.');
    lemma_find_from_is(id, '.', 0, d);
    lemma_find_from_is(short, '.', 0, d);
    assert forall|j: int| d + 1 <= j < e implies id[j] != '.' && short[j] != '.' by {
        assert(id[j] == vendor[j - d - 1] && short[j] == vendor[j - d - 1]);
    }
    assert(id[e] == '.');
    lemma_find_from_is(id, '.', d + 1, e);
    lemma_find_from_is(short, '.', d + 1, e);
    assert(id.take(d) =~= domain && short.take(d) =~= domain);
    assert(id.subrange(d + 1, e) =~= vendor && short.subrange(d + 1, e) =~= vendor);
}

// ---------------------------------------------------------------------------
// Property lists of bundles
// ---------------------------------------------------------------------------

/// A property list gives the bundle's name and short version. The vendor is that of its
/// information text, else that of its identifier.
pub proof fn law_plist_fields(root: PlistModel)
    ensures
        plist_fields(root).0 == as_text(entry(root, "CFBundleName"@)),
        plist_fields(root).1 == as_text(entry(root, "CFBundleShortVersionString"@)),
        ({
            let text = as_text(entry(root, "CFBundleGetInfoString"@));
            let id = as_text(entry(root, "CFBundleIdentifier"@));
            let vendor = plist_fields(root).2;
            &&& text is Some && copyright_vendor(text->Some_0) is Some ==> vendor
                == copyright_vendor(text->Some_0)
            &&& (text is None || copyright_vendor(text->Some_0) is None) && id is Some ==> vendor
                == bundle_id_vendor(id->Some_0)
            &&& (text is None || copyright_vendor(text->Some_0) is None) && id is None ==> vendor
                is None
        }),
{
}

/// A property list that is not there, or cannot be read, gives nothing.
pub proof fn law_info_plist(info: Option<Vec<u8>>)
    ensures
        info is None ==> info_plist_fields(info) == (
            None::<Seq<char>>,
            None::<Seq<char>>,
            None::<Seq<char>>,
        ),
        info matches Some(b) ==> match plist_document(b@) {
            Ok(root) => info_plist_fields(info) == plist_fields(root),
            Err(_) => info_plist_fields(info) == (
                None::<Seq<char>>,
                None::<Seq<char>>,
                None::<Seq<char>>,
            ),
        },
{
}

// ---------------------------------------------------------------------------
// Records
// ---------------------------------------------------------------------------

/// The value is the first of two that are there.
pub open spec fn is_first_of(
    out: Option<Seq<char>>,
    a: Option<Seq<char>>,
    b: Option<Seq<char>>,
) -> bool {
    &&& a is Some ==> out == a
    &&& a is None ==> out == b
}

/// The name is the first of two that are there, else that of the file.
pub open spec fn is_name_of(
    name: Seq<char>,
    a: Option<Seq<char>>,
    b: Option<Seq<char>>,
    n: FsModel,
) -> bool {
    &&& a matches Some(v) ==> name == v
    &&& a is None ==> (b matches Some(v) ==> name == v)
    &&& a is None && b is None ==> name == n.stem
}

/// The text, where it is there and not empty.
pub open spec fn is_filled(out: Option<Seq<char>>, s: Option<String>) -> bool {
    &&& s is None ==> out is None
    &&& s matches Some(t) ==> (t@.len() > 0 ==> out == Some(t@)) && (t@.len() == 0 ==> out is None)
}

/// A record says where the bundle stands and when it changed.
pub open spec fn is_of_bundle(p: PluginModel, n: FsModel) -> bool {
    p.path == n.path && p.file_mtime == n.mtime
}

/// The record of a bundle with a module description is that of its first class, where a
/// field is missing that of the module, and for the name at last that of the file.
pub proof fn law_moduleinfo(info: ModuleInfo, n: FsModel)
    ensures
        ({
            let p = moduleinfo_plugin(info, n);
            &&& is_of_bundle(p, n)
            &&& p.format == PluginFormat::Vst3
            &&& info.classes@.len() > 0 ==> {
                let class = info.classes@[0];
                &&& is_name_of(p.name, opt_text(class.name), opt_text(info.name), n)
                &&& is_first_of(p.vendor, opt_text(class.vendor), opt_text(info.vendor))
                &&& is_first_of(p.version, opt_text(class.version), opt_text(info.version))
                &&& p.class_id == opt_text(class.cid)
                &&& match class.sub_categories {
                    Some(list) => if list@.len() > 0 {
                        p.category == Some(join(texts(list@), "|"@))
                    } else {
                        p.category is None
                    },
                    None => p.category is None,
                }
            }
            &&& info.classes@.len() == 0 ==> {
                &&& is_name_of(p.name, opt_text(info.name), None, n)
                &&& p.vendor == opt_text(info.vendor)
                &&& p.version == opt_text(info.version)
                &&& p.class_id is None
                &&& p.category is None
            }
        }),
{
}

/// The record of any other bundle is what its property list gives, with the name of the
/// file where that has none.
pub proof fn law_plist_plugin(n: FsModel, format: PluginFormat)
    ensures
        ({
            let p = plist_plugin(n, format);
            let info = info_plist_fields(n.facts.info_plist);
            &&& is_of_bundle(p, n)
            &&& p.format == format
            &&& is_name_of(p.name, info.0, None, n)
            &&& p.version == info.1
            &&& p.vendor == info.2
            &&& p.category is None
            &&& p.class_id is None
        }),
        n.facts.module_info matches Some(info) ==> vst3_plugin(n) == moduleinfo_plugin(info, n),
        n.facts.module_info is None ==> vst3_plugin(n) == plist_plugin(n, PluginFormat::Vst3),
{
}

/// What a probe says of a CLAP plugin comes before what the property list says, where it
/// is not empty. Its features are the category.
pub proof fn law_probed_plugin(n: FsModel, desc: ProbeDescriptor) -> (said: (
    Option<Seq<char>>,
    Option<Seq<char>>,
    Option<Seq<char>>,
))
    ensures
        is_filled(said.0, desc.name),
        is_filled(said.1, desc.vendor),
        is_filled(said.2, desc.version),
        ({
            let p = probed_plugin(n, desc);
            let info = info_plist_fields(n.facts.info_plist);
            &&& is_of_bundle(p, n)
            &&& p.format == PluginFormat::Clap
            &&& is_name_of(p.name, said.0, info.0, n)
            &&& is_first_of(p.vendor, said.1, info.2)
            &&& is_first_of(p.version, said.2, info.1)
            &&& is_filled(p.class_id, desc.id)
            &&& desc.features@.len() == 0 ==> p.category is None
            &&& desc.features@.len() > 0 ==> p.category == Some(join(texts(desc.features@), "|"@))
        }),
{
    (
        crate::scanner::clap::non_empty(desc.name),
        crate::scanner::clap::non_empty(desc.vendor),
        crate::scanner::clap::non_empty(desc.version),
    )
}

/// A CLAP bundle has a record for each plugin that the probe described, in order, and one
/// from its property list where the probe described none.
pub proof fn law_clap_bundle(n: FsModel)
    ensures
        match n.facts.clap_probe {
            Some(descs) => {
                &&& descs@.len() > 0 ==> bundle_plugins(n).len() == descs@.len() && forall|i: int|
                    0 <= i < descs@.len() ==> #[trigger] bundle_plugins(n)[i] == probed_plugin(
                        n,
                        descs@[i],
                    )
                &&& descs@.len() == 0 ==> bundle_plugins(n) == seq![
                    plist_plugin(n, PluginFormat::Clap),
                ]
            },
            None => bundle_plugins(n) == seq![plist_plugin(n, PluginFormat::Clap)],
        },
{
}

/// What a probe says of a VST2 plugin comes before what the property list says, where it
/// is not empty. The category is the name of its number.
pub proof fn law_vst2_plugin(n: FsModel) -> (said: (Option<Seq<char>>, Option<Seq<char>>))
    ensures
        match n.facts.vst2_probe {
            Some(p) => is_filled(said.0, p.name) && is_filled(said.1, p.vendor),
            None => said.0 is None && said.1 is None,
        },
        ({
            let p = vst2_plugin(n);
            let info = info_plist_fields(n.facts.info_plist);
            &&& is_of_bundle(p, n)
            &&& p.format == PluginFormat::Vst2
            &&& is_name_of(p.name, said.0, info.0, n)
            &&& is_first_of(p.vendor, said.1, info.2)
            &&& p.version == info.1
            &&& p.class_id is None
            &&& match n.facts.vst2_probe {
                Some(probe) => match probe.category {
                    Some(c) => p.category == Some(category_name(c)),
                    None => p.category is None,
                },
                None => p.category is None,
            }
        }),
{
    match n.facts.vst2_probe {
        Some(p) => (
            crate::scanner::clap::non_empty(p.name),
            crate::scanner::clap::non_empty(p.vendor),
        ),
        None => (None, None),
    }
}

/// The numbers of VST2 categories have names from one to eleven. Any other is unknown.
pub proof fn law_category(cat: i32)
    ensures
        cat == 1 ==> category_name(cat) == "Fx"@,
        cat == 2 ==> category_name(cat) == "Synth"@,
        cat == 3 ==> category_name(cat) == "Analysis"@,
        cat == 4 ==> category_name(cat) == "Mastering"@,
        cat == 5 ==> category_name(cat) == "Spacializer"@,
        cat == 6 ==> category_name(cat) == "RoomFx"@,
        cat == 7 ==> category_name(cat) == "SurroundFx"@,
        cat == 8 ==> category_name(cat) == "Restoration"@,
        cat == 9 ==> category_name(cat) == "OfflineProcess"@,
        cat == 10 ==> category_name(cat) == "Shell"@,
        cat == 11 ==> category_name(cat) == "Generator"@,
        cat < 1 || cat > 11 ==> category_name(cat) == "Unknown"@,
{
}

// ---------------------------------------------------------------------------
// Scans
// ---------------------------------------------------------------------------

/// The bundle is known with the time of its last change.
pub open spec fn is_known(n: FsModel, known: Map<Seq<char>, i64>) -> bool {
    match n.mtime {
        Some(t) => known.contains_key(n.path) && known[n.path] == t,
        None => false,
    }
}

proof fn lemma_vst3_scan(bundles: Seq<FsModel>, known: Map<Seq<char>, i64>, n: int)
    requires
        0 <= n <= bundles.len(),
    ensures
        ({
            let at = chosen(n, |i: int| !is_known(bundles[i], known));
            let out = vst3_scan(bundles.take(n), known);
            &&& out.plugins.len() == at.len()
            &&& out.skipped + at.len() == n
            &&& out.errors.len() == 0
            &&& forall|k: int|
                0 <= k < at.len() ==> #[trigger] out.plugins[k] == vst3_plugin(bundles[at[k]])
        }),
    decreases n,
{
    let keep = |i: int| !is_known(bundles[i], known);
    if n > 0 {
        lemma_vst3_scan(bundles, known, n - 1);
        let part = bundles.take(n);
        assert(part.drop_last() =~= bundles.take(n - 1));
        assert(part.last() == bundles[n - 1]);
        assert(keep(n - 1) == !is_known(bundles[n - 1], known));
    }
}

/// A scan brings the record of every VST3 bundle that is new or changed, in order, and
/// skips the others.
pub proof fn law_vst3_records(bundles: Seq<FsModel>, known: Map<Seq<char>, i64>) -> (at: Seq<int>)
    ensures
        is_selection(at, bundles.len() as int, |i: int| !is_known(bundles[i], known)),
        vst3_scan(bundles, known).plugins.len() == at.len(),
        vst3_scan(bundles, known).skipped + at.len() == bundles.len(),
        vst3_scan(bundles, known).errors.len() == 0,
        forall|k: int|
            0 <= k < at.len() ==> #[trigger] vst3_scan(bundles, known).plugins[k] == vst3_plugin(
                bundles[at[k]],
            ),
{
    let n = bundles.len() as int;
    let keep = |i: int| !is_known(bundles[i], known);
    lemma_chosen(n, keep);
    lemma_vst3_scan(bundles, known, n);
    assert(bundles.take(n) =~= bundles);
    chosen(n, keep)
}

/// What a scan has brought is what two other scans have brought, one after the other.
pub open spec fn is_both(out: ScanModel, a: ScanModel, b: ScanModel) -> bool {
    &&& out.plugins == a.plugins + b.plugins
    &&& out.errors == a.errors + b.errors
    &&& out.skipped == a.skipped + b.skipped
}

/// The entries of two lists bring what the one and then what the other brings.
pub proof fn law_vst3_entries(
    a: Seq<FsModel>,
    b: Seq<FsModel>,
    one: FsModel,
    known: Map<Seq<char>, i64>,
)
    ensures
        is_both(vst3_entries(a + b, known), vst3_entries(a, known), vst3_entries(b, known)),
        vst3_entries(seq![one], known) == vst3_entry(one, known),
    decreases b.len(),
{
    let single = seq![one];
    assert(single.last() == one);
    assert(vst3_entries(single.drop_last(), known) == scan_nothing());
    assert(scan_sum(scan_nothing(), vst3_entry(one, known)) =~= vst3_entry(one, known));
    if b.len() == 0 {
        assert(a + b =~= a);
        let out = vst3_entries(a, known);
        assert(out.plugins + Seq::<PluginModel>::empty() =~= out.plugins);
        assert(out.errors + Seq::<ScanErrorModel>::empty() =~= out.errors);
    } else {
        law_vst3_entries(a, b.drop_last(), one, known);
        assert((a + b).drop_last() =~= a + b.drop_last());
        assert((a + b).last() == b.last());
        let (x, y, z) = (
            vst3_entries(a, known),
            vst3_entries(b.drop_last(), known),
            vst3_entry(b.last(), known),
        );
        assert(x.plugins + y.plugins + z.plugins =~= x.plugins + (y.plugins + z.plugins));
        assert(x.errors + y.errors + z.errors =~= x.errors + (y.errors + z.errors));
    }
}

/// A VST3 bundle brings its record, or that it was skipped where it is known. A folder
/// brings what its entries bring, and where it cannot be listed an error that says so. A
/// file brings nothing.
pub proof fn law_vst3_entry(n: FsModel, known: Map<Seq<char>, i64>)
    ensures
        ({
            let out = vst3_entry(n, known);
            let is_vst3 = n.extension is Some && eq_ignore_case(n.extension->Some_0, "vst3"@);
            &&& is_vst3 && is_known(n, known) ==> out.plugins.len() == 0 && out.skipped == 1
                && out.errors.len() == 0
            &&& is_vst3 && !is_known(n, known) ==> out.plugins == seq![vst3_plugin(n)]
                && out.skipped == 0 && out.errors.len() == 0
            &&& !is_vst3 && n.is_dir ==> out == vst3_folder(n, known)
            &&& !is_vst3 && !n.is_dir ==> out.plugins.len() == 0 && out.skipped == 0
                && out.errors.len() == 0
        }),
        n.unreadable is None ==> vst3_folder(n, known) == vst3_entries(n.entries, known),
        n.unreadable matches Some(e) ==> {
            let out = vst3_folder(n, known);
            &&& out.plugins.len() == 0
            &&& out.skipped == 0
            &&& out.errors == seq![ScanErrorModel::Io { path: n.path, source: e }]
        },
{
}

/// The folders to scan bring what each of them brings, in order. One that is not there
/// brings nothing.
pub proof fn law_vst3_roots(roots: Seq<FsModel>, n: FsModel, known: Map<Seq<char>, i64>)
    ensures
        vst3_roots(Seq::empty(), known).plugins.len() == 0,
        vst3_roots(Seq::empty(), known).skipped == 0,
        vst3_roots(Seq::empty(), known).errors.len() == 0,
        n.exists ==> is_both(
            vst3_roots(roots.push(n), known),
            vst3_roots(roots, known),
            vst3_folder(n, known),
        ),
        !n.exists ==> vst3_roots(roots.push(n), known) == vst3_roots(roots, known),
{
    assert(roots.push(n).drop_last() =~= roots);
}

proof fn lemma_vst2_scan(bundles: Seq<FsModel>, known: Map<Seq<char>, i64>, n: int)
    requires
        0 <= n <= bundles.len(),
    ensures
        ({
            let at = chosen(n, |i: int| !is_known(bundles[i], known));
            let out = vst2_scan(bundles.take(n), known);
            &&& out.plugins.len() == at.len()
            &&& out.skipped + at.len() == n
            &&& out.errors.len() == 0
            &&& forall|k: int|
                0 <= k < at.len() ==> #[trigger] out.plugins[k] == vst2_plugin(bundles[at[k]])
        }),
    decreases n,
{
    let keep = |i: int| !is_known(bundles[i], known);
    if n > 0 {
        lemma_vst2_scan(bundles, known, n - 1);
        let part = bundles.take(n);
        assert(part.drop_last() =~= bundles.take(n - 1));
        assert(part.last() == bundles[n - 1]);
        assert(keep(n - 1) == !is_known(bundles[n - 1], known));
    }
}

/// A scan brings the record of every VST2 bundle that is new or changed, in order, and
/// skips the others.
pub proof fn law_vst2_records(bundles: Seq<FsModel>, known: Map<Seq<char>, i64>) -> (at: Seq<int>)
    ensures
        is_selection(at, bundles.len() as int, |i: int| !is_known(bundles[i], known)),
        vst2_scan(bundles, known).plugins.len() == at.len(),
        vst2_scan(bundles, known).skipped + at.len() == bundles.len(),
        vst2_scan(bundles, known).errors.len() == 0,
        forall|k: int|
            0 <= k < at.len() ==> #[trigger] vst2_scan(bundles, known).plugins[k] == vst2_plugin(
                bundles[at[k]],
            ),
{
    let n = bundles.len() as int;
    let keep = |i: int| !is_known(bundles[i], known);
    lemma_chosen(n, keep);
    lemma_vst2_scan(bundles, known, n);
    assert(bundles.take(n) =~= bundles);
    chosen(n, keep)
}

/// A scan of CLAP bundles brings what each of them brings, in order: the records of one
/// that is new or changed, and of any other nothing but that it was skipped.
pub proof fn law_clap_records(
    bundles: Seq<FsModel>,
    n: FsModel,
    known: Map<Seq<char>, i64>,
)
    ensures
        clap_scan(Seq::empty(), known).plugins.len() == 0,
        clap_scan(Seq::empty(), known).skipped == 0,
        clap_scan(bundles, known).errors.len() == 0,
        is_known(n, known) ==> clap_scan(bundles.push(n), known).plugins == clap_scan(
            bundles,
            known,
        ).plugins && clap_scan(bundles.push(n), known).skipped == clap_scan(bundles, known).skipped
            + 1,
        !is_known(n, known) ==> clap_scan(bundles.push(n), known).plugins == clap_scan(
            bundles,
            known,
        ).plugins + bundle_plugins(n) && clap_scan(bundles.push(n), known).skipped == clap_scan(
            bundles,
            known,
        ).skipped,
    decreases bundles.len(),
{
    assert(bundles.push(n).drop_last() =~= bundles);
    if bundles.len() > 0 {
        law_clap_records(bundles.drop_last(), n, known);
    }
}

/// A VST3 bundle is anything with that extension, in any case. A CLAP plugin is a folder
/// on macOS and a file elsewhere. A VST2 plugin is a `vst` folder on macOS, a `dll` file
/// on Windows, and nothing elsewhere.
pub proof fn law_bundle(n: FsModel, platform: Platform)
    ensures
        is_bundle(n, WalkFormat::Vst3, platform) <==> n.extension is Some && eq_ignore_case(
            n.extension->Some_0,
            "vst3"@,
        ),
        is_bundle(n, WalkFormat::Clap, platform) <==> n.extension is Some && eq_ignore_case(
            n.extension->Some_0,
            "clap"@,
        ) && (if platform == Platform::MacOs {
            n.is_dir
        } else {
            n.is_file
        }),
        is_bundle(n, WalkFormat::Vst2, platform) <==> n.extension is Some && {
            ||| platform == Platform::MacOs && n.is_dir && eq_ignore_case(
                n.extension->Some_0,
                "vst"@,
            )
            ||| platform == Platform::Windows && n.is_file && eq_ignore_case(
                n.extension->Some_0,
                "dll"@,
            )
        },
{
}

// ---------------------------------------------------------------------------
// Audio Units
// ---------------------------------------------------------------------------

/// A full name holds the vendor before its first colon and space, and the name behind.
/// Without one it is all name.
pub proof fn law_full_name(vendor: Seq<char>, name: Seq<char>)
    requires
        forall|i: int| #![trigger stands_at(vendor + ": "@ + name, ": "@, i)]
            0 <= i < vendor.len() ==> !stands_at(vendor + ": "@ + name, ": "@, i),
    ensures
        name_and_vendor(vendor + ": "@ + name) == (name, Some(vendor)),
{
    reveal_strlit(": ");
    let full = vendor + ": "@ + name;
    let n = vendor.len() as int;
    assert(full.subrange(n, n + 2) =~= ": "@);
    assert(stands_at(full, ": "@, n));
    lemma_separator(full, 0, n);
    assert(full.skip(n + 2) =~= name);
    assert(full.take(n) =~= vendor);
}

proof fn lemma_separator(s: Seq<char>, i: int, n: int)
    requires
        0 <= i <= n < s.len(),
        stands_at(s, ": "@, n),
        forall|j: int| i <= j < n ==> !#[trigger] stands_at(s, ": "@, j),
    ensures
        separator_from(s, i) == Some(n),
    decreases n - i,
{
    if i < n {
        lemma_separator(s, i + 1, n);
    }
}

proof fn lemma_no_separator(s: Seq<char>, i: int)
    requires
        0 <= i,
        forall|j: int| 0 <= j < s.len() ==> !#[trigger] stands_at(s, ": "@, j),
    ensures
        separator_from(s, i) is None,
    decreases s.len() - i,
{
    if i < s.len() {
        lemma_no_separator(s, i + 1);
    }
}

/// A full name without a colon and a space is the name, and there is no vendor.
pub proof fn law_bare_name(full: Seq<char>)
    requires
        forall|j: int| 0 <= j < full.len() ==> !#[trigger] stands_at(full, ": "@, j),
    ensures
        name_and_vendor(full) == (full, None::<Seq<char>>),
{
    lemma_no_separator(full, 0);
}

/// The type of a component tells its category.
pub proof fn law_component_category(code: Seq<char>)
    ensures
        code == "aufx"@ ==> type_category(code) == Some("Fx"@),
        code == "aumu"@ ==> type_category(code) == Some("Instrument"@),
        code == "aumi"@ ==> type_category(code) == Some("MIDI Processor"@),
        code == "auou"@ ==> type_category(code) == Some("Output"@),
        code == "aumf"@ ==> type_category(code) == Some("Mixer"@),
        code == "aupn"@ ==> type_category(code) == Some("Panner"@),
        code == "augn"@ ==> type_category(code) == Some("Generator"@),
        code != "aufx"@ && code != "aumu"@ && code != "aumi"@ && code != "auou"@ && code
            != "aumf"@ && code != "aupn"@ && code != "augn"@ ==> type_category(code) is None,
{
    reveal_strlit("aufx");
    reveal_strlit("aumu");
    reveal_strlit("aumi");
    reveal_strlit("auou");
    reveal_strlit("aumf");
    reveal_strlit("aupn");
    reveal_strlit("augn");
    assert("aufx"@[2] == 'f' && "auou"@[2] == 'o' && "aupn"@[2] == 'p' && "augn"@[2] == 'g');
    assert("aumu"@[2] == 'm' && "aumi"@[2] == 'm' && "aumf"@[2] == 'm');
    assert("aumu"@[3] == 'u' && "aumi"@[3] == 'i' && "aumf"@[3] == 'f');
}

/// A code of four visible characters is written as these, highest byte first.
pub proof fn law_component_code(b0: u8, b1: u8, b2: u8, b3: u8, t: u32)
    requires
        0x21 <= b0 <= 0x7e,
        0x21 <= b1 <= 0x7e,
        0x21 <= b2 <= 0x7e,
        0x21 <= b3 <= 0x7e,
        t == b0 * 0x100_0000 + b1 * 0x1_0000 + b2 * 0x100 + b3,
    ensures
        ostype_text(t) == seq![b0 as char, b1 as char, b2 as char, b3 as char],
{
    lemma_code_bytes(b0 as int, b1 as int, b2 as int, b3 as int, t as int);
    assert(ostype_text(t) =~= seq![b0 as char, b1 as char, b2 as char, b3 as char]);
}

/// A code in which a character cannot be seen is written in hexadecimal, highest byte
/// first.
pub proof fn law_hidden_component_code(b0: u8, b1: u8, b2: u8, b3: u8, t: u32)
    requires
        !(0x21 <= b0 <= 0x7e) || !(0x21 <= b1 <= 0x7e) || !(0x21 <= b2 <= 0x7e) || !(0x21 <= b3
            <= 0x7e),
        t == b0 * 0x100_0000 + b1 * 0x1_0000 + b2 * 0x100 + b3,
    ensures
        ({
            let digits = "0123456789abcdef"@;
            ostype_text(t) == "0x"@ + seq![
                digits[b0 as int / 16],
                digits[b0 as int % 16],
                digits[b1 as int / 16],
                digits[b1 as int % 16],
                digits[b2 as int / 16],
                digits[b2 as int % 16],
                digits[b3 as int / 16],
                digits[b3 as int % 16],
            ]
        }),
{
    lemma_code_bytes(b0 as int, b1 as int, b2 as int, b3 as int, t as int);
    let digits = "0123456789abcdef"@;
    lemma_hex_digits();
    let shown = seq![
        digits[b0 as int / 16],
        digits[b0 as int % 16],
        digits[b1 as int / 16],
        digits[b1 as int % 16],
        digits[b2 as int / 16],
        digits[b2 as int % 16],
        digits[b3 as int / 16],
        digits[b3 as int % 16],
    ];
    assert(Seq::new(8, |k: int| hex_char(hex_digit(t, k))) =~= shown);
}

proof fn lemma_hex_digits()
    ensures
        forall|d: int| 0 <= d < 16 ==> #[trigger] hex_char(d) == "0123456789abcdef"@[d],
{
    reveal_strlit("0123456789abcdef");
}

proof fn lemma_code_bytes(b0: int, b1: int, b2: int, b3: int, low: int)
    requires
        0 <= b0 < 256,
        0 <= b1 < 256,
        0 <= b2 < 256,
        0 <= b3 < 256,
        low == b0 * 0x100_0000 + b1 * 0x1_0000 + b2 * 0x100 + b3,
    ensures
        low / 0x100_0000 == b0,
        low / 0x1_0000 % 0x100 == b1,
        low / 0x100 % 0x100 == b2,
        low % 0x100 == b3,
{
    let h = b0 * 0x100 + b1;
    let m = h * 0x100 + b2;
    assert(low == h * 0x1_0000 + (b2 * 0x100 + b3));
    assert(low / 0x1_0000 == h);
    assert(h % 0x100 == b1);
    assert(low == m * 0x100 + b3);
    assert(low / 0x100 == m);
    assert(m % 0x100 == b2);
}

/// The record of an Audio Unit is identified by its three codes. It has the name and the
/// vendor of its full name, or its codes for a name, and the category of its type.
pub proof fn law_audio_unit(
    component_type: u32,
    sub_type: u32,
    manufacturer: u32,
    full_name: Option<Seq<char>>,
    path: Option<Seq<char>>,
    file_mtime: Option<i64>,
)
    ensures
        ({
            let p = au_plugin(component_type, sub_type, manufacturer, full_name, path, file_mtime);
            let id = ostype_text(component_type) + "/"@ + ostype_text(sub_type) + "/"@
                + ostype_text(manufacturer);
            &&& p.class_id == Some(id)
            &&& full_name matches Some(s) ==> (p.name, p.vendor) == name_and_vendor(s)
            &&& full_name is None ==> p.name == id && p.vendor is None
            &&& p.category == type_category(ostype_text(component_type))
            &&& p.version is None
            &&& path matches Some(s) ==> p.path == s
            &&& path is None ==> p.path.len() == 0
            &&& p.format == PluginFormat::Au
            &&& p.file_mtime == file_mtime
        }),
{
}

/// The text of a buffer ends before its first zero byte. One that is not UTF-8 has none.
pub proof fn law_buffer(head: Seq<u8>, rest: Seq<u8>, b: Vec<u8>)
    requires
        forall|i: int| 0 <= i < head.len() ==> #[trigger] head[i] != 0,
        b@ == head || b@ == head + seq![0u8] + rest,
    ensures
        vstd::utf8::valid_utf8(head) ==> buffer_text(Some(b)) == Some(
            vstd::utf8::decode_utf8(head),
        ),
        !vstd::utf8::valid_utf8(head) ==> buffer_text(Some(b)) is None,
        buffer_text(None) is None,
{
    lemma_zero(b@, 0, head.len() as int);
    assert(b@.take(head.len() as int) =~= head);
}

proof fn lemma_zero(s: Seq<u8>, i: int, n: int)
    requires
        0 <= i <= n <= s.len(),
        forall|k: int| 0 <= k < n ==> #[trigger] s[k] != 0,
        n < s.len() ==> s[n] == 0,
    ensures
        zero_from(s, i) == n,
    decreases n - i,
{
    if i < n {
        lemma_zero(s, i + 1, n);
    }
}

/// The record of a registered component is made of its codes and of the texts of its name
/// and of the path of its bundle.
pub proof fn law_component(c: RegistryComponent)
    ensures
        component_plugin(c) == au_plugin(
            c.component_type,
            c.sub_type,
            c.manufacturer,
            buffer_text(c.name),
            buffer_text(c.bundle_path),
            c.file_mtime,
        ),
{
}

// ---------------------------------------------------------------------------
// Folders
// ---------------------------------------------------------------------------

/// The folder with the given name among the system's plugins on macOS.
pub open spec fn is_system_folder(f: FolderModel, name: Seq<char>) -> bool {
    f.base == "/Library/Audio/Plug-Ins"@ && f.below == seq![name]
}

/// The folder with the given name among the user's plugins on macOS.
pub open spec fn is_user_folder(f: FolderModel, home: Seq<char>, name: Seq<char>) -> bool {
    f.base == home && f.below == seq!["Library"@, "Audio"@, "Plug-Ins"@, name]
}

/// The folder is that of a variable, or a default one where it is not set.
pub open spec fn is_based_on(
    f: FolderModel,
    variable: Option<String>,
    default: Seq<char>,
    below: Seq<Seq<char>>,
) -> bool {
    &&& variable matches Some(v) ==> f.base == v@
    &&& variable is None ==> f.base == default
    &&& f.below == below
}

/// On macOS plugins of each format are looked for in the system's folder of that format,
/// and in that of the user where it is known.
pub proof fn law_mac_folders(env: FolderVariables)
    ensures
        ({
            let vst3 = vst3_folders(Platform::MacOs, env);
            let vst2 = vst2_folders(Platform::MacOs, env);
            let clap = clap_folders(Platform::MacOs, env);
            &&& vst3.len() == vst2.len() == clap.len()
            &&& vst3.len() == (if env.home is Some {
                2int
            } else {
                1int
            })
            &&& is_system_folder(vst3[0], "VST3"@)
            &&& is_system_folder(vst2[0], "VST"@)
            &&& is_system_folder(clap[0], "CLAP"@)
            &&& env.home matches Some(home) ==> is_user_folder(vst3[1], home@, "VST3"@)
                && is_user_folder(vst2[1], home@, "VST"@) && is_user_folder(
                clap[1],
                home@,
                "CLAP"@,
            )
        }),
{
}

/// On Windows VST3 and CLAP plugins are looked for among the common files, and VST2
/// plugins in three folders of each of the two program folders.
pub proof fn law_windows_folders(env: FolderVariables)
    ensures
        ({
            let vst3 = vst3_folders(Platform::Windows, env);
            let vst2 = vst2_folders(Platform::Windows, env);
            let clap = clap_folders(Platform::Windows, env);
            let pf = "C:\\Program Files"@;
            let pf86 = "C:\\Program Files (x86)"@;
            let common = "C:\\Program Files\\Common Files"@;
            let common86 = "C:\\Program Files (x86)\\Common Files"@;
            &&& vst3.len() == 1
            &&& is_based_on(vst3[0], env.common_files, common, seq!["VST3"@])
            &&& clap.len() == 2
            &&& is_based_on(clap[0], env.common_files, common, seq!["CLAP"@])
            &&& is_based_on(clap[1], env.common_files_x86, common86, seq!["CLAP"@])
            &&& vst2.len() == 6
            &&& is_based_on(vst2[0], env.program_files, pf, seq!["VSTPlugins"@])
            &&& is_based_on(vst2[1], env.program_files_x86, pf86, seq!["VSTPlugins"@])
            &&& is_based_on(vst2[2], env.program_files, pf, seq!["Common Files"@, "VST2"@])
            &&& is_based_on(vst2[3], env.program_files_x86, pf86, seq!["Common Files"@, "VST2"@])
            &&& is_based_on(vst2[4], env.program_files, pf, seq!["Steinberg"@, "VstPlugins"@])
            &&& is_based_on(
                vst2[5],
                env.program_files_x86,
                pf86,
                seq!["Steinberg"@, "VstPlugins"@],
            )
        }),
{
}

/// Elsewhere no folder is looked into.
pub proof fn law_other_folders(env: FolderVariables)
    ensures
        vst3_folders(Platform::Other, env).len() == 0,
        vst2_folders(Platform::Other, env).len() == 0,
        clap_folders(Platform::Other, env).len() == 0,
{
}

/// A probe is the file of its name beside the program, and there is none where no such
/// file stands there. On Windows the names have the extension of programs.
pub proof fn law_probes(folder: Option<ProgramFolder>, name: Seq<char>, platform: Platform)
    ensures
        folder is None ==> sibling(folder, name) is None,
        folder matches Some(f) ==> {
            &&& texts(f.files@).contains(name) ==> sibling(folder, name) == Some(f.path@ + name)
            &&& !texts(f.files@).contains(name) ==> sibling(folder, name) is None
        },
        platform == Platform::Windows ==> crate::scanner::clap::probe_file(platform)
            == "patchbay-clap-probe.exe"@ && crate::scanner::vst2::probe_file(platform)
            == "patchbay-vst2-probe.exe"@,
        platform != Platform::Windows ==> crate::scanner::clap::probe_file(platform)
            == "patchbay-clap-probe"@ && crate::scanner::vst2::probe_file(platform)
            == "patchbay-vst2-probe"@,
{
}

/// The formats are named as in records.
pub proof fn law_format_names()
    ensures
        PluginFormat::Vst3.text() == "VST3"@,
        PluginFormat::Vst2.text() == "VST2"@,
        PluginFormat::Au.text() == "AU"@,
        PluginFormat::Clap.text() == "CLAP"@,
{
}

/// An error says where it happened, and why.
pub proof fn law_error_text(e: ScanError)
    ensures
        e matches ScanError::Io { path, source } ==> e.text() == "IO error at "@ + path@ + ": "@
            + source@,
        e matches ScanError::Json { path, source } ==> e.text() == "Bad moduleinfo.json at "@
            + path@ + ": "@ + source@,
{
}

} // verus!
