//! The library dossier as an HTML page.
use vstd::prelude::*;

use crate::db::dossier::{dossier_models, DossierInstance, DossierModel, DossierPlugin, InstanceModel};
use crate::number::{decimal, decimal_text};
use crate::text::{escape, same_text, texts, xe};

verus! {

/// The style of the page.
pub const DOSSIER_CSS: &'static str =
    "
*, *::before, *::after { box-sizing: border-box; margin: 0; padding: 0; }
:root {
  --bg: #ffffff; --surface: #f4f4f5; --border: #e4e4e7;
  --text: #18181b; --muted: #71717a;
  --font: system-ui, -apple-system, 'Segoe UI', sans-serif;
  --mono: 'SF Mono', 'Cascadia Code', 'Fira Code', monospace;
}
@media (prefers-color-scheme: dark) {
  :root { --bg: #09090b; --surface: #18181b; --border: #27272a; --text: #fafafa; --muted: #71717a; }
}
body { font-family: var(--font); font-size: 13px; background: var(--bg); color: var(--text); }
header { padding: 24px 32px 16px; border-bottom: 1px solid var(--border); }
h1 { font-size: 20px; font-weight: 700; letter-spacing: -0.02em; margin-bottom: 8px; }
.meta { display: flex; gap: 24px; color: var(--muted); font-size: 12px; flex-wrap: wrap; }
table { width: 100%; border-collapse: collapse; }
thead { position: sticky; top: 0; background: var(--bg); }
th { text-align: left; padding: 10px 12px 8px; color: var(--muted); font-weight: 500; font-size: 11px; text-transform: uppercase; letter-spacing: 0.05em; border-bottom: 1px solid var(--border); }
td { padding: 8px 12px; border-bottom: 1px solid var(--border); vertical-align: top; }
tr:hover td { background: var(--surface); }
tr:last-child td { border-bottom: none; }
.num { color: var(--muted); font-variant-numeric: tabular-nums; white-space: nowrap; }
.name { font-weight: 500; }
.vendor { color: var(--muted); white-space: nowrap; }
.badge { font-size: 11px; font-weight: 600; padding: 1px 5px; background: var(--surface); border-radius: 3px; display: inline-block; margin: 1px 2px 1px 0; }
.path-line { font-family: var(--mono); font-size: 11px; color: var(--muted); word-break: break-all; }
.ver { color: var(--muted); font-size: 11px; font-style: normal; }
.note-cell { font-style: italic; color: var(--muted); font-size: 12px; max-width: 220px; }
@media print { thead { position: static; } tr { page-break-inside: avoid; } }
";

/// Text for HTML: `&`, `<`, `>` and `"` as entities.
pub fn he(s: &str) -> (out: String)
    ensures
        out@ == escape(s@),
{
    xe(s)
}

// ---------------------------------------------------------------------------
// Cells
// ---------------------------------------------------------------------------

/// The colour of a format's badge.
pub open spec fn badge_color(format: Seq<char>) -> Seq<char> {
    if format == "VST3"@ {
        "#60a5fa"@
    } else if format == "AU"@ {
        "#4ade80"@
    } else if format == "VST2"@ {
        "#facc15"@
    } else if format == "CLAP"@ {
        "#c084fc"@
    } else {
        "#a1a1aa"@
    }
}

/// The badge of a format.
pub open spec fn badge(format: Seq<char>) -> Seq<char> {
    "<span class=\"badge\" style=\"color:"@ + badge_color(format) + "\">"@ + escape(format)
        + "</span>"@
}

/// The badge of a format, in the format's colour.
pub fn format_badge(fmt: &str) -> (out: String)
    ensures
        out@ == badge(fmt@),
{
    let color = if same_text(fmt, "VST3") {
        "#60a5fa"
    } else if same_text(fmt, "AU") {
        "#4ade80"
    } else if same_text(fmt, "VST2") {
        "#facc15"
    } else if same_text(fmt, "CLAP") {
        "#c084fc"
    } else {
        "#a1a1aa"
    };
    let mut out = "<span class=\"badge\" style=\"color:".to_owned();
    out.append(color);
    out.append("\">");
    out.append(he(fmt).as_str());
    out.append("</span>");
    out
}

/// The badges of formats.
pub open spec fn badges(formats: Seq<Seq<char>>) -> Seq<char>
    decreases formats.len(),
{
    if formats.len() == 0 {
        Seq::empty()
    } else {
        badges(formats.drop_last()) + badge(formats.last())
    }
}

/// The badges of formats.
fn format_badges(formats: &Vec<String>) -> (out: String)
    ensures
        out@ == badges(texts(formats@)),
{
    let mut out = String::new();
    let ghost all = texts(formats@);
    assert(out@ =~= badges(all.take(0)));
    for i in 0..formats.len()
        invariant
            all == texts(formats@),
            out@ == badges(all.take(i as int)),
    {
        assert(all.take(i + 1).drop_last() =~= all.take(i as int));
        out.append(format_badge(formats[i].as_str()).as_str());
    }
    assert(all.take(all.len() as int) =~= all);
    out
}

/// The line of an installed file, with its version where one is known.
pub open spec fn path_line(i: InstanceModel) -> Seq<char> {
    "<div class=\"path-line\">"@ + escape(i.path) + match i.version {
        Some(v) => " <span class=\"ver\">v"@ + escape(v) + "</span>"@,
        None => Seq::empty(),
    } + "</div>"@
}

/// The lines of installed files.
pub open spec fn path_lines(list: Seq<InstanceModel>) -> Seq<char>
    decreases list.len(),
{
    if list.len() == 0 {
        Seq::empty()
    } else {
        path_lines(list.drop_last()) + path_line(list.last())
    }
}

/// The line of an installed file.
fn instance_line(inst: &DossierInstance) -> (out: String)
    ensures
        out@ == path_line(inst@),
{
    let ver = match &inst.version {
        Some(v) => {
            let mut ver = " <span class=\"ver\">v".to_owned();
            ver.append(he(v.as_str()).as_str());
            ver.append("</span>");
            ver
        },
        None => String::new(),
    };
    let mut out = "<div class=\"path-line\">".to_owned();
    out.append(he(inst.path.as_str()).as_str());
    out.append(ver.as_str());
    out.append("</div>");
    proof {
        if inst.version is None {
            assert(ver@ =~= Seq::<char>::empty());
        }
    }
    out
}

/// The lines of installed files.
fn instance_lines(list: &Vec<DossierInstance>) -> (out: String)
    ensures
        out@ == path_lines(crate::db::dossier::instance_models(list@)),
{
    let mut out = String::new();
    let ghost all = crate::db::dossier::instance_models(list@);
    assert(out@ =~= path_lines(all.take(0)));
    for i in 0..list.len()
        invariant
            all == crate::db::dossier::instance_models(list@),
            out@ == path_lines(all.take(i as int)),
    {
        assert(all.take(i + 1).drop_last() =~= all.take(i as int));
        out.append(instance_line(&list[i]).as_str());
    }
    assert(all.take(all.len() as int) =~= all);
    out
}

// ---------------------------------------------------------------------------
// Page
// ---------------------------------------------------------------------------

/// The text, or `default` where there is none.
pub open spec fn text_or(t: Option<Seq<char>>, default: Seq<char>) -> Seq<char> {
    match t {
        Some(s) => s,
        None => default,
    }
}

/// The text, or `default` where there is none.
fn str_or<'a>(t: &'a Option<String>, default: &'a str) -> (out: &'a str)
    ensures
        out@ == text_or(crate::text::opt_text(*t), default@),
{
    match t {
        Some(s) => s.as_str(),
        None => default,
    }
}

/// The table row of the plugin at index `i`. Rows are counted from one.
pub open spec fn table_row(p: DossierModel, i: int) -> Seq<char> {
    "<tr>\n"@ + "<td class=\"num\">"@ + decimal((i + 1) as nat) + "</td>"@
        + "<td class=\"name\">"@ + escape(p.name) + "</td>"@ + "<td class=\"vendor\">"@ + escape(
        text_or(p.vendor, "\u{2014}"@),
    ) + "</td>"@ + "<td class=\"formats\">"@ + badges(p.formats) + "</td>"@ + "<td>"@ + escape(
        text_or(p.category, ""@),
    ) + "</td>"@ + "<td>"@ + path_lines(p.instances) + "</td>"@ + "<td class=\"note-cell\">"@
        + escape(text_or(p.note, ""@)) + "</td>"@ + "</tr>\n"@
}

/// The table rows of plugins.
pub open spec fn table_rows(list: Seq<DossierModel>) -> Seq<char>
    decreases list.len(),
{
    if list.len() == 0 {
        Seq::empty()
    } else {
        table_rows(list.drop_last()) + table_row(list.last(), list.len() - 1)
    }
}

/// The page up to the first table row.
pub open spec fn page_head(device_id: Seq<char>, exported_at: Seq<char>, count: nat) -> Seq<char> {
    "<!DOCTYPE html>\n<html lang=\"en\">\n<head>\n"@ + "<meta charset=\"UTF-8\">\n"@
        + "<meta name=\"viewport\" content=\"width=device-width, initial-scale=1\">\n"@
        + "<title>Patchbay Plugin Dossier</title>\n"@ + "<style>"@ + DOSSIER_CSS@
        + "</style>\n</head>\n<body>\n"@
        + "<header>\n<h1>Plugin Dossier</h1>\n<div class=\"meta\">\n"@ + "<span>Exported "@ + escape(
        exported_at,
    ) + "</span>\n"@ + "<span>Device: "@ + escape(device_id) + "</span>\n"@ + "<span>"@ + decimal(
        count,
    ) + " plugins</span>\n"@ + "</div>\n</header>\n"@ + "<table>\n<thead>\n<tr>\n"@
        + "<th>#</th><th>Name</th><th>Vendor</th><th>Formats</th>"@
        + "<th>Category</th><th>Install Paths</th><th>Note</th>"@ + "</tr>\n</thead>\n<tbody>\n"@
}

/// The page of a dossier.
pub open spec fn page(device_id: Seq<char>, list: Seq<DossierModel>, exported_at: Seq<char>) -> Seq<
    char,
> {
    page_head(device_id, exported_at, list.len()) + table_rows(list)
        + "</tbody>\n</table>\n</body>\n</html>"@
}

/// The table row of the plugin at index `i`.
fn plugin_row(p: &DossierPlugin, i: usize) -> (out: String)
    requires
        i < usize::MAX,
    ensures
        out@ == table_row(p@, i as int),
{
    let mut html = "<tr>\n".to_owned();
    html.append("<td class=\"num\">");
    html.append(decimal_text((i + 1) as u64).as_str());
    html.append("</td>");
    html.append("<td class=\"name\">");
    html.append(he(p.name.as_str()).as_str());
    html.append("</td>");
    html.append("<td class=\"vendor\">");
    html.append(he(str_or(&p.vendor, "\u{2014}")).as_str());
    html.append("</td>");
    html.append("<td class=\"formats\">");
    html.append(format_badges(&p.formats).as_str());
    html.append("</td>");
    html.append("<td>");
    html.append(he(str_or(&p.category, "")).as_str());
    html.append("</td>");
    html.append("<td>");
    html.append(instance_lines(&p.instances).as_str());
    html.append("</td>");
    html.append("<td class=\"note-cell\">");
    html.append(he(str_or(&p.note, "")).as_str());
    html.append("</td>");
    html.append("</tr>\n");
    html
}

/// The page up to the first table row.
fn head_text(device_id: &str, exported_at: &str, count: usize) -> (out: String)
    ensures
        out@ == page_head(device_id@, exported_at@, count as nat),
{
    let mut html = "<!DOCTYPE html>\n<html lang=\"en\">\n<head>\n".to_owned();
    html.append("<meta charset=\"UTF-8\">\n");
    html.append("<meta name=\"viewport\" content=\"width=device-width, initial-scale=1\">\n");
    html.append("<title>Patchbay Plugin Dossier</title>\n");
    html.append("<style>");
    html.append(DOSSIER_CSS);
    html.append("</style>\n</head>\n<body>\n");
    html.append("<header>\n<h1>Plugin Dossier</h1>\n<div class=\"meta\">\n");
    html.append("<span>Exported ");
    html.append(he(exported_at).as_str());
    html.append("</span>\n");
    html.append("<span>Device: ");
    html.append(he(device_id).as_str());
    html.append("</span>\n");
    html.append("<span>");
    html.append(decimal_text(count as u64).as_str());
    html.append(" plugins</span>\n");
    html.append("</div>\n</header>\n");
    html.append("<table>\n<thead>\n<tr>\n");
    html.append("<th>#</th><th>Name</th><th>Vendor</th><th>Formats</th>");
    html.append("<th>Category</th><th>Install Paths</th><th>Note</th>");
    html.append("</tr>\n</thead>\n<tbody>\n");
    html
}

/// The page of a dossier.
pub fn render_dossier_html(device_id: &str, plugins: &Vec<DossierPlugin>, exported_at: &str) -> (out:
    String)
    ensures
        out@ == page(device_id@, dossier_models(plugins@), exported_at@),
{
    let mut html = head_text(device_id, exported_at, plugins.len());
    let ghost head = html@;
    let ghost all = dossier_models(plugins@);
    assert(html@ =~= head + table_rows(all.take(0)));
    for i in 0..plugins.len()
        invariant
            all == dossier_models(plugins@),
            html@ == head + table_rows(all.take(i as int)),
    {
        html.append(plugin_row(&plugins[i], i).as_str());
        proof {
            let next = all.take(i + 1);
            assert(next.drop_last() =~= all.take(i as int));
            assert(next.last() == plugins@[i as int]@);
            assert(html@ =~= head + table_rows(next));
        }
    }
    assert(all.take(all.len() as int) =~= all);
    html.append("</tbody>\n</table>\n</body>\n</html>");
    html
}

} // verus!
