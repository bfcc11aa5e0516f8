//! What holds of every page of a dossier.
use vstd::prelude::*;

use crate::db::dossier::{DossierModel, InstanceModel};
use crate::dossier_page::{
    badge, badge_color, badges, page, path_line, path_lines, table_row, table_rows, DOSSIER_CSS,
};
use crate::markup::lemma_add_assoc;
use crate::number::decimal;
use crate::text::escape;

verus! {

/// Each format has a colour of its own, and any other format one in common.
pub open spec fn is_color_of(format: Seq<char>, color: Seq<char>) -> bool {
    &&& format == "VST3"@ ==> color == "#60a5fa"@
    &&& format == "AU"@ ==> color == "#4ade80"@
    &&& format == "VST2"@ ==> color == "#facc15"@
    &&& format == "CLAP"@ ==> color == "#c084fc"@
    &&& format != "VST3"@ && format != "AU"@ && format != "VST2"@ && format != "CLAP"@ ==> color
        == "#a1a1aa"@
}

/// The badge of a format shows its name, escaped, in its colour.
pub proof fn law_badge(format: Seq<char>) -> (color: Seq<char>)
    ensures
        is_color_of(format, color),
        badge(format) == "<span class=\"badge\" style=\"color:"@ + color + "\">"@ + escape(format)
            + "</span>"@,
{
    reveal_strlit("VST3");
    reveal_strlit("AU");
    reveal_strlit("VST2");
    reveal_strlit("CLAP");
    assert("VST3"@[3] == '3' && "VST2"@[3] == '2' && "AU"@[0] == 'A' && "CLAP"@[0] == 'C');
    badge_color(format)
}

/// The badges of two lists of formats are those of the one and then those of the other.
pub proof fn law_badges(a: Seq<Seq<char>>, b: Seq<Seq<char>>, one: Seq<char>)
    ensures
        badges(a + b) == badges(a) + badges(b),
        badges(seq![one]) == badge(one),
    decreases b.len(),
{
    let single = seq![one];
    assert(single.last() == one);
    assert(badges(single.drop_last()) =~= Seq::empty());
    assert(badges(single) =~= badge(one));
    if b.len() == 0 {
        assert(a + b =~= a);
        assert(badges(a) + badges(b) =~= badges(a));
    } else {
        law_badges(a, b.drop_last(), one);
        assert((a + b).drop_last() =~= a + b.drop_last());
        assert((a + b).last() == b.last());
        assert(badges(a + b) =~= badges(a) + badges(b));
    }
}

/// The files of two lists are shown one list after the other. A file is shown with its
/// path, escaped, and with its version where one is known.
pub proof fn law_path_lines(a: Seq<InstanceModel>, b: Seq<InstanceModel>, one: InstanceModel)
    ensures
        path_lines(a + b) == path_lines(a) + path_lines(b),
        path_lines(seq![one]) == path_line(one),
        one.version is None ==> path_line(one) == "<div class=\"path-line\">"@ + escape(one.path)
            + "</div>"@,
        one.version matches Some(v) ==> path_line(one) == "<div class=\"path-line\">"@ + escape(
            one.path,
        ) + (" <span class=\"ver\">v"@ + escape(v) + "</span>"@) + "</div>"@,
    decreases b.len(),
{
    let single = seq![one];
    assert(single.last() == one);
    assert(path_lines(single.drop_last()) =~= Seq::empty());
    assert(path_lines(single) =~= path_line(one));
    let open = "<div class=\"path-line\">"@ + escape(one.path);
    assert(open + Seq::<char>::empty() =~= open);
    if b.len() == 0 {
        assert(a + b =~= a);
        assert(path_lines(a) + path_lines(b) =~= path_lines(a));
    } else {
        law_path_lines(a, b.drop_last(), one);
        assert((a + b).drop_last() =~= a + b.drop_last());
        assert((a + b).last() == b.last());
        assert(path_lines(a + b) =~= path_lines(a) + path_lines(b));
    }
}

/// A cell of the table.
pub open spec fn cell(open: Seq<char>, content: Seq<char>) -> Seq<char> {
    open + content + "</td>"@
}

/// The row of a plugin shows, from left to right, its number counted from one, its name,
/// its vendor or a dash, the badges of its formats, its category, its files and its note,
/// all texts escaped.
pub proof fn law_row(p: DossierModel, i: int)
    ensures
        ({
            let vendor = match p.vendor {
                Some(v) => v,
                None => "\u{2014}"@,
            };
            let category = match p.category {
                Some(c) => c,
                None => ""@,
            };
            let note = match p.note {
                Some(n) => n,
                None => ""@,
            };
            table_row(p, i) == "<tr>\n"@ + cell("<td class=\"num\">"@, decimal((i + 1) as nat))
                + cell("<td class=\"name\">"@, escape(p.name)) + cell(
                "<td class=\"vendor\">"@,
                escape(vendor),
            ) + cell("<td class=\"formats\">"@, badges(p.formats)) + cell("<td>"@, escape(category))
                + cell("<td>"@, path_lines(p.instances)) + cell(
                "<td class=\"note-cell\">"@,
                escape(note),
            ) + "</tr>\n"@
        }),
{
    broadcast use lemma_add_assoc;

}

/// The table has a row for each plugin, in order, numbered on.
pub proof fn law_rows(list: Seq<DossierModel>, p: DossierModel)
    ensures
        table_rows(Seq::empty()).len() == 0,
        table_rows(list.push(p)) == table_rows(list) + table_row(p, list.len() as int),
{
    assert(list.push(p).drop_last() =~= list);
}

/// The page shows when and on which device the dossier was exported, escaped, how many
/// plugins it has, and the table of all of them.
pub proof fn law_page(
    device_id: Seq<char>,
    list: Seq<DossierModel>,
    exported_at: Seq<char>,
) -> (cut: (Seq<char>, Seq<char>, Seq<char>))
    ensures
        page(device_id, list, exported_at) == cut.0 + ("<span>Exported "@ + escape(exported_at)
            + "</span>\n"@ + "<span>Device: "@ + escape(device_id) + "</span>\n"@ + "<span>"@
            + decimal(list.len()) + " plugins</span>\n"@) + cut.1 + table_rows(list) + cut.2,
{
    let before = "<!DOCTYPE html>\n<html lang=\"en\">\n<head>\n"@ + "<meta charset=\"UTF-8\">\n"@
        + "<meta name=\"viewport\" content=\"width=device-width, initial-scale=1\">\n"@
        + "<title>Patchbay Plugin Dossier</title>\n"@ + "<style>"@ + DOSSIER_CSS@
        + "</style>\n</head>\n<body>\n"@
        + "<header>\n<h1>Plugin Dossier</h1>\n<div class=\"meta\">\n"@;
    let (b1, b2, b3, b4, b5) = (
        "</div>\n</header>\n"@,
        "<table>\n<thead>\n<tr>\n"@,
        "<th>#</th><th>Name</th><th>Vendor</th><th>Formats</th>"@,
        "<th>Category</th><th>Install Paths</th><th>Note</th>"@,
        "</tr>\n</thead>\n<tbody>\n"@,
    );
    let shown = "<span>Exported "@ + escape(exported_at) + "</span>\n"@ + "<span>Device: "@
        + escape(device_id) + "</span>\n"@ + "<span>"@ + decimal(list.len())
        + " plugins</span>\n"@;
    lemma_regroup(
        before,
        "<span>Exported "@,
        escape(exported_at),
        "</span>\n"@,
        "<span>Device: "@,
        escape(device_id),
        "</span>\n"@,
        "<span>"@,
        decimal(list.len()),
        " plugins</span>\n"@,
    );
    lemma_regroup_behind(before + shown, b1, b2, b3, b4, b5);
    (before, b1 + b2 + b3 + b4 + b5, "</tbody>\n</table>\n</body>\n</html>"@)
}

proof fn lemma_regroup(
    h: Seq<char>,
    a: Seq<char>,
    b: Seq<char>,
    c: Seq<char>,
    d: Seq<char>,
    e: Seq<char>,
    f: Seq<char>,
    g: Seq<char>,
    i: Seq<char>,
    j: Seq<char>,
)
    ensures
        h + a + b + c + d + e + f + g + i + j == h + (a + b + c + d + e + f + g + i + j),
{
    broadcast use lemma_add_assoc;

}

proof fn lemma_regroup_behind(
    h: Seq<char>,
    a: Seq<char>,
    b: Seq<char>,
    c: Seq<char>,
    d: Seq<char>,
    e: Seq<char>,
)
    ensures
        h + a + b + c + d + e == h + (a + b + c + d + e),
{
    broadcast use lemma_add_assoc;

}

} // verus!
