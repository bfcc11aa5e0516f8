use patchbay::db::dossier::{DossierInstance, DossierPlugin};
use patchbay::dossier_page::{format_badge, he, render_dossier_html};

#[test]
fn html_is_escaped() {
    assert_eq!(he("a & b <c> \"d\" 'e'"), "a &amp; b &lt;c&gt; &quot;d&quot; 'e'");
    assert_eq!(he("&amp;"), "&amp;amp;");
}

#[test]
fn badges_have_the_colour_of_their_format() {
    assert_eq!(format_badge("VST3"), "<span class=\"badge\" style=\"color:#60a5fa\">VST3</span>");
    assert_eq!(format_badge("AU"), "<span class=\"badge\" style=\"color:#4ade80\">AU</span>");
    assert_eq!(format_badge("VST2"), "<span class=\"badge\" style=\"color:#facc15\">VST2</span>");
    assert_eq!(format_badge("CLAP"), "<span class=\"badge\" style=\"color:#c084fc\">CLAP</span>");
    assert_eq!(format_badge("<X>"), "<span class=\"badge\" style=\"color:#a1a1aa\">&lt;X&gt;</span>");
}

#[test]
fn page_has_a_row_for_each_plugin() {
    let plugins = vec![
        DossierPlugin {
            name: "A&B".to_string(),
            vendor: None,
            category: Some("EQ".to_string()),
            formats: vec!["VST3".to_string(), "AU".to_string()],
            instances: vec![
                DossierInstance {
                    format: "VST3".to_string(),
                    path: "/p/a.vst3".to_string(),
                    version: Some("1.2".to_string()),
                },
                DossierInstance { format: "AU".to_string(), path: "/p/a.component".to_string(), version: None },
            ],
            note: Some("nice".to_string()),
            first_seen: "2026-01-01".to_string(),
        },
        DossierPlugin {
            name: "C".to_string(),
            vendor: Some("V".to_string()),
            category: None,
            formats: Vec::new(),
            instances: Vec::new(),
            note: None,
            first_seen: "2026-01-02".to_string(),
        },
    ];
    let html = render_dossier_html("dev<1>", &plugins, "2026-01-03T00:00:00Z");
    assert!(html.starts_with("<!DOCTYPE html>\n<html lang=\"en\">\n<head>\n<meta charset=\"UTF-8\">\n"));
    assert!(html.contains("<span>Exported 2026-01-03T00:00:00Z</span>\n<span>Device: dev&lt;1&gt;</span>\n<span>2 plugins</span>\n"));
    assert!(html.contains("<th>#</th><th>Name</th><th>Vendor</th><th>Formats</th><th>Category</th><th>Install Paths</th><th>Note</th></tr>\n"));
    assert!(html.contains("<tr>\n<td class=\"num\">1</td><td class=\"name\">A&amp;B</td><td class=\"vendor\">\u{2014}</td>"));
    assert!(html.contains("<td>EQ</td><td><div class=\"path-line\">/p/a.vst3 <span class=\"ver\">v1.2</span></div><div class=\"path-line\">/p/a.component</div></td><td class=\"note-cell\">nice</td></tr>\n"));
    assert!(html.contains("<td class=\"num\">2</td><td class=\"name\">C</td><td class=\"vendor\">V</td><td class=\"formats\"></td><td></td><td></td><td class=\"note-cell\"></td></tr>\n"));
    assert!(html.ends_with("</tbody>\n</table>\n</body>\n</html>"));
}
