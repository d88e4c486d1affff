use datarace::dashboard::{DashElementType, Property};
use datarace::pages::{
    dashboard_list_page, generate_page, index_page, properties_page, settings_page, template_created_message,
    template_dashboard, value_text, BuildInfo,
};
use datarace::values::Value;
use datarace::web::FsResourceError;

const HEAD: &str = "<!DOCTYPE html><meta charset=\"utf-8\"><title>DataRace - ";

fn menu(cls: &str, current: usize) -> String {
    let pages = [("./", "Home"), ("./dashboard", "Dashboards"), ("./properties", "Properties"), ("./setting", "Settings")];
    let mut out = String::new();
    for (i, (link, name)) in pages.iter().enumerate() {
        if i == current {
            out.push_str(&format!("<li><a class=\"{cls} item-current\">{name}</a></li>"));
        } else {
            out.push_str(&format!("<li><a class=\"{cls}\" href=\"{link}\">{name}</a></li>"));
        }
    }
    out
}

fn page(title: &str, current: usize, content: &str) -> String {
    format!(
        "{HEAD}{title}</title><link rel=\"stylesheet\" href=\"style.css\"><nav><input type=\"checkbox\" id=\"check\">\
<label for=\"check\" class=\"mobile-nav-check-btn\"><i class=\"mobile-nav-check-icon\">\u{2630}</i></label>\
<div class=\"mobile-nav-bar\"><ul>{}</ul></div><a class=\"nav-bar-title\">DataRace</a></nav>\
<div class=\"page-wrapper\"><div class=\"nav-menu\"><ul class=\"nav-menu-list\">{}</ul></div>\
<div class=\"content\">{content}</div></div>",
        menu("mobile-nav-item", current),
        menu("nav-menu-item", current)
    )
}

#[test]
fn pages_mark_the_current_menu_entry() {
    assert_eq!(generate_page("<p>x</p>", 2), page("Properties", 2, "<p>x</p>"));
    assert_eq!(settings_page(), page("Settings", 3, "<h1 style=\"font-style: italic;\">Todo...</h1>"));
}

#[test]
fn home_page_tells_versions_and_counts() {
    let info = BuildInfo {
        version_major: "1".to_string(),
        version_minor: "2".to_string(),
        version_patch: "3".to_string(),
        os: "linux".to_string(),
        repository: "https://example.org/a?b&c".to_string(),
        license: "MIT".to_string(),
    };
    let content = "<h1>DataRace</h1><p>Version: 1.2.3<br>Apiversion: 0 - linux<br>Plugins Loaded: 4<br><br>\
Properties: 17<br><br><a href=\"https://example.org/a?b&amp;c\">GitHub</a><br>MIT</p>";
    assert_eq!(index_page(&info, 4, 17), page("Home", 0, content));
}

#[test]
fn dashboard_list_links_render_and_edit() {
    let entries = vec![("main".to_string(), "Main <1>".to_string())];
    let content = "<h1>Dashboards</h1><ul class=\"dashboard-list\"><li><div class=\"dashboard-entry\"><h3>Main &lt;1&gt;</h3>\
<div><a class=\"button\" target=\"_blank\" href=\"./dashboard/render/main\">Open</a>\
<a class=\"button\" target=\"_blank\" href=\"./dashboard/edit/main\">Edit</a></div></div></li></ul>";
    assert_eq!(dashboard_list_page(&entries), page("Dashboards", 1, content));
    assert_eq!(
        dashboard_list_page(&vec![]),
        page("Dashboards", 1, "<h1>Dashboards</h1><ul class=\"dashboard-list\"></ul>")
    );
}

#[test]
fn property_values_are_described_by_type() {
    assert_eq!(value_text(&Value::Empty, ""), "None");
    assert_eq!(value_text(&Value::Int(-3), ""), "Int: -3");
    assert_eq!(value_text(&Value::Float(0), "1.5"), "Float: 1.5");
    assert_eq!(value_text(&Value::Dur(250), ""), "Duration: 250\u{b5}s");
    assert_eq!(value_text(&Value::Bool(true), ""), "Boolean: true");
    assert_eq!(value_text(&Value::Str("a&b".to_string()), ""), "Str: a&b");
    let entries = vec![("plugin.speed".to_string(), "Str: a&b".to_string())];
    let content = "<h1>Properties</h1><ul class=\"property-list\"><li><div class=\"property-entry\">\
<div>plugin.speed</div><div>Str: a&amp;b</div></div></li></ul>";
    assert_eq!(properties_page(&entries), page("Properties", 2, content));
}

#[test]
fn error_pages_carry_the_escaped_message() {
    let e = FsResourceError::SerdeParseError("expected \"x\"".to_string());
    assert_eq!(
        e.error_page("dash<1>"),
        "<!DOCTYPE html><meta charset=\"utf-8\"><title>Error - DataRace</title>\
Unable to load Resource dash&lt;1&gt;: Unable to parse: expected &quot;x&quot;"
    );
    assert_eq!(e.status_code(), 500);
}

#[test]
fn editing_writes_a_template_dashboard() {
    let d = template_dashboard("new".to_string());
    assert_eq!(d.name, "new");
    assert_eq!((d.size_x, d.size_y), (1000, 750));
    assert_eq!(d.elements.len(), 1);
    assert_eq!(d.elements[0].name, "tester_3");
    assert!(matches!(d.elements[0].x, Property::Fixed(150)));
    assert!(matches!(&d.elements[0].element, DashElementType::Square(c) if c == "red"));
    assert_eq!(template_created_message("a&b"), "Created template dashboard under name a&amp;b");
}
