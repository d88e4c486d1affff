use vstd::prelude::*;
use vstd::string::StringExecFns;
use crate::dashboard::{texts, DashElement, DashElementType, Dashboard, Property};
use crate::dashboard_js::{concat3, i64_to_string, int_text};
use crate::decimal::{decimal, push_decimal};
use crate::loader::API_VERSION;
use crate::page::{escape_html, push_escaped};
use crate::values::{Value, WebValueView};
use crate::web::{spec_error_message, FsResourceError};

verus! {

/// The pages of the web interface in menu order: 0 home, 1 dashboards,
/// 2 properties, 3 settings. This is the link of page `i`.
pub open spec fn page_link(i: int) -> Seq<char> {
    if i == 0 {
        "./"@
    } else if i == 1 {
        "./dashboard"@
    } else if i == 2 {
        "./properties"@
    } else {
        "./setting"@
    }
}

/// The name of page `i` (see `page_link`).
pub open spec fn page_name(i: int) -> Seq<char> {
    if i == 0 {
        "Home"@
    } else if i == 1 {
        "Dashboards"@
    } else if i == 2 {
        "Properties"@
    } else {
        "Settings"@
    }
}

fn page_entry(i: usize) -> (r: (&'static str, &'static str))
    ensures
        r.0@ == page_link(i as int),
        r.1@ == page_name(i as int),
{
    if i == 0 {
        ("./", "Home")
    } else if i == 1 {
        ("./dashboard", "Dashboards")
    } else if i == 2 {
        ("./properties", "Properties")
    } else {
        ("./setting", "Settings")
    }
}

/// The head of a page of the web interface named `name`, with its style
/// sheet.
pub open spec fn spec_page_header(name: Seq<char>) -> Seq<char> {
    "<!DOCTYPE html>"@ + "<meta charset=\"utf-8\">"@ + "<title>"@ + "DataRace - "@ + escape_html(name)
        + "</title>"@ + "<link rel=\"stylesheet\" href=\"style.css\">"@
}

/// The menu entry of page `i` with the style class `cls`: the current page
/// is marked and not linked.
pub open spec fn menu_item(i: int, current: int, cls: Seq<char>) -> Seq<char> {
    if i == current {
        "<li>"@ + "<a class=\""@ + cls + " item-current\">"@ + escape_html(page_name(i)) + "</a>"@
            + "</li>"@
    } else {
        "<li>"@ + "<a class=\""@ + cls + "\" href=\""@ + escape_html(page_link(i)) + "\">"@
            + escape_html(page_name(i)) + "</a>"@ + "</li>"@
    }
}

/// The menu entries of the first `n` pages, in order.
pub open spec fn menu_items(n: int, current: int, cls: Seq<char>) -> Seq<char>
    decreases n,
{
    if n <= 0 {
        Seq::empty()
    } else {
        menu_items(n - 1, current, cls) + menu_item(n - 1, current, cls)
    }
}

/// A page of the web interface: the head, the menu for small screens, the
/// title bar, the side menu and the content, with page `current` marked in
/// both menus.
pub open spec fn spec_generate_page(content: Seq<char>, current: int) -> Seq<char> {
    spec_page_header(page_name(current)) + "<nav>"@ + "<input type=\"checkbox\" id=\"check\">"@
        + "<label for=\"check\" class=\"mobile-nav-check-btn\">"@
        + "<i class=\"mobile-nav-check-icon\">"@ + "\u{2630}"@ + "</i>"@ + "</label>"@
        + "<div class=\"mobile-nav-bar\">"@ + "<ul>"@ + menu_items(4, current, "mobile-nav-item"@)
        + "</ul>"@ + "</div>"@ + "<a class=\"nav-bar-title\">"@ + "DataRace"@ + "</a>"@
        + "</nav>"@ + "<div class=\"page-wrapper\">"@ + "<div class=\"nav-menu\">"@
        + "<ul class=\"nav-menu-list\">"@ + menu_items(4, current, "nav-menu-item"@) + "</ul>"@
        + "</div>"@ + "<div class=\"content\">"@ + content + "</div>"@ + "</div>"@
}

fn push_menu(s: &mut String, current: usize, cls: &str)
    ensures
        final(s)@ == old(s)@ + menu_items(4, current as int, cls@),
{
    let mut i: usize = 0;
    while i < 4
        invariant
            i <= 4,
            s@ == old(s)@ + menu_items(i as int, current as int, cls@),
        decreases 4 - i,
    {
        let (link, name) = page_entry(i);
        s.append("<li>");
        s.append("<a class=\"");
        s.append(cls);
        if i == current {
            s.append(" item-current\">");
        } else {
            s.append("\" href=\"");
            push_escaped(s, link);
            s.append("\">");
        }
        push_escaped(s, name);
        s.append("</a>");
        s.append("</li>");
        assert(s@ =~= old(s)@ + menu_items(i as int + 1, current as int, cls@));
        i = i + 1;
    }
}

/// A page of the web interface (see `spec_generate_page`).
pub fn generate_page(content: &str, item: usize) -> (r: String)
    requires
        item < 4,
    ensures
        r@ == spec_generate_page(content@, item as int),
{
    let (_, title) = page_entry(item);
    let mut s = String::from_str("<!DOCTYPE html>");
    s.append("<meta charset=\"utf-8\">");
    s.append("<title>");
    s.append("DataRace - ");
    push_escaped(&mut s, title);
    s.append("</title>");
    s.append("<link rel=\"stylesheet\" href=\"style.css\">");
    s.append("<nav>");
    s.append("<input type=\"checkbox\" id=\"check\">");
    s.append("<label for=\"check\" class=\"mobile-nav-check-btn\">");
    s.append("<i class=\"mobile-nav-check-icon\">");
    s.append("\u{2630}");
    s.append("</i>");
    s.append("</label>");
    s.append("<div class=\"mobile-nav-bar\">");
    s.append("<ul>");
    push_menu(&mut s, item, "mobile-nav-item");
    s.append("</ul>");
    s.append("</div>");
    s.append("<a class=\"nav-bar-title\">");
    s.append("DataRace");
    s.append("</a>");
    s.append("</nav>");
    s.append("<div class=\"page-wrapper\">");
    s.append("<div class=\"nav-menu\">");
    s.append("<ul class=\"nav-menu-list\">");
    push_menu(&mut s, item, "nav-menu-item");
    s.append("</ul>");
    s.append("</div>");
    s.append("<div class=\"content\">");
    s.append(content);
    s.append("</div>");
    s.append("</div>");
    proof {
        reveal_strlit("<!DOCTYPE html>");
    }
    assert(s@ =~= spec_generate_page(content@, item as int));
    s
}

/// What the home page tells of the build.
pub struct BuildInfo {
    pub version_major: String,
    pub version_minor: String,
    pub version_patch: String,
    pub os: String,
    pub repository: String,
    pub license: String,
}

/// The content of the home page: the version, the plugin interface
/// version and system, how many plugins are running and how many
/// properties exist, and where the project lives.
pub open spec fn spec_index_content(info: BuildInfo, plugins: usize, properties: usize) -> Seq<char> {
    "<h1>"@ + "DataRace"@ + "</h1>"@ + "<p>"@ + "Version: "@ + escape_html(info.version_major@) + "."@
        + escape_html(info.version_minor@) + "."@ + escape_html(info.version_patch@) + "<br>"@
        + "Apiversion: "@ + decimal(API_VERSION as nat) + " - "@ + escape_html(info.os@) + "<br>"@
        + "Plugins Loaded: "@ + decimal(plugins as nat) + "<br>"@ + "<br>"@ + "Properties: "@
        + decimal(properties as nat) + "<br>"@ + "<br>"@ + "<a href=\""@ + escape_html(
        info.repository@,
    ) + "\">"@ + "GitHub"@ + "</a>"@ + "<br>"@ + escape_html(info.license@) + "</p>"@
}

/// The home page (page 0) of the web interface.
pub fn index_page(info: &BuildInfo, plugins: usize, properties: usize) -> (r: String)
    ensures
        r@ == spec_generate_page(spec_index_content(*info, plugins, properties), 0),
{
    let mut s = String::from_str("<h1>");
    s.append("DataRace");
    s.append("</h1>");
    s.append("<p>");
    s.append("Version: ");
    push_escaped(&mut s, info.version_major.as_str());
    s.append(".");
    push_escaped(&mut s, info.version_minor.as_str());
    s.append(".");
    push_escaped(&mut s, info.version_patch.as_str());
    s.append("<br>");
    s.append("Apiversion: ");
    push_decimal(&mut s, API_VERSION);
    s.append(" - ");
    push_escaped(&mut s, info.os.as_str());
    s.append("<br>");
    s.append("Plugins Loaded: ");
    push_decimal(&mut s, plugins as u64);
    s.append("<br>");
    s.append("<br>");
    s.append("Properties: ");
    push_decimal(&mut s, properties as u64);
    s.append("<br>");
    s.append("<br>");
    s.append("<a href=\"");
    push_escaped(&mut s, info.repository.as_str());
    s.append("\">");
    s.append("GitHub");
    s.append("</a>");
    s.append("<br>");
    push_escaped(&mut s, info.license.as_str());
    s.append("</p>");
    proof {
        reveal_strlit("<h1>");
    }
    assert(s@ =~= spec_index_content(*info, plugins, properties));
    generate_page(s.as_str(), 0)
}

/// One entry of the dashboard list: the dashboard's name, and links that
/// open it and edit it by its file name.
pub open spec fn dashboard_entry(file: Seq<char>, name: Seq<char>) -> Seq<char> {
    "<li>"@ + "<div class=\"dashboard-entry\">"@ + "<h3>"@ + escape_html(name) + "</h3>"@ + "<div>"@
        + "<a class=\"button\" target=\"_blank\" href=\""@ + escape_html(
        "./dashboard/render/"@ + file,
    ) + "\">"@ + "Open"@ + "</a>"@ + "<a class=\"button\" target=\"_blank\" href=\""@
        + escape_html("./dashboard/edit/"@ + file) + "\">"@ + "Edit"@ + "</a>"@ + "</div>"@
        + "</div>"@ + "</li>"@
}

/// The entries of the dashboard list, in order.
pub open spec fn dashboard_entries(es: Seq<(Seq<char>, Seq<char>)>) -> Seq<char>
    decreases es.len(),
{
    if es.len() == 0 {
        Seq::empty()
    } else {
        dashboard_entries(es.drop_last()) + dashboard_entry(es.last().0, es.last().1)
    }
}

fn dashboard_entry_text(file: &str, name: &str) -> (r: String)
    ensures
        r@ == dashboard_entry(file@, name@),
{
    let mut s = String::from_str("<li>");
    s.append("<div class=\"dashboard-entry\">");
    s.append("<h3>");
    push_escaped(&mut s, name);
    s.append("</h3>");
    s.append("<div>");
    s.append("<a class=\"button\" target=\"_blank\" href=\"");
    push_escaped(&mut s, concat3("./dashboard/render/", file, "").as_str());
    s.append("\">");
    s.append("Open");
    s.append("</a>");
    s.append("<a class=\"button\" target=\"_blank\" href=\"");
    push_escaped(&mut s, concat3("./dashboard/edit/", file, "").as_str());
    s.append("\">");
    s.append("Edit");
    s.append("</a>");
    s.append("</div>");
    s.append("</div>");
    s.append("</li>");
    proof {
        reveal_strlit("");
        reveal_strlit("<li>");
        assert(("./dashboard/render/"@ + file@ + ""@) =~= "./dashboard/render/"@ + file@);
        assert(("./dashboard/edit/"@ + file@ + ""@) =~= "./dashboard/edit/"@ + file@);
    }
    assert(s@ =~= dashboard_entry(file@, name@));
    s
}

/// The content of the dashboards page.
pub open spec fn spec_dashboard_list_content(es: Seq<(Seq<char>, Seq<char>)>) -> Seq<char> {
    "<h1>"@ + "Dashboards"@ + "</h1>"@ + "<ul class=\"dashboard-list\">"@ + dashboard_entries(es)
        + "</ul>"@
}

/// The dashboards page (page 1): one entry per readable dashboard file,
/// given as its file name (without extension) and the dashboard's name.
pub fn dashboard_list_page(entries: &Vec<(String, String)>) -> (r: String)
    ensures
        r@ == spec_generate_page(
            spec_dashboard_list_content(crate::dashboard::pair_texts(entries@)),
            1,
        ),
{
    let ghost es = crate::dashboard::pair_texts(entries@);
    let mut s = String::from_str("<h1>");
    s.append("Dashboards");
    s.append("</h1>");
    s.append("<ul class=\"dashboard-list\">");
    let ghost head = s@;
    let mut i: usize = 0;
    assert(es.take(0) =~= Seq::<(Seq<char>, Seq<char>)>::empty());
    while i < entries.len()
        invariant
            i <= entries@.len(),
            es == crate::dashboard::pair_texts(entries@),
            s@ == head + dashboard_entries(es.take(i as int)),
        decreases entries@.len() - i,
    {
        let file = entries[i].0.as_str();
        let name = entries[i].1.as_str();
        let entry = dashboard_entry_text(file, name);
        s.append(entry.as_str());
        assert(es.take(i as int + 1).drop_last() =~= es.take(i as int));
        assert(es.take(i as int + 1).last() == (file@, name@));
        assert(s@ =~= head + dashboard_entries(es.take(i as int + 1)));
        i = i + 1;
    }
    assert(es.take(es.len() as int) =~= es);
    s.append("</ul>");
    proof {
        reveal_strlit("<h1>");
    }
    assert(s@ =~= spec_dashboard_list_content(es));
    generate_page(s.as_str(), 1)
}

/// How the properties page shows a value; a float is shown by the text
/// the caller wrote for it.
pub open spec fn spec_value_text(v: WebValueView, float_text: Seq<char>) -> Seq<char> {
    match v {
        WebValueView::Empty => "None"@,
        WebValueView::Int(i) => "Int: "@ + int_text(i),
        WebValueView::Float(_) => "Float: "@ + float_text,
        WebValueView::Dur(d) => "Duration: "@ + int_text(d) + "\u{b5}s"@,
        WebValueView::Bool(b) => "Boolean: "@ + if b {
            "true"@
        } else {
            "false"@
        },
        WebValueView::Str(t) => "Str: "@ + t,
    }
}

/// How the properties page shows a value (see `spec_value_text`);
/// `float_text` is the decimal text of a float value.
pub fn value_text(v: &Value, float_text: &str) -> (r: String)
    ensures
        r@ == spec_value_text(v@, float_text@),
{
    proof {
        reveal_strlit("None");
        reveal_strlit("");
    }
    match v {
        Value::Empty => String::from_str("None"),
        Value::Int(i) => concat3("Int: ", i64_to_string(*i).as_str(), ""),
        Value::Float(_) => concat3("Float: ", float_text, ""),
        Value::Dur(d) => concat3("Duration: ", i64_to_string(*d).as_str(), "\u{b5}s"),
        Value::Bool(b) => {
            let t = if *b {
                String::from_str("true")
            } else {
                String::from_str("false")
            };
            proof {
                reveal_strlit("true");
                reveal_strlit("false");
            }
            concat3("Boolean: ", t.as_str(), "")
        },
        Value::Str(t) => concat3("Str: ", t.as_str(), ""),
    }
}

/// The entries of the properties list: a property's name and its value.
pub open spec fn property_entries(es: Seq<(Seq<char>, Seq<char>)>) -> Seq<char>
    decreases es.len(),
{
    if es.len() == 0 {
        Seq::empty()
    } else {
        property_entries(es.drop_last()) + "<li>"@ + "<div class=\"property-entry\">"@ + "<div>"@
            + escape_html(es.last().0) + "</div>"@ + "<div>"@ + escape_html(es.last().1) + "</div>"@
            + "</div>"@ + "</li>"@
    }
}

/// The content of the properties page.
pub open spec fn spec_properties_content(es: Seq<(Seq<char>, Seq<char>)>) -> Seq<char> {
    "<h1>"@ + "Properties"@ + "</h1>"@ + "<ul class=\"property-list\">"@ + property_entries(es)
        + "</ul>"@
}

/// The properties page (page 2): each property's name with its value as
/// `value_text` shows it.
pub fn properties_page(entries: &Vec<(String, String)>) -> (r: String)
    ensures
        r@ == spec_generate_page(
            spec_properties_content(crate::dashboard::pair_texts(entries@)),
            2,
        ),
{
    let ghost es = crate::dashboard::pair_texts(entries@);
    let mut s = String::from_str("<h1>");
    s.append("Properties");
    s.append("</h1>");
    s.append("<ul class=\"property-list\">");
    let ghost head = s@;
    let mut i: usize = 0;
    assert(es.take(0) =~= Seq::<(Seq<char>, Seq<char>)>::empty());
    while i < entries.len()
        invariant
            i <= entries@.len(),
            es == crate::dashboard::pair_texts(entries@),
            s@ == head + property_entries(es.take(i as int)),
        decreases entries@.len() - i,
    {
        s.append("<li>");
        s.append("<div class=\"property-entry\">");
        s.append("<div>");
        push_escaped(&mut s, entries[i].0.as_str());
        s.append("</div>");
        s.append("<div>");
        push_escaped(&mut s, entries[i].1.as_str());
        s.append("</div>");
        s.append("</div>");
        s.append("</li>");
        assert(es.take(i as int + 1).drop_last() =~= es.take(i as int));
        assert(es.take(i as int + 1).last() == (entries@[i as int].0@, entries@[i as int].1@));
        assert(s@ =~= head + property_entries(es.take(i as int + 1)));
        i = i + 1;
    }
    assert(es.take(es.len() as int) =~= es);
    s.append("</ul>");
    proof {
        reveal_strlit("<h1>");
    }
    assert(s@ =~= spec_properties_content(es));
    generate_page(s.as_str(), 2)
}

/// The content of the settings page.
pub open spec fn spec_settings_content() -> Seq<char> {
    "<h1 style=\"font-style: italic;\">"@ + "Todo..."@ + "</h1>"@
}

/// The settings page (page 3), which has no settings yet.
pub fn settings_page() -> (r: String)
    ensures
        r@ == spec_generate_page(spec_settings_content(), 3),
{
    let mut s = String::from_str("<h1 style=\"font-style: italic;\">");
    s.append("Todo...");
    s.append("</h1>");
    proof {
        reveal_strlit("<h1 style=\"font-style: italic;\">");
    }
    assert(s@ =~= spec_settings_content());
    generate_page(s.as_str(), 3)
}

/// The dashboard written when a dashboard is first edited: a red square
/// named `tester_3` on a canvas of 1000 by 750.
pub fn template_dashboard(name: String) -> (r: Dashboard)
    ensures
        r.name@ == name@,
        r.size_x == 1000,
        r.size_y == 750,
        r.font_size == 0,
        r.elements@.len() == 1,
        r.elements@[0].name@ == "tester_3"@,
        r.elements@[0].x == Property::<i64>::Fixed(150),
        r.elements@[0].y == Property::<i64>::Fixed(200),
        r.elements@[0].size_x == Property::<i64>::Fixed(500),
        r.elements@[0].size_y == Property::<i64>::Fixed(400),
        r.elements@[0].visible == Property::<bool>::Fixed(true),
        r.elements@[0].element matches DashElementType::Square(c) && c@ == "red"@,
{
    let square = DashElement {
        name: String::from_str("tester_3"),
        x: Property::Fixed(150),
        y: Property::Fixed(200),
        size_x: Property::Fixed(500),
        size_y: Property::Fixed(400),
        visible: Property::Fixed(true),
        element: DashElementType::Square(String::from_str("red")),
    };
    Dashboard { name, elements: vec![square], size_x: 1000, size_y: 750, font_size: 0 }
}

/// What editing a dashboard answers once its template was written.
pub fn template_created_message(path: &str) -> (r: String)
    ensures
        r@ == "Created template dashboard under name "@ + escape_html(path@),
{
    let mut s = String::from_str("Created template dashboard under name ");
    push_escaped(&mut s, path);
    proof {
        reveal_strlit("Created template dashboard under name ");
    }
    s
}

impl FsResourceError {
    /// The page answered for an error when loading `resource_name`: a head
    /// titled as an error and the error's message.
    pub fn error_page(&self, resource_name: &str) -> (r: String)
        ensures
            r@ == "<!DOCTYPE html>"@ + "<meta charset=\"utf-8\">"@ + "<title>"@ + "Error - DataRace"@
                + "</title>"@ + escape_html(spec_error_message(*self, Some(resource_name@))),
    {
        let mut s = String::from_str("<!DOCTYPE html>");
        s.append("<meta charset=\"utf-8\">");
        s.append("<title>");
        s.append("Error - DataRace");
        s.append("</title>");
        let m = self.format(Some(resource_name));
        push_escaped(&mut s, m.as_str());
        proof {
            reveal_strlit("<!DOCTYPE html>");
        }
        s
    }
}

} // verus!
