use datarace::dashboard::{Action, DashElement, DashElementType, Dashboard, Property, Text};
use datarace::handles::{ActionHandle, PropertyHandle};
use datarace::page::{dashboard_header, ONE_BITS};
use datarace::web_handle::{WebActionHandle, WebPropertyHandle};

fn fixed_element(name: &str, element: DashElementType) -> DashElement {
    DashElement {
        name: name.to_string(),
        x: Property::Fixed(10),
        y: Property::Fixed(20),
        size_x: Property::Fixed(30),
        size_y: Property::Fixed(40),
        visible: Property::Fixed(true),
        element,
    }
}

fn data(name: &str) -> String {
    format!("DATA.get(\"{}\")", WebPropertyHandle::from_handle(PropertyHandle::new(name).unwrap()).as_text())
}

fn action_json(name: &str) -> String {
    format!("\"{}\"", WebActionHandle::from_handle(ActionHandle::new(name).unwrap()).as_text())
}

#[test]
fn page_titles_are_escaped() {
    assert_eq!(
        dashboard_header("a<b & \"c\">"),
        "<!DOCTYPE html><meta charset=\"utf-8\"><title>DataRace - a&lt;b &amp; &quot;c&quot;&gt;</title>"
    );
}

#[test]
fn resize_function_places_the_element() {
    let e = fixed_element("Box", DashElementType::Square("#FFF".to_string()));
    assert_eq!(
        e.generate_resize_js(),
        "function Resize_box(element, DATA, SCALE){let offset_x = 10 * SCALE;let offset_y = 20 * SCALE;\
let scale_x = 30 * SCALE;let scale_y = 40 * SCALE;element.style.left = offset_x + 'px';\
element.style.top = offset_y + 'px';element.style.width = scale_x + 'px';element.style.height = scale_y + 'px';}"
    );
}

#[test]
fn update_function_of_a_square_escapes_its_colour() {
    let e = fixed_element("Box", DashElementType::Square("red\"&".to_string()));
    assert_eq!(
        e.generate_update_js(),
        "function Update_box(element, DATA, SCALE){element.style.display = 'block';\
element.firstElementChild.style.background = 'red&quot;&amp;';}"
    );
    let mut hidden = fixed_element("Box", DashElementType::Square("red".to_string()));
    hidden.visible = Property::Fixed(false);
    hidden.x = Property::Computed("plugin.x".to_string());
    assert_eq!(
        hidden.generate_update_js(),
        "function Update_box(element, DATA, SCALE){element.style.display = 'none'; return;\
Resize_box(element, DATA, SCALE);element.firstElementChild.style.background = 'red';}"
    );
}

#[test]
fn computed_visibility_and_text_are_read_from_data() {
    let text = Text { text: Property::Computed("plugin.label".to_string()), font_size: None };
    let mut e = fixed_element("Label", DashElementType::Text(text));
    e.visible = Property::Computed("plugin.show".to_string());
    let expected = format!(
        "function Update_label(element, DATA, SCALE){{if(read_bool({show})){{ element.style.display = 'block'; }} \
else {{ element.style.display = 'none'; return; }}element.firstElementChild.textContent = read_string({label});\
element.firstElementChild.value = read_string({label});}}",
        show = data("plugin.show"),
        label = data("plugin.label")
    );
    assert_eq!(e.generate_update_js(), expected);
}

#[test]
fn computed_font_sizes_are_read_as_floats() {
    let text = Text {
        text: Property::Fixed("x".to_string()),
        font_size: Some(Property::Formated { source: "plugin.size".to_string(), formater: "return x;".to_string() }),
    };
    assert_eq!(
        text.generate_update_js("element", "label"),
        format!(
            "element.firstElementChild.style.fontSize = \"parse_to_float(label_F_font_size({}))rem\";",
            data("plugin.size")
        )
    );
    let bad = Property::<u64>::Computed("nodot".to_string());
    assert_eq!(bad.generate_read_js("a", "b"), "0");
}

#[test]
fn folders_call_their_elements() {
    let inner = fixed_element("Inner", DashElementType::Square("blue".to_string()));
    let folder = fixed_element("Group", DashElementType::Folder(vec![inner]));
    assert_eq!(
        folder.generate_init_js("BODY"),
        "BODY.DR.group = BODY.getElementsByClassName('group')[0];BODY.DR.group.DR = {};\
{let group = BODY.DR.group;group.DR.inner = group.getElementsByClassName('inner')[0];group.DR.inner.DR = {};}"
    );
    let resize = folder.generate_resize_js();
    assert!(resize.contains("Resize_inner(element.DR.inner, DATA, SCALE);}function Resize_inner(element, DATA, SCALE){"));
    let update = folder.generate_update_js();
    assert!(update.contains(
        "try {Update_inner(element.DR.inner, DATA, SCALE);} catch (error) {ERROR.firstElementChild.textContent = error;\
ERROR.style.display = 'block';console.log(error);}}function Update_inner(element, DATA, SCALE){"
    ));
}

#[test]
fn text_inputs_send_their_value_with_the_action() {
    let text = Text { text: Property::Fixed("v".to_string()), font_size: None };
    let e = fixed_element("Input", DashElementType::TextInput { action: Action::Plugin("plugin.set".to_string()), text });
    assert_eq!(
        e.generate_init_js("BODY"),
        format!(
            "BODY.DR.input = BODY.getElementsByClassName('input')[0];BODY.DR.input.DR = {{}};\
{{let text_input = BODY.DR.input.firstElementChild;text_input.addEventListener('change', function (){{ triggerAction({{ action: {}, param: [{{ Str: text_input.value }}] }})}});}}",
            action_json("plugin.set")
        )
    );
}

#[test]
fn element_markup_uses_fixed_values_and_font_texts() {
    let fonts = vec![(ONE_BITS, "1".to_string()), (0u64, "0".to_string())];
    let text = Text { text: Property::Fixed("Go & stop".to_string()), font_size: None };
    let button = fixed_element("Btn", DashElementType::Button { action: Action::Plugin("plugin.go".to_string()), text });
    let ac = action_json("plugin.go").replace('"', "'");
    assert_eq!(
        button.generate_html(&fonts),
        format!(
            "<div class=\"btn\" style=\"left:10px; top:20px; width:30px; height:40px\">\
<button type=\"button\" style=\"width:100%;height:100%\" onClick=\"triggerAction({{ action: {} }})\">\
<div style=\"font-size:1rem\">Go &amp; stop</div></button></div>",
            ac
        )
    );
    let input = fixed_element(
        "In",
        DashElementType::TextInput {
            action: Action::Empty,
            text: Text { text: Property::Fixed("a\"b".to_string()), font_size: Some(Property::Fixed(7)) },
        },
    );
    assert_eq!(
        input.generate_html(&vec![(7u64, "2.5".to_string())]),
        "<div class=\"in\" style=\"left:10px; top:20px; width:30px; height:40px\">\
<input type=\"text\" style=\"width:100%;height:100%;font-size:2.5rem\" value=\"a&quot;b\"></input></div>"
    );
    assert_eq!(input.font_sizes(), vec![7u64]);
    let bad = fixed_element("no-good", DashElementType::Square("x".to_string()));
    assert_eq!(bad.generate_html(&fonts), "");
}

#[test]
fn dashboards_with_bad_names_render_only_an_error_title() {
    let a = fixed_element("A", DashElementType::Square("x".to_string()));
    let b = fixed_element("a", DashElementType::Square("y".to_string()));
    let d = Dashboard { name: "Main".to_string(), elements: vec![a, b], size_x: 800, size_y: 600, font_size: 16 };
    assert_eq!(
        d.generate_dashboard(&vec![]),
        "<!DOCTYPE html><meta charset=\"utf-8\"><title>DataRace - Failed to render Dashboard Main due to element name issues:\n\
Unable to render dashboard: Unique Name violated with name 'a'</title>"
    );
}

#[test]
fn dashboard_page_holds_styles_scripts_and_formatters() {
    let mut e = fixed_element("Speed", DashElementType::Text(Text { text: Property::Fixed("0".to_string()), font_size: None }));
    e.x = Property::Formated { source: "plugin.speed".to_string(), formater: "return value * 2;".to_string() };
    let d = Dashboard { name: "Main".to_string(), elements: vec![e], size_x: 800, size_y: 600, font_size: 16 };
    assert_eq!(d.font_sizes(), vec![ONE_BITS]);
    let page = d.generate_dashboard(&vec![(ONE_BITS, "1".to_string())]);
    assert!(page.starts_with(
        "<!DOCTYPE html><meta charset=\"utf-8\"><title>DataRace - Main</title><style>div.speed {position: absolute;overflow: hidden;}</style><body>\
<div id=\"BODY\" style=\"position: absolute; left: 0px; top: 0px; width: 800px; height: 600px; overflow: hidden\">\
<div class=\"speed\" style=\"left:0px; top:20px; width:30px; height:40px\"><div style=\"font-size:1rem\">0</div></div></div>"
    ));
    assert!(page.contains("let scale_to_w = window.innerWidth / 800;let scale_to_h = window.innerHeight / 600;if (scale_to_h < scale_to_w) {"));
    assert!(page.contains("fsize = 16 * SCALE;document.documentElement.style.fontSize = fsize + \"px\";"));
    assert!(page.contains("try {Resize_speed(BODY.DR.speed, DATA, SCALE);}"));
    assert!(page.contains("SOCKET.emit('auth-dashboard', 'Main');"));
    assert!(page.ends_with("</script><script>function speed_F_x(value) {return value * 2;}</script>"));
}
