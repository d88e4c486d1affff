use vstd::prelude::*;
use vstd::string::StringExecFns;
use crate::dashboard::{
    formater_function_name, formater_name, lemma_gather_all_err_stays, pair_texts,
    spec_formaters_all, spec_gather_all, spec_normalize_name, texts, Action, DashElement,
    DashElementType, Dashboard, Property, Text,
};
use crate::dashboard_js::{
    concat3, generate_web_action_handle, i64_to_string, int_text, spec_handle_js, spec_read_js_bool,
    spec_read_js_int, spec_read_js_string, spec_web_action_handle,
};
use crate::config::{replace_all_char, replace_char};

verus! {

/// How maud escapes one character of text: `&`, `<`, `>` and `"` become
/// their HTML entities, every other character stays.
pub open spec fn escape_char(c: char) -> Seq<char> {
    if c == '&' {
        "&amp;"@
    } else if c == '<' {
        "&lt;"@
    } else if c == '>' {
        "&gt;"@
    } else if c == '"' {
        "&quot;"@
    } else {
        seq![c]
    }
}

/// A text escaped for HTML, character by character.
pub open spec fn escape_html(s: Seq<char>) -> Seq<char>
    decreases s.len(),
{
    if s.len() == 0 {
        Seq::empty()
    } else {
        escape_html(s.drop_last()) + escape_char(s.last())
    }
}

/// `maud::Render::render_to` on a `str`, into an empty buffer: the text
/// with `&`, `<`, `>` and `"` written as `&amp;`, `&lt;`, `&gt;` and
/// `&quot;`, every other character unchanged (maud's escaper, which both
/// the `html!` splices and its literals go through).
#[verifier::external_body]
fn html_escape(s: &str) -> (r: String)
    ensures
        r@ == escape_html(s@),
{
    let mut out = String::new();
    maud::Render::render_to(s, &mut out);
    out
}

/// Escaped text cannot open or close a tag or an attribute: it holds no
/// `<`, `>` or `"`.
pub proof fn lemma_escape_no_markup(s: Seq<char>)
    ensures
        forall|i: int| 0 <= i < escape_html(s).len() ==> {
            let c = #[trigger] escape_html(s)[i];
            c != '<' && c != '>' && c != '"'
        },
    decreases s.len(),
{
    reveal_strlit("&amp;");
    reveal_strlit("&lt;");
    reveal_strlit("&gt;");
    reveal_strlit("&quot;");
    if s.len() > 0 {
        lemma_escape_no_markup(s.drop_last());
        let head = escape_html(s.drop_last());
        let tail = escape_char(s.last());
        assert forall|i: int| 0 <= i < escape_html(s).len() implies {
            let c = #[trigger] escape_html(s)[i];
            c != '<' && c != '>' && c != '"'
        } by {
            if i < head.len() {
                assert(escape_html(s)[i] == head[i]);
            } else {
                assert(escape_html(s)[i] == tail[i - head.len()]);
            }
        }
    }
}

/// Appends the escaped text of `t` to `s`.
pub(crate) fn push_escaped(s: &mut String, t: &str)
    ensures
        final(s)@ == old(s)@ + escape_html(t@),
{
    let e = html_escape(t);
    s.append(e.as_str());
}

/// The script expression that reads a font size (a property of floating
/// point numbers) that is computed at runtime; a handle that is not valid
/// reads as `0`.
pub open spec fn spec_read_js_float(p: Property<u64>, element: Seq<char>, field: Seq<char>) -> Seq<char> {
    match spec_handle_js(p) {
        None => "0"@,
        Some(h) => match p {
            Property::Fixed(_) => "0"@,
            Property::Computed(_) => "read_float("@ + h + ")"@,
            Property::Formated { .. } => "parse_to_float("@ + formater_name(element, field) + "("@
                + h + "))"@,
            Property::Deref { index, .. } => "read_float(read_arr("@ + h + ","@ + spec_read_js_int(
                *index,
                formater_name(element, field),
                "deref"@,
            ) + "))"@,
        },
    }
}

impl Property<u64> {
    /// The script expression that reads a computed font size (see
    /// `spec_read_js_float`). A fixed font size is written out as a
    /// floating point number, which is left to the page renderer.
    pub fn generate_read_js(&self, element_name: &str, field_name: &str) -> (r: String)
        requires
            !(*self is Fixed),
        ensures
            r@ == spec_read_js_float(*self, element_name@, field_name@),
    {
        let handle = match self.generate_handle_js() {
            Some(h) => h,
            None => return String::from_str("0"),
        };
        match self {
            Property::Fixed(_) => String::from_str("0"),
            Property::Computed(_) => concat3("read_float(", handle.as_str(), ")"),
            Property::Formated { .. } => {
                let f = formater_function_name(element_name, field_name);
                let mut s = concat3("parse_to_float(", f.as_str(), "(");
                s.append(handle.as_str());
                s.append("))");
                assert(s@ =~= spec_read_js_float(*self, element_name@, field_name@));
                s
            },
            Property::Deref { index, .. } => {
                let f = formater_function_name(element_name, field_name);
                let inner = index.generate_read_js(f.as_str(), "deref");
                let mut s = concat3("read_float(read_arr(", handle.as_str(), ",");
                s.append(inner.as_str());
                s.append("))");
                assert(s@ =~= spec_read_js_float(*self, element_name@, field_name@));
                s
            },
        }
    }
}

/// The update script of a text shown at `callpath`: a computed text is
/// written into the element's text and value, a computed font size into
/// its style.
pub open spec fn spec_text_update_js(t: Text, callpath: Seq<char>, name: Seq<char>) -> Seq<char> {
    let r = spec_read_js_string(t.text, name, "text"@);
    (if t.text is Fixed {
        Seq::empty()
    } else {
        callpath + ".firstElementChild.textContent = "@ + r + ";"@ + callpath
            + ".firstElementChild.value = "@ + r + ";"@
    }) + match t.font_size {
        Some(f) => if f is Fixed {
            Seq::empty()
        } else {
            callpath + ".firstElementChild.style.fontSize = \""@ + spec_read_js_float(
                f,
                name,
                "font_size"@,
            ) + "rem\";"@
        },
        None => Seq::empty(),
    }
}

impl Text {
    /// The update script of this text shown at `callpath` in the element
    /// `name` (see `spec_text_update_js`).
    pub fn generate_update_js(&self, callpath: &str, name: &str) -> (r: String)
        ensures
            r@ == spec_text_update_js(*self, callpath@, name@),
    {
        proof {
            reveal_strlit("text");
            reveal_strlit("font_size");
        }
        let mut s = String::new();
        if self.text.is_computed() {
            let read = self.text.generate_read_js(name, "text");
            s.append(callpath);
            s.append(".firstElementChild.textContent = ");
            s.append(read.as_str());
            s.append(";");
            s.append(callpath);
            s.append(".firstElementChild.value = ");
            s.append(read.as_str());
            s.append(";");
        }
        let ghost first = s@;
        if let Some(f) = &self.font_size {
            if f.is_computed() {
                let read = f.generate_read_js(name, "font_size");
                s.append(callpath);
                s.append(".firstElementChild.style.fontSize = \"");
                s.append(read.as_str());
                s.append("rem\";");
            }
        }
        assert(s@ =~= spec_text_update_js(*self, callpath@, name@));
        s
    }
}

/// A call of the `kind` function (`Update` or `Resize`) of the element
/// `n` below `obj`, guarded so that an error is shown in the page's error
/// bar and logged instead of stopping the script.
pub open spec fn guarded_call(kind: Seq<char>, obj: Seq<char>, n: Seq<char>) -> Seq<char> {
    "try {"@ + escape_html(kind + "_"@ + n + "("@ + obj + ".DR."@ + n + ", DATA, SCALE);"@)
        + "} catch (error) {"@ + "ERROR.firstElementChild.textContent = error;"@
        + "ERROR.style.display = 'block';"@ + "console.log(error);"@ + "}"@
}

/// `guarded_call` for each element with a valid name, in order.
pub open spec fn guarded_calls(es: Seq<DashElement>, kind: Seq<char>, obj: Seq<char>) -> Seq<char>
    decreases es.len(),
{
    if es.len() == 0 {
        Seq::empty()
    } else {
        guarded_calls(es.drop_last(), kind, obj) + match spec_normalize_name(es.last().name@) {
            Ok(n) => guarded_call(kind, obj, n),
            Err(_) => Seq::empty(),
        }
    }
}

/// The resize calls a folder makes for each of its elements with a valid
/// name, in order.
pub open spec fn resize_calls(es: Seq<DashElement>) -> Seq<char>
    decreases es.len(),
{
    if es.len() == 0 {
        Seq::empty()
    } else {
        resize_calls(es.drop_last()) + match spec_normalize_name(es.last().name@) {
            Ok(n) => escape_html("Resize_"@ + n + "(element.DR."@ + n + ", DATA, SCALE);"@),
            Err(_) => Seq::empty(),
        }
    }
}

/// The listener a text input registers to trigger its action with the
/// entered text, when the action names a valid handle.
pub open spec fn spec_input_listener(a: Action) -> Seq<char> {
    match a {
        Action::Empty => Seq::empty(),
        Action::Plugin(name) => match spec_web_action_handle(name@) {
            None => Seq::empty(),
            Some(ac) => "text_input.addEventListener('change', function (){ triggerAction({ action: "@
                + ac + ", param: [{ Str: text_input.value }] })});"@,
        },
    }
}

/// The script that finds the element `e` (and the elements below it) in
/// the page below `parent`; an element whose name is not valid has none.
pub open spec fn spec_init_js(e: DashElement, parent: Seq<char>) -> Seq<char>
    decreases e,
{
    match spec_normalize_name(e.name@) {
        Err(_) => Seq::empty(),
        Ok(n) => escape_html(
            parent + ".DR."@ + n + " = "@ + parent + ".getElementsByClassName('"@ + n + "')[0];"@,
        ) + escape_html(parent + ".DR."@ + n + ".DR = {};"@) + match e.element {
            DashElementType::Folder(v) => "{"@ + escape_html(
                "let "@ + n + " = "@ + parent + ".DR."@ + n + ";"@,
            ) + spec_init_all(v@, n) + "}"@,
            DashElementType::TextInput { action, .. } => "{"@ + escape_html(
                "let text_input = "@ + parent + ".DR."@ + n + ".firstElementChild;"@,
            ) + spec_input_listener(action) + "}"@,
            _ => Seq::empty(),
        },
    }
}

/// `spec_init_js` for each element, in order.
pub open spec fn spec_init_all(es: Seq<DashElement>, parent: Seq<char>) -> Seq<char>
    decreases es,
{
    if es.len() == 0 {
        Seq::empty()
    } else {
        spec_init_all(es.drop_last(), parent) + spec_init_js(es.last(), parent)
    }
}

/// The script that sets whether an element is shown.
pub open spec fn spec_visibility_js(visible: Property<bool>, n: Seq<char>) -> Seq<char> {
    match visible {
        Property::Fixed(b) => escape_html(
            "element.style.display = "@ + if b {
                "'block';"@
            } else {
                "'none'; return;"@
            },
        ),
        _ => "if("@ + spec_read_js_bool(visible, n, "visible"@) + ")"@
            + "{ element.style.display = 'block'; } else { element.style.display = 'none'; return; }"@,
    }
}

/// Whether any of an element's position and size is computed at runtime.
pub open spec fn placed_at_runtime(e: DashElement) -> bool {
    !(e.x is Fixed) || !(e.y is Fixed) || !(e.size_x is Fixed) || !(e.size_y is Fixed)
}

/// The update function of the element `e` (named `Update_<name>`),
/// followed by those of the elements below it; an element whose name is
/// not valid has none.
pub open spec fn spec_update_js(e: DashElement) -> Seq<char>
    decreases e,
{
    match spec_normalize_name(e.name@) {
        Err(_) => Seq::empty(),
        Ok(n) => escape_html("function Update_"@ + n + "(element, DATA, SCALE)"@) + "{"@
            + spec_visibility_js(e.visible, n) + (if placed_at_runtime(e) {
            escape_html("Resize_"@ + n + "(element, DATA, SCALE);"@)
        } else {
            Seq::empty()
        }) + match e.element {
            DashElementType::Square(color) => escape_html(
                "element.firstElementChild.style.background = '"@ + color@ + "';"@,
            ),
            DashElementType::Folder(v) => guarded_calls(v@, "Update"@, "element"@),
            DashElementType::Text(t) => spec_text_update_js(t, "element"@, n),
            DashElementType::Button { text, .. } => spec_text_update_js(
                text,
                "element.firstElementChild"@,
                n,
            ),
            DashElementType::TextInput { text, .. } => spec_text_update_js(text, "element"@, n),
        } + "}"@ + match e.element {
            DashElementType::Folder(v) => spec_update_all(v@),
            _ => Seq::empty(),
        },
    }
}

/// `spec_update_js` for each element, in order.
pub open spec fn spec_update_all(es: Seq<DashElement>) -> Seq<char>
    decreases es,
{
    if es.len() == 0 {
        Seq::empty()
    } else {
        spec_update_all(es.drop_last()) + spec_update_js(es.last())
    }
}

/// The resize function of the element `e` (named `Resize_<name>`), which
/// places it scaled by the page's scale, followed by those of the elements
/// below it; an element whose name is not valid has none.
pub open spec fn spec_resize_js(e: DashElement) -> Seq<char>
    decreases e,
{
    match spec_normalize_name(e.name@) {
        Err(_) => Seq::empty(),
        Ok(n) => escape_html("function Resize_"@ + n + "(element, DATA, SCALE)"@) + "{"@
            + "let offset_x = "@ + spec_read_js_int(e.x, n, "x"@) + " * SCALE;"@
            + "let offset_y = "@ + spec_read_js_int(e.y, n, "y"@) + " * SCALE;"@
            + "let scale_x = "@ + spec_read_js_int(e.size_x, n, "size_x"@) + " * SCALE;"@
            + "let scale_y = "@ + spec_read_js_int(e.size_y, n, "size_y"@) + " * SCALE;"@
            + "element.style.left = offset_x + 'px';"@ + "element.style.top = offset_y + 'px';"@
            + "element.style.width = scale_x + 'px';"@ + "element.style.height = scale_y + 'px';"@
            + match e.element {
            DashElementType::Folder(v) => resize_calls(v@),
            _ => Seq::empty(),
        } + "}"@ + match e.element {
            DashElementType::Folder(v) => spec_resize_all(v@),
            _ => Seq::empty(),
        },
    }
}

/// `spec_resize_js` for each element, in order.
pub open spec fn spec_resize_all(es: Seq<DashElement>) -> Seq<char>
    decreases es,
{
    if es.len() == 0 {
        Seq::empty()
    } else {
        spec_resize_all(es.drop_last()) + spec_resize_js(es.last())
    }
}

/// Appends `guarded_call` for each element of `es` with a valid name.
fn push_guarded_calls(s: &mut String, es: &Vec<DashElement>, kind: &str, obj: &str)
    ensures
        final(s)@ == old(s)@ + guarded_calls(es@, kind@, obj@),
{
    let mut i: usize = 0;
    assert(es@.take(0) =~= Seq::<DashElement>::empty());
    while i < es.len()
        invariant
            i <= es@.len(),
            s@ == old(s)@ + guarded_calls(es@.take(i as int), kind@, obj@),
        decreases es@.len() - i,
    {
        let ghost before = s@;
        if let Ok(n) = es[i].normalize_name() {
            let mut call = String::new();
            call.append(kind);
            call.append("_");
            call.append(n.as_str());
            call.append("(");
            call.append(obj);
            call.append(".DR.");
            call.append(n.as_str());
            call.append(", DATA, SCALE);");
            s.append("try {");
            push_escaped(s, call.as_str());
            s.append("} catch (error) {");
            s.append("ERROR.firstElementChild.textContent = error;");
            s.append("ERROR.style.display = 'block';");
            s.append("console.log(error);");
            s.append("}");
            assert(call@ =~= kind@ + "_"@ + n@ + "("@ + obj@ + ".DR."@ + n@ + ", DATA, SCALE);"@);
        }
        assert(es@.take(i as int + 1).drop_last() =~= es@.take(i as int));
        assert(es@.take(i as int + 1).last() == es@[i as int]);
        assert(s@ =~= old(s)@ + guarded_calls(es@.take(i as int + 1), kind@, obj@));
        i = i + 1;
    }
    assert(es@.take(es@.len() as int) =~= es@);
}

/// Appends the resize calls of a folder's elements (see `resize_calls`).
fn push_resize_calls(s: &mut String, es: &Vec<DashElement>)
    ensures
        final(s)@ == old(s)@ + resize_calls(es@),
{
    let mut i: usize = 0;
    assert(es@.take(0) =~= Seq::<DashElement>::empty());
    while i < es.len()
        invariant
            i <= es@.len(),
            s@ == old(s)@ + resize_calls(es@.take(i as int)),
        decreases es@.len() - i,
    {
        if let Ok(n) = es[i].normalize_name() {
            let mut call = concat3("Resize_", n.as_str(), "(element.DR.");
            call.append(n.as_str());
            call.append(", DATA, SCALE);");
            push_escaped(s, call.as_str());
            assert(call@ =~= "Resize_"@ + n@ + "(element.DR."@ + n@ + ", DATA, SCALE);"@);
        }
        assert(es@.take(i as int + 1).drop_last() =~= es@.take(i as int));
        assert(es@.take(i as int + 1).last() == es@[i as int]);
        assert(s@ =~= old(s)@ + resize_calls(es@.take(i as int + 1)));
        i = i + 1;
    }
    assert(es@.take(es@.len() as int) =~= es@);
}

impl DashElement {
    /// The script that finds this element (and the elements below it) in
    /// the page below `parent` (see `spec_init_js`).
    pub fn generate_init_js(&self, parent: &str) -> (r: String)
        ensures
            r@ == spec_init_js(*self, parent@),
        decreases self,
    {
        let name = match self.normalize_name() {
            Ok(n) => n,
            Err(_) => return String::new(),
        };
        let n = name.as_str();
        let mut s = String::new();
        let mut find = concat3(parent, ".DR.", n);
        find.append(" = ");
        find.append(parent);
        find.append(".getElementsByClassName('");
        find.append(n);
        find.append("')[0];");
        push_escaped(&mut s, find.as_str());
        let mut holder = concat3(parent, ".DR.", n);
        holder.append(".DR = {};");
        push_escaped(&mut s, holder.as_str());
        let ghost head = s@;
        assert(find@ =~= parent@ + ".DR."@ + n@ + " = "@ + parent@ + ".getElementsByClassName('"@
            + n@ + "')[0];"@);
        assert(holder@ =~= parent@ + ".DR."@ + n@ + ".DR = {};"@);
        match &self.element {
            DashElementType::Folder(elements) => {
                s.append("{");
                let mut local = concat3("let ", n, " = ");
                local.append(parent);
                local.append(".DR.");
                local.append(n);
                local.append(";");
                assert(local@ =~= "let "@ + n@ + " = "@ + parent@ + ".DR."@ + n@ + ";"@);
                push_escaped(&mut s, local.as_str());
                let ghost start = s@;
                let mut i: usize = 0;
                assert(elements@.take(0) =~= Seq::<DashElement>::empty());
                while i < elements.len()
                    invariant
                        i <= elements@.len(),
                        self.element == DashElementType::Folder(*elements),
                        s@ == start + spec_init_all(elements@.take(i as int), n@),
                    decreases elements@.len() - i,
                {
                    assert(self.element->Folder_0 == *elements);
                    assert(decreases_to!(self.element => self.element->Folder_0));
                    assert(decreases_to!(*elements => elements@));
                    assert(decreases_to!(elements@ => elements@[i as int]));
                    let sub = elements[i].generate_init_js(n);
                    s.append(sub.as_str());
                    assert(elements@.take(i as int + 1).drop_last() =~= elements@.take(i as int));
                    assert(elements@.take(i as int + 1).last() == elements@[i as int]);
                    assert(s@ =~= start + spec_init_all(elements@.take(i as int + 1), n@));
                    i = i + 1;
                }
                assert(elements@.take(elements@.len() as int) =~= elements@);
                s.append("}");
            },
            DashElementType::TextInput { action, text: _ } => {
                s.append("{");
                let mut local = concat3("let text_input = ", parent, ".DR.");
                local.append(n);
                local.append(".firstElementChild;");
                assert(local@ =~= "let text_input = "@ + parent@ + ".DR."@ + n@ + ".firstElementChild;"@);
                push_escaped(&mut s, local.as_str());
                let ghost start = s@;
                if let Action::Plugin(action_name) = action {
                    if let Some(ac) = generate_web_action_handle(action_name.as_str()) {
                        s.append(
                            "text_input.addEventListener('change', function (){ triggerAction({ action: ",
                        );
                        s.append(ac.as_str());
                        s.append(", param: [{ Str: text_input.value }] })});");
                    }
                }
                assert(s@ =~= start + spec_input_listener(*action));
                s.append("}");
            },
            _ => {},
        }
        assert(s@ =~= spec_init_js(*self, parent@));
        s
    }

    /// The update function of this element, followed by those of the
    /// elements below it (see `spec_update_js`).
    pub fn generate_update_js(&self) -> (r: String)
        ensures
            r@ == spec_update_js(*self),
        decreases self,
    {
        let name = match self.normalize_name() {
            Ok(n) => n,
            Err(_) => return String::new(),
        };
        let n = name.as_str();
        let mut s = String::new();
        let head = concat3("function Update_", n, "(element, DATA, SCALE)");
        push_escaped(&mut s, head.as_str());
        s.append("{");
        let ghost a = s@;
        if self.visible.is_computed() {
            let read = self.visible.generate_read_js(n, "visible");
            s.append("if(");
            s.append(read.as_str());
            s.append(")");
            s.append(
                "{ element.style.display = 'block'; } else { element.style.display = 'none'; return; }",
            );
        } else {
            let shown = if self.visible.get_static_value() {
                String::from_str("element.style.display = 'block';")
            } else {
                String::from_str("element.style.display = 'none'; return;")
            };
            proof {
                reveal_strlit("element.style.display = 'block';");
                reveal_strlit("element.style.display = 'none'; return;");
                reveal_strlit("element.style.display = ");
                reveal_strlit("'block';");
                reveal_strlit("'none'; return;");
            }
            assert(shown@ =~= "element.style.display = "@ + if self.visible->Fixed_0 {
                "'block';"@
            } else {
                "'none'; return;"@
            });
            push_escaped(&mut s, shown.as_str());
        }
        assert(s@ =~= a + spec_visibility_js(self.visible, n@));
        let ghost b = s@;
        if self.x.is_computed() || self.y.is_computed() || self.size_x.is_computed()
            || self.size_y.is_computed() {
            let call = concat3("Resize_", n, "(element, DATA, SCALE);");
            push_escaped(&mut s, call.as_str());
        }
        let ghost c = s@;
        match &self.element {
            DashElementType::Square(color) => {
                let paint = concat3(
                    "element.firstElementChild.style.background = '",
                    color.as_str(),
                    "';",
                );
                push_escaped(&mut s, paint.as_str());
            },
            DashElementType::Folder(elements) => {
                push_guarded_calls(&mut s, elements, "Update", "element");
            },
            DashElementType::Text(text) => {
                let t = text.generate_update_js("element", n);
                s.append(t.as_str());
            },
            DashElementType::Button { action: _, text } => {
                let t = text.generate_update_js("element.firstElementChild", n);
                s.append(t.as_str());
            },
            DashElementType::TextInput { action: _, text } => {
                let t = text.generate_update_js("element", n);
                s.append(t.as_str());
            },
        }
        s.append("}");
        let ghost d = s@;
        if let DashElementType::Folder(elements) = &self.element {
            let mut i: usize = 0;
            assert(elements@.take(0) =~= Seq::<DashElement>::empty());
            while i < elements.len()
                invariant
                    i <= elements@.len(),
                    self.element == DashElementType::Folder(*elements),
                    s@ == d + spec_update_all(elements@.take(i as int)),
                decreases elements@.len() - i,
            {
                assert(self.element->Folder_0 == *elements);
                assert(decreases_to!(self.element => self.element->Folder_0));
                assert(decreases_to!(*elements => elements@));
                assert(decreases_to!(elements@ => elements@[i as int]));
                let sub = elements[i].generate_update_js();
                s.append(sub.as_str());
                assert(elements@.take(i as int + 1).drop_last() =~= elements@.take(i as int));
                assert(elements@.take(i as int + 1).last() == elements@[i as int]);
                assert(s@ =~= d + spec_update_all(elements@.take(i as int + 1)));
                i = i + 1;
            }
            assert(elements@.take(elements@.len() as int) =~= elements@);
        }
        assert(s@ =~= spec_update_js(*self));
        s
    }

    /// The resize function of this element, followed by those of the
    /// elements below it (see `spec_resize_js`).
    pub fn generate_resize_js(&self) -> (r: String)
        ensures
            r@ == spec_resize_js(*self),
        decreases self,
    {
        let name = match self.normalize_name() {
            Ok(n) => n,
            Err(_) => return String::new(),
        };
        let n = name.as_str();
        let mut s = String::new();
        let head = concat3("function Resize_", n, "(element, DATA, SCALE)");
        push_escaped(&mut s, head.as_str());
        s.append("{");
        let rx = self.x.generate_read_js(n, "x");
        s.append("let offset_x = ");
        s.append(rx.as_str());
        s.append(" * SCALE;");
        let ry = self.y.generate_read_js(n, "y");
        s.append("let offset_y = ");
        s.append(ry.as_str());
        s.append(" * SCALE;");
        let rw = self.size_x.generate_read_js(n, "size_x");
        s.append("let scale_x = ");
        s.append(rw.as_str());
        s.append(" * SCALE;");
        let rh = self.size_y.generate_read_js(n, "size_y");
        s.append("let scale_y = ");
        s.append(rh.as_str());
        s.append(" * SCALE;");
        s.append("element.style.left = offset_x + 'px';");
        s.append("element.style.top = offset_y + 'px';");
        s.append("element.style.width = scale_x + 'px';");
        s.append("element.style.height = scale_y + 'px';");
        if let DashElementType::Folder(elements) = &self.element {
            push_resize_calls(&mut s, elements);
        }
        s.append("}");
        let ghost d = s@;
        if let DashElementType::Folder(elements) = &self.element {
            let mut i: usize = 0;
            assert(elements@.take(0) =~= Seq::<DashElement>::empty());
            while i < elements.len()
                invariant
                    i <= elements@.len(),
                    self.element == DashElementType::Folder(*elements),
                    s@ == d + spec_resize_all(elements@.take(i as int)),
                decreases elements@.len() - i,
            {
                assert(self.element->Folder_0 == *elements);
                assert(decreases_to!(self.element => self.element->Folder_0));
                assert(decreases_to!(*elements => elements@));
                assert(decreases_to!(elements@ => elements@[i as int]));
                let sub = elements[i].generate_resize_js();
                s.append(sub.as_str());
                assert(elements@.take(i as int + 1).drop_last() =~= elements@.take(i as int));
                assert(elements@.take(i as int + 1).last() == elements@[i as int]);
                assert(s@ =~= d + spec_resize_all(elements@.take(i as int + 1)));
                i = i + 1;
            }
            assert(elements@.take(elements@.len() as int) =~= elements@);
        }
        assert(s@ =~= spec_resize_js(*self));
        s
    }
}

/// The bit pattern of the floating point number `1.0`, the font size of a
/// text that names none.
pub const ONE_BITS: u64 = 0x3FF0_0000_0000_0000;

/// The text that a table of font sizes gives for the bit pattern `bits`:
/// the text of its first entry for it (the empty text if it has none).
/// The page renderer fills the table with the decimal text of every font
/// size that `font_sizes` lists.
pub open spec fn font_text(table: Seq<(u64, String)>, bits: u64) -> Seq<char>
    decreases table.len(),
{
    if table.len() == 0 {
        Seq::empty()
    } else if table[0].0 == bits {
        table[0].1@
    } else {
        font_text(table.drop_first(), bits)
    }
}

/// Looks a font size up in a table of font size texts (see `font_text`).
fn lookup_font(table: &Vec<(u64, String)>, bits: u64) -> (r: String)
    ensures
        r@ == font_text(table@, bits),
{
    let mut i: usize = 0;
    assert(table@.skip(0) =~= table@);
    while i < table.len()
        invariant
            i <= table@.len(),
            font_text(table@, bits) == font_text(table@.skip(i as int), bits),
        decreases table@.len() - i,
    {
        assert(table@.skip(i as int)[0] == table@[i as int]);
        if table[i].0 == bits {
            return table[i].1.clone();
        }
        assert(table@.skip(i as int).drop_first() =~= table@.skip(i as int + 1));
        i = i + 1;
    }
    assert(table@.skip(i as int).len() == 0);
    String::new()
}

/// The fixed value of an integer property, or 0.
pub open spec fn static_int(p: Property<i64>) -> i64 {
    match p {
        Property::Fixed(v) => v,
        _ => 0,
    }
}

/// The fixed text of a text property, or the empty text.
pub open spec fn static_text(p: Property<String>) -> Seq<char> {
    match p {
        Property::Fixed(v) => v@,
        _ => Seq::empty(),
    }
}

/// The fixed font size (as bits) of a font size property, or the bits of
/// `0.0`.
pub open spec fn static_bits(p: Property<u64>) -> u64 {
    match p {
        Property::Fixed(v) => v,
        _ => 0,
    }
}

/// The font size a text is first shown with: its fixed size, `0.0` when
/// computed, `1.0` when it names none.
pub open spec fn text_font_bits(t: Text) -> u64 {
    match t.font_size {
        Some(f) => static_bits(f),
        None => ONE_BITS,
    }
}

/// The font size a text input is first shown with: its fixed size, and
/// `0.0` when computed or when it names none.
pub open spec fn input_font_bits(t: Text) -> u64 {
    match t.font_size {
        Some(f) => static_bits(f),
        None => 0,
    }
}

/// The markup of a text: its fixed text in a block with its font size.
pub open spec fn spec_text_html(t: Text, table: Seq<(u64, String)>) -> Seq<char> {
    "<div style=\""@ + escape_html("font-size:"@ + font_text(table, text_font_bits(t)) + "rem"@)
        + "\">"@ + escape_html(static_text(t.text)) + "</div>"@
}

/// The click handler of a button: it triggers the button's action when the
/// action names a valid handle (with the handle's quotes made single).
pub open spec fn spec_button_click(a: Action) -> Seq<char> {
    match a {
        Action::Empty => Seq::empty(),
        Action::Plugin(name) => match spec_web_action_handle(name@) {
            None => Seq::empty(),
            Some(ac) => "triggerAction({ action: "@ + replace_char(ac, '"', '\'') + " })"@,
        },
    }
}

/// The markup of an element and of the elements below it, placed and
/// sized by their fixed values; an element whose name is not valid has
/// none.
pub open spec fn spec_element_html(e: DashElement, table: Seq<(u64, String)>) -> Seq<char>
    decreases e,
{
    match spec_normalize_name(e.name@) {
        Err(_) => Seq::empty(),
        Ok(n) => "<div class=\""@ + escape_html(n) + "\" style=\""@ + escape_html(
            "left:"@ + int_text(static_int(e.x)) + "px; top:"@ + int_text(static_int(e.y))
                + "px; width:"@ + int_text(static_int(e.size_x)) + "px; height:"@ + int_text(
                static_int(e.size_y),
            ) + "px"@,
        ) + "\">"@ + match e.element {
            DashElementType::Square(color) => "<div style=\""@ + escape_html(
                "width:100%;height:100%;background:"@ + color@,
            ) + "\"></div>"@,
            DashElementType::Folder(v) => spec_html_all(v@, table),
            DashElementType::Text(t) => spec_text_html(t, table),
            DashElementType::Button { action, text } =>
                "<button type=\"button\" style=\"width:100%;height:100%\" onClick=\""@
                + spec_button_click(action) + "\">"@ + spec_text_html(text, table) + "</button>"@,
            DashElementType::TextInput { text, .. } => "<input type=\"text\" style=\""@ + escape_html(
                "width:100%;height:100%;font-size:"@ + font_text(table, input_font_bits(text)) + "rem"@,
            ) + "\" value=\""@ + escape_html(static_text(text.text)) + "\"></input>"@,
        } + "</div>"@,
    }
}

/// `spec_element_html` for each element, in order.
pub open spec fn spec_html_all(es: Seq<DashElement>, table: Seq<(u64, String)>) -> Seq<char>
    decreases es,
{
    if es.len() == 0 {
        Seq::empty()
    } else {
        spec_html_all(es.drop_last(), table) + spec_element_html(es.last(), table)
    }
}

/// The font sizes (as bits) that the markup of `e` and of the elements
/// below it shows.
pub open spec fn spec_font_bits(e: DashElement) -> Set<u64>
    decreases e,
{
    match spec_normalize_name(e.name@) {
        Err(_) => Set::empty(),
        Ok(_) => match e.element {
            DashElementType::Square(_) => Set::empty(),
            DashElementType::Folder(v) => spec_fonts_all(v@),
            DashElementType::Text(t) => set![text_font_bits(t)],
            DashElementType::Button { text, .. } => set![text_font_bits(text)],
            DashElementType::TextInput { text, .. } => set![input_font_bits(text)],
        },
    }
}

/// `spec_font_bits` over a sequence of elements.
pub open spec fn spec_fonts_all(es: Seq<DashElement>) -> Set<u64>
    decreases es,
{
    if es.len() == 0 {
        Set::empty()
    } else {
        spec_fonts_all(es.drop_last()).union(spec_font_bits(es.last()))
    }
}

impl Text {
    /// The markup of this text (see `spec_text_html`); `fonts` gives the
    /// text of each font size.
    pub fn generate_html(&self, fonts: &Vec<(u64, String)>) -> (r: String)
        ensures
            r@ == spec_text_html(*self, fonts@),
    {
        let bits = match &self.font_size {
            Some(f) => f.get_static_value(),
            None => ONE_BITS,
        };
        let size = concat3("font-size:", lookup_font(fonts, bits).as_str(), "rem");
        let mut s = String::from_str("<div style=\"");
        push_escaped(&mut s, size.as_str());
        s.append("\">");
        let t = self.text.get_static_value();
        push_escaped(&mut s, t.as_str());
        s.append("</div>");
        proof {
            reveal_strlit("<div style=\"");
        }
        assert(s@ =~= spec_text_html(*self, fonts@));
        s
    }
}

fn button_click(action: &Action) -> (r: String)
    ensures
        r@ == spec_button_click(*action),
{
    match action {
        Action::Empty => String::new(),
        Action::Plugin(name) => match generate_web_action_handle(name.as_str()) {
            Some(ac) => {
                proof {
                    reveal_strlit("'");
                }
                let single = replace_all_char(ac.as_str(), '"', "'");
                concat3("triggerAction({ action: ", single.as_str(), " })")
            },
            None => String::new(),
        },
    }
}

/// The bounds of an element's block: its fixed position and size.
fn placement(e: &DashElement) -> (r: String)
    ensures
        r@ == "left:"@ + int_text(static_int(e.x)) + "px; top:"@ + int_text(static_int(e.y))
            + "px; width:"@ + int_text(static_int(e.size_x)) + "px; height:"@ + int_text(
            static_int(e.size_y),
        ) + "px"@,
{
    let mut s = String::from_str("left:");
    s.append(i64_to_string(e.x.get_static_value()).as_str());
    s.append("px; top:");
    s.append(i64_to_string(e.y.get_static_value()).as_str());
    s.append("px; width:");
    s.append(i64_to_string(e.size_x.get_static_value()).as_str());
    s.append("px; height:");
    s.append(i64_to_string(e.size_y.get_static_value()).as_str());
    s.append("px");
    proof {
        reveal_strlit("left:");
    }
    assert(s@ =~= "left:"@ + int_text(static_int(e.x)) + "px; top:"@ + int_text(static_int(e.y))
        + "px; width:"@ + int_text(static_int(e.size_x)) + "px; height:"@ + int_text(
        static_int(e.size_y),
    ) + "px"@);
    s
}

impl DashElement {
    /// The markup of this element and of the elements below it (see
    /// `spec_element_html`); `fonts` gives the text of each font size.
    pub fn generate_html(&self, fonts: &Vec<(u64, String)>) -> (r: String)
        ensures
            r@ == spec_element_html(*self, fonts@),
        decreases self,
    {
        let name = match self.normalize_name() {
            Ok(n) => n,
            Err(_) => return String::new(),
        };
        let mut s = String::from_str("<div class=\"");
        push_escaped(&mut s, name.as_str());
        s.append("\" style=\"");
        let place = placement(self);
        push_escaped(&mut s, place.as_str());
        s.append("\">");
        proof {
            reveal_strlit("<div class=\"");
        }
        let ghost head = s@;
        match &self.element {
            DashElementType::Square(color) => {
                let paint = concat3("width:100%;height:100%;background:", color.as_str(), "");
                proof {
                    reveal_strlit("");
                }
                assert(paint@ =~= "width:100%;height:100%;background:"@ + color@);
                s.append("<div style=\"");
                push_escaped(&mut s, paint.as_str());
                s.append("\"></div>");
            },
            DashElementType::Folder(elements) => {
                let mut i: usize = 0;
                assert(elements@.take(0) =~= Seq::<DashElement>::empty());
                while i < elements.len()
                    invariant
                        i <= elements@.len(),
                        self.element == DashElementType::Folder(*elements),
                        s@ == head + spec_html_all(elements@.take(i as int), fonts@),
                    decreases elements@.len() - i,
                {
                    assert(self.element->Folder_0 == *elements);
                    assert(decreases_to!(self.element => self.element->Folder_0));
                    assert(decreases_to!(*elements => elements@));
                    assert(decreases_to!(elements@ => elements@[i as int]));
                    let sub = elements[i].generate_html(fonts);
                    s.append(sub.as_str());
                    assert(elements@.take(i as int + 1).drop_last() =~= elements@.take(i as int));
                    assert(elements@.take(i as int + 1).last() == elements@[i as int]);
                    assert(s@ =~= head + spec_html_all(elements@.take(i as int + 1), fonts@));
                    i = i + 1;
                }
                assert(elements@.take(elements@.len() as int) =~= elements@);
            },
            DashElementType::Text(text) => {
                s.append(text.generate_html(fonts).as_str());
            },
            DashElementType::Button { action, text } => {
                s.append("<button type=\"button\" style=\"width:100%;height:100%\" onClick=\"");
                s.append(button_click(action).as_str());
                s.append("\">");
                s.append(text.generate_html(fonts).as_str());
                s.append("</button>");
            },
            DashElementType::TextInput { action: _, text } => {
                let bits = match &text.font_size {
                    Some(f) => f.get_static_value(),
                    None => 0,
                };
                let size = concat3(
                    "width:100%;height:100%;font-size:",
                    lookup_font(fonts, bits).as_str(),
                    "rem",
                );
                s.append("<input type=\"text\" style=\"");
                push_escaped(&mut s, size.as_str());
                s.append("\" value=\"");
                let v = text.text.get_static_value();
                push_escaped(&mut s, v.as_str());
                s.append("\"></input>");
            },
        }
        s.append("</div>");
        assert(s@ =~= spec_element_html(*self, fonts@));
        s
    }
}


fn push_fonts(v: &mut Vec<u64>, other: &Vec<u64>)
    ensures
        final(v)@.to_set() == old(v)@.to_set().union(other@.to_set()),
{
    let mut i: usize = 0;
    assert(other@.take(0).to_set() =~= Set::<u64>::empty());
    while i < other.len()
        invariant
            i <= other@.len(),
            v@.to_set() == old(v)@.to_set().union(other@.take(i as int).to_set()),
        decreases other@.len() - i,
    {
        let ghost before = v@;
        v.push(other[i]);
        proof {
            before.lemma_push_to_set_commute(other@[i as int]);
            other@.take(i as int).lemma_push_to_set_commute(other@[i as int]);
        }
        assert(other@.take(i as int + 1) =~= other@.take(i as int).push(other@[i as int]));
        i = i + 1;
    }
    assert(other@.take(other@.len() as int) =~= other@);
}

impl DashElement {
    /// The font sizes (as bits) that the markup of this element and of the
    /// elements below it shows (see `spec_font_bits`).
    pub fn font_sizes(&self) -> (r: Vec<u64>)
        ensures
            r@.to_set() == spec_font_bits(*self),
        decreases self,
    {
        let mut v: Vec<u64> = Vec::new();
        if self.normalize_name().is_err() {
            assert(v@.to_set() =~= Set::<u64>::empty());
            return v;
        }
        match &self.element {
            DashElementType::Square(_) => {},
            DashElementType::Folder(elements) => {
                let mut i: usize = 0;
                assert(elements@.take(0) =~= Seq::<DashElement>::empty());
                assert(v@.to_set() =~= Set::<u64>::empty());
                while i < elements.len()
                    invariant
                        i <= elements@.len(),
                        self.element == DashElementType::Folder(*elements),
                        v@.to_set() == spec_fonts_all(elements@.take(i as int)),
                    decreases elements@.len() - i,
                {
                    assert(self.element->Folder_0 == *elements);
                    assert(decreases_to!(self.element => self.element->Folder_0));
                    assert(decreases_to!(*elements => elements@));
                    assert(decreases_to!(elements@ => elements@[i as int]));
                    let sub = elements[i].font_sizes();
                    push_fonts(&mut v, &sub);
                    assert(elements@.take(i as int + 1).drop_last() =~= elements@.take(i as int));
                    assert(elements@.take(i as int + 1).last() == elements@[i as int]);
                    i = i + 1;
                }
                assert(elements@.take(elements@.len() as int) =~= elements@);
            },
            DashElementType::Text(text) => {
                let b = match &text.font_size {
                    Some(f) => f.get_static_value(),
                    None => ONE_BITS,
                };
                v.push(b);
            },
            DashElementType::Button { action: _, text } => {
                let b = match &text.font_size {
                    Some(f) => f.get_static_value(),
                    None => ONE_BITS,
                };
                v.push(b);
            },
            DashElementType::TextInput { action: _, text } => {
                let b = match &text.font_size {
                    Some(f) => f.get_static_value(),
                    None => 0,
                };
                v.push(b);
            },
        }
        assert(v@.to_set() =~= spec_font_bits(*self)) by {
            if v@.len() == 1 {
                Seq::<u64>::empty().lemma_push_to_set_commute(v@[0]);
                assert(v@ =~= Seq::<u64>::empty().push(v@[0]));
            }
        }
        v
    }
}

/// The head of a page titled `title`.
pub open spec fn spec_header(title: Seq<char>) -> Seq<char> {
    "<!DOCTYPE html>"@ + "<meta charset=\"utf-8\">"@ + "<title>"@ + "DataRace - "@ + escape_html(title)
        + "</title>"@
}

/// The head of a page titled `name` (see `spec_header`).
pub fn dashboard_header(name: &str) -> (r: String)
    ensures
        r@ == spec_header(name@),
{
    let mut s = String::from_str("<!DOCTYPE html>");
    s.append("<meta charset=\"utf-8\">");
    s.append("<title>");
    s.append("DataRace - ");
    push_escaped(&mut s, name);
    s.append("</title>");
    proof {
        reveal_strlit("<!DOCTYPE html>");
    }
    assert(s@ =~= spec_header(name@));
    s
}

/// The style rule that places every element block absolutely, one per
/// element name, in order.
pub open spec fn name_styles(names: Seq<Seq<char>>) -> Seq<char>
    decreases names.len(),
{
    if names.len() == 0 {
        Seq::empty()
    } else {
        name_styles(names.drop_last()) + escape_html("div."@ + names.last() + " {"@)
            + "position: absolute;"@ + "overflow: hidden;"@ + "}"@
    }
}

/// One script block per formatter, defining the function that formats a
/// value.
pub open spec fn formatter_tags(fs: Seq<(Seq<char>, Seq<char>)>) -> Seq<char>
    decreases fs.len(),
{
    if fs.len() == 0 {
        Seq::empty()
    } else {
        formatter_tags(fs.drop_last()) + "<script>"@ + "function "@ + fs.last().0 + "(value) {"@
            + fs.last().1 + "}"@ + "</script>"@
    }
}

/// The text of an `i32`.
pub open spec fn i32_text(v: i32) -> Seq<char> {
    int_text(v as i64)
}

/// The resize handler's body: the page is scaled to fit the window, with
/// bars at the sides or at top and bottom, the font scaled alike.
pub open spec fn resize_event_body(d: Dashboard) -> Seq<char> {
    escape_html("let scale_to_w = window.innerWidth / "@ + i32_text(d.size_x) + ";"@) + escape_html(
        "let scale_to_h = window.innerHeight / "@ + i32_text(d.size_y) + ";"@,
    ) + "if (scale_to_h < scale_to_w) {"@ + "SCALE = scale_to_h;"@ + escape_html(
        "let width = "@ + i32_text(d.size_x) + " * SCALE;"@,
    ) + "let gap = (window.innerWidth - width)/2;"@ + "BODY.style.left = gap + 'px';"@
        + "BODY.style.top = '0px';"@ + "BODY.style.width = width + 'px';"@
        + "BODY.style.height = window.innerHeight + 'px';"@ + "} else {"@ + "SCALE = scale_to_w;"@
        + escape_html("let height = "@ + i32_text(d.size_y) + " * SCALE;"@)
        + "let gap = (window.innerHeight - height)/2;"@ + "BODY.style.left = '0px';"@
        + "BODY.style.top = gap + 'px';"@ + "BODY.style.width = window.innerWidth + 'px';"@
        + "BODY.style.height = height + 'px';"@ + "}"@ + escape_html(
        "fsize = "@ + i32_text(d.font_size) + " * SCALE;"@,
    ) + "document.documentElement.style.fontSize = fsize + \"px\";"@
}

/// How an update message is merged into the page's data: array updates
/// change single entries, other values replace the stored one.
pub open spec fn update_merge() -> Seq<char> {
    "UPDATE.forEach((value, key) => { if (value.ArrUpdate != null) {\n                                let Arr = DATA.get(key);\n                                const ArrUp = new Map(value.ArrUpdate);\n                                ArrUp.forEach((value, key) => Arr.Arr[key] = value);\n                            } else {\n                                DATA.set(key, value);\n                            }});"@
}

/// The page's main script up to its resize handler: connecting, finding
/// the elements.
pub open spec fn main_head(es: Seq<DashElement>) -> Seq<char> {
    "var SOCKET = io();"@ + "const ERROR = document.getElementById('ERROR');"@ + "function MAIN() {"@
        + "const DISCO = document.getElementById('DISCO');"@
        + "const BODY = document.getElementById('BODY');"@ + "BODY.DR = {};"@ + spec_init_all(
        es,
        "BODY"@,
    ) + "let DATA = new Map();"@ + "let SCALE = 0;"@ + "console.log('Hello Everynya!');"@
        + "SOCKET.on('test', function(msg) {"@ + "console.log(msg);"@ + "});"@
}

/// The page's resize handler, run once at the start and on every resize.
pub open spec fn resize_handler(d: Dashboard) -> Seq<char> {
    "function resizeEvent() {"@ + resize_event_body(d) + guarded_calls(
        d.elements@,
        "Resize"@,
        "BODY"@,
    ) + "}"@ + "window.onresize = resizeEvent;"@ + "resizeEvent();"@
}

/// The page's handler of update messages and of a lost connection.
pub open spec fn update_handler(es: Seq<DashElement>) -> Seq<char> {
    "SOCKET.on('update', function(UP_ARR) {"@ + "const UPDATE = new Map(UP_ARR);"@ + update_merge()
        + guarded_calls(es, "Update"@, "BODY"@) + "});"@ + "SOCKET.on('disconnect', function() {"@
        + "console.log('Lost connection');"@ + "DISCO.style.display = 'block';"@ + "});"@ + "}"@
        + "MAIN();"@
}

/// Resize and update functions of each element, in order.
pub open spec fn spec_scripts_all(es: Seq<DashElement>) -> Seq<char>
    decreases es.len(),
{
    if es.len() == 0 {
        Seq::empty()
    } else {
        spec_scripts_all(es.drop_last()) + spec_resize_js(es.last()) + spec_update_js(es.last())
    }
}

/// The rest of the page's script: triggering actions, the element
/// functions, and authenticating the page by its dashboard's name.
pub open spec fn main_tail(d: Dashboard) -> Seq<char> {
    "function triggerAction(action) {"@ + "SOCKET.emit('trigger_action', action);"@ + "}"@
        + "function triggerTextInputAction(id, action_handle) {"@ + "}"@ + spec_scripts_all(
        d.elements@,
    ) + "SOCKET.on('require-auth', function() {"@ + "console.log('Server requested auth');"@
        + escape_html("SOCKET.emit('auth-dashboard', '"@ + d.name@ + "');"@)
        + "DISCO.style.display = 'none';"@ + "});"@
}

/// The page's body: the canvas with the elements, and the overlays for a
/// lost connection and for errors.
pub open spec fn page_body(d: Dashboard, table: Seq<(u64, String)>) -> Seq<char> {
    "<body>"@ + "<div id=\"BODY\" style=\""@ + escape_html(
        "position: absolute; left: 0px; top: 0px; width: "@ + i32_text(d.size_x) + "px; height: "@
            + i32_text(d.size_y) + "px; overflow: hidden"@,
    ) + "\">"@ + spec_html_all(d.elements@, table) + "</div>"@
        + "<div id=\"DISCO\" style=\"position: absolute; left: 0px; top: 0px; width: 100%; height: 100%; display: none; background-color: #F2F2F288;\">"@
        + "<div style=\"text-align: center; margin-top: 40vh; font-size: 2rem;\">"@ + "Disconnected"@
        + "</div>"@ + "</div>"@
        + "<div id=\"ERROR\" style=\"position: absolute; left: 0px; bottom: 0px; width: 100%; height: 3.5rem; display: none; background-color: #F20000FF;\">"@
        + "<div style=\"text-align: center; margin-top: 1rem; font-size: 1.25rem;\">"@ + "</div>"@
        + "</div>"@ + "</body>"@
}

/// The page of a dashboard. When an element name is not valid or is
/// taken twice, the page is only a head whose title tells why; otherwise
/// it holds the style of every element, the markup of the elements, the
/// scripts that keep them up to date, and one script per formatter.
pub open spec fn spec_dashboard_page(d: Dashboard, table: Seq<(u64, String)>) -> Seq<char> {
    match spec_gather_all(d.elements@, Seq::empty()) {
        Err(m) => spec_header(
            "Failed to render Dashboard "@ + d.name@ + " due to element name issues:\n"@ + m,
        ),
        Ok(names) => spec_header(d.name@) + "<style>"@ + name_styles(names) + "</style>"@
            + page_body(d, table) + "<script src=\"/lib/socket.io.js\"></script>"@
            + "<script src=\"/lib/datarace.dash.js\"></script>"@ + "<script>"@ + main_head(d.elements@)
            + resize_handler(d) + update_handler(d.elements@) + main_tail(d) + "</script>"@
            + formatter_tags(spec_formaters_all(d.elements@)),
    }
}

fn i32_to_string(v: i32) -> (r: String)
    ensures
        r@ == i32_text(v),
{
    i64_to_string(v as i64)
}

fn push_name_styles(s: &mut String, names: &Vec<String>)
    ensures
        final(s)@ == old(s)@ + name_styles(texts(names@)),
{
    let mut i: usize = 0;
    assert(texts(names@).take(0) =~= Seq::<Seq<char>>::empty());
    while i < names.len()
        invariant
            i <= names@.len(),
            s@ == old(s)@ + name_styles(texts(names@).take(i as int)),
        decreases names@.len() - i,
    {
        let rule = concat3("div.", names[i].as_str(), " {");
        push_escaped(s, rule.as_str());
        s.append("position: absolute;");
        s.append("overflow: hidden;");
        s.append("}");
        assert(texts(names@).take(i as int + 1).drop_last() =~= texts(names@).take(i as int));
        assert(texts(names@).take(i as int + 1).last() == names@[i as int]@);
        assert(s@ =~= old(s)@ + name_styles(texts(names@).take(i as int + 1)));
        i = i + 1;
    }
    assert(texts(names@).take(names@.len() as int) =~= texts(names@));
}

fn push_formatter_tags(s: &mut String, fs: &Vec<(String, String)>)
    ensures
        final(s)@ == old(s)@ + formatter_tags(pair_texts(fs@)),
{
    let mut i: usize = 0;
    assert(pair_texts(fs@).take(0) =~= Seq::<(Seq<char>, Seq<char>)>::empty());
    while i < fs.len()
        invariant
            i <= fs@.len(),
            s@ == old(s)@ + formatter_tags(pair_texts(fs@).take(i as int)),
        decreases fs@.len() - i,
    {
        s.append("<script>");
        s.append("function ");
        s.append(fs[i].0.as_str());
        s.append("(value) {");
        s.append(fs[i].1.as_str());
        s.append("}");
        s.append("</script>");
        assert(pair_texts(fs@).take(i as int + 1).drop_last() =~= pair_texts(fs@).take(i as int));
        assert(pair_texts(fs@).take(i as int + 1).last() == (fs@[i as int].0@, fs@[i as int].1@));
        assert(s@ =~= old(s)@ + formatter_tags(pair_texts(fs@).take(i as int + 1)));
        i = i + 1;
    }
    assert(pair_texts(fs@).take(fs@.len() as int) =~= pair_texts(fs@));
}

fn push_init_all(s: &mut String, es: &Vec<DashElement>, parent: &str)
    ensures
        final(s)@ == old(s)@ + spec_init_all(es@, parent@),
{
    let mut i: usize = 0;
    assert(es@.take(0) =~= Seq::<DashElement>::empty());
    while i < es.len()
        invariant
            i <= es@.len(),
            s@ == old(s)@ + spec_init_all(es@.take(i as int), parent@),
        decreases es@.len() - i,
    {
        let sub = es[i].generate_init_js(parent);
        s.append(sub.as_str());
        assert(es@.take(i as int + 1).drop_last() =~= es@.take(i as int));
        assert(es@.take(i as int + 1).last() == es@[i as int]);
        assert(s@ =~= old(s)@ + spec_init_all(es@.take(i as int + 1), parent@));
        i = i + 1;
    }
    assert(es@.take(es@.len() as int) =~= es@);
}

fn push_scripts_all(s: &mut String, es: &Vec<DashElement>)
    ensures
        final(s)@ == old(s)@ + spec_scripts_all(es@),
{
    let mut i: usize = 0;
    assert(es@.take(0) =~= Seq::<DashElement>::empty());
    while i < es.len()
        invariant
            i <= es@.len(),
            s@ == old(s)@ + spec_scripts_all(es@.take(i as int)),
        decreases es@.len() - i,
    {
        let r = es[i].generate_resize_js();
        s.append(r.as_str());
        let u = es[i].generate_update_js();
        s.append(u.as_str());
        assert(es@.take(i as int + 1).drop_last() =~= es@.take(i as int));
        assert(es@.take(i as int + 1).last() == es@[i as int]);
        assert(s@ =~= old(s)@ + spec_scripts_all(es@.take(i as int + 1)));
        i = i + 1;
    }
    assert(es@.take(es@.len() as int) =~= es@);
}

fn push_html_all(s: &mut String, es: &Vec<DashElement>, fonts: &Vec<(u64, String)>)
    ensures
        final(s)@ == old(s)@ + spec_html_all(es@, fonts@),
{
    let mut i: usize = 0;
    assert(es@.take(0) =~= Seq::<DashElement>::empty());
    while i < es.len()
        invariant
            i <= es@.len(),
            s@ == old(s)@ + spec_html_all(es@.take(i as int), fonts@),
        decreases es@.len() - i,
    {
        let sub = es[i].generate_html(fonts);
        s.append(sub.as_str());
        assert(es@.take(i as int + 1).drop_last() =~= es@.take(i as int));
        assert(es@.take(i as int + 1).last() == es@[i as int]);
        assert(s@ =~= old(s)@ + spec_html_all(es@.take(i as int + 1), fonts@));
        i = i + 1;
    }
    assert(es@.take(es@.len() as int) =~= es@);
}

fn push_resize_event_body(s: &mut String, d: &Dashboard)
    ensures
        final(s)@ == old(s)@ + resize_event_body(*d),
{
    let w = i32_to_string(d.size_x);
    let h = i32_to_string(d.size_y);
    push_escaped(s, concat3("let scale_to_w = window.innerWidth / ", w.as_str(), ";").as_str());
    push_escaped(s, concat3("let scale_to_h = window.innerHeight / ", h.as_str(), ";").as_str());
    s.append("if (scale_to_h < scale_to_w) {");
    s.append("SCALE = scale_to_h;");
    push_escaped(s, concat3("let width = ", w.as_str(), " * SCALE;").as_str());
    s.append("let gap = (window.innerWidth - width)/2;");
    s.append("BODY.style.left = gap + 'px';");
    s.append("BODY.style.top = '0px';");
    s.append("BODY.style.width = width + 'px';");
    s.append("BODY.style.height = window.innerHeight + 'px';");
    s.append("} else {");
    s.append("SCALE = scale_to_w;");
    push_escaped(s, concat3("let height = ", h.as_str(), " * SCALE;").as_str());
    s.append("let gap = (window.innerHeight - height)/2;");
    s.append("BODY.style.left = '0px';");
    s.append("BODY.style.top = gap + 'px';");
    s.append("BODY.style.width = window.innerWidth + 'px';");
    s.append("BODY.style.height = height + 'px';");
    s.append("}");
    let f = i32_to_string(d.font_size);
    push_escaped(s, concat3("fsize = ", f.as_str(), " * SCALE;").as_str());
    s.append("document.documentElement.style.fontSize = fsize + \"px\";");
    assert(s@ =~= old(s)@ + resize_event_body(*d));
}

fn push_main_head(s: &mut String, es: &Vec<DashElement>)
    ensures
        final(s)@ == old(s)@ + main_head(es@),
{
    proof {
        reveal_strlit("BODY");
    }
    s.append("var SOCKET = io();");
    s.append("const ERROR = document.getElementById('ERROR');");
    s.append("function MAIN() {");
    s.append("const DISCO = document.getElementById('DISCO');");
    s.append("const BODY = document.getElementById('BODY');");
    s.append("BODY.DR = {};");
    push_init_all(s, es, "BODY");
    s.append("let DATA = new Map();");
    s.append("let SCALE = 0;");
    s.append("console.log('Hello Everynya!');");
    s.append("SOCKET.on('test', function(msg) {");
    s.append("console.log(msg);");
    s.append("});");
    assert(s@ =~= old(s)@ + main_head(es@));
}

fn push_resize_handler(s: &mut String, d: &Dashboard)
    ensures
        final(s)@ == old(s)@ + resize_handler(*d),
{
    s.append("function resizeEvent() {");
    push_resize_event_body(s, d);
    push_guarded_calls(s, &d.elements, "Resize", "BODY");
    s.append("}");
    s.append("window.onresize = resizeEvent;");
    s.append("resizeEvent();");
    assert(s@ =~= old(s)@ + resize_handler(*d));
}

fn push_update_handler(s: &mut String, es: &Vec<DashElement>)
    ensures
        final(s)@ == old(s)@ + update_handler(es@),
{
    s.append("SOCKET.on('update', function(UP_ARR) {");
    s.append("const UPDATE = new Map(UP_ARR);");
    s.append("UPDATE.forEach((value, key) => { if (value.ArrUpdate != null) {\n                                let Arr = DATA.get(key);\n                                const ArrUp = new Map(value.ArrUpdate);\n                                ArrUp.forEach((value, key) => Arr.Arr[key] = value);\n                            } else {\n                                DATA.set(key, value);\n                            }});");
    push_guarded_calls(s, es, "Update", "BODY");
    s.append("});");
    s.append("SOCKET.on('disconnect', function() {");
    s.append("console.log('Lost connection');");
    s.append("DISCO.style.display = 'block';");
    s.append("});");
    s.append("}");
    s.append("MAIN();");
    assert(s@ =~= old(s)@ + update_handler(es@));
}

fn push_main_tail(s: &mut String, d: &Dashboard)
    ensures
        final(s)@ == old(s)@ + main_tail(*d),
{
    s.append("function triggerAction(action) {");
    s.append("SOCKET.emit('trigger_action', action);");
    s.append("}");
    s.append("function triggerTextInputAction(id, action_handle) {");
    s.append("}");
    push_scripts_all(s, &d.elements);
    s.append("SOCKET.on('require-auth', function() {");
    s.append("console.log('Server requested auth');");
    push_escaped(s, concat3("SOCKET.emit('auth-dashboard', '", d.name.as_str(), "');").as_str());
    s.append("DISCO.style.display = 'none';");
    s.append("});");
    assert(s@ =~= old(s)@ + main_tail(*d));
}

fn push_page_body(s: &mut String, d: &Dashboard, fonts: &Vec<(u64, String)>)
    ensures
        final(s)@ == old(s)@ + page_body(*d, fonts@),
{
    s.append("<body>");
    s.append("<div id=\"BODY\" style=\"");
    let mut canvas = concat3(
        "position: absolute; left: 0px; top: 0px; width: ",
        i32_to_string(d.size_x).as_str(),
        "px; height: ",
    );
    canvas.append(i32_to_string(d.size_y).as_str());
    canvas.append("px; overflow: hidden");
    push_escaped(s, canvas.as_str());
    s.append("\">");
    push_html_all(s, &d.elements, fonts);
    s.append("</div>");
    s.append(
        "<div id=\"DISCO\" style=\"position: absolute; left: 0px; top: 0px; width: 100%; height: 100%; display: none; background-color: #F2F2F288;\">",
    );
    s.append("<div style=\"text-align: center; margin-top: 40vh; font-size: 2rem;\">");
    s.append("Disconnected");
    s.append("</div>");
    s.append("</div>");
    s.append(
        "<div id=\"ERROR\" style=\"position: absolute; left: 0px; bottom: 0px; width: 100%; height: 3.5rem; display: none; background-color: #F20000FF;\">",
    );
    s.append("<div style=\"text-align: center; margin-top: 1rem; font-size: 1.25rem;\">");
    s.append("</div>");
    s.append("</div>");
    s.append("</body>");
    assert(s@ =~= old(s)@ + page_body(*d, fonts@));
}

impl Dashboard {
    /// The font sizes (as bits) that the markup of the dashboard shows;
    /// the page renderer writes each as text for `generate_dashboard`.
    pub fn font_sizes(&self) -> (r: Vec<u64>)
        ensures
            r@.to_set() == spec_fonts_all(self.elements@),
    {
        let mut v: Vec<u64> = Vec::new();
        let mut i: usize = 0;
        assert(self.elements@.take(0) =~= Seq::<DashElement>::empty());
        assert(v@.to_set() =~= Set::<u64>::empty());
        while i < self.elements.len()
            invariant
                i <= self.elements@.len(),
                v@.to_set() == spec_fonts_all(self.elements@.take(i as int)),
            decreases self.elements@.len() - i,
        {
            let sub = self.elements[i].font_sizes();
            push_fonts(&mut v, &sub);
            assert(self.elements@.take(i as int + 1).drop_last() =~= self.elements@.take(i as int));
            assert(self.elements@.take(i as int + 1).last() == self.elements@[i as int]);
            i = i + 1;
        }
        assert(self.elements@.take(self.elements@.len() as int) =~= self.elements@);
        v
    }

    /// The page of this dashboard (see `spec_dashboard_page`); `fonts`
    /// gives the text of each font size.
    pub fn generate_dashboard(&self, fonts: &Vec<(u64, String)>) -> (r: String)
        ensures
            r@ == spec_dashboard_page(*self, fonts@),
    {
        let mut names: Vec<String> = Vec::new();
        let mut i: usize = 0;
        assert(self.elements@.take(0) =~= Seq::<DashElement>::empty());
        assert(texts(names@) =~= Seq::<Seq<char>>::empty());
        while i < self.elements.len()
            invariant
                i <= self.elements@.len(),
                spec_gather_all(self.elements@.take(i as int), Seq::empty()) == Ok::<
                    Seq<Seq<char>>,
                    Seq<char>,
                >(texts(names@)),
            decreases self.elements@.len() - i,
        {
            let ghost cur = texts(names@);
            assert(self.elements@.take(i as int + 1).drop_last() =~= self.elements@.take(i as int));
            assert(self.elements@.take(i as int + 1).last() == self.elements@[i as int]);
            match self.elements[i].gather_names(names) {
                Ok(l) => {
                    names = l;
                },
                Err(err) => {
                    proof {
                        lemma_gather_all_err_stays(
                            self.elements@,
                            Seq::empty(),
                            i as int + 1,
                            self.elements@.len() as int,
                        );
                        assert(self.elements@.take(self.elements@.len() as int) =~= self.elements@);
                    }
                    let mut out = String::from_str("Failed to render Dashboard ");
                    out.append(self.name.as_str());
                    out.append(" due to element name issues:\n");
                    out.append(err.as_str());
                    proof {
                        reveal_strlit("Failed to render Dashboard ");
                    }
                    assert(out@ =~= "Failed to render Dashboard "@ + self.name@
                        + " due to element name issues:\n"@ + err@);
                    return dashboard_header(out.as_str());
                },
            }
            i = i + 1;
        }
        assert(self.elements@.take(self.elements@.len() as int) =~= self.elements@);
        let mut s = dashboard_header(self.name.as_str());
        s.append("<style>");
        push_name_styles(&mut s, &names);
        s.append("</style>");
        push_page_body(&mut s, self, fonts);
        s.append("<script src=\"/lib/socket.io.js\"></script>");
        s.append("<script src=\"/lib/datarace.dash.js\"></script>");
        s.append("<script>");
        push_main_head(&mut s, &self.elements);
        push_resize_handler(&mut s, self);
        push_update_handler(&mut s, &self.elements);
        push_main_tail(&mut s, self);
        s.append("</script>");
        let fs = self.all_formatter_scripts();
        push_formatter_tags(&mut s, &fs);
        assert(s@ =~= spec_dashboard_page(*self, fonts@));
        s
    }
}

/// The markup of each element of `es`, in order.
pub open spec fn children_markup(es: Seq<DashElement>, table: Seq<(u64, String)>) -> Seq<Seq<char>> {
    es.map_values(|x: DashElement| spec_element_html(x, table))
}

proof fn lemma_html_all_concatenates(es: Seq<DashElement>, table: Seq<(u64, String)>)
    ensures
        spec_html_all(es, table) == children_markup(es, table).flatten(),
    decreases es.len(),
{
    let c = children_markup(es, table);
    if es.len() > 0 {
        lemma_html_all_concatenates(es.drop_last(), table);
        assert(children_markup(es.drop_last(), table) =~= c.drop_last());
        c.drop_last().lemma_flatten_and_flatten_alt_are_equivalent();
        c.lemma_flatten_and_flatten_alt_are_equivalent();
        assert(c.last() == spec_element_html(es.last(), table));
    }
}

/// The markup of a folder holds the markup of each of its elements, in
/// order and one after the other, right before the folder's closing tag;
/// and the markup of an element with a valid name is never empty.
pub proof fn lemma_folder_markup_holds_children(e: DashElement, table: Seq<(u64, String)>)
    ensures
        spec_normalize_name(e.name@) is Ok ==> spec_element_html(e, table).len() > 0,
        e.element matches DashElementType::Folder(v) ==> (spec_normalize_name(e.name@) is Ok ==> (children_markup(
            v@,
            table,
        ).flatten() + "</div>"@).is_suffix_of(spec_element_html(e, table))),
{
    if let DashElementType::Folder(v) = e.element {
        lemma_html_all_concatenates(v@, table);
        if spec_normalize_name(e.name@) is Ok {
            let whole = spec_element_html(e, table);
            let tail = spec_html_all(v@, table) + "</div>"@;
            let head = whole.subrange(0, whole.len() - tail.len());
            assert(whole =~= head + tail) by {
                reveal_strlit("</div>");
            }
            assert(tail.is_suffix_of(whole)) by {
                assert(whole.subrange(whole.len() - tail.len(), whole.len() as int) =~= tail);
            }
        }
    }
}

} // verus!
