//! The page scripts the daemon injects where the engine has no native
//! primitive: focusing, blurring and scrolling the first match of a selector,
//! running a function on it, wrapping user scripts, and reading computed
//! styles. Text placed inside a single-quoted script literal is escaped.
use crate::text::{chars_of, extend, join, string_of, views};
use vstd::prelude::*;

verus! {

/// Installed once per daemon as an init script: buffers every console call
/// (level, timestamp and stringified arguments) in the page.
pub const CONSOLE_INTERCEPTOR_JS: &'static str = "if (!window.__plwr_console) { window.__plwr_console = []; const orig = {}; for (const level of ['log', 'warn', 'error', 'info', 'debug']) { orig[level] = console[level]; console[level] = (...args) => { window.__plwr_console.push({ level, ts: Date.now(), args: args.map(a => { try { return typeof a === 'object' ? JSON.stringify(a) : String(a); } catch { return String(a); } }) }); orig[level].apply(console, args); }; } }";

/// Reads the console buffer as a JSON document.
pub const CONSOLE_READ_JS: &'static str = "() => JSON.stringify(window.__plwr_console || [])";

/// Empties the console buffer.
pub const CONSOLE_CLEAR_JS: &'static str = "() => { window.__plwr_console = []; }";

/// Serializes a subtree into `{tag, id?, class?, attrs?, text?, children?}`,
/// leaving `id`, `class` and instrumentation attributes out of `attrs`.
pub const TREE_WALK_JS: &'static str = "el => { function walk(el) { const node = { tag: el.tagName ? el.tagName.toLowerCase() : '#text' }; if (el.id) node.id = el.id; if (el.className && typeof el.className === 'string' && el.className.trim()) node.class = el.className.trim().split(/\\s+/); if (el.attributes) { const attrs = {}; for (const a of el.attributes) { if (a.name !== 'id' && a.name !== 'class' && !a.name.startsWith('data-plwr')) attrs[a.name] = a.value; } if (Object.keys(attrs).length > 0) node.attrs = attrs; } const text = Array.from(el.childNodes).filter(n => n.nodeType === 3).map(n => n.textContent.trim()).filter(t => t).join(' '); if (text) node.text = text; const children = Array.from(el.children).map(walk); if (children.length > 0) node.children = children; return node; } return JSON.stringify(walk(el)); }";

/// Reads every computed style property of an element.
pub const ALL_STYLES_JS: &'static str = "el => { const cs = getComputedStyle(el); const result = {}; for (let i = 0; i < cs.length; i++) { const prop = cs[i]; result[prop] = cs.getPropertyValue(prop); } return JSON.stringify(result); }";

/// The root that `tree` serializes when no selector is given.
pub const DOCUMENT_ROOT: &'static str = "html";

/// How one character is written inside a single-quoted script literal:
/// quotes are always escaped, backslashes where `backslashes` is set.
pub open spec fn escape_char(c: char, backslashes: bool) -> Seq<char> {
    if c == '\'' {
        seq!['\\', '\'']
    } else if c == '\\' && backslashes {
        seq!['\\', '\\']
    } else {
        seq![c]
    }
}

/// `s` written inside a single-quoted script literal.
pub open spec fn escaped(s: Seq<char>, backslashes: bool) -> Seq<char>
    decreases s.len(),
{
    if s.len() == 0 {
        Seq::empty()
    } else {
        escaped(s.drop_last(), backslashes) + escape_char(s.last(), backslashes)
    }
}

fn escape_exec(s: &str, backslashes: bool) -> (r: Vec<char>)
    ensures
        r@ == escaped(s@, backslashes),
{
    let v = chars_of(s);
    let mut out: Vec<char> = Vec::new();
    let mut i: usize = 0;
    while i < v.len()
        invariant
            i <= v@.len(),
            v@ == s@,
            out@ == escaped(v@.subrange(0, i as int), backslashes),
        decreases v@.len() - i,
    {
        let c = v[i];
        let ghost prev = out@;
        if c == '\'' {
            out.push('\\');
            out.push('\'');
        } else if c == '\\' && backslashes {
            out.push('\\');
            out.push('\\');
        } else {
            out.push(c);
        }
        assert(v@.subrange(0, i + 1).drop_last() =~= v@.subrange(0, i as int));
        assert(out@ =~= prev + escape_char(c, backslashes));
        i = i + 1;
    }
    assert(v@.subrange(0, v@.len() as int) =~= v@);
    out
}

/// The opening of every script that acts on the first match of a selector.
pub open spec fn lookup_head(sel: Seq<char>) -> Seq<char> {
    "() => { const el = document.querySelector('"@ + escaped(sel, true) + "'); if (!el) throw new Error('No element found"@
}

/// A script that runs `action` on the first match of `sel`.
pub open spec fn element_action_script(sel: Seq<char>, action: Seq<char>) -> Seq<char> {
    lookup_head(sel) + "'); "@ + action + " }"@
}

fn lookup_head_exec(selector: &str) -> (r: Vec<char>)
    ensures
        r@ == lookup_head(selector@),
{
    let mut out = chars_of("() => { const el = document.querySelector('");
    extend(&mut out, &escape_exec(selector, true));
    extend(&mut out, &chars_of("'); if (!el) throw new Error('No element found"));
    out
}

fn element_action_exec(selector: &str, action: &str) -> (r: String)
    ensures
        r@ == element_action_script(selector@, action@),
{
    let mut out = lookup_head_exec(selector);
    extend(&mut out, &chars_of("'); "));
    extend(&mut out, &chars_of(action));
    extend(&mut out, &chars_of(" }"));
    string_of(&out)
}

/// Focuses the first match of `selector`.
pub fn focus_script(selector: &str) -> (r: String)
    ensures
        r@ == element_action_script(selector@, "el.focus();"@),
{
    element_action_exec(selector, "el.focus();")
}

/// Removes focus from the first match of `selector`.
pub fn blur_script(selector: &str) -> (r: String)
    ensures
        r@ == element_action_script(selector@, "el.blur();"@),
{
    element_action_exec(selector, "el.blur();")
}

/// Scrolls the first match of `selector` to the middle of the viewport.
pub fn scroll_into_view_script(selector: &str) -> (r: String)
    ensures
        r@ == element_action_script(
            selector@,
            "el.scrollIntoView({behavior: 'instant', block: 'center'});"@,
        ),
{
    element_action_exec(selector, "el.scrollIntoView({behavior: 'instant', block: 'center'});")
}

/// A script that applies the function `js` to the first match of `sel` and
/// returns its result as a JSON document.
pub open spec fn on_element(sel: Seq<char>, js: Seq<char>) -> Seq<char> {
    lookup_head(sel) + " for selector: "@ + escaped(sel, true) + "'); const fn_ = "@ + js
        + "; return JSON.stringify(fn_(el)); }"@
}

pub fn on_element_script(selector: &str, js: &str) -> (r: String)
    ensures
        r@ == on_element(selector@, js@),
{
    let mut out = lookup_head_exec(selector);
    extend(&mut out, &chars_of(" for selector: "));
    extend(&mut out, &escape_exec(selector, true));
    extend(&mut out, &chars_of("'); const fn_ = "));
    extend(&mut out, &chars_of(js));
    extend(&mut out, &chars_of("; return JSON.stringify(fn_(el)); }"));
    string_of(&out)
}

/// Wraps a user script so that an object or array result is JSON-encoded
/// before transport and a scalar passes as it is.
pub open spec fn eval_wrapped(js: Seq<char>) -> Seq<char> {
    "() => { const __r = ("@ + js + "); return typeof __r === 'object' ? JSON.stringify(__r) : __r; }"@
}

pub fn eval_script(js: &str) -> (r: String)
    ensures
        r@ == eval_wrapped(js@),
{
    let mut out = chars_of("() => { const __r = (");
    extend(&mut out, &chars_of(js));
    extend(&mut out, &chars_of("); return typeof __r === 'object' ? JSON.stringify(__r) : __r; }"));
    string_of(&out)
}

/// Each property name as a single-quoted script literal.
pub open spec fn quoted_all(props: Seq<Seq<char>>) -> Seq<Seq<char>> {
    props.map_values(|p: Seq<char>| "'"@ + escaped(p, false) + "'"@)
}

/// Reads the named computed style properties of an element, in the order
/// given; with no names, every property.
pub open spec fn style_script_text(props: Seq<Seq<char>>) -> Seq<char> {
    if props.len() == 0 {
        ALL_STYLES_JS@
    } else {
        "el => { const cs = getComputedStyle(el); const props = ["@ + join(quoted_all(props), ", "@)
            + "]; const result = {}; for (const p of props) { result[p] = cs.getPropertyValue(p); } return JSON.stringify(result); }"@
    }
}

pub fn style_script(properties: &Vec<String>) -> (r: String)
    ensures
        r@ == style_script_text(views(properties@)),
{
    if properties.len() == 0 {
        return String::from_str(ALL_STYLES_JS);
    }
    let mut quoted: Vec<String> = Vec::new();
    let mut i: usize = 0;
    while i < properties.len()
        invariant
            i <= properties@.len(),
            views(quoted@) == quoted_all(views(properties@)).subrange(0, i as int),
        decreases properties@.len() - i,
    {
        let mut q = chars_of("'");
        extend(&mut q, &escape_exec(properties[i].as_str(), false));
        extend(&mut q, &chars_of("'"));
        let ghost prev = quoted@;
        let qs = string_of(&q);
        quoted.push(qs);
        assert(views(quoted@) =~= views(prev).push(q@));
        assert(quoted_all(views(properties@))[i as int] == "'"@ + escaped(
            views(properties@)[i as int],
            false,
        ) + "'"@);
        assert(views(quoted@) =~= quoted_all(views(properties@)).subrange(0, i + 1));
        i = i + 1;
    }
    assert(quoted_all(views(properties@)).subrange(0, properties@.len() as int) =~= quoted_all(
        views(properties@),
    ));
    let mut out = chars_of("el => { const cs = getComputedStyle(el); const props = [");
    extend(&mut out, &crate::text::join_exec(&quoted, &chars_of(", ")));
    extend(
        &mut out,
        &chars_of(
            "]; const result = {}; for (const p of props) { result[p] = cs.getPropertyValue(p); } return JSON.stringify(result); }",
        ),
    );
    string_of(&out)
}

} // verus!
