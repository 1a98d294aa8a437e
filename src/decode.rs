//! Decoding what page scripts return. Scripts hand back text; a structured
//! result arrives JSON-encoded, sometimes twice (a JSON string holding a
//! JSON document), and is collapsed to one document here.
use crate::protocol::{json_string, json_text, Response};
use crate::text::{chars_of, decimal, decimal_exec, extend, string_of};
use vstd::prelude::*;

verus! {

/// What `serde_json` reads from `s` as a `String`: the content of a JSON
/// string literal, or nothing where `s` is not one.
pub uninterp spec fn json_text_content(s: Seq<char>) -> Option<Seq<char>>;

/// What `serde_json` reads from `s` as a JSON document, or nothing where
/// `s` is not one.
pub uninterp spec fn json_document(s: Seq<char>) -> Option<serde_json::Value>;

/// Relies on `serde_json::from_str::<String>`: reads a JSON string literal.
#[verifier::external_body]
fn parse_json_text(s: &str) -> (r: Option<String>)
    ensures
        r is Some <==> json_text_content(s@) is Some,
        r is Some ==> r->0@ == json_text_content(s@)->0,
{
    serde_json::from_str::<String>(s).ok()
}

/// Relies on `serde_json::from_str::<serde_json::Value>`: reads a JSON
/// document; a failure carries the parser's message.
#[verifier::external_body]
fn parse_json(s: &str) -> (r: Result<serde_json::Value, String>)
    ensures
        r is Ok <==> json_document(s@) is Some,
        r is Ok ==> r->Ok_0 == json_document(s@)->0,
{
    serde_json::from_str::<serde_json::Value>(s).map_err(|e| e.to_string())
}

/// JSON's insignificant white space.
pub open spec fn is_json_space(c: char) -> bool {
    c == ' ' || c == '\t' || c == '\n' || c == '\r'
}

/// The first significant character of `s`, from index `i` on, opens an
/// object or an array.
pub open spec fn opens_container_from(s: Seq<char>, i: int) -> bool
    decreases s.len() - i,
{
    if i < 0 || i >= s.len() {
        false
    } else if is_json_space(s[i]) {
        opens_container_from(s, i + 1)
    } else {
        s[i] == '{' || s[i] == '['
    }
}

/// A document whose first significant character opens an object or array.
pub open spec fn opens_container(s: Seq<char>) -> bool {
    opens_container_from(s, 0)
}

fn opens_container_exec(s: &Vec<char>) -> (r: bool)
    ensures
        r == opens_container(s@),
{
    let mut i: usize = 0;
    while i < s.len()
        invariant
            i <= s@.len(),
            opens_container(s@) == opens_container_from(s@, i as int),
        decreases s@.len() - i,
    {
        let c = s[i];
        if !(c == ' ' || c == '\t' || c == '\n' || c == '\r') {
            return c == '{' || c == '[';
        }
        i = i + 1;
    }
    false
}

/// The value that an `eval` returning `raw` yields: an object or array
/// that arrived JSON-encoded inside a JSON string is decoded once more;
/// any other string stays a string; any other document is taken as it is;
/// text that is no document at all becomes a string.
pub open spec fn eval_value(raw: Seq<char>) -> serde_json::Value {
    match json_text_content(raw) {
        Some(s) => if opens_container(s) && json_document(s) is Some {
            json_document(s)->0
        } else {
            json_string(s)
        },
        None => match json_document(raw) {
            Some(v) => v,
            None => json_string(raw),
        },
    }
}

/// The reply to an `eval` whose script returned `raw`.
pub fn eval_response(raw: String) -> (r: Response)
    ensures
        r.ok,
        r.value == Some(eval_value(raw@)),
        r.error is None,
{
    match parse_json_text(raw.as_str()) {
        Some(s) => {
            if opens_container_exec(&chars_of(s.as_str())) {
                match parse_json(s.as_str()) {
                    Ok(v) => return Response::ok_value(v),
                    Err(_) => {},
                }
            }
            Response::ok_value(json_text(s))
        },
        None => match parse_json(raw.as_str()) {
            Ok(v) => Response::ok_value(v),
            Err(_) => Response::ok_value(json_text(raw)),
        },
    }
}

/// The document inside `raw`: the content of a JSON string literal, or
/// `raw` itself.
pub open spec fn unwrapped(raw: Seq<char>) -> Seq<char> {
    match json_text_content(raw) {
        Some(s) => s,
        None => raw,
    }
}

/// The reply to a command whose script returns a JSON document (a tree, the
/// computed styles, the console buffer), possibly wrapped in a JSON string.
/// Text that is no document is a failure carrying the parser's message.
pub fn document_response(raw: String) -> (r: Result<Response, String>)
    ensures
        r is Ok <==> json_document(unwrapped(raw@)) is Some,
        r is Ok ==> r->Ok_0.ok && r->Ok_0.error is None && r->Ok_0.value == Some(
            json_document(unwrapped(raw@))->0,
        ),
{
    let text = match parse_json_text(raw.as_str()) {
        Some(s) => s,
        None => raw,
    };
    match parse_json(text.as_str()) {
        Ok(v) => Ok(Response::ok_value(v)),
        Err(e) => Err(e),
    }
}

/// `"Saved <n> bytes to <path>"`
pub open spec fn screenshot_report_text(n: u64, path: Seq<char>) -> Seq<char> {
    "Saved "@ + decimal(n as nat) + " bytes to "@ + path
}

/// The reply to a screenshot of `n` bytes written to `path`.
pub fn screenshot_response(n: u64, path: &str) -> (r: Response)
    ensures
        r.ok,
        r.error is None,
        r.value == Some(json_string(screenshot_report_text(n, path@))),
{
    let mut out = chars_of("Saved ");
    extend(&mut out, &decimal_exec(n));
    extend(&mut out, &chars_of(" bytes to "));
    extend(&mut out, &chars_of(path));
    Response::ok_value(json_text(string_of(&out)))
}

} // verus!
