//! The wire envelope: a tagged `Command` union, the `{ok, value, error}`
//! `Response` record, and the newline framing of one document per line.
use crate::text::{before, before_exec, chars_of, lemma_find_first, occurs_at, string_of};
use vstd::prelude::*;

verus! {

/// `serde_json::Value`, held opaque: structured result values travel as JSON
/// documents.
#[verifier::external_type_specification]
#[verifier::external_body]
pub struct ExJsonValue(serde_json::Value);

/// The JSON string that holds `s`.
pub uninterp spec fn json_string(s: Seq<char>) -> serde_json::Value;

/// Relies on `serde_json::Value::String`: the JSON string holding `s`.
#[verifier::external_body]
pub(crate) fn json_text(s: String) -> (r: serde_json::Value)
    ensures
        r == json_string(s@),
{
    serde_json::Value::String(s)
}

/// One request per connection: the command to run.
pub struct Request {
    pub command: Command,
}

#[allow(inconsistent_fields)]
/// The closed set of operations a client can ask the daemon for.
pub enum Command {
    Open { url: String },
    Reload,
    Url,
    Wait { selector: String, timeout: u64 },
    WaitNot { selector: String, timeout: u64 },
    WaitAny { selectors: Vec<String>, timeout: u64 },
    WaitAll { selectors: Vec<String>, timeout: u64 },
    Click { selector: String, timeout: u64 },
    Fill { selector: String, text: String, timeout: u64 },
    Press { key: String },
    Exists { selector: String },
    Text { selector: String, timeout: u64 },
    Attr { selector: String, name: String, timeout: u64 },
    Count { selector: String },
    Eval { js: String },
    Screenshot { selector: Option<String>, path: String, timeout: u64 },
    Tree { selector: Option<String>, timeout: u64 },
    Header { name: String, value: String },
    HeaderClear,
    Cookie { name: String, value: String, url: String },
    CookieList,
    CookieClear,
    Viewport { width: u32, height: u32 },
    InputFiles { selector: String, paths: Vec<String>, timeout: u64 },
    Select { selector: String, values: Vec<String>, by_label: bool, timeout: u64 },
    Hover { selector: String, timeout: u64 },
    Check { selector: String, timeout: u64 },
    Uncheck { selector: String, timeout: u64 },
    Dblclick { selector: String, timeout: u64 },
    Focus { selector: String, timeout: u64 },
    Blur { selector: String, timeout: u64 },
    InnerHtml { selector: String, timeout: u64 },
    InputValue { selector: String, timeout: u64 },
    ScrollIntoView { selector: String, timeout: u64 },
    ComputedStyle { selector: String, properties: Vec<String>, timeout: u64 },
    Console,
    ConsoleClear,
    VideoStart { dir: String },
    VideoStop { output: Option<String> },
    Stop,
}

impl Command {
    /// The commands that can run before any page exists: navigation, stop,
    /// header set and clear, and viewport resize.
    pub open spec fn runs_without_page(&self) -> bool {
        ||| self is Open
        ||| self is Stop
        ||| self is Header
        ||| self is HeaderClear
        ||| self is Viewport
    }

    pub fn requires_page(&self) -> (r: bool)
        ensures
            r == !self.runs_without_page(),
    {
        match self {
            Command::Open { .. } | Command::Stop | Command::Header { .. } | Command::HeaderClear
            | Command::Viewport { .. } => false,
            _ => true,
        }
    }
}

/// The reply to one request. A failure carries an error and no value; a
/// success carries a value only where the command produces output.
pub struct Response {
    pub ok: bool,
    pub value: Option<serde_json::Value>,
    pub error: Option<String>,
}

impl Response {
    /// Exactly one of `value` and `error` may be present, and `error` is
    /// present exactly on failure.
    pub open spec fn well_formed(&self) -> bool {
        &&& self.ok <==> self.error is None
        &&& !self.ok ==> self.value is None
    }

    pub fn ok_empty() -> (r: Self)
        ensures
            r.ok,
            r.value is None,
            r.error is None,
            r.well_formed(),
    {
        Response { ok: true, value: None, error: None }
    }

    pub fn ok_value(value: serde_json::Value) -> (r: Self)
        ensures
            r.ok,
            r.value == Some(value),
            r.error is None,
            r.well_formed(),
    {
        Response { ok: true, value: Some(value), error: None }
    }

    pub fn err(msg: String) -> (r: Self)
        ensures
            !r.ok,
            r.value is None,
            r.error == Some(msg),
            r.well_formed(),
    {
        Response { ok: false, value: None, error: Some(msg) }
    }
}

/// The frame that carries one document: the document and a line break.
pub open spec fn framed(doc: Seq<char>) -> Seq<char> {
    doc.push('\n')
}

/// The document inside a line read from the socket: everything before the
/// first line break. An empty read (the peer closed) carries none.
pub open spec fn unframed(line: Seq<char>) -> Option<Seq<char>> {
    if line.len() == 0 {
        None
    } else {
        Some(before(line, "\n"@))
    }
}

/// Frames one document for the wire.
pub fn frame(doc: &str) -> (r: String)
    ensures
        r@ == framed(doc@),
{
    let mut v = chars_of(doc);
    v.push('\n');
    string_of(&v)
}

/// Takes the document out of one line read from the wire.
pub fn unframe(line: &str) -> (r: Option<String>)
    ensures
        r is None <==> unframed(line@) is None,
        r matches Some(d) ==> unframed(line@) == Some(d@),
{
    let v = chars_of(line);
    if v.len() == 0 {
        None
    } else {
        Some(string_of(&before_exec(&v, &chars_of("\n"))))
    }
}

/// A document without line breaks comes out of its frame unchanged.
pub proof fn lemma_frame_round_trip(doc: Seq<char>)
    requires
        !doc.contains('\n'),
    ensures
        unframed(framed(doc)) == Some(doc),
{
    let line = framed(doc);
    reveal_strlit("\n");
    assert(occurs_at(line, "\n"@, doc.len() as int)) by {
        assert(line.subrange(doc.len() as int, doc.len() + 1 as int) =~= "\n"@);
    }
    assert forall|k: int| 0 <= k < doc.len() implies !occurs_at(line, "\n"@, k) by {
        if occurs_at(line, "\n"@, k) {
            assert(line.subrange(k, k + 1)[0] == line[k]);
            assert(doc[k] == '\n');
        }
    }
    lemma_find_first(line, "\n"@, 0, doc.len() as int);
    assert(line.subrange(0, doc.len() as int) =~= doc);
}

} // verus!
