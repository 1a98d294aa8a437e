//! The error normalizer: turns an engine failure (often a multi-line message
//! with nested prefixes and a stack trace) into one concise line, plus a hint
//! where a selector matched several elements, and the key list for a failed
//! key press.
use crate::text::{
    before, before_exec, chars_of, contains, contains_exec, extend, find, find_exec,
    ends_with, lemma_find_first, lemma_find_from_bounds, lemma_find_from_first,
    lemma_find_none, lemma_occurs_char, lemma_rfind_below_is, lemma_rfind_below_last,
    lemma_prefix_before_break, lemma_rfind_below_bounds, lemma_rfind_none, lemma_trimmed_last,
    occurs_at, occurs_at_exec, rfind, rfind_below, rfind_exec, slice_of, starts_with,
    starts_with_exec, string_of, strip_prefix, strip_prefix_exec, trim_end, trim_end_exec,
};
use vstd::prelude::*;

verus! {

/// Opens the annotation that names the selector a failure is about.
pub const SELECTOR_OPEN: &'static str = "[selector: ";

/// Marks the start of one frame of a script stack trace.
pub const FRAME_MARKER: &'static str = "    at ";

/// Separates a message from the stack trace that the engine appends.
pub const TRACE_BREAK: &'static str = " \n ";

/// Placed before the selector in the disambiguation hint.
pub const HINT_HEAD: &'static str = "\n\nHint: use '>> nth=0' to select the first match, e.g.:\n  plwr <command> \"";

/// Placed after the selector in the disambiguation hint.
pub const HINT_TAIL: &'static str = " >> nth=0\"";

/// Stands for the selector in the hint when the message names none.
pub const HINT_PLACEHOLDER: &'static str = "SELECTOR";

/// Appended to a failed key press whose message says the key is unknown.
pub const KEY_HELP: &'static str = "\n\nValid keys: a-z A-Z 0-9, Backspace Tab Enter Escape Space Delete Insert, ArrowUp ArrowDown ArrowLeft ArrowRight Home End PageUp PageDown, F1-F12, Control Shift Alt Meta, any US keyboard character: !@#$%^&*()_+-=[]{}\\|;':\",./<>?`~\nChords: Control+c, Shift+Enter, Alt+Tab, Meta+a";

/// The trailing `[selector: ...]` annotation of `m`: from the last opening
/// of one up to the first `]` after it, or empty where there is none.
pub open spec fn selector_annotation(m: Seq<char>) -> Seq<char> {
    match rfind(m, SELECTOR_OPEN@) {
        Some(i) => {
            let rest = m.subrange(i, m.len() as int);
            match find(rest, "]"@) {
                Some(j) => rest.subrange(0, j + 1),
                None => Seq::empty(),
            }
        },
        None => Seq::empty(),
    }
}

/// A line that begins with an indented stack frame starts at `i`.
pub open spec fn frame_starts_at(s: Seq<char>, i: int) -> bool {
    &&& (i == 0 || s[i - 1] == '\n')
    &&& occurs_at(s, FRAME_MARKER@, i)
}

/// The first index at or after `i` where a stack-frame line starts.
pub open spec fn first_frame_from(s: Seq<char>, i: int) -> Option<int>
    decreases s.len() + 1 - i,
{
    if i < 0 || i > s.len() {
        None
    } else if frame_starts_at(s, i) {
        Some(i)
    } else {
        first_frame_from(s, i + 1)
    }
}

/// The lines of `s` before the first stack-frame line.
pub open spec fn drop_frames(s: Seq<char>) -> Seq<char> {
    match first_frame_from(s, 0) {
        Some(i) => if i == 0 {
            Seq::empty()
        } else {
            s.subrange(0, i - 1)
        },
        None => s,
    }
}

/// A leading parenthetical context followed by `": "` is dropped.
pub open spec fn drop_parenthetical(s: Seq<char>) -> Seq<char> {
    if s.len() > 0 && s[0] == '(' {
        match find(s, ": "@) {
            Some(i) => s.subrange(i + ": "@.len(), s.len() as int),
            None => s,
        }
    } else {
        s
    }
}

/// The known nested-context prefixes, stripped in order.
pub open spec fn strip_context(s: Seq<char>) -> Seq<char> {
    let a = strip_prefix(s, "Protocol error: "@);
    let b = strip_prefix(a, "Protocol error "@);
    let c = drop_parenthetical(b);
    let d = strip_prefix(c, "Error: "@);
    strip_prefix(d, "strict mode violation: "@)
}

/// The first line of `s`, without trailing white space.
pub open spec fn first_line(s: Seq<char>) -> Seq<char> {
    trim_end(before(s, "\n"@))
}

/// The message's own line: trace cut off, frames dropped, prefixes stripped.
pub open spec fn message_line(m: Seq<char>) -> Seq<char> {
    first_line(strip_context(drop_frames(before(m, TRACE_BREAK@))))
}

/// The line with the annotation put back, unless it already ends in `]`.
pub open spec fn annotated(line: Seq<char>, ann: Seq<char>) -> Seq<char> {
    if ann.len() == 0 || (line.len() > 0 && line.last() == ']') {
        line
    } else {
        line + " "@ + ann
    }
}

/// The selector inside the annotation, or a placeholder where there is none.
pub open spec fn hint_selector(ann: Seq<char>) -> Seq<char> {
    if starts_with(ann, SELECTOR_OPEN@) && ann.len() > SELECTOR_OPEN@.len() && ann.last() == ']' {
        ann.subrange(SELECTOR_OPEN@.len() as int, ann.len() - 1)
    } else {
        HINT_PLACEHOLDER@
    }
}

/// The message says that a selector resolved to several elements.
pub open spec fn is_ambiguous(s: Seq<char>) -> bool {
    contains(s, "resolved to"@) && contains(s, "elements"@)
}

/// The line with the disambiguation hint where the selector was ambiguous.
pub open spec fn with_hint(cleaned: Seq<char>, ann: Seq<char>) -> Seq<char> {
    if is_ambiguous(cleaned) {
        cleaned + HINT_HEAD@ + hint_selector(ann) + HINT_TAIL@
    } else {
        cleaned
    }
}

/// What the normalizer makes of the raw message `m`.
pub open spec fn normalized(m: Seq<char>) -> Seq<char> {
    with_hint(annotated(message_line(m), selector_annotation(m)), selector_annotation(m))
}

/// What a failed key press reports, given its raw message `m`.
pub open spec fn press_failure(m: Seq<char>) -> Seq<char> {
    let n = normalized(m);
    if contains(n, "Unknown key"@) {
        n + KEY_HELP@
    } else {
        n
    }
}

fn selector_annotation_exec(m: &Vec<char>) -> (r: Vec<char>)
    ensures
        r@ == selector_annotation(m@),
{
    let open = chars_of(SELECTOR_OPEN);
    let close = chars_of("]");
    proof {
        reveal_strlit("]");
    }
    match rfind_exec(m, &open) {
        Some(i) => {
            proof {
                lemma_rfind_below_bounds(m@, open@, m@.len() + 1 as int);
            }
            let rest = slice_of(m, i, m.len());
            match find_exec(&rest, &close, 0) {
                Some(j) => {
                    proof {
                        lemma_find_from_bounds(rest@, close@, 0);
                    }
                    slice_of(&rest, 0, j + 1)
                },
                None => Vec::new(),
            }
        },
        None => Vec::new(),
    }
}

fn drop_frames_exec(s: &Vec<char>) -> (r: Vec<char>)
    ensures
        r@ == drop_frames(s@),
{
    let marker = chars_of(FRAME_MARKER);
    let n = s.len();
    let mut i: usize = 0;
    while i <= n
        invariant
            n == s@.len(),
            marker@ == FRAME_MARKER@,
            first_frame_from(s@, 0) == first_frame_from(s@, i as int),
        decreases n + 1 - i,
    {
        if (i == 0 || s[i - 1] == '\n') && occurs_at_exec(s, &marker, i) {
            if i == 0 {
                return Vec::new();
            } else {
                return slice_of(s, 0, i - 1);
            }
        }
        if i == n {
            assert(first_frame_from(s@, i + 1) is None);
            return s.clone();
        }
        i = i + 1;
    }
    s.clone()
}

fn drop_parenthetical_exec(s: Vec<char>) -> (r: Vec<char>)
    ensures
        r@ == drop_parenthetical(s@),
{
    if s.len() > 0 && s[0] == '(' {
        let sep = chars_of(": ");
        match find_exec(&s, &sep, 0) {
            Some(i) => {
                proof {
                    lemma_find_from_bounds(s@, sep@, 0);
                }
                slice_of(&s, i + sep.len(), s.len())
            },
            None => s,
        }
    } else {
        s
    }
}

fn strip_context_exec(s: &Vec<char>) -> (r: Vec<char>)
    ensures
        r@ == strip_context(s@),
{
    let a = strip_prefix_exec(s, &chars_of("Protocol error: "));
    let b = strip_prefix_exec(&a, &chars_of("Protocol error "));
    let c = drop_parenthetical_exec(b);
    let d = strip_prefix_exec(&c, &chars_of("Error: "));
    strip_prefix_exec(&d, &chars_of("strict mode violation: "))
}

fn message_line_exec(m: &Vec<char>) -> (r: Vec<char>)
    ensures
        r@ == message_line(m@),
{
    let head = before_exec(m, &chars_of(TRACE_BREAK));
    let framed = drop_frames_exec(&head);
    let stripped = strip_context_exec(&framed);
    let line = before_exec(&stripped, &chars_of("\n"));
    trim_end_exec(&line)
}

fn annotated_exec(line: Vec<char>, ann: &Vec<char>) -> (r: Vec<char>)
    ensures
        r@ == annotated(line@, ann@),
{
    if ann.len() == 0 || (line.len() > 0 && line[line.len() - 1] == ']') {
        line
    } else {
        let mut out = line;
        extend(&mut out, &chars_of(" "));
        extend(&mut out, ann);
        out
    }
}

fn hint_selector_exec(ann: &Vec<char>) -> (r: Vec<char>)
    ensures
        r@ == hint_selector(ann@),
{
    let open = chars_of(SELECTOR_OPEN);
    if starts_with_exec(ann, &open) && ann.len() > open.len() && ann[ann.len() - 1] == ']' {
        slice_of(ann, open.len(), ann.len() - 1)
    } else {
        chars_of(HINT_PLACEHOLDER)
    }
}

fn with_hint_exec(cleaned: Vec<char>, ann: &Vec<char>) -> (r: Vec<char>)
    ensures
        r@ == with_hint(cleaned@, ann@),
{
    if contains_exec(&cleaned, &chars_of("resolved to")) && contains_exec(
        &cleaned,
        &chars_of("elements"),
    ) {
        let mut out = cleaned;
        extend(&mut out, &chars_of(HINT_HEAD));
        extend(&mut out, &hint_selector_exec(ann));
        extend(&mut out, &chars_of(HINT_TAIL));
        out
    } else {
        cleaned
    }
}

/// Normalizes a raw failure message into one concise line: the stack trace
/// and the nested context prefixes go, a `[selector: ...]` annotation stays,
/// and a selector that resolved to several elements gets a hint on how to
/// pick one.
pub fn clean_error(msg: &str) -> (r: String)
    ensures
        r@ == normalized(msg@),
{
    let m = chars_of(msg);
    let ann = selector_annotation_exec(&m);
    let line = message_line_exec(&m);
    let cleaned = annotated_exec(line, &ann);
    let out = with_hint_exec(cleaned, &ann);
    string_of(&out)
}

/// The message of a failed key press: normalized, and followed by the list
/// of valid key names and chords where the key was unknown.
pub fn press_error(msg: &str) -> (r: String)
    ensures
        r@ == press_failure(msg@),
{
    let n = chars_of(&clean_error(msg));
    let mut out = n.clone();
    if contains_exec(&n, &chars_of("Unknown key")) {
        extend(&mut out, &chars_of(KEY_HELP));
    }
    string_of(&out)
}

/// A single line that the normalizer keeps as it is: no line break, no
/// trailing white space, no leading context prefix, parenthetical or stack
/// frame.
pub open spec fn is_plain_line(l: Seq<char>) -> bool {
    &&& !l.contains('\n')
    &&& trim_end(l) == l
    &&& !starts_with(l, "Protocol error: "@)
    &&& !starts_with(l, "Protocol error "@)
    &&& !(l.len() > 0 && l[0] == '(')
    &&& !starts_with(l, "Error: "@)
    &&& !starts_with(l, "strict mode violation: "@)
    &&& !starts_with(l, FRAME_MARKER@)
}

/// The disambiguation hint around the selector text `x`.
pub open spec fn hint_around(x: Seq<char>) -> Seq<char> {
    HINT_HEAD@ + x + HINT_TAIL@
}

proof fn lemma_literals()
    ensures
        HINT_HEAD@.len() > 3,
        HINT_HEAD@[0] == '\n',
        HINT_HEAD@.last() != '\n',
        !HINT_HEAD@.contains('['),
        !HINT_HEAD@.contains(']'),
        forall|q: int|
            0 <= q && q + 2 < HINT_HEAD@.len() ==> !(#[trigger] HINT_HEAD@[q] == ' ' && HINT_HEAD@[q
                + 1] == '\n' && HINT_HEAD@[q + 2] == ' '),
        forall|j: int|
            0 <= j < HINT_HEAD@.len() && #[trigger] HINT_HEAD@[j] == '\n' ==> j + 3 < HINT_HEAD@.len()
                && !(HINT_HEAD@[j + 1] == ' ' && HINT_HEAD@[j + 2] == ' ' && HINT_HEAD@[j + 3] == ' '),
        HINT_TAIL@.len() > 2,
        HINT_TAIL@[0] == ' ',
        HINT_TAIL@[1] == '>',
        !HINT_TAIL@.contains('\n'),
        !HINT_TAIL@.contains('['),
        !HINT_TAIL@.contains(']'),
        !HINT_PLACEHOLDER@.contains('\n'),
        !HINT_PLACEHOLDER@.contains('['),
        !HINT_PLACEHOLDER@.contains(']'),
        SELECTOR_OPEN@.len() == 11,
        SELECTOR_OPEN@[0] == '[',
        SELECTOR_OPEN@[10] == ' ',
        SELECTOR_OPEN@.subrange(0, 10) == "[selector:"@,
        !SELECTOR_OPEN@.contains('\n'),
        !SELECTOR_OPEN@.contains(']'),
        !SELECTOR_OPEN@.contains('>'),
        TRACE_BREAK@ == seq![' ', '\n', ' '],
        FRAME_MARKER@.len() == 7,
        FRAME_MARKER@[0] == ' ',
        FRAME_MARKER@[1] == ' ',
        FRAME_MARKER@[2] == ' ',
        !FRAME_MARKER@.contains('\n'),
        !FRAME_MARKER@.contains('['),
        "\n"@ == seq!['\n'],
        "]"@ == seq![']'],
        !"Protocol error: "@.contains('\n'),
        !"Protocol error "@.contains('\n'),
        !"Error: "@.contains('\n'),
        !"strict mode violation: "@.contains('\n'),
        !"Protocol error: "@.contains('['),
        !"Protocol error "@.contains('['),
        !"Error: "@.contains('['),
        !"strict mode violation: "@.contains('['),
{
    reveal_strlit("\n\nHint: use '>> nth=0' to select the first match, e.g.:\n  plwr <command> \"");
    reveal_strlit("SELECTOR");
    reveal_strlit(" >> nth=0\"");
    reveal_strlit("[selector: ");
    reveal_strlit("[selector:");
    reveal_strlit(" \n ");
    reveal_strlit("    at ");
    reveal_strlit("\n");
    reveal_strlit("]");
    reveal_strlit("Protocol error: ");
    reveal_strlit("Protocol error ");
    reveal_strlit("Error: ");
    reveal_strlit("strict mode violation: ");
    assert(HINT_HEAD@ == "\n\nHint: use '>> nth=0' to select the first match, e.g.:\n  plwr <command> \""@);
    assert(HINT_PLACEHOLDER@ == "SELECTOR"@);
    assert(HINT_TAIL@ == " >> nth=0\""@);
    assert(SELECTOR_OPEN@ == "[selector: "@);
    assert(SELECTOR_OPEN@.subrange(0, 10) =~= "[selector:"@);
    assert(TRACE_BREAK@ =~= seq![' ', '\n', ' ']);
    assert(FRAME_MARKER@ == "    at "@);
    assert("\n"@ =~= seq!['\n']);
    assert("]"@ =~= seq![']']);
}

/// A pattern with a line break at `j` occurs nowhere in a text without one.
proof fn lemma_no_break_no_match(s: Seq<char>, p: Seq<char>, j: int, k: int)
    requires
        !s.contains('\n'),
        0 <= j < p.len(),
        p[j] == '\n',
    ensures
        !occurs_at(s, p, k),
{
    if occurs_at(s, p, k) {
        assert(s.subrange(k, k + p.len())[j] == s[k + j]);
    }
}

proof fn lemma_first_frame_none(s: Seq<char>, i: int)
    requires
        0 <= i,
        forall|k: int| i <= k <= s.len() ==> !frame_starts_at(s, k),
    ensures
        first_frame_from(s, i) is None,
    decreases s.len() + 1 - i,
{
    if i <= s.len() {
        lemma_first_frame_none(s, i + 1);
    }
}

/// A prefix without `[` that starts `l + t`, where `l` holds a `[`, starts `l`.
proof fn lemma_prefix_kept(l: Seq<char>, t: Seq<char>, p: Seq<char>, i: int)
    requires
        !p.contains('['),
        0 <= i < l.len(),
        l[i] == '[',
        starts_with(l + t, p),
    ensures
        starts_with(l, p),
{
    let s = l + t;
    if p.len() <= l.len() {
        assert(l.subrange(0, p.len() as int) =~= s.subrange(0, p.len() as int));
    } else {
        assert(s.subrange(0, p.len() as int)[i] == s[i]);
    }
}

/// The normalizer keeps a plain line as its line.
proof fn lemma_plain_line(l: Seq<char>)
    requires
        is_plain_line(l),
    ensures
        message_line(l) == l,
{
    lemma_literals();
    assert forall|k: int| 0 <= k implies !occurs_at(l, TRACE_BREAK@, k) by {
        lemma_no_break_no_match(l, TRACE_BREAK@, 1, k);
    }
    lemma_find_none(l, TRACE_BREAK@, 0);
    assert forall|k: int| 0 <= k <= l.len() implies !frame_starts_at(l, k) by {
        if k > 0 && frame_starts_at(l, k) {
            assert(l[k - 1] == '\n');
        }
    }
    lemma_first_frame_none(l, 0);
    assert forall|k: int| 0 <= k implies !occurs_at(l, "\n"@, k) by {
        lemma_no_break_no_match(l, "\n"@, 0, k);
    }
    lemma_find_none(l, "\n"@, 0);
}

/// The normalizer keeps a plain line followed by a hint as that line.
proof fn lemma_hinted_line(l: Seq<char>, x: Seq<char>)
    requires
        is_plain_line(l),
        l.len() > 0,
        !x.contains('\n'),
    ensures
        message_line(l + hint_around(x)) == l,
{
    lemma_literals();
    let head = HINT_HEAD@;
    let h = hint_around(x);
    let n = l + h;
    let ml = l.len() as int;
    let hl = head.len() as int;
    assert(n[ml] == '\n');
    assert forall|t: int| 0 <= t < h.len() && h[t] == '\n' implies t < hl && head[t] == '\n' by {
        if t >= hl + x.len() {
            assert(HINT_TAIL@[t - hl - x.len()] == '\n');
        } else if t >= hl {
            assert(x[t - hl] == '\n');
        }
    }
    // No trace break: the only line breaks are inside the hint's head.
    assert forall|k: int| 0 <= k implies !occurs_at(n, TRACE_BREAK@, k) by {
        if occurs_at(n, TRACE_BREAK@, k) {
            let w = n.subrange(k, k + 3);
            assert(w[0] == n[k] && w[1] == n[k + 1] && w[2] == n[k + 2]);
            if k + 1 < ml {
                assert(l[k + 1] == '\n');
            } else if k + 1 == ml {
                lemma_trimmed_last(l);
                assert(l[ml - 1] == ' ');
            } else {
                let t = k + 1 - ml;
                assert(h[t] == n[k + 1]);
                assert(t < hl && head[t] == '\n');
                assert(head[t - 1] == n[k] && head[t + 1] == n[k + 2]);
            }
        }
    }
    lemma_find_none(n, TRACE_BREAK@, 0);
    assert(before(n, TRACE_BREAK@) == n);
    // No stack-frame line.
    assert forall|k: int| 0 <= k <= n.len() implies !frame_starts_at(n, k) by {
        if frame_starts_at(n, k) {
            let w = n.subrange(k, k + 7);
            if k == 0 {
                lemma_prefix_before_break(l, h, FRAME_MARKER@);
            } else if k - 1 < ml {
                assert(l[k - 1] == '\n');
            } else {
                let t = k - 1 - ml;
                assert(h[t] == n[k - 1]);
                assert(t < hl && head[t] == '\n');
                assert(w[0] == n[k] && w[1] == n[k + 1] && w[2] == n[k + 2]);
                assert(head[t + 1] == n[k] && head[t + 2] == n[k + 1] && head[t + 3] == n[k + 2]);
            }
        }
    }
    lemma_first_frame_none(n, 0);
    assert(drop_frames(n) == n);
    // No context prefix: each would already start the line.
    if starts_with(n, "Protocol error: "@) {
        lemma_prefix_before_break(l, h, "Protocol error: "@);
    }
    if starts_with(n, "Protocol error "@) {
        lemma_prefix_before_break(l, h, "Protocol error "@);
    }
    assert(n[0] == l[0]);
    if starts_with(n, "Error: "@) {
        lemma_prefix_before_break(l, h, "Error: "@);
    }
    if starts_with(n, "strict mode violation: "@) {
        lemma_prefix_before_break(l, h, "strict mode violation: "@);
    }
    assert(strip_context(n) == n);
    // The first line ends where the hint begins.
    lemma_occurs_char(n, '\n', ml);
    assert forall|k: int| 0 <= k < ml implies !occurs_at(n, "\n"@, k) by {
        lemma_occurs_char(n, '\n', k);
    }
    lemma_find_first(n, "\n"@, 0, ml);
    assert(n.subrange(0, ml) =~= l);
}

/// Where a text carries an annotation: it opens at `p`, the last opening,
/// and runs to the first `]` after it.
proof fn lemma_annotation_facts(s: Seq<char>)
    requires
        selector_annotation(s).len() > 0,
    ensures
        rfind(s, SELECTOR_OPEN@) is Some,
        ({
            let p = rfind(s, SELECTOR_OPEN@)->0;
            let a = selector_annotation(s);
            &&& 0 <= p
            &&& p + a.len() <= s.len()
            &&& a.len() > 11
            &&& a == s.subrange(p, p + a.len())
            &&& occurs_at(s, SELECTOR_OPEN@, p)
            &&& forall|q: int| p < q ==> !occurs_at(s, SELECTOR_OPEN@, q)
            &&& s[p + a.len() - 1] == ']'
            &&& forall|k: int| p <= k < p + a.len() - 1 ==> s[k] != ']'
            &&& hint_selector(a) == s.subrange(p + 11, p + a.len() - 1)
        }),
{
    lemma_literals();
    let p = rfind(s, SELECTOR_OPEN@)->0;
    lemma_rfind_below_bounds(s, SELECTOR_OPEN@, s.len() + 1 as int);
    lemma_rfind_below_last(s, SELECTOR_OPEN@, s.len() + 1 as int);
    assert forall|q: int| p < q implies !occurs_at(s, SELECTOR_OPEN@, q) by {
        if q >= s.len() + 1 && occurs_at(s, SELECTOR_OPEN@, q) {
        }
    }
    let rest = s.subrange(p, s.len() as int);
    let j = find(rest, "]"@)->0;
    lemma_find_from_bounds(rest, "]"@, 0);
    lemma_find_from_first(rest, "]"@, 0);
    lemma_occurs_char(rest, ']', j);
    assert forall|k: int| 0 <= k < j implies rest[k] != ']' by {
        lemma_occurs_char(rest, ']', k);
    }
    assert(j >= 11) by {
        if j < 11 {
            assert(s.subrange(p, p + 11)[j] == rest[j]);
            assert(SELECTOR_OPEN@[j] == ']');
        }
    }
    let a = selector_annotation(s);
    assert(a == rest.subrange(0, j + 1));
    assert(a =~= s.subrange(p, p + j + 1));
    assert forall|k: int| p <= k < p + j implies s[k] != ']' by {
        assert(rest[k - p] == s[k]);
    }
    assert(starts_with(a, SELECTOR_OPEN@)) by {
        assert(a.subrange(0, 11) =~= s.subrange(p, p + 11));
    }
    assert(hint_selector(a) =~= s.subrange(p + 11, p + j));
}

/// A message without an annotation keeps having none after the placeholder
/// hint is appended.
proof fn lemma_no_annotation_after_hint(m: Seq<char>)
    requires
        selector_annotation(m).len() == 0,
        !m.contains('\n'),
    ensures
        selector_annotation(m + hint_around(HINT_PLACEHOLDER@)).len() == 0,
{
    lemma_literals();
    let h = hint_around(HINT_PLACEHOLDER@);
    let n = m + h;
    let ml = m.len() as int;
    let open = SELECTOR_OPEN@;
    assert forall|t: int| 0 <= t < h.len() implies h[t] != '[' && h[t] != ']' by {
        let hl = HINT_HEAD@.len() as int;
        let pl = HINT_PLACEHOLDER@.len() as int;
        if t < hl {
            assert(h[t] == HINT_HEAD@[t]);
        } else if t < hl + pl {
            assert(h[t] == HINT_PLACEHOLDER@[t - hl]);
        } else {
            assert(h[t] == HINT_TAIL@[t - hl - pl]);
        }
    }
    // An opening in `n` lies inside `m`.
    assert forall|q: int| occurs_at(n, open, q) implies occurs_at(m, open, q) by {
        let w = n.subrange(q, q + 11);
        if q + 11 <= ml {
            assert(m.subrange(q, q + 11) =~= w);
        } else if q < ml {
            assert(w[ml - q] == n[ml]);
            assert(h[0] == '\n');
            assert(open[ml - q] == '\n');
        } else {
            assert(w[0] == n[q]);
            assert(h[q - ml] == '[');
        }
    }
    lemma_rfind_below_last(m, open, m.len() + 1 as int);
    match rfind(m, open) {
        None => {
            assert forall|q: int| q < n.len() + 1 implies !occurs_at(n, open, q) by {
                if occurs_at(n, open, q) {
                    assert(occurs_at(m, open, q));
                }
            }
            lemma_rfind_none(n, open, n.len() + 1 as int);
        },
        Some(i) => {
            lemma_rfind_below_bounds(m, open, m.len() + 1 as int);
            assert forall|q: int| i < q < n.len() + 1 implies !occurs_at(n, open, q) by {
                if occurs_at(n, open, q) {
                    assert(occurs_at(m, open, q));
                    assert(q < m.len() + 1);
                }
            }
            assert(occurs_at(n, open, i)) by {
                assert(n.subrange(i, i + 11) =~= m.subrange(i, i + 11));
            }
            lemma_rfind_below_is(n, open, n.len() + 1 as int, i);
            let rest_m = m.subrange(i, ml);
            lemma_find_from_bounds(rest_m, "]"@, 0);
            let rest_n = n.subrange(i, n.len() as int);
            assert(find(rest_m, "]"@) is None);
            lemma_find_from_first(rest_m, "]"@, 0);
            assert forall|k: int| 0 <= k implies !occurs_at(rest_n, "]"@, k) by {
                lemma_occurs_char(rest_n, ']', k);
                lemma_occurs_char(rest_m, ']', k);
                if 0 <= k < rest_n.len() && rest_n[k] == ']' {
                    if k < rest_m.len() {
                        assert(rest_m[k] == rest_n[k]);
                    } else {
                        assert(rest_n[k] == h[k + i - ml]);
                    }
                }
            }
            lemma_find_none(rest_n, "]"@, 0);
        },
    }
}

/// An annotated line keeps its annotation after the hint built from it is
/// appended, unless the selector ends in `[selector:`.
proof fn lemma_annotation_after_hint(c: Seq<char>)
    requires
        selector_annotation(c).len() > 0,
        !c.contains('\n'),
        !ends_with(hint_selector(selector_annotation(c)), "[selector:"@),
    ensures
        selector_annotation(c + hint_around(hint_selector(selector_annotation(c))))
            == selector_annotation(c),
{
    lemma_literals();
    lemma_annotation_facts(c);
    let open = SELECTOR_OPEN@;
    let a = selector_annotation(c);
    let x = hint_selector(a);
    let p = rfind(c, open)->0;
    let j = a.len() - 1;
    let h = hint_around(x);
    let n = c + h;
    let cl = c.len() as int;
    let hl = HINT_HEAD@.len() as int;
    let e = cl + hl + x.len();
    assert(x == c.subrange(p + 11, p + j));
    assert(occurs_at(n, open, p)) by {
        assert(n.subrange(p, p + 11) =~= c.subrange(p, p + 11));
    }
    assert forall|q: int| p < q < n.len() + 1 implies !occurs_at(n, open, q) by {
        if occurs_at(n, open, q) {
            let w = n.subrange(q, q + 11);
            if q + 11 <= cl {
                assert(c.subrange(q, q + 11) =~= w);
                assert(occurs_at(c, open, q));
            } else if q < cl {
                assert(w[cl - q] == n[cl]);
                assert(n[cl] == HINT_HEAD@[0]);
                assert(open[cl - q] == '\n');
            } else if q < cl + hl {
                assert(w[0] == n[q]);
                assert(n[q] == HINT_HEAD@[q - cl]);
                assert(HINT_HEAD@[q - cl] == '[');
            } else if q + 11 <= e {
                let off = q - cl - hl;
                assert(c.subrange(p + 11 + off, p + 11 + off + 11) =~= w) by {
                    assert forall|t: int| 0 <= t < 11 implies c[p + 11 + off + t] == #[trigger] w[t] by {
                        assert(w[t] == n[q + t]);
                        assert(n[q + t] == x[off + t]);
                    }
                }
                assert(occurs_at(c, open, p + 11 + off));
            } else if q < e {
                if q + 11 > e + 1 {
                    assert(w[e + 1 - q] == n[e + 1]);
                    assert(n[e + 1] == HINT_TAIL@[1]);
                    assert(open[e + 1 - q] == '>');
                } else {
                    assert(x.subrange(x.len() - 10, x.len() as int) =~= open.subrange(0, 10)) by {
                        assert forall|t: int| 0 <= t < 10 implies x[x.len() - 10 + t] == #[trigger] open[t] by {
                            assert(w[t] == n[q + t]);
                            assert(n[q + t] == x[x.len() - 10 + t]);
                        }
                    }
                    assert(ends_with(x, "[selector:"@));
                }
            } else {
                assert(w[0] == n[q]);
                assert(n[q] == HINT_TAIL@[q - e]);
                assert(HINT_TAIL@[q - e] == '[');
            }
        }
    }
    lemma_rfind_below_is(n, open, n.len() + 1 as int, p);
    let rest = n.subrange(p, n.len() as int);
    lemma_occurs_char(rest, ']', j);
    assert(rest[j] == c[p + j]);
    assert forall|k: int| 0 <= k < j implies !occurs_at(rest, "]"@, k) by {
        lemma_occurs_char(rest, ']', k);
        assert(rest[k] == c[p + k]);
    }
    lemma_find_first(rest, "]"@, 0, j);
    assert(rest.subrange(0, j + 1) =~= a);
}

/// Appending the annotation to a plain line that does not already end in
/// `]` leaves the annotation the last one, ending the line.
proof fn lemma_annotated_line(m: Seq<char>)
    requires
        is_plain_line(m),
        selector_annotation(m).len() > 0,
    ensures
        is_plain_line(annotated(m, selector_annotation(m))),
        selector_annotation(annotated(m, selector_annotation(m))) == selector_annotation(m),
        annotated(m, selector_annotation(m)).last() == ']',
{
    lemma_literals();
    lemma_annotation_facts(m);
    let a = selector_annotation(m);
    let c = annotated(m, a);
    let open = SELECTOR_OPEN@;
    let i = rfind(m, open)->0;
    let j = a.len() - 1;
    if c != m {
        let ml = m.len() as int;
        let pc = ml + 1;
        assert(c == m + " "@ + a);
        assert(c =~= m + (" "@ + a));
        reveal_strlit(" ");
        assert(" "@ =~= seq![' ']);
        assert(c.subrange(pc, c.len() as int) =~= a);
        assert(m[i] == '[') by {
            assert(m.subrange(i, i + 11)[0] == m[i]);
        }
        assert(!c.contains('\n')) by {
            assert forall|k: int| 0 <= k < c.len() implies c[k] != '\n' by {
                if k < ml {
                } else if k > ml {
                    assert(c[k] == a[k - pc]);
                    assert(a[k - pc] == m[i + k - pc]);
                }
            }
        }
        assert(trim_end(c) == c) by {
            assert(c.last() == ']');
        }
        if starts_with(c, "Protocol error: "@) {
            lemma_prefix_kept(m, " "@ + a, "Protocol error: "@, i);
        }
        if starts_with(c, "Protocol error "@) {
            lemma_prefix_kept(m, " "@ + a, "Protocol error "@, i);
        }
        if starts_with(c, "Error: "@) {
            lemma_prefix_kept(m, " "@ + a, "Error: "@, i);
        }
        if starts_with(c, "strict mode violation: "@) {
            lemma_prefix_kept(m, " "@ + a, "strict mode violation: "@, i);
        }
        if starts_with(c, FRAME_MARKER@) {
            lemma_prefix_kept(m, " "@ + a, FRAME_MARKER@, i);
        }
        assert(c[0] == m[0]);
        // The opening of the appended annotation is the last one in `c`.
        assert(occurs_at(c, open, pc)) by {
            assert(c.subrange(pc, pc + 11) =~= a.subrange(0, 11));
            assert(a.subrange(0, 11) =~= m.subrange(i, i + 11));
        }
        assert forall|q: int| pc < q < c.len() + 1 implies !occurs_at(c, open, q) by {
            if occurs_at(c, open, q) {
                let w = c.subrange(q, q + 11);
                assert forall|t: int| 0 <= t < 11 implies #[trigger] w[t] == m[i + q - pc + t] by {
                    assert(w[t] == c[q + t]);
                    assert(c[q + t] == a[q - pc + t]);
                }
                assert(m.subrange(i + q - pc, i + q - pc + 11) =~= w);
                assert(occurs_at(m, open, i + q - pc));
            }
        }
        lemma_rfind_below_is(c, open, c.len() + 1 as int, pc);
        let rest = c.subrange(pc, c.len() as int);
        lemma_occurs_char(rest, ']', j);
        assert(rest[j] == m[i + j]);
        assert forall|k: int| 0 <= k < j implies !occurs_at(rest, "]"@, k) by {
            lemma_occurs_char(rest, ']', k);
            assert(rest[k] == m[i + k]);
        }
        lemma_find_first(rest, "]"@, 0, j);
        assert(rest.subrange(0, j + 1) =~= a);
    }
}

/// Normalizing a clean single-line message and normalizing the result again
/// give the same text. The one message left out is an ambiguous one whose
/// annotated selector ends in `[selector:`: its hint then holds the last
/// annotation opening, and the second pass loses the selector.
pub proof fn lemma_normalize_idempotent_on_clean_lines(m: Seq<char>)
    requires
        is_plain_line(m),
        !(is_ambiguous(annotated(m, selector_annotation(m))) && ends_with(
            hint_selector(selector_annotation(m)),
            "[selector:"@,
        )),
    ensures
        normalized(normalized(m)) == normalized(m),
{
    lemma_literals();
    lemma_plain_line(m);
    let a = selector_annotation(m);
    if a.len() == 0 {
        assert(annotated(m, a) == m);
        if is_ambiguous(m) {
            assert(m.len() > 0) by {
                reveal_strlit("resolved to");
                lemma_find_from_bounds(m, "resolved to"@, 0);
            }
            assert(!starts_with(a, SELECTOR_OPEN@));
            assert(hint_selector(a) == HINT_PLACEHOLDER@);
            assert(normalized(m) =~= m + hint_around(HINT_PLACEHOLDER@));
            lemma_hinted_line(m, HINT_PLACEHOLDER@);
            lemma_no_annotation_after_hint(m);
        }
    } else {
        lemma_annotated_line(m);
        let c = annotated(m, a);
        lemma_plain_line(c);
        assert(annotated(c, a) == c);
        if is_ambiguous(c) {
            let x = hint_selector(a);
            lemma_annotation_facts(m);
            assert(!x.contains('\n')) by {
                let i = rfind(m, SELECTOR_OPEN@)->0;
                assert forall|k: int| 0 <= k < x.len() implies x[k] != '\n' by {
                    assert(x[k] == m[i + 11 + k]);
                }
            }
            assert(normalized(m) =~= c + hint_around(x));
            lemma_hinted_line(c, x);
            lemma_annotation_after_hint(c);
        }
    }
}

} // verus!
