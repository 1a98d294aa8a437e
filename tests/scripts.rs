use plwr::decode::{document_response, eval_response, screenshot_response};
use plwr::scripts::{blur_script, eval_script, focus_script, on_element_script, scroll_into_view_script, style_script, ALL_STYLES_JS};

#[test]
fn focus_script_escapes_selector() {
    assert_eq!(
        focus_script("a[title='x\\y']"),
        "() => { const el = document.querySelector('a[title=\\'x\\\\y\\']'); if (!el) throw new Error('No element found'); el.focus(); }"
    );
}

#[test]
fn blur_and_scroll_scripts() {
    assert!(blur_script("#a").ends_with("'); el.blur(); }"));
    assert!(scroll_into_view_script("#a").ends_with("el.scrollIntoView({behavior: 'instant', block: 'center'}); }"));
}

#[test]
fn element_script_wraps_function() {
    assert_eq!(
        on_element_script("p", "el => el.id"),
        "() => { const el = document.querySelector('p'); if (!el) throw new Error('No element found for selector: p'); const fn_ = el => el.id; return JSON.stringify(fn_(el)); }"
    );
}

#[test]
fn eval_wrapper_encodes_objects() {
    assert_eq!(
        eval_script("document.title"),
        "() => { const __r = (document.title); return typeof __r === 'object' ? JSON.stringify(__r) : __r; }"
    );
}

#[test]
fn style_scripts() {
    assert_eq!(style_script(&vec![]), ALL_STYLES_JS);
    let s = style_script(&vec!["color".to_string(), "font-family's".to_string()]);
    assert!(s.contains("const props = ['color', 'font-family\\'s'];"));
}

#[test]
fn eval_collapses_double_encoding() {
    let r = eval_response("\"{\\\"a\\\":1}\"".to_string());
    let v = r.value.unwrap();
    assert_eq!(v["a"], serde_json::Value::from(1));
    let r = eval_response("\"[1,2]\"".to_string());
    assert!(r.value.unwrap().is_array());
}

#[test]
fn eval_keeps_scalars() {
    assert_eq!(eval_response("\"hello\"".to_string()).value, Some(serde_json::Value::String("hello".to_string())));
    assert_eq!(eval_response("\"42\"".to_string()).value, Some(serde_json::Value::String("42".to_string())));
    assert_eq!(eval_response("42".to_string()).value, Some(serde_json::Value::from(42)));
    assert_eq!(eval_response("true".to_string()).value, Some(serde_json::Value::Bool(true)));
    assert_eq!(eval_response("not json".to_string()).value, Some(serde_json::Value::String("not json".to_string())));
}

#[test]
fn documents_are_unwrapped_once() {
    let r = document_response("\"{\\\"tag\\\":\\\"html\\\"}\"".to_string()).ok().unwrap();
    assert_eq!(r.value.unwrap()["tag"], serde_json::Value::String("html".to_string()));
    let r = document_response("[]".to_string()).ok().unwrap();
    assert!(r.value.unwrap().is_array());
    assert!(document_response("{oops".to_string()).is_err());
}

#[test]
fn screenshot_report() {
    let r = screenshot_response(2048, "shot.png");
    assert_eq!(r.value, Some(serde_json::Value::String("Saved 2048 bytes to shot.png".to_string())));
}
