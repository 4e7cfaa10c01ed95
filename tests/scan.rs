use inline_tweak::extract;
use inline_tweak::scan::{scan_fragments, scan_positions};

#[test]
fn extract_stops_at_top_level_close() {
    assert_eq!(extract("a, (b, c), d); rest"), Some(String::from("a, (b, c), d")));
}

#[test]
fn extract_stops_at_top_level_semicolon() {
    assert_eq!(extract("5.0; rng.gen_range(0.0, 1.0))"), Some(String::from("5.0")));
    assert_eq!(extract("f(1; 2))"), Some(String::from("f(1; 2)")));
}

#[test]
fn extract_fails_when_unterminated() {
    assert_eq!(extract("(a, b"), None);
    assert_eq!(extract(""), None);
}

#[test]
fn fragments_in_document_order() {
    let text = "let a = tweak!(1);\nlet b = m::tweak!(\"x\");\nlet c = tweak!(2.5; f(3));\n";
    assert_eq!(
        scan_fragments(text),
        Some(vec![String::from("1"), String::from("\"x\""), String::from("2.5")])
    );
}

#[test]
fn fragments_fail_on_unclosed_call() {
    assert_eq!(scan_fragments("tweak!(1); tweak!(2"), None);
    assert_eq!(scan_fragments("no calls here"), Some(vec![]));
}

#[test]
fn positions_use_start_of_call_path() {
    let text = "fn f() {\n    let v = inline_tweak::tweak!(3);\n    g(tweak!(4));\n}\n";
    assert_eq!(scan_positions(text), vec![(2, 13), (3, 7)]);
}

#[test]
fn positions_count_characters_not_bytes() {
    let text = "let s = (\"é\", tweak!(1));";
    assert_eq!(scan_positions(text), vec![(1, 15)]);
}
