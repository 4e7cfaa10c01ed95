use inline_tweak::{FloatText, Tweakable};

#[test]
fn hex_with_separator_parses() {
    assert_eq!(<u8 as Tweakable>::parse("0x1_0"), Some(16));
    assert_eq!(<i64 as Tweakable>::parse("0x1_0"), Some(16));
}

#[test]
fn decimal_with_separator_parses() {
    assert_eq!(<i32 as Tweakable>::parse("1_000"), Some(1000));
    assert_eq!(<u64 as Tweakable>::parse("1_000_000"), Some(1_000_000));
}

#[test]
fn binary_and_octal_parse() {
    assert_eq!(<u32 as Tweakable>::parse("0b101"), Some(5));
    assert_eq!(<u16 as Tweakable>::parse("0o17"), Some(15));
}

#[test]
fn out_of_range_for_eight_bits_fails() {
    assert_eq!(<u8 as Tweakable>::parse("256"), None);
    assert_eq!(<u8 as Tweakable>::parse("-1"), None);
    assert_eq!(<i8 as Tweakable>::parse("128"), None);
    assert_eq!(<u8 as Tweakable>::parse("255"), Some(255));
}

#[test]
fn signed_limits_parse() {
    assert_eq!(<i8 as Tweakable>::parse("-128"), Some(-128));
    assert_eq!(<i8 as Tweakable>::parse("+12"), Some(12));
    assert_eq!(
        <i128 as Tweakable>::parse("-170141183460469231731687303715884105728"),
        Some(i128::MIN)
    );
    assert_eq!(
        <i128 as Tweakable>::parse("170141183460469231731687303715884105727"),
        Some(i128::MAX)
    );
    assert_eq!(<i128 as Tweakable>::parse("170141183460469231731687303715884105728"), None);
    assert_eq!(<u128 as Tweakable>::parse("170141183460469231731687303715884105728"), None);
    assert_eq!(<isize as Tweakable>::parse("-0x10"), None);
    assert_eq!(<usize as Tweakable>::parse("0x-10"), None);
    assert_eq!(<isize as Tweakable>::parse("0x-10"), Some(-16));
}

#[test]
fn malformed_integers_fail() {
    assert_eq!(<i32 as Tweakable>::parse(""), None);
    assert_eq!(<i32 as Tweakable>::parse("-"), None);
    assert_eq!(<i32 as Tweakable>::parse("0x"), None);
    assert_eq!(<i32 as Tweakable>::parse("12a"), None);
    assert_eq!(<i32 as Tweakable>::parse("0b102"), None);
    assert_eq!(<i32 as Tweakable>::parse("0xfF"), Some(255));
    assert_eq!(<i32 as Tweakable>::parse("99999999999999999999999999999999999999999"), None);
}

#[test]
fn bool_parses_exact_words() {
    assert_eq!(<bool as Tweakable>::parse("true"), Some(true));
    assert_eq!(<bool as Tweakable>::parse("false"), Some(false));
    assert_eq!(<bool as Tweakable>::parse("True"), None);
    assert_eq!(<bool as Tweakable>::parse("1"), None);
}

#[test]
fn char_strips_quotes() {
    assert_eq!(<char as Tweakable>::parse("'a'"), Some('a'));
    assert_eq!(<char as Tweakable>::parse("'é'"), Some('é'));
    assert_eq!(<char as Tweakable>::parse("''"), None);
    assert_eq!(<char as Tweakable>::parse(""), None);
}

#[test]
fn string_strips_quotes_and_raw_fences() {
    assert_eq!(
        <String as Tweakable>::parse("\"Lorem ipsum\""),
        Some(String::from("Lorem ipsum"))
    );
    assert_eq!(
        <String as Tweakable>::parse("r#\"a \"quoted\" word\"#"),
        Some(String::from("a \"quoted\" word"))
    );
    assert_eq!(
        <String as Tweakable>::parse("\"габарит не выбран\""),
        Some(String::from("габарит не выбран"))
    );
    assert_eq!(<String as Tweakable>::parse("plain"), Some(String::from("plain")));
}

#[test]
fn unit_always_parses() {
    assert_eq!(<() as Tweakable>::parse("anything at all"), Some(()));
}

#[test]
fn float_text_drops_separators() {
    let f = <FloatText as Tweakable>::parse("1_000.5").unwrap();
    assert_eq!(f.text, "1000.5");
    let v: f64 = f.text.parse().unwrap();
    assert_eq!(v, 1000.5);
}
