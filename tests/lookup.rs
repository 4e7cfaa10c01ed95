use inline_tweak::{
    inline_tweak, inline_tweak_derive, DerivedFile, Event, FloatText, ParsedFile, Registry, Slot,
    Step, TweakKey,
};

type Values<T> = Registry<TweakKey, Slot<T>>;
type Files = Registry<String, ParsedFile>;

const FILE: &str = "src/main.rs";

fn float(s: &str) -> FloatText {
    FloatText { text: String::from(s) }
}

/// A file whose line 10 holds `tweak!(<arg>)` at column 20.
fn source_with(arg: &str) -> String {
    let mut s = String::new();
    for _ in 0..9 {
        s.push_str("// filler\n");
    }
    s.push_str(&" ".repeat(19));
    s.push_str("tweak!(");
    s.push_str(arg);
    s.push_str(")\n");
    s
}

/// Runs a whole lookup, answering each step from the given file state.
fn lookup<T: inline_tweak::Tweakable + Clone>(
    values: &mut Values<T>,
    files: &mut Files,
    line: u32,
    column: u32,
    seed: Option<T>,
    now: u64,
    modified: Option<u128>,
    content: Option<&str>,
) -> (Option<T>, usize) {
    let mut event = Event::Start { seed, now };
    let mut asked = 0;
    loop {
        match inline_tweak(values, files, FILE, line, column, event) {
            Step::Done(v) => return (v, asked),
            Step::Stat => {
                asked += 1;
                event = Event::Modified { modified };
            }
            Step::Read(m) => {
                asked += 1;
                event = Event::Read { modified: m, content: content.map(String::from) };
            }
        }
    }
}

#[test]
fn first_lookup_returns_seed() {
    let mut values: Values<i32> = Registry::new();
    let mut files: Files = Registry::new();
    let r = inline_tweak(&mut values, &mut files, FILE, 3, 5, Event::Start { seed: Some(7), now: 1000 });
    assert!(matches!(r, Step::Done(Some(7))));
}

#[test]
fn first_lookup_without_seed_returns_none() {
    let mut values: Values<i32> = Registry::new();
    let mut files: Files = Registry::new();
    let r = inline_tweak(&mut values, &mut files, FILE, 3, 5, Event::Start { seed: None, now: 1000 });
    assert!(matches!(r, Step::Done(None)));
}

#[test]
fn lookups_within_window_do_not_stat() {
    let mut values: Values<i32> = Registry::new();
    let mut files: Files = Registry::new();
    let (a, asked_a) = lookup(&mut values, &mut files, 3, 5, Some(7), 1000, Some(1), None);
    let (b, asked_b) = lookup(&mut values, &mut files, 3, 5, Some(9), 1499, Some(2), None);
    assert_eq!((a, asked_a), (Some(7), 0));
    assert_eq!((b, asked_b), (Some(7), 0));
}

#[test]
fn concrete_float_scenario() {
    let mut values: Values<FloatText> = Registry::new();
    let mut files: Files = Registry::new();
    let first = source_with("3.14");
    let (a, _) = lookup(&mut values, &mut files, 10, 20, Some(float("3.14")), 1000, Some(50), Some(&first));
    assert_eq!(a.unwrap().text, "3.14");
    let edited = source_with("6.28");
    let (b, asked) = lookup(&mut values, &mut files, 10, 20, None, 1600, Some(60), Some(&edited));
    assert_eq!(asked, 2);
    let text = b.unwrap().text;
    assert_eq!(text, "6.28");
    let v: f64 = text.parse().unwrap();
    assert_eq!(v, 6.28);
}

#[test]
fn round_trip_after_edit() {
    let mut values: Values<i64> = Registry::new();
    let mut files: Files = Registry::new();
    let (a, _) = lookup(&mut values, &mut files, 10, 20, Some(1), 0, Some(5), Some(&source_with("1")));
    assert_eq!(a, Some(1));
    let (b, _) = lookup(&mut values, &mut files, 10, 20, None, 600, Some(5), Some(&source_with("0x1_0")));
    assert_eq!(b, Some(16));
    // same modification time: the content is presumed unchanged
    let (c, asked) = lookup(&mut values, &mut files, 10, 20, None, 1200, Some(5), Some(&source_with("99")));
    assert_eq!((c, asked), (Some(16), 1));
    let (d, _) = lookup(&mut values, &mut files, 10, 20, None, 1800, Some(6), Some(&source_with("1_000")));
    assert_eq!(d, Some(1000));
}

#[test]
fn override_form_reads_the_override() {
    let mut values: Values<u32> = Registry::new();
    let mut files: Files = Registry::new();
    let (a, _) = lookup(&mut values, &mut files, 10, 20, None, 0, Some(5), Some(&source_with("counter()")));
    assert_eq!(a, None);
    let (b, _) = lookup(&mut values, &mut files, 10, 20, None, 600, Some(6), Some(&source_with("100; counter()")));
    assert_eq!(b, Some(100));
}

#[test]
fn deleted_file_keeps_last_value() {
    let mut values: Values<i32> = Registry::new();
    let mut files: Files = Registry::new();
    let (a, _) = lookup(&mut values, &mut files, 10, 20, Some(1), 0, Some(5), None);
    assert_eq!(a, Some(1));
    let (b, _) = lookup(&mut values, &mut files, 10, 20, None, 600, Some(5), Some(&source_with("42")));
    assert_eq!(b, Some(42));
    let (c, asked) = lookup(&mut values, &mut files, 10, 20, None, 1200, None, None);
    assert_eq!((c, asked), (Some(42), 1));
    let (d, asked) = lookup(&mut values, &mut files, 10, 20, None, 1800, Some(9), None);
    assert_eq!((d, asked), (Some(42), 2));
}

#[test]
fn unparsable_or_unclosed_text_keeps_last_value() {
    let mut values: Values<i32> = Registry::new();
    let mut files: Files = Registry::new();
    let (a, _) = lookup(&mut values, &mut files, 10, 20, Some(3), 0, Some(5), Some(&source_with("4")));
    assert_eq!(a, Some(3));
    let (b, _) = lookup(&mut values, &mut files, 10, 20, None, 600, Some(5), Some(&source_with("4")));
    assert_eq!(b, Some(4));
    let (c, _) = lookup(&mut values, &mut files, 10, 20, None, 1200, Some(6), Some(&source_with("4x")));
    assert_eq!(c, Some(4));
    let mut broken = source_with("5");
    broken.push_str("tweak!(6");
    let (d, _) = lookup(&mut values, &mut files, 10, 20, None, 1800, Some(7), Some(&broken));
    assert_eq!(d, Some(4));
}

#[test]
fn unknown_position_keeps_seed() {
    let mut values: Values<i32> = Registry::new();
    let mut files: Files = Registry::new();
    let (a, _) = lookup(&mut values, &mut files, 2, 2, Some(8), 0, Some(5), Some(&source_with("4")));
    assert_eq!(a, Some(8));
    let (b, _) = lookup(&mut values, &mut files, 2, 2, None, 600, Some(6), Some(&source_with("4")));
    assert_eq!(b, Some(8));
}

#[test]
fn derive_lookup_reads_function_table() {
    let mut values: Registry<inline_tweak::DeriveKey, Slot<i32>> = Registry::new();
    let mut files: Registry<String, DerivedFile> = Registry::new();
    let table = vec![
        (String::from("helper"), vec![String::from("1")]),
        (String::from("main"), vec![String::from("10"), String::from("-20")]),
    ];
    let r = inline_tweak_derive(&mut values, &mut files, FILE, "main", 1, Event::Start { seed: None, now: 0 });
    assert!(matches!(r, Step::Done(None)));
    let r = inline_tweak_derive(&mut values, &mut files, FILE, "main", 1, Event::Start { seed: None, now: 600 });
    assert!(matches!(r, Step::Stat));
    let r = inline_tweak_derive(&mut values, &mut files, FILE, "main", 1, Event::Modified { modified: Some(3) });
    assert!(matches!(r, Step::Read(3)));
    let r = inline_tweak_derive(
        &mut values,
        &mut files,
        FILE,
        "main",
        1,
        Event::Read { modified: 3, content: Some(table) },
    );
    assert!(matches!(r, Step::Done(Some(-20))));
    let r = inline_tweak_derive(&mut values, &mut files, FILE, "main", 1, Event::Start { seed: None, now: 700 });
    assert!(matches!(r, Step::Done(Some(-20))));
}

#[test]
fn window_ends_after_five_hundred_ms() {
    let mut values: Values<i32> = Registry::new();
    let mut files: Files = Registry::new();
    let r = inline_tweak(&mut values, &mut files, FILE, 3, 5, Event::Start { seed: Some(7), now: 1000 });
    assert!(matches!(r, Step::Done(Some(7))));
    let r = inline_tweak(&mut values, &mut files, FILE, 3, 5, Event::Start { seed: None, now: 1499 });
    assert!(matches!(r, Step::Done(Some(7))));
    let r = inline_tweak(&mut values, &mut files, FILE, 3, 5, Event::Start { seed: None, now: 1500 });
    assert!(matches!(r, Step::Stat));
    // the file entry was checked just now: a second site in the same file is
    // answered from the cache without asking for the file again
    let r = inline_tweak(&mut values, &mut files, FILE, 4, 5, Event::Start { seed: Some(1), now: 1500 });
    assert!(matches!(r, Step::Done(Some(1))));
}
