use inline_tweak::{watch_modified, Registry};

const SECOND: u128 = 1_000_000_000;

#[test]
fn unmodified_file_keeps_waiting() {
    let mut w: Registry<String, u128> = Registry::new();
    assert!(!watch_modified(&mut w, "src/main.rs", Some(10 * SECOND)));
    assert!(!watch_modified(&mut w, "src/main.rs", Some(10 * SECOND)));
    assert!(!watch_modified(&mut w, "src/main.rs", Some(10 * SECOND)));
}

#[test]
fn touched_file_unblocks() {
    let mut w: Registry<String, u128> = Registry::new();
    assert!(!watch_modified(&mut w, "src/main.rs", Some(10 * SECOND)));
    assert!(watch_modified(&mut w, "src/main.rs", Some(11 * SECOND)));
    assert!(!watch_modified(&mut w, "src/main.rs", Some(11 * SECOND)));
}

#[test]
fn small_advance_is_not_a_change() {
    let mut w: Registry<String, u128> = Registry::new();
    assert!(!watch_modified(&mut w, "a.rs", Some(10 * SECOND)));
    assert!(!watch_modified(&mut w, "a.rs", Some(10 * SECOND + SECOND / 4)));
}

#[test]
fn unreadable_or_older_file_counts_as_changed() {
    let mut w: Registry<String, u128> = Registry::new();
    assert!(watch_modified(&mut w, "gone.rs", None));
    assert!(!watch_modified(&mut w, "b.rs", Some(10 * SECOND)));
    assert!(watch_modified(&mut w, "b.rs", Some(5 * SECOND)));
    assert!(watch_modified(&mut w, "b.rs", None));
}
