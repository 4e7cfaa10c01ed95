//! Live-editable literals: a running program reads the current value of a
//! literal back from its own source file whenever that file changes.
//!
//! The library holds the caches and every decision about them. Whoever owns
//! the clock and the file system drives a lookup step by step: it starts a
//! lookup with the time, and answers each `Step` with the event it asks for,
//! until the lookup is `Done`.
pub mod cache;
pub mod derive;
pub mod hasher;
pub mod registry;
pub mod scan;
pub mod tweakable;
pub mod watch;

pub use cache::{inline_tweak, Event, ParsedFile, Slot, Step, TweakKey, WINDOW_MS};
pub use derive::{inline_tweak_derive, DeriveKey, DerivedFile, FunctionTable};
pub use registry::Registry;
pub use scan::extract;
pub use tweakable::{FloatText, Tweakable};
pub use watch::{watch_modified, WATCH_THRESHOLD_NS};
