//! The live-value cache for call sites keyed by file, line and column, and the
//! per-file cache of scanned argument texts that it reads from.
//!
//! A lookup is a short exchange with whoever owns the file system and the
//! clock: it starts with the time, may ask for the file's modification time,
//! then may ask for the file's content, and ends with a value.
use crate::registry::{Key, Registry};
use crate::scan::{fragments, positions, scan_fragments, scan_positions, views};
use crate::tweakable::Tweakable;
use vstd::prelude::*;

verus! {

/// How long, in milliseconds, a value or a file is trusted without looking at
/// the file system again.
pub const WINDOW_MS: u64 = 500;

/// A check made at `last` still holds at `now`.
pub open spec fn fresh(last: u64, now: u64) -> bool {
    (now as int) < (last as int) + (WINDOW_MS as int)
}

/// Whether a check made at `last` still holds at `now`.
pub fn is_fresh(last: u64, now: u64) -> (r: bool)
    ensures
        r == fresh(last, now),
{
    now < last || now - last < WINDOW_MS
}

/// Identity of one call site.
#[derive(Debug)]
pub struct TweakKey {
    pub filename: String,
    pub line: u32,
    pub column: u32,
}

impl View for TweakKey {
    type V = (Seq<char>, u32, u32);

    open spec fn view(&self) -> (Seq<char>, u32, u32) {
        (self.filename@, self.line, self.column)
    }
}

impl Key for TweakKey {
    fn same(&self, other: &TweakKey) -> (r: bool) {
        self.line == other.line && self.column == other.column && self.filename == other.filename
    }
}

/// What the cache holds for one call site.
#[derive(Debug)]
pub struct Slot<T> {
    /// The last value read, or the seed.
    pub value: Option<T>,
    /// When the file was last consulted for this site, in milliseconds.
    pub last_checked: u64,
    /// The version of the file that `value` was read from; 0 for none.
    pub file_version: u64,
}

/// What the cache holds for one file.
#[derive(Debug)]
pub struct ParsedFile {
    /// When the file system was last consulted, in milliseconds.
    pub last_checked: u64,
    /// The modification time of the content scanned last.
    pub modified: u128,
    /// The argument text of each call, in document order.
    pub fragments: Vec<String>,
    /// Bumped by each scan of new content; 0 until the first.
    pub version: u64,
    /// The (line, column) of each call, taken from the first content scanned
    /// and kept from then on.
    pub positions: Option<Vec<(usize, usize)>>,
}

/// One thing that happened since the last step of a lookup.
#[derive(Debug)]
pub enum Event<T, C> {
    /// The lookup begins at `now`; `seed` is the value of a site met for the
    /// first time.
    Start { seed: Option<T>, now: u64 },
    /// The file's modification time, or `None` when it could not be read.
    Modified { modified: Option<u128> },
    /// The file's content, or `None` when it could not be read, together with
    /// the modification time it was asked for with.
    Read { modified: u128, content: Option<C> },
}

/// What a lookup needs next.
#[derive(Debug)]
pub enum Step<T> {
    /// The lookup is over, with this value.
    Done(Option<T>),
    /// The file's modification time is needed.
    Stat,
    /// The file's content is needed; it was modified at this time.
    Read(u128),
}

/// `r` is a copy of `v`.
pub open spec fn copy_of<T: Clone>(v: Option<T>, r: Option<T>) -> bool {
    match v {
        Some(a) => r is Some && cloned(a, r->0),
        None => r is None,
    }
}

/// The first index from `i` on whose position is (line, column).
pub open spec fn ordinal_from(p: Seq<(usize, usize)>, line: int, column: int, i: int) -> Option<
    int,
>
    decreases p.len() - i,
{
    if i < 0 || i >= p.len() {
        None
    } else if p[i].0 as int == line && p[i].1 as int == column {
        Some(i)
    } else {
        ordinal_from(p, line, column, i + 1)
    }
}

/// The positions as pairs of integers.
pub open spec fn position_pairs(p: Seq<(usize, usize)>) -> Seq<(int, int)> {
    p.map_values(|q: (usize, usize)| (q.0 as int, q.1 as int))
}

/// The argument text of the call at (line, column) in the file as cached.
pub open spec fn site_text(f: ParsedFile, line: u32, column: u32) -> Option<Seq<char>> {
    match f.positions {
        Some(p) => match ordinal_from(p@, line as int, column as int, 0) {
            Some(o) => if o < f.fragments@.len() {
                Some(f.fragments@[o]@)
            } else {
                None
            },
            None => None,
        },
        None => None,
    }
}

/// `new` is `old` brought up to a file of version `version` in which the
/// site's argument text is `text`: re-read when the slot is behind and the
/// text parses, unchanged otherwise.
pub open spec fn refreshed<T: Tweakable>(
    old: Slot<T>,
    text: Option<Seq<char>>,
    version: u64,
    new: Slot<T>,
) -> bool {
    if old.file_version == version || text is None {
        new == old
    } else if new.file_version == version {
        &&& new.value is Some
        &&& T::parses_to(text->0, new.value)
        &&& new.last_checked == old.last_checked
    } else {
        new == old && T::parses_to(text->0, None)
    }
}

/// `f` with its check time set to `now`.
pub open spec fn checked_at(f: ParsedFile, now: u64) -> ParsedFile {
    ParsedFile {
        last_checked: now,
        modified: f.modified,
        fragments: f.fragments,
        version: f.version,
        positions: f.positions,
    }
}

/// A file entry made at `now`, before any scan.
pub open spec fn is_blank(f: ParsedFile, now: u64) -> bool {
    &&& f.last_checked == now
    &&& f.modified == 0
    &&& f.fragments@.len() == 0
    &&& f.version == 0
    &&& f.positions is None
}

/// The value cache after the slot of `key` was brought up to a file of version
/// `version` in which the site's argument text is `text`, and the lookup ended
/// with the slot's value.
pub open spec fn settles<K, T: Tweakable + Clone>(
    slot: Slot<T>,
    text: Option<Seq<char>>,
    version: u64,
    key: K,
    ov: Map<K, Slot<T>>,
    nv: Map<K, Slot<T>>,
    step: Step<T>,
) -> bool {
    &&& nv.contains_key(key)
    &&& nv == ov.insert(key, nv[key])
    &&& refreshed(slot, text, version, nv[key])
    &&& step is Done
    &&& copy_of(nv[key].value, step->Done_0)
}

/// What the start of a lookup of `key` at `now` does.
pub open spec fn start_outcome<T: Tweakable + Clone>(
    ov: Map<(Seq<char>, u32, u32), Slot<T>>,
    of: Map<Seq<char>, ParsedFile>,
    key: (Seq<char>, u32, u32),
    seed: Option<T>,
    now: u64,
    nv: Map<(Seq<char>, u32, u32), Slot<T>>,
    nf: Map<Seq<char>, ParsedFile>,
    step: Step<T>,
) -> bool {
    if !ov.contains_key(key) {
        &&& nv == ov.insert(key, Slot { value: seed, last_checked: now, file_version: 0 })
        &&& nf == of
        &&& step is Done
        &&& copy_of(seed, step->Done_0)
    } else if fresh(ov[key].last_checked, now) {
        &&& nv == ov
        &&& nf == of
        &&& step is Done
        &&& copy_of(ov[key].value, step->Done_0)
    } else {
        let s1 = Slot { value: ov[key].value, last_checked: now, file_version: ov[key].file_version };
        if of.contains_key(key.0) && of[key.0].version != 0 && fresh(of[key.0].last_checked, now) {
            nf == of && settles(s1, site_text(of[key.0], key.1, key.2), of[key.0].version, key, ov, nv, step)
        } else {
            &&& nv == ov.insert(key, s1)
            &&& step is Stat
            &&& nf.contains_key(key.0)
            &&& nf == of.insert(key.0, nf[key.0])
            &&& if of.contains_key(key.0) {
                nf[key.0] == checked_at(of[key.0], now)
            } else {
                is_blank(nf[key.0], now)
            }
        }
    }
}

/// What learning the file's modification time does to a lookup of `key`.
pub open spec fn modified_outcome<T: Tweakable + Clone>(
    ov: Map<(Seq<char>, u32, u32), Slot<T>>,
    of: Map<Seq<char>, ParsedFile>,
    key: (Seq<char>, u32, u32),
    modified: Option<u128>,
    nv: Map<(Seq<char>, u32, u32), Slot<T>>,
    nf: Map<Seq<char>, ParsedFile>,
    step: Step<T>,
) -> bool {
    if !ov.contains_key(key) {
        nv == ov && nf == of && step == Step::<T>::Done(None)
    } else if !of.contains_key(key.0) || modified is None {
        nv == ov && nf == of && step is Done && copy_of(ov[key].value, step->Done_0)
    } else if modified->0 == of[key.0].modified && of[key.0].version != 0 {
        nf == of && settles(ov[key], site_text(of[key.0], key.1, key.2), of[key.0].version, key, ov, nv, step)
    } else {
        nv == ov && nf == of && step == Step::<T>::Read(modified->0)
    }
}

/// What the file's content does to a lookup of `key`.
pub open spec fn read_outcome<T: Tweakable + Clone>(
    ov: Map<(Seq<char>, u32, u32), Slot<T>>,
    of: Map<Seq<char>, ParsedFile>,
    key: (Seq<char>, u32, u32),
    modified: u128,
    content: Option<Seq<char>>,
    nv: Map<(Seq<char>, u32, u32), Slot<T>>,
    nf: Map<Seq<char>, ParsedFile>,
    step: Step<T>,
) -> bool {
    if !ov.contains_key(key) {
        nv == ov && nf == of && step == Step::<T>::Done(None)
    } else if !of.contains_key(key.0) || content is None {
        nv == ov && nf == of && step is Done && copy_of(ov[key].value, step->Done_0)
    } else {
        let f = of[key.0];
        let text = content->0;
        let g = nf[key.0];
        &&& nf.contains_key(key.0)
        &&& nf == of.insert(key.0, g)
        &&& g.last_checked == f.last_checked
        &&& match f.positions {
            Some(p) => g.positions == Some(p),
            None => g.positions is Some && position_pairs(g.positions->0@) == positions(text),
        }
        &&& if fragments(text) is Some && f.version < u64::MAX {
            &&& views(g.fragments@) == fragments(text)->0
            &&& g.modified == modified
            &&& g.version == f.version + 1
            &&& settles(ov[key], site_text(g, key.1, key.2), g.version, key, ov, nv, step)
        } else {
            &&& g.fragments == f.fragments
            &&& g.modified == f.modified
            &&& g.version == f.version
            &&& nv == ov
            &&& step is Done
            &&& copy_of(ov[key].value, step->Done_0)
        }
    }
}

pub(crate) fn copy_value<T: Clone>(v: &Option<T>) -> (r: Option<T>)
    ensures
        copy_of(*v, r),
{
    match v {
        Some(x) => Some(x.clone()),
        None => None,
    }
}

fn find_ordinal(p: &Vec<(usize, usize)>, line: u32, column: u32) -> (r: Option<usize>)
    ensures
        match r {
            Some(o) => ordinal_from(p@, line as int, column as int, 0) == Some(o as int),
            None => ordinal_from(p@, line as int, column as int, 0) is None,
        },
{
    let mut i: usize = 0;
    while i < p.len()
        invariant
            i <= p@.len(),
            ordinal_from(p@, line as int, column as int, i as int) == ordinal_from(
                p@,
                line as int,
                column as int,
                0,
            ),
        decreases p@.len() - i,
    {
        if p[i].0 == line as usize && p[i].1 == column as usize {
            return Some(i);
        }
        i = i + 1;
    }
    None
}

/// The view of a text that may be missing.
pub open spec fn text_view(t: Option<&String>) -> Option<Seq<char>> {
    match t {
        Some(s) => Some(s@),
        None => None,
    }
}

/// Brings a slot that was read from an older version up to version
/// `version`, in which the site's argument text is `text`: parses the text,
/// and keeps the slot as it is when there is no text or it does not parse.
pub fn refresh_slot_text<T: Tweakable>(slot: Slot<T>, text: Option<&String>, version: u64) -> (r:
    Slot<T>)
    requires
        slot.file_version != version,
    ensures
        refreshed(slot, text_view(text), version, r),
{
    match text {
        None => slot,
        Some(t) => match T::parse(t.as_str()) {
            Some(v) => Slot { value: Some(v), last_checked: slot.last_checked, file_version: version },
            None => slot,
        },
    }
}

/// The argument text of the call at (line, column), as cached.
pub fn find_fragment<'a>(file: &'a ParsedFile, line: u32, column: u32) -> (r: Option<&'a String>)
    ensures
        text_view(r) == site_text(*file, line, column),
{
    match &file.positions {
        None => None,
        Some(p) => match find_ordinal(p, line, column) {
            None => None,
            Some(o) => {
                if o < file.fragments.len() {
                    Some(&file.fragments[o])
                } else {
                    None
                }
            },
        },
    }
}

/// Brings a slot up to the file as cached: when the slot was read from an
/// older version, re-reads the site's argument text; keeps the slot as it is
/// when the site or its text cannot be found or does not parse.
pub fn update_tweak<T: Tweakable>(slot: Slot<T>, file: &ParsedFile, line: u32, column: u32) -> (r:
    Slot<T>)
    ensures
        refreshed(slot, site_text(*file, line, column), file.version, r),
{
    if slot.file_version == file.version {
        return slot;
    }
    refresh_slot_text(slot, find_fragment(file, line, column), file.version)
}

pub(crate) fn placeholder<T>() -> (r: Slot<T>) {
    Slot { value: None, last_checked: 0, file_version: 0 }
}

fn blank_file(now: u64) -> (r: ParsedFile)
    ensures
        is_blank(r, now),
{
    ParsedFile {
        last_checked: now,
        modified: 0,
        fragments: Vec::new(),
        version: 0,
        positions: None,
    }
}

fn start<T: Tweakable + Clone>(
    values: &mut Registry<TweakKey, Slot<T>>,
    files: &mut Registry<String, ParsedFile>,
    key: TweakKey,
    seed: Option<T>,
    now: u64,
) -> (r: Step<T>)
    requires
        old(values).wf(),
        old(files).wf(),
    ensures
        final(values).wf(),
        final(files).wf(),
        start_outcome(old(values)@, old(files)@, key@, seed, now, final(values)@, final(files)@, r),
{
    let line = key.line;
    let column = key.column;
    let ghost ov = values@;
    let ghost of = files@;
    match values.find(&key) {
        None => {
            let r = copy_value(&seed);
            values.push(key, Slot { value: seed, last_checked: now, file_version: 0 });
            Step::Done(r)
        },
        Some(i) => {
            let s = values.get(i);
            if is_fresh(s.last_checked, now) {
                return Step::Done(copy_value(&s.value));
            }
            let old_slot = values.replace(i, placeholder());
            let slot = Slot {
                value: old_slot.value,
                last_checked: now,
                file_version: old_slot.file_version,
            };
            match files.find(&key.filename) {
                Some(j) => {
                    let f = files.get(j);
                    if f.version != 0 && is_fresh(f.last_checked, now) {
                        let s2 = update_tweak(slot, f, line, column);
                        let r = copy_value(&s2.value);
                        values.replace(i, s2);
                        assert(values@ =~= ov.insert(key@, s2));
                        return Step::Done(r);
                    }
                    let f = files.replace(j, blank_file(0));
                    files.replace(
                        j,
                        ParsedFile {
                            last_checked: now,
                            modified: f.modified,
                            fragments: f.fragments,
                            version: f.version,
                            positions: f.positions,
                        },
                    );
                    assert(files@ =~= of.insert(key@.0, files@[key@.0]));
                },
                None => {
                    files.push(key.filename, blank_file(now));
                },
            }
            values.replace(i, slot);
            assert(values@ =~= ov.insert(key@, slot));
            Step::Stat
        },
    }
}

fn on_modified<T: Tweakable + Clone>(
    values: &mut Registry<TweakKey, Slot<T>>,
    files: &mut Registry<String, ParsedFile>,
    key: TweakKey,
    modified: Option<u128>,
) -> (r: Step<T>)
    requires
        old(values).wf(),
        old(files).wf(),
    ensures
        final(values).wf(),
        final(files).wf(),
        modified_outcome(old(values)@, old(files)@, key@, modified, final(values)@, final(files)@, r),
{
    let i = match values.find(&key) {
        None => {
            return Step::Done(None);
        },
        Some(i) => i,
    };
    let j = match files.find(&key.filename) {
        None => {
            return Step::Done(copy_value(&values.get(i).value));
        },
        Some(j) => j,
    };
    match modified {
        None => Step::Done(copy_value(&values.get(i).value)),
        Some(m) => {
            let f = files.get(j);
            if m == f.modified && f.version != 0 {
                let slot = values.replace(i, placeholder());
                let s2 = update_tweak(slot, f, key.line, key.column);
                let r = copy_value(&s2.value);
                values.replace(i, s2);
                assert(values@ =~= old(values)@.insert(key@, s2));
                Step::Done(r)
            } else {
                Step::Read(m)
            }
        },
    }
}

fn on_read<T: Tweakable + Clone>(
    values: &mut Registry<TweakKey, Slot<T>>,
    files: &mut Registry<String, ParsedFile>,
    key: TweakKey,
    modified: u128,
    content: Option<String>,
) -> (r: Step<T>)
    requires
        old(values).wf(),
        old(files).wf(),
    ensures
        final(values).wf(),
        final(files).wf(),
        read_outcome(
            old(values)@,
            old(files)@,
            key@,
            modified,
            match content {
                Some(c) => Some(c@),
                None => None,
            },
            final(values)@,
            final(files)@,
            r,
        ),
{
    let i = match values.find(&key) {
        None => {
            return Step::Done(None);
        },
        Some(i) => i,
    };
    let j = match files.find(&key.filename) {
        None => {
            return Step::Done(copy_value(&values.get(i).value));
        },
        Some(j) => j,
    };
    let text = match content {
        None => {
            return Step::Done(copy_value(&values.get(i).value));
        },
        Some(t) => t,
    };
    let f = files.replace(j, blank_file(0));
    let positions = match f.positions {
        Some(p) => Some(p),
        None => Some(scan_positions(text.as_str())),
    };
    let scanned = scan_fragments(text.as_str());
    if f.version < u64::MAX && scanned.is_some() {
        let frs = scanned.unwrap();
        files.replace(
            j,
            ParsedFile {
                last_checked: f.last_checked,
                modified,
                fragments: frs,
                version: f.version + 1,
                positions,
            },
        );
        assert(files@ =~= old(files)@.insert(key@.0, files@[key@.0]));
        let slot = values.replace(i, placeholder());
        let s2 = update_tweak(slot, files.get(j), key.line, key.column);
        let r = copy_value(&s2.value);
        values.replace(i, s2);
        assert(values@ =~= old(values)@.insert(key@, s2));
        Step::Done(r)
    } else {
        files.replace(
            j,
            ParsedFile {
                last_checked: f.last_checked,
                modified: f.modified,
                fragments: f.fragments,
                version: f.version,
                positions,
            },
        );
        assert(files@ =~= old(files)@.insert(key@.0, files@[key@.0]));
        Step::Done(copy_value(&values.get(i).value))
    }
}

/// One step of a lookup of the call site at (`line`, `column`) of
/// `filename`. A lookup starts with `Event::Start`; each `Step` other than
/// `Done` says what the next event must report.
///
/// The hot path (a site checked less than `WINDOW_MS` ago) ends at the first
/// step, without touching the file cache. Every failure (the file cannot be
/// read, a call is not closed, the site cannot be found, its text does not
/// parse) leaves the cached value as it was, and the lookup returns that.
pub fn inline_tweak<T: Tweakable + Clone>(
    values: &mut Registry<TweakKey, Slot<T>>,
    files: &mut Registry<String, ParsedFile>,
    filename: &str,
    line: u32,
    column: u32,
    event: Event<T, String>,
) -> (r: Step<T>)
    requires
        old(values).wf(),
        old(files).wf(),
    ensures
        final(values).wf(),
        final(files).wf(),
        match event {
            Event::Start { seed, now } => start_outcome(
                old(values)@,
                old(files)@,
                (filename@, line, column),
                seed,
                now,
                final(values)@,
                final(files)@,
                r,
            ),
            Event::Modified { modified } => modified_outcome(
                old(values)@,
                old(files)@,
                (filename@, line, column),
                modified,
                final(values)@,
                final(files)@,
                r,
            ),
            Event::Read { modified, content } => read_outcome(
                old(values)@,
                old(files)@,
                (filename@, line, column),
                modified,
                match content {
                    Some(c) => Some(c@),
                    None => None,
                },
                final(values)@,
                final(files)@,
                r,
            ),
        },
{
    let key = TweakKey { filename: filename.to_owned(), line, column };
    match event {
        Event::Start { seed, now } => start(values, files, key, seed, now),
        Event::Modified { modified } => on_modified(values, files, key, modified),
        Event::Read { modified, content } => on_read(values, files, key, modified, content),
    }
}

/// Every slot was read from a version that its file's entry has reached, and
/// a slot whose file has no entry was read from none.
pub open spec fn versions_ordered<T>(
    values: Map<(Seq<char>, u32, u32), Slot<T>>,
    files: Map<Seq<char>, ParsedFile>,
) -> bool {
    forall|k: (Seq<char>, u32, u32)| #[trigger]
        values.contains_key(k) ==> if files.contains_key(k.0) {
            values[k].file_version <= files[k.0].version
        } else {
            values[k].file_version == 0
        }
}

/// Each step of a lookup keeps slot versions within their files' versions.
pub proof fn lemma_steps_keep_versions_ordered<T: Tweakable + Clone>(
    ov: Map<(Seq<char>, u32, u32), Slot<T>>,
    of: Map<Seq<char>, ParsedFile>,
    key: (Seq<char>, u32, u32),
    seed: Option<T>,
    now: u64,
    modified: Option<u128>,
    m: u128,
    content: Option<Seq<char>>,
    nv: Map<(Seq<char>, u32, u32), Slot<T>>,
    nf: Map<Seq<char>, ParsedFile>,
    step: Step<T>,
)
    requires
        versions_ordered(ov, of),
        start_outcome(ov, of, key, seed, now, nv, nf, step) || modified_outcome(
            ov,
            of,
            key,
            modified,
            nv,
            nf,
            step,
        ) || read_outcome(ov, of, key, m, content, nv, nf, step),
    ensures
        versions_ordered(nv, nf),
{
    assert forall|k: (Seq<char>, u32, u32)| #[trigger] nv.contains_key(k) implies if nf.contains_key(
        k.0,
    ) {
        nv[k].file_version <= nf[k.0].version
    } else {
        nv[k].file_version == 0
    } by {
        if k != key {
            assert(ov.contains_key(k));
            assert(nv[k] == ov[k]);
            if k.0 != key.0 {
                assert(nf.contains_key(k.0) == of.contains_key(k.0));
            }
        }
    }
}

/// The argument text of the call at (line, column) once `text` is scanned
/// into the file entry `f`: the position index is the one already kept, or
/// else that of `text`.
pub open spec fn scanned_site_text(f: ParsedFile, text: Seq<char>, line: u32, column: u32) -> Option<
    Seq<char>,
> {
    let p = match f.positions {
        Some(p) => position_pairs(p@),
        None => positions(text),
    };
    match (fragments(text), ordinal_of_pairs(p, line as int, column as int, 0)) {
        (Some(frs), Some(o)) => if o < frs.len() {
            Some(frs[o])
        } else {
            None
        },
        _ => None,
    }
}

/// The first index from `i` on whose pair is (line, column).
pub open spec fn ordinal_of_pairs(p: Seq<(int, int)>, line: int, column: int, i: int) -> Option<int>
    decreases p.len() - i,
{
    if i < 0 || i >= p.len() {
        None
    } else if p[i] == (line, column) {
        Some(i)
    } else {
        ordinal_of_pairs(p, line, column, i + 1)
    }
}

proof fn lemma_ordinal_pairs(p: Seq<(usize, usize)>, line: int, column: int, i: int)
    requires
        0 <= i <= p.len(),
    ensures
        ordinal_from(p, line, column, i) == ordinal_of_pairs(position_pairs(p), line, column, i),
        ordinal_from(p, line, column, i) matches Some(o) ==> i <= o < p.len(),
    decreases p.len() - i,
{
    if i < p.len() {
        lemma_ordinal_pairs(p, line, column, i + 1);
    }
}

/// The first lookup of a call site returns its seed at once: the file system
/// is not consulted, and the seed is what the site holds from then on.
pub proof fn lemma_first_lookup_returns_seed<T: Tweakable + Clone>(
    ov: Map<(Seq<char>, u32, u32), Slot<T>>,
    of: Map<Seq<char>, ParsedFile>,
    key: (Seq<char>, u32, u32),
    seed: Option<T>,
    now: u64,
    nv: Map<(Seq<char>, u32, u32), Slot<T>>,
    nf: Map<Seq<char>, ParsedFile>,
    step: Step<T>,
)
    requires
        !ov.contains_key(key),
        start_outcome(ov, of, key, seed, now, nv, nf, step),
    ensures
        step is Done,
        copy_of(seed, step->Done_0),
        nf == of,
        nv.contains_key(key),
        nv[key].value == seed,
{
}

/// Two lookups of a site within one window of `WINDOW_MS` after its last
/// check return copies of the same value, and neither asks for the file's
/// modification time or touches either cache.
pub proof fn lemma_lookups_within_window_agree<T: Tweakable + Clone>(
    ov: Map<(Seq<char>, u32, u32), Slot<T>>,
    of: Map<Seq<char>, ParsedFile>,
    key: (Seq<char>, u32, u32),
    seed1: Option<T>,
    now1: u64,
    v1: Map<(Seq<char>, u32, u32), Slot<T>>,
    f1: Map<Seq<char>, ParsedFile>,
    step1: Step<T>,
    seed2: Option<T>,
    now2: u64,
    v2: Map<(Seq<char>, u32, u32), Slot<T>>,
    f2: Map<Seq<char>, ParsedFile>,
    step2: Step<T>,
)
    requires
        ov.contains_key(key),
        now1 <= now2,
        fresh(ov[key].last_checked, now2),
        start_outcome(ov, of, key, seed1, now1, v1, f1, step1),
        start_outcome(v1, f1, key, seed2, now2, v2, f2, step2),
    ensures
        step1 is Done,
        step2 is Done,
        copy_of(ov[key].value, step1->Done_0),
        copy_of(ov[key].value, step2->Done_0),
        v2 == ov,
        f2 == of,
{
}

/// A value written at a call site is read back: once the site's last check
/// and the file's are more than `WINDOW_MS` old and the file's modification
/// time has moved, a lookup asks for the time, then for the content, and
/// returns what the new argument text `lit` parses to, whenever it parses.
pub proof fn lemma_round_trip<T: Tweakable + Clone>(
    v0: Map<(Seq<char>, u32, u32), Slot<T>>,
    f0: Map<Seq<char>, ParsedFile>,
    key: (Seq<char>, u32, u32),
    seed: Option<T>,
    now: u64,
    m: u128,
    text: Seq<char>,
    lit: Seq<char>,
    v1: Map<(Seq<char>, u32, u32), Slot<T>>,
    f1: Map<Seq<char>, ParsedFile>,
    s1: Step<T>,
    v2: Map<(Seq<char>, u32, u32), Slot<T>>,
    f2: Map<Seq<char>, ParsedFile>,
    s2: Step<T>,
    v3: Map<(Seq<char>, u32, u32), Slot<T>>,
    f3: Map<Seq<char>, ParsedFile>,
    s3: Step<T>,
)
    requires
        v0.contains_key(key),
        f0.contains_key(key.0),
        versions_ordered(v0, f0),
        f0[key.0].version < u64::MAX,
        !fresh(v0[key].last_checked, now),
        !fresh(f0[key.0].last_checked, now),
        m != f0[key.0].modified,
        scanned_site_text(f0[key.0], text, key.1, key.2) == Some(lit),
        !T::parses_to(lit, None),
        start_outcome(v0, f0, key, seed, now, v1, f1, s1),
        modified_outcome(v1, f1, key, Some(m), v2, f2, s2),
        read_outcome(v2, f2, key, m, Some(text), v3, f3, s3),
    ensures
        s1 is Stat,
        s2 == Step::<T>::Read(m),
        s3 is Done,
        v3[key].value is Some,
        T::parses_to(lit, v3[key].value),
        copy_of(v3[key].value, s3->Done_0),
{
    let f = f2[key.0];
    let g = f3[key.0];
    assert(f == checked_at(f0[key.0], now));
    let pr = match f.positions {
        Some(p) => position_pairs(p@),
        None => positions(text),
    };
    assert(g.positions is Some && position_pairs(g.positions->0@) == pr);
    lemma_ordinal_pairs(g.positions->0@, key.1 as int, key.2 as int, 0);
    assert(fragments(text) is Some);
    let frs = fragments(text)->0;
    let o = ordinal_of_pairs(pr, key.1 as int, key.2 as int, 0)->0;
    assert(views(g.fragments@) == frs);
    assert(0 <= o < frs.len());
    assert(g.fragments@.len() == frs.len());
    assert(g.fragments@[o]@ == views(g.fragments@)[o]);
    assert(site_text(g, key.1, key.2) == Some(lit));
}

/// When the file cannot be read, whether its modification time or its
/// content, a lookup ends with the value the site already had, and leaves
/// both caches as they were.
pub proof fn lemma_unreadable_file_keeps_value<T: Tweakable + Clone>(
    ov: Map<(Seq<char>, u32, u32), Slot<T>>,
    of: Map<Seq<char>, ParsedFile>,
    key: (Seq<char>, u32, u32),
    m: u128,
    nv: Map<(Seq<char>, u32, u32), Slot<T>>,
    nf: Map<Seq<char>, ParsedFile>,
    step: Step<T>,
)
    requires
        ov.contains_key(key),
        modified_outcome(ov, of, key, None, nv, nf, step) || read_outcome(
            ov,
            of,
            key,
            m,
            None,
            nv,
            nf,
            step,
        ),
    ensures
        step is Done,
        copy_of(ov[key].value, step->Done_0),
        nv == ov,
        nf == of,
{
}

} // verus!
