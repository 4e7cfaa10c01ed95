//! The live-value cache for literals of whole functions, keyed by file,
//! function and the literal's rank within the function.
//!
//! Which literals a function holds is read from a full syntax walk of the
//! file, which the caller does; this cache keeps the table it produced, and
//! answers lookups from it the way the positional cache does.
use crate::cache::{
    copy_of, copy_value, fresh, is_fresh, placeholder, refresh_slot_text, refreshed, settles,
    Event, Slot, Step,
};
use crate::hasher::{hash_of_str, hash_str};
use crate::registry::{Key, Registry};
use crate::tweakable::Tweakable;
use vstd::prelude::*;
use vstd::string::StringSliceAdditionalSpecFns;

verus! {

/// Identity of one literal of a tweakable function.
#[derive(Debug)]
pub struct DeriveKey {
    pub filename: String,
    /// The Fx hash of the function's name.
    pub fname_hash: u64,
    pub nth: u32,
}

impl View for DeriveKey {
    type V = (Seq<char>, u64, u32);

    open spec fn view(&self) -> (Seq<char>, u64, u32) {
        (self.filename@, self.fname_hash, self.nth)
    }
}

impl Key for DeriveKey {
    fn same(&self, other: &DeriveKey) -> (r: bool) {
        self.fname_hash == other.fname_hash && self.nth == other.nth && self.filename
            == other.filename
    }
}

/// The literal texts of each tweakable function of a file.
pub type FunctionTable = Vec<(String, Vec<String>)>;

/// What the cache holds for one file.
#[derive(Debug)]
pub struct DerivedFile {
    /// When the file system was last consulted, in milliseconds.
    pub last_checked: u64,
    /// The modification time of the content walked last.
    pub modified: u128,
    /// For each function, its literal texts in traversal order.
    pub functions: FunctionTable,
    /// Bumped by each walk of new content; 0 until the first.
    pub version: u64,
}

/// The first entry from `i` on that is the function `name`.
pub open spec fn function_from(t: Seq<(String, Vec<String>)>, name: Seq<char>, i: int) -> Option<
    int,
>
    decreases t.len() - i,
{
    if i < 0 || i >= t.len() {
        None
    } else if t[i].0@ == name {
        Some(i)
    } else {
        function_from(t, name, i + 1)
    }
}

/// The text of the `nth` literal of the function `name` in the file as cached.
pub open spec fn literal_text(f: DerivedFile, name: Seq<char>, nth: u32) -> Option<Seq<char>> {
    match function_from(f.functions@, name, 0) {
        Some(i) => if nth < f.functions@[i].1@.len() {
            Some(f.functions@[i].1@[nth as int]@)
        } else {
            None
        },
        None => None,
    }
}

/// `f` with its check time set to `now`.
pub open spec fn derived_checked_at(f: DerivedFile, now: u64) -> DerivedFile {
    DerivedFile { last_checked: now, modified: f.modified, functions: f.functions, version: f.version }
}

/// A file entry made at `now`, before any walk.
pub open spec fn is_blank_derived(f: DerivedFile, now: u64) -> bool {
    &&& f.last_checked == now
    &&& f.modified == 0
    &&& f.functions@.len() == 0
    &&& f.version == 0
}

/// The key of the `nth` literal of the function `name` of `filename`.
pub open spec fn derive_key(filename: Seq<char>, name: &str, nth: u32) -> (Seq<char>, u64, u32) {
    (filename, hash_of_str(name.spec_bytes()), nth)
}

/// What the start of a lookup of `key` at `now` does; `name` is the function.
pub open spec fn derive_start_outcome<T: Tweakable + Clone>(
    ov: Map<(Seq<char>, u64, u32), Slot<T>>,
    of: Map<Seq<char>, DerivedFile>,
    key: (Seq<char>, u64, u32),
    name: Seq<char>,
    seed: Option<T>,
    now: u64,
    nv: Map<(Seq<char>, u64, u32), Slot<T>>,
    nf: Map<Seq<char>, DerivedFile>,
    step: Step<T>,
) -> bool {
    if !ov.contains_key(key) {
        &&& nv == ov.insert(key, Slot { value: seed, last_checked: now, file_version: 0 })
        &&& nf == of
        &&& step is Done
        &&& copy_of(seed, step->Done_0)
    } else if fresh(ov[key].last_checked, now) {
        &&& nv == ov
        &&& nf == of
        &&& step is Done
        &&& copy_of(ov[key].value, step->Done_0)
    } else {
        let s1 = Slot { value: ov[key].value, last_checked: now, file_version: ov[key].file_version };
        if of.contains_key(key.0) && of[key.0].version != 0 && fresh(of[key.0].last_checked, now) {
            &&& nf == of
            &&& settles(s1, literal_text(of[key.0], name, key.2), of[key.0].version, key, ov, nv, step)
        } else {
            &&& nv == ov.insert(key, s1)
            &&& step is Stat
            &&& nf.contains_key(key.0)
            &&& nf == of.insert(key.0, nf[key.0])
            &&& if of.contains_key(key.0) {
                nf[key.0] == derived_checked_at(of[key.0], now)
            } else {
                is_blank_derived(nf[key.0], now)
            }
        }
    }
}

/// What learning the file's modification time does to a lookup of `key`.
pub open spec fn derive_modified_outcome<T: Tweakable + Clone>(
    ov: Map<(Seq<char>, u64, u32), Slot<T>>,
    of: Map<Seq<char>, DerivedFile>,
    key: (Seq<char>, u64, u32),
    name: Seq<char>,
    modified: Option<u128>,
    nv: Map<(Seq<char>, u64, u32), Slot<T>>,
    nf: Map<Seq<char>, DerivedFile>,
    step: Step<T>,
) -> bool {
    if !ov.contains_key(key) {
        nv == ov && nf == of && step == Step::<T>::Done(None)
    } else if !of.contains_key(key.0) || modified is None {
        nv == ov && nf == of && step is Done && copy_of(ov[key].value, step->Done_0)
    } else if modified->0 == of[key.0].modified && of[key.0].version != 0 {
        &&& nf == of
        &&& settles(ov[key], literal_text(of[key.0], name, key.2), of[key.0].version, key, ov, nv, step)
    } else {
        nv == ov && nf == of && step == Step::<T>::Read(modified->0)
    }
}

/// The views of a function table.
pub open spec fn table_view(t: Seq<(String, Vec<String>)>) -> Seq<(Seq<char>, Seq<Seq<char>>)> {
    t.map_values(|e: (String, Vec<String>)| (e.0@, e.1@.map_values(|s: String| s@)))
}

/// What the table of the file's literals does to a lookup of `key`.
pub open spec fn derive_read_outcome<T: Tweakable + Clone>(
    ov: Map<(Seq<char>, u64, u32), Slot<T>>,
    of: Map<Seq<char>, DerivedFile>,
    key: (Seq<char>, u64, u32),
    name: Seq<char>,
    modified: u128,
    table: Option<Seq<(Seq<char>, Seq<Seq<char>>)>>,
    nv: Map<(Seq<char>, u64, u32), Slot<T>>,
    nf: Map<Seq<char>, DerivedFile>,
    step: Step<T>,
) -> bool {
    if !ov.contains_key(key) {
        nv == ov && nf == of && step == Step::<T>::Done(None)
    } else if !of.contains_key(key.0) || table is None || of[key.0].version == u64::MAX {
        nv == ov && nf == of && step is Done && copy_of(ov[key].value, step->Done_0)
    } else {
        let g = nf[key.0];
        &&& nf.contains_key(key.0)
        &&& nf == of.insert(key.0, g)
        &&& g.last_checked == of[key.0].last_checked
        &&& table_view(g.functions@) == table->0
        &&& g.modified == modified
        &&& g.version == of[key.0].version + 1
        &&& settles(ov[key], literal_text(g, name, key.2), g.version, key, ov, nv, step)
    }
}

fn find_function(t: &FunctionTable, name: &str) -> (r: Option<usize>)
    ensures
        match r {
            Some(i) => function_from(t@, name@, 0) == Some(i as int) && i < t@.len(),
            None => function_from(t@, name@, 0) is None,
        },
{
    let wanted = name.to_owned();
    let mut i: usize = 0;
    while i < t.len()
        invariant
            i <= t@.len(),
            wanted@ == name@,
            function_from(t@, name@, i as int) == function_from(t@, name@, 0),
        decreases t@.len() - i,
    {
        if t[i].0 == wanted {
            return Some(i);
        }
        i = i + 1;
    }
    None
}

/// The text of the `nth` literal of the function `name`, as cached.
pub fn find_literal<'a>(f: &'a DerivedFile, name: &str, nth: u32) -> (r: Option<&'a String>)
    ensures
        match r {
            Some(s) => literal_text(*f, name@, nth) == Some(s@),
            None => literal_text(*f, name@, nth) is None,
        },
{
    match find_function(&f.functions, name) {
        Some(i) => {
            let lits = &f.functions[i].1;
            if (nth as usize) < lits.len() {
                Some(&lits[nth as usize])
            } else {
                None
            }
        },
        None => None,
    }
}

/// Brings a slot up to the file as cached: when the slot was read from an
/// older version, re-reads the literal's text; keeps the slot as it is when
/// the literal cannot be found or does not parse.
pub fn update_tweak_derive<T: Tweakable>(
    slot: Slot<T>,
    file: &DerivedFile,
    function_name: &str,
    nth: u32,
) -> (r: Slot<T>)
    ensures
        refreshed(slot, literal_text(*file, function_name@, nth), file.version, r),
{
    if slot.file_version == file.version {
        return slot;
    }
    refresh_slot_text(slot, find_literal(file, function_name, nth), file.version)
}

fn blank_derived(now: u64) -> (r: DerivedFile)
    ensures
        is_blank_derived(r, now),
{
    DerivedFile { last_checked: now, modified: 0, functions: Vec::new(), version: 0 }
}

/// One step of a lookup of the `nth` literal of the function `function_name`
/// of `file`; the protocol is that of `inline_tweak`. The content that the
/// last step asks for is the table of the file's literals, or `None` when the
/// file could not be read or parsed.
pub fn inline_tweak_derive<T: Tweakable + Clone>(
    values: &mut Registry<DeriveKey, Slot<T>>,
    files: &mut Registry<String, DerivedFile>,
    file: &str,
    function_name: &str,
    nth: u32,
    event: Event<T, FunctionTable>,
) -> (r: Step<T>)
    requires
        old(values).wf(),
        old(files).wf(),
    ensures
        final(values).wf(),
        final(files).wf(),
        match event {
            Event::Start { seed, now } => derive_start_outcome(
                old(values)@,
                old(files)@,
                derive_key(file@, function_name, nth),
                function_name@,
                seed,
                now,
                final(values)@,
                final(files)@,
                r,
            ),
            Event::Modified { modified } => derive_modified_outcome(
                old(values)@,
                old(files)@,
                derive_key(file@, function_name, nth),
                function_name@,
                modified,
                final(values)@,
                final(files)@,
                r,
            ),
            Event::Read { modified, content } => derive_read_outcome(
                old(values)@,
                old(files)@,
                derive_key(file@, function_name, nth),
                function_name@,
                modified,
                match content {
                    Some(c) => Some(table_view(c@)),
                    None => None,
                },
                final(values)@,
                final(files)@,
                r,
            ),
        },
{
    let key = DeriveKey { filename: file.to_owned(), fname_hash: hash_str(function_name), nth };
    let ghost ov = values@;
    let ghost of = files@;
    let i = match values.find(&key) {
        None => {
            return match event {
                Event::Start { seed, now } => {
                    let r = copy_value(&seed);
                    values.push(key, Slot { value: seed, last_checked: now, file_version: 0 });
                    Step::Done(r)
                },
                _ => Step::Done(None),
            };
        },
        Some(i) => i,
    };
    match event {
        Event::Start { seed, now } => {
            let s = values.get(i);
            if is_fresh(s.last_checked, now) {
                return Step::Done(copy_value(&s.value));
            }
            let old_slot = values.replace(i, placeholder());
            let slot = Slot {
                value: old_slot.value,
                last_checked: now,
                file_version: old_slot.file_version,
            };
            match files.find(&key.filename) {
                Some(j) => {
                    let f = files.get(j);
                    if f.version != 0 && is_fresh(f.last_checked, now) {
                        let s2 = update_tweak_derive(slot, f, function_name, nth);
                        let r = copy_value(&s2.value);
                        values.replace(i, s2);
                        assert(values@ =~= ov.insert(key@, s2));
                        return Step::Done(r);
                    }
                    let f = files.replace(j, blank_derived(0));
                    files.replace(
                        j,
                        DerivedFile {
                            last_checked: now,
                            modified: f.modified,
                            functions: f.functions,
                            version: f.version,
                        },
                    );
                    assert(files@ =~= of.insert(key@.0, files@[key@.0]));
                },
                None => {
                    files.push(key.filename, blank_derived(now));
                },
            }
            values.replace(i, slot);
            assert(values@ =~= ov.insert(key@, slot));
            Step::Stat
        },
        Event::Modified { modified } => {
            let j = match files.find(&key.filename) {
                None => {
                    return Step::Done(copy_value(&values.get(i).value));
                },
                Some(j) => j,
            };
            match modified {
                None => Step::Done(copy_value(&values.get(i).value)),
                Some(m) => {
                    let f = files.get(j);
                    if m == f.modified && f.version != 0 {
                        let slot = values.replace(i, placeholder());
                        let s2 = update_tweak_derive(slot, f, function_name, nth);
                        let r = copy_value(&s2.value);
                        values.replace(i, s2);
                        assert(values@ =~= ov.insert(key@, s2));
                        Step::Done(r)
                    } else {
                        Step::Read(m)
                    }
                },
            }
        },
        Event::Read { modified, content } => {
            let j = match files.find(&key.filename) {
                None => {
                    return Step::Done(copy_value(&values.get(i).value));
                },
                Some(j) => j,
            };
            let table = match content {
                None => {
                    return Step::Done(copy_value(&values.get(i).value));
                },
                Some(t) => t,
            };
            if files.get(j).version == u64::MAX {
                return Step::Done(copy_value(&values.get(i).value));
            }
            let f = files.replace(j, blank_derived(0));
            files.replace(
                j,
                DerivedFile {
                    last_checked: f.last_checked,
                    modified,
                    functions: table,
                    version: f.version + 1,
                },
            );
            assert(files@ =~= of.insert(key@.0, files@[key@.0]));
            let slot = values.replace(i, placeholder());
            let s2 = update_tweak_derive(slot, files.get(j), function_name, nth);
            let r = copy_value(&s2.value);
            values.replace(i, s2);
            assert(values@ =~= ov.insert(key@, s2));
            Step::Done(r)
        },
    }
}

} // verus!
