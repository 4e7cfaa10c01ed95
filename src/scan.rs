//! Scanning a source file for tweak call sites: where each marker stands, the
//! argument text that follows it, and the line and column of each call.
use vstd::prelude::*;
use vstd::std_specs::iter::IteratorSpec;

verus! {

broadcast use {vstd::string::axiom_spec_iter, vstd::string::next_postcondition};

/// The text that opens a tweak call.
pub open spec fn marker() -> Seq<char> {
    seq!['t', 'w', 'e', 'a', 'k', '!', '(']
}

/// Length of the marker.
pub const MARKER_LEN: usize = 7;

/// The marker starts at index `i` of `s`.
pub open spec fn marker_at(s: Seq<char>, i: int) -> bool {
    0 <= i && i + 7 <= s.len() && s.subrange(i, i + 7) == marker()
}

/// The first index at or after `i` where the marker starts, or `s.len()`.
pub open spec fn next_marker(s: Seq<char>, i: int) -> int
    decreases s.len() - i,
{
    if i >= s.len() {
        s.len() as int
    } else if marker_at(s, i) {
        i
    } else {
        next_marker(s, i + 1)
    }
}

/// Where the argument that starts at `i` ends, looking no further than `lim`:
/// the first `;` or `)` met at bracket depth 1, counting the opening bracket
/// already consumed as depth 1. `None` when `lim` comes first.
pub open spec fn span_end(s: Seq<char>, i: int, lim: int, depth: int) -> Option<int>
    decreases lim - i,
{
    if i >= lim || i >= s.len() || i < 0 {
        None
    } else if (s[i] == ';' || s[i] == ')') && depth == 1 {
        Some(i)
    } else if s[i] == ')' {
        span_end(s, i + 1, lim, depth - 1)
    } else if s[i] == '(' {
        span_end(s, i + 1, lim, depth + 1)
    } else {
        span_end(s, i + 1, lim, depth)
    }
}

/// The argument text at the front of `s`, which follows a marker.
pub open spec fn extracted(s: Seq<char>) -> Option<Seq<char>> {
    match span_end(s, 0, s.len() as int, 1) {
        Some(k) => Some(s.subrange(0, k)),
        None => None,
    }
}

/// The argument texts of the markers from index `i` on, in document order;
/// each is looked for up to the next marker. `None` when one of them is not
/// closed in time.
pub open spec fn fragments_from(s: Seq<char>, i: int) -> Option<Seq<Seq<char>>>
    decreases s.len() - i,
{
    if i >= s.len() || i < 0 {
        Some(Seq::empty())
    } else if marker_at(s, i) {
        let start = i + 7;
        match span_end(s, start, next_marker(s, start), 1) {
            None => None,
            Some(k) => match fragments_from(s, start) {
                Some(rest) => Some(seq![s.subrange(start, k)] + rest),
                None => None,
            },
        }
    } else {
        fragments_from(s, i + 1)
    }
}

/// The argument texts of all the markers of `s`, in document order.
pub open spec fn fragments(s: Seq<char>) -> Option<Seq<Seq<char>>> {
    fragments_from(s, 0)
}

/// Characters of a call path: ASCII letters and digits, `:` and `_`.
pub open spec fn is_path_char(c: char) -> bool {
    ('a' <= c && c <= 'z') || ('A' <= c && c <= 'Z') || ('0' <= c && c <= '9') || c == ':' || c
        == '_'
}

/// Where the call path that ends at `p` starts, not going back past the line
/// start `ls`.
pub open spec fn path_start(s: Seq<char>, ls: int, p: int) -> int
    decreases p - ls,
{
    if p <= ls {
        ls
    } else if !is_path_char(s[p - 1]) {
        p
    } else {
        path_start(s, ls, p - 1)
    }
}

/// The 1-based (line, column) of each call from index `i` on, in document
/// order, where `line` is the line of index `i` and `ls` where that line
/// starts. The column is that of the start of the call's path.
pub open spec fn positions_from(s: Seq<char>, i: int, line: int, ls: int) -> Seq<(int, int)>
    decreases s.len() - i,
{
    if i >= s.len() || i < 0 {
        Seq::empty()
    } else if marker_at(s, i) {
        seq![(line, path_start(s, ls, i) - ls + 1)] + positions_from(s, i + 7, line, ls)
    } else if s[i] == '\n' {
        positions_from(s, i + 1, line + 1, i + 1)
    } else {
        positions_from(s, i + 1, line, ls)
    }
}

/// The 1-based (line, column) of each call of `s`, in document order.
pub open spec fn positions(s: Seq<char>) -> Seq<(int, int)> {
    positions_from(s, 0, 1, 0)
}

/// The characters of `s`, in order.
pub fn chars_of(s: &str) -> (r: Vec<char>)
    ensures
        r@ == s@,
{
    let mut it = s.chars();
    let mut out: Vec<char> = Vec::new();
    loop
        invariant
            out@ + it.remaining() == s@,
            it.obeys_prophetic_iter_laws(),
            it.decrease() is Some,
        ensures
            out@ == s@,
        decreases it.decrease()->0,
    {
        match it.next() {
            Some(c) => {
                out.push(c);
            },
            None => {
                break;
            },
        }
    }
    out
}

fn is_marker_at(s: &Vec<char>, i: usize) -> (r: bool)
    ensures
        r == marker_at(s@, i as int),
{
    if i >= s.len() || s.len() - i < MARKER_LEN {
        return false;
    }
    let r = s[i] == 't' && s[i + 1] == 'w' && s[i + 2] == 'e' && s[i + 3] == 'a' && s[i + 4]
        == 'k' && s[i + 5] == '!' && s[i + 6] == '(';
    proof {
        if r {
            assert(s@.subrange(i as int, i + 7) =~= marker());
        } else {
            if s@.subrange(i as int, i + 7) == marker() {
                assert(s@.subrange(i as int, i + 7)[0] == 't');
                assert(s@.subrange(i as int, i + 7)[1] == 'w');
                assert(s@.subrange(i as int, i + 7)[2] == 'e');
                assert(s@.subrange(i as int, i + 7)[3] == 'a');
                assert(s@.subrange(i as int, i + 7)[4] == 'k');
                assert(s@.subrange(i as int, i + 7)[5] == '!');
                assert(s@.subrange(i as int, i + 7)[6] == '(');
            }
        }
    }
    r
}

fn find_marker(s: &Vec<char>, from: usize) -> (r: usize)
    requires
        from <= s@.len(),
    ensures
        r as int == next_marker(s@, from as int),
        from <= r <= s@.len(),
{
    let mut i = from;
    while i < s.len() && !is_marker_at(s, i)
        invariant
            from <= i <= s@.len(),
            next_marker(s@, i as int) == next_marker(s@, from as int),
        decreases s@.len() - i,
    {
        i = i + 1;
    }
    i
}

fn find_span_end(s: &Vec<char>, from: usize, lim: usize) -> (r: Option<usize>)
    requires
        from <= lim <= s@.len(),
    ensures
        match r {
            Some(k) => span_end(s@, from as int, lim as int, 1) == Some(k as int) && from <= k
                < lim,
            None => span_end(s@, from as int, lim as int, 1) is None,
        },
{
    let mut i = from;
    // bracket depth, less the opening bracket already consumed
    let mut nested: usize = 0;
    while i < lim
        invariant
            from <= i <= lim <= s@.len(),
            nested <= i - from,
            span_end(s@, i as int, lim as int, nested + 1) == span_end(
                s@,
                from as int,
                lim as int,
                1,
            ),
        decreases lim - i,
    {
        let c = s[i];
        if (c == ';' || c == ')') && nested == 0 {
            return Some(i);
        } else if c == ')' {
            nested = nested - 1;
        } else if c == '(' {
            nested = nested + 1;
        }
        i = i + 1;
    }
    None
}

/// The argument text at the front of `text`, which follows a marker: up to,
/// not including, the first `;` or `)` outside nested brackets. `None` when
/// the text ends first.
pub fn extract(text: &str) -> (r: Option<String>)
    ensures
        match r {
            Some(f) => extracted(text@) == Some(f@),
            None => extracted(text@) is None,
        },
{
    let s = chars_of(text);
    match find_span_end(&s, 0, s.len()) {
        Some(k) => Some(text.substring_char(0, k).to_owned()),
        None => None,
    }
}

/// The views of a vector of strings.
pub open spec fn views(v: Seq<String>) -> Seq<Seq<char>> {
    v.map_values(|x: String| x@)
}

/// The argument text of every marker of `text`, in document order; `None`
/// when one of them is not closed before the next marker or the end.
pub fn scan_fragments(text: &str) -> (r: Option<Vec<String>>)
    ensures
        match r {
            Some(v) => fragments(text@) == Some(views(v@)),
            None => fragments(text@) is None,
        },
{
    let s = chars_of(text);
    let len = s.len();
    let mut i: usize = 0;
    let mut out: Vec<String> = Vec::new();
    while i < len
        invariant
            s@ == text@,
            len == s@.len(),
            i <= len,
            match fragments_from(s@, i as int) {
                Some(rest) => fragments(s@) == Some(views(out@) + rest),
                None => fragments(s@) is None,
            },
        decreases len - i,
    {
        if is_marker_at(&s, i) {
            let start = i + MARKER_LEN;
            let e = find_marker(&s, start);
            match find_span_end(&s, start, e) {
                None => {
                    return None;
                },
                Some(k) => {
                    let f = text.substring_char(start, k).to_owned();
                    proof {
                        if let Some(r) = fragments_from(s@, start as int) {
                            assert(views(out@.push(f)) + r =~= views(out@) + (seq![f@] + r));
                        }
                    }
                    out.push(f);
                    i = start;
                },
            }
        } else {
            i = i + 1;
        }
    }
    proof {
        assert(views(out@) + Seq::<Seq<char>>::empty() =~= views(out@));
    }
    Some(out)
}

fn is_path_char_exec(c: char) -> (r: bool)
    ensures
        r == is_path_char(c),
{
    ('a' <= c && c <= 'z') || ('A' <= c && c <= 'Z') || ('0' <= c && c <= '9') || c == ':' || c
        == '_'
}

fn find_path_start(s: &Vec<char>, ls: usize, p: usize) -> (r: usize)
    requires
        ls <= p <= s@.len(),
    ensures
        r as int == path_start(s@, ls as int, p as int),
        ls <= r <= p,
{
    let mut j = p;
    while j > ls && is_path_char_exec(s[j - 1])
        invariant
            ls <= j <= p <= s@.len(),
            path_start(s@, ls as int, j as int) == path_start(s@, ls as int, p as int),
        decreases j,
    {
        j = j - 1;
    }
    j
}

/// The 1-based (line, column) of every call in `text`, in document order; the
/// column is that of the start of the call's path, so that `m::tweak!(` and
/// `tweak!(` are found where the call site itself is.
pub fn scan_positions(text: &str) -> (r: Vec<(usize, usize)>)
    ensures
        r@.map_values(|p: (usize, usize)| (p.0 as int, p.1 as int)) == positions(text@),
{
    let s = chars_of(text);
    let len = s.len();
    let mut out: Vec<(usize, usize)> = Vec::new();
    let mut i: usize = 0;
    let mut line: u128 = 1;
    let mut ls: usize = 0;
    while i < len
        invariant
            s@ == text@,
            len == s@.len(),
            i <= len,
            ls <= i,
            1 <= line <= i + 1,
            out@.map_values(|p: (usize, usize)| (p.0 as int, p.1 as int)) + positions_from(
                s@,
                i as int,
                line as int,
                ls as int,
            ) == positions(s@),
        decreases len - i,
    {
        let ghost before = out@;
        if is_marker_at(&s, i) {
            let start = find_path_start(&s, ls, i);
            out.push((line as usize, start - ls + 1));
            proof {
                assert(out@.map_values(|p: (usize, usize)| (p.0 as int, p.1 as int)) =~= before.map_values(
                    |p: (usize, usize)| (p.0 as int, p.1 as int),
                ).push((line as int, start - ls + 1)));
                assert(out@.map_values(|p: (usize, usize)| (p.0 as int, p.1 as int))
                    + positions_from(s@, i + 7, line as int, ls as int) =~= before.map_values(
                    |p: (usize, usize)| (p.0 as int, p.1 as int),
                ) + positions_from(s@, i as int, line as int, ls as int));
            }
            i = i + MARKER_LEN;
        } else {
            if s[i] == '\n' {
                line = line + 1;
                ls = i + 1;
            }
            i = i + 1;
        }
    }
    proof {
        assert(out@.map_values(|p: (usize, usize)| (p.0 as int, p.1 as int)) + Seq::<
            (int, int),
        >::empty() =~= out@.map_values(|p: (usize, usize)| (p.0 as int, p.1 as int)));
    }
    out
}

proof fn lemma_counts_from(s: Seq<char>, i: int, line: int, ls: int)
    requires
        fragments_from(s, i) is Some,
    ensures
        fragments_from(s, i)->0.len() == positions_from(s, i, line, ls).len(),
    decreases s.len() - i,
{
    if 0 <= i < s.len() {
        if marker_at(s, i) {
            lemma_counts_from(s, i + 7, line, ls);
        } else if s[i] == '\n' {
            lemma_counts_from(s, i + 1, line + 1, i + 1);
        } else {
            lemma_counts_from(s, i + 1, line, ls);
        }
    }
}

/// A scan that succeeds finds one argument text for each call that the
/// position index lists, so that an ordinal from the index of the same text
/// always names a fragment.
pub proof fn lemma_fragment_count_matches_positions(s: Seq<char>)
    requires
        fragments(s) is Some,
    ensures
        fragments(s)->0.len() == positions(s).len(),
{
    lemma_counts_from(s, 0, 1, 0);
}

} // verus!
