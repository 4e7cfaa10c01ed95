//! Turning the text of a literal back into a value of the type that the call
//! site asked for.
use crate::scan::chars_of;
use vstd::prelude::*;
use vstd::string::StringExecFns;

verus! {

/// A type whose values can be read back from the text of a literal.
pub trait Tweakable: Sized {
    /// `r` is what parsing the literal text `x` gives.
    spec fn parses_to(x: Seq<char>, r: Option<Self>) -> bool;

    /// Reads a value from the literal text `x`; `None` when the text is not a
    /// literal of this type. Never panics.
    fn parse(x: &str) -> (r: Option<Self>)
        ensures
            Self::parses_to(x@, r),
    ;
}

/// `s` with every `_` removed.
pub open spec fn strip_underscores(s: Seq<char>) -> Seq<char>
    decreases s.len(),
{
    if s.len() == 0 {
        s
    } else if s.last() == '_' {
        strip_underscores(s.drop_last())
    } else {
        strip_underscores(s.drop_last()).push(s.last())
    }
}

/// The radix that the prefix of an integer literal names.
pub open spec fn radix_of(s: Seq<char>) -> nat {
    if s.len() >= 2 && s[0] == '0' && s[1] == 'x' {
        16
    } else if s.len() >= 2 && s[0] == '0' && s[1] == 'o' {
        8
    } else if s.len() >= 2 && s[0] == '0' && s[1] == 'b' {
        2
    } else {
        10
    }
}

/// Value of a digit in any radix up to 36; 36 for what is no digit.
pub open spec fn digit_value(c: char) -> nat {
    if '0' <= c && c <= '9' {
        (c as nat - '0' as nat) as nat
    } else if 'a' <= c && c <= 'z' {
        (c as nat - 'a' as nat + 10) as nat
    } else if 'A' <= c && c <= 'Z' {
        (c as nat - 'A' as nat + 10) as nat
    } else {
        36
    }
}

/// Every character of `s` is a digit of radix `radix`.
pub open spec fn all_digits(s: Seq<char>, radix: nat) -> bool {
    forall|i: int| 0 <= i < s.len() ==> #[trigger] digit_value(s[i]) < radix
}

/// The number that the digits `s` write in radix `radix`.
pub open spec fn magnitude(s: Seq<char>, radix: nat) -> nat
    decreases s.len(),
{
    if s.len() == 0 {
        0
    } else {
        magnitude(s.drop_last(), radix) * radix + digit_value(s.last())
    }
}

/// A signed integer in radix `radix` (an optional `+` or `-`, then at least
/// one digit), when it fits in an `i128`: what `i128::from_str_radix` reads.
pub open spec fn signed_value(s: Seq<char>, radix: nat) -> Option<int> {
    if s.len() == 0 {
        None
    } else {
        let neg = s[0] == '-';
        let ds = if s[0] == '-' || s[0] == '+' {
            s.skip(1)
        } else {
            s
        };
        let v = if neg {
            -magnitude(ds, radix)
        } else {
            magnitude(ds, radix) as int
        };
        if ds.len() == 0 || !all_digits(ds, radix) || v < i128::MIN || v > i128::MAX {
            None
        } else {
            Some(v)
        }
    }
}

/// The value of an integer literal: separators `_` dropped, then a `0x`, `0o`
/// or `0b` prefix chooses the radix.
pub open spec fn int_literal(x: Seq<char>) -> Option<int> {
    let s = strip_underscores(x);
    let r = radix_of(s);
    signed_value(
        if r == 10 {
            s
        } else {
            s.skip(2)
        },
        r,
    )
}

/// The value of an integer literal when it lies within `lo ..= hi`.
pub open spec fn int_literal_in(x: Seq<char>, lo: int, hi: int) -> Option<int> {
    match int_literal(x) {
        Some(v) => if lo <= v && v <= hi {
            Some(v)
        } else {
            None
        },
        None => None,
    }
}

fn strip_underscores_exec(x: &Vec<char>) -> (r: Vec<char>)
    ensures
        r@ == strip_underscores(x@),
{
    let mut out: Vec<char> = Vec::new();
    let mut i: usize = 0;
    while i < x.len()
        invariant
            i <= x@.len(),
            out@ == strip_underscores(x@.subrange(0, i as int)),
        decreases x@.len() - i,
    {
        proof {
            assert(x@.subrange(0, i + 1).drop_last() =~= x@.subrange(0, i as int));
        }
        if x[i] != '_' {
            out.push(x[i]);
        }
        i = i + 1;
    }
    proof {
        assert(x@.subrange(0, x@.len() as int) =~= x@);
    }
    out
}

fn digit_value_exec(c: char) -> (r: u32)
    ensures
        r as nat == digit_value(c),
{
    if '0' <= c && c <= '9' {
        (c as u32) - ('0' as u32)
    } else if 'a' <= c && c <= 'z' {
        (c as u32) - ('a' as u32) + 10
    } else if 'A' <= c && c <= 'Z' {
        (c as u32) - ('A' as u32) + 10
    } else {
        36
    }
}

proof fn lemma_magnitude_grows(s: Seq<char>, radix: nat, j: int)
    requires
        radix >= 1,
        0 <= j <= s.len(),
    ensures
        magnitude(s.subrange(0, j), radix) <= magnitude(s, radix),
    decreases s.len(),
{
    if j < s.len() {
        assert(s.drop_last() =~= s.subrange(0, s.len() - 1));
        assert(s.drop_last().subrange(0, j) =~= s.subrange(0, j));
        lemma_magnitude_grows(s.drop_last(), radix, j);
        assert(magnitude(s.drop_last(), radix) <= magnitude(s.drop_last(), radix) * radix)
            by (nonlinear_arith)
            requires
                radix >= 1,
        ;
    } else {
        assert(s.subrange(0, j) =~= s);
    }
}

/// The largest magnitude an `i128` can have, that of `i128::MIN`.
pub const I128_MIN_MAGNITUDE: u128 = 0x8000_0000_0000_0000_0000_0000_0000_0000;

/// `i128::from_str_radix` on the characters of `s` from `from`: an optional
/// sign, then digits of `radix`.
fn signed_value_exec(s: &Vec<char>, from: usize, radix: u32) -> (r: Option<i128>)
    requires
        from <= s@.len(),
        2 <= radix <= 16,
    ensures
        match r {
            Some(v) => signed_value(s@.skip(from as int), radix as nat) == Some(v as int),
            None => signed_value(s@.skip(from as int), radix as nat) is None,
        },
{
    let ghost t = s@.skip(from as int);
    if from >= s.len() {
        return None;
    }
    let neg = s[from] == '-';
    let start = if s[from] == '-' || s[from] == '+' {
        from + 1
    } else {
        from
    };
    let ghost ds = s@.skip(start as int);
    assert(t[0] == s@[from as int]);
    assert(ds =~= (if t[0] == '-' || t[0] == '+' {
        t.skip(1)
    } else {
        t
    }));
    if start >= s.len() {
        return None;
    }
    let limit = I128_MIN_MAGNITUDE;
    let mut acc: u128 = 0;
    let mut i = start;
    while i < s.len()
        invariant
            start <= i <= s@.len(),
            ds == s@.skip(start as int),
            t == s@.skip(from as int),
            from < s@.len(),
            start < s@.len(),
            ds == (if t[0] == '-' || t[0] == '+' {
                t.skip(1)
            } else {
                t
            }),
            2 <= radix <= 16,
            acc as nat == magnitude(ds.subrange(0, i - start), radix as nat),
            acc <= limit,
            limit == I128_MIN_MAGNITUDE,
            all_digits(ds.subrange(0, i - start), radix as nat),
        decreases s@.len() - i,
    {
        let d = digit_value_exec(s[i]);
        proof {
            assert(ds.subrange(0, i + 1 - start).drop_last() =~= ds.subrange(0, i - start));
            assert(ds[i - start] == s@[i as int]);
        }
        if d >= radix {
            assert(!all_digits(ds, radix as nat)) by {
                assert(digit_value(ds[i - start]) >= radix);
            }
            return None;
        }
        let next = match acc.checked_mul(radix as u128) {
            Some(p) => p.checked_add(d as u128),
            None => None,
        };
        let fits = match next {
            Some(n) => n <= limit,
            None => false,
        };
        if !fits {
            proof {
                assert(acc * radix + d > limit);
                assert(ds.subrange(0, i + 1 - start).last() == ds[i - start]);
                assert(magnitude(ds.subrange(0, i + 1 - start), radix as nat) == acc * radix + d);
                if all_digits(ds, radix as nat) {
                    lemma_magnitude_grows(ds, radix as nat, i + 1 - start);
                    assert(magnitude(ds, radix as nat) > limit);
                    assert(i128::MIN as int == -(limit as int));
                }
            }
            return None;
        }
        let next = next.unwrap();
        proof {
            assert forall|k: int| 0 <= k < i + 1 - start implies #[trigger] digit_value(
                ds.subrange(0, i + 1 - start)[k],
            ) < radix as nat by {
                if k < i - start {
                    assert(ds.subrange(0, i + 1 - start)[k] == ds.subrange(0, i - start)[k]);
                }
            }
        }
        acc = next;
        i = i + 1;
    }
    proof {
        assert(ds.subrange(0, s@.len() - start) =~= ds);
    }
    if neg {
        if acc == limit {
            Some(i128::MIN)
        } else {
            Some(-(acc as i128))
        }
    } else {
        if acc == limit {
            None
        } else {
            Some(acc as i128)
        }
    }
}

/// Reads an integer literal: `_` separators are dropped, a `0x`, `0o` or `0b`
/// prefix picks the radix, and the value must fit in an `i128`.
pub fn parse_int_literal(x: &str) -> (r: Option<i128>)
    ensures
        match r {
            Some(v) => int_literal(x@) == Some(v as int),
            None => int_literal(x@) is None,
        },
{
    let s = strip_underscores_exec(&chars_of(x));
    let prefixed = s.len() >= 2 && s[0] == '0';
    if prefixed && s[1] == 'x' {
        signed_value_exec(&s, 2, 16)
    } else if prefixed && s[1] == 'o' {
        signed_value_exec(&s, 2, 8)
    } else if prefixed && s[1] == 'b' {
        signed_value_exec(&s, 2, 2)
    } else {
        proof {
            assert(s@.skip(0) =~= s@);
        }
        signed_value_exec(&s, 0, 10)
    }
}

impl Tweakable for u8 {
    open spec fn parses_to(x: Seq<char>, r: Option<u8>) -> bool {
        match r {
            Some(v) => int_literal_in(x, u8::MIN as int, u8::MAX as int) == Some(v as int),
            None => int_literal_in(x, u8::MIN as int, u8::MAX as int) is None,
        }
    }

    fn parse(x: &str) -> (r: Option<u8>) {
        match parse_int_literal(x) {
            Some(v) => if u8::MIN as i128 <= v && v <= u8::MAX as i128 {
                Some(v as u8)
            } else {
                None
            },
            None => None,
        }
    }
}

impl Tweakable for u16 {
    open spec fn parses_to(x: Seq<char>, r: Option<u16>) -> bool {
        match r {
            Some(v) => int_literal_in(x, u16::MIN as int, u16::MAX as int) == Some(v as int),
            None => int_literal_in(x, u16::MIN as int, u16::MAX as int) is None,
        }
    }

    fn parse(x: &str) -> (r: Option<u16>) {
        match parse_int_literal(x) {
            Some(v) => if u16::MIN as i128 <= v && v <= u16::MAX as i128 {
                Some(v as u16)
            } else {
                None
            },
            None => None,
        }
    }
}

impl Tweakable for u32 {
    open spec fn parses_to(x: Seq<char>, r: Option<u32>) -> bool {
        match r {
            Some(v) => int_literal_in(x, u32::MIN as int, u32::MAX as int) == Some(v as int),
            None => int_literal_in(x, u32::MIN as int, u32::MAX as int) is None,
        }
    }

    fn parse(x: &str) -> (r: Option<u32>) {
        match parse_int_literal(x) {
            Some(v) => if u32::MIN as i128 <= v && v <= u32::MAX as i128 {
                Some(v as u32)
            } else {
                None
            },
            None => None,
        }
    }
}

impl Tweakable for u64 {
    open spec fn parses_to(x: Seq<char>, r: Option<u64>) -> bool {
        match r {
            Some(v) => int_literal_in(x, u64::MIN as int, u64::MAX as int) == Some(v as int),
            None => int_literal_in(x, u64::MIN as int, u64::MAX as int) is None,
        }
    }

    fn parse(x: &str) -> (r: Option<u64>) {
        match parse_int_literal(x) {
            Some(v) => if u64::MIN as i128 <= v && v <= u64::MAX as i128 {
                Some(v as u64)
            } else {
                None
            },
            None => None,
        }
    }
}

/// Values above `i128::MAX` are refused, as for every integer type.
impl Tweakable for u128 {
    open spec fn parses_to(x: Seq<char>, r: Option<u128>) -> bool {
        match r {
            Some(v) => int_literal_in(x, 0 as int, i128::MAX as int) == Some(v as int),
            None => int_literal_in(x, 0 as int, i128::MAX as int) is None,
        }
    }

    fn parse(x: &str) -> (r: Option<u128>) {
        match parse_int_literal(x) {
            Some(v) => if 0 as i128 <= v && v <= i128::MAX as i128 {
                Some(v as u128)
            } else {
                None
            },
            None => None,
        }
    }
}

impl Tweakable for usize {
    open spec fn parses_to(x: Seq<char>, r: Option<usize>) -> bool {
        match r {
            Some(v) => int_literal_in(x, usize::MIN as int, usize::MAX as int) == Some(v as int),
            None => int_literal_in(x, usize::MIN as int, usize::MAX as int) is None,
        }
    }

    fn parse(x: &str) -> (r: Option<usize>) {
        match parse_int_literal(x) {
            Some(v) => if usize::MIN as i128 <= v && v <= usize::MAX as i128 {
                Some(v as usize)
            } else {
                None
            },
            None => None,
        }
    }
}

impl Tweakable for i8 {
    open spec fn parses_to(x: Seq<char>, r: Option<i8>) -> bool {
        match r {
            Some(v) => int_literal_in(x, i8::MIN as int, i8::MAX as int) == Some(v as int),
            None => int_literal_in(x, i8::MIN as int, i8::MAX as int) is None,
        }
    }

    fn parse(x: &str) -> (r: Option<i8>) {
        match parse_int_literal(x) {
            Some(v) => if i8::MIN as i128 <= v && v <= i8::MAX as i128 {
                Some(v as i8)
            } else {
                None
            },
            None => None,
        }
    }
}

impl Tweakable for i16 {
    open spec fn parses_to(x: Seq<char>, r: Option<i16>) -> bool {
        match r {
            Some(v) => int_literal_in(x, i16::MIN as int, i16::MAX as int) == Some(v as int),
            None => int_literal_in(x, i16::MIN as int, i16::MAX as int) is None,
        }
    }

    fn parse(x: &str) -> (r: Option<i16>) {
        match parse_int_literal(x) {
            Some(v) => if i16::MIN as i128 <= v && v <= i16::MAX as i128 {
                Some(v as i16)
            } else {
                None
            },
            None => None,
        }
    }
}

impl Tweakable for i32 {
    open spec fn parses_to(x: Seq<char>, r: Option<i32>) -> bool {
        match r {
            Some(v) => int_literal_in(x, i32::MIN as int, i32::MAX as int) == Some(v as int),
            None => int_literal_in(x, i32::MIN as int, i32::MAX as int) is None,
        }
    }

    fn parse(x: &str) -> (r: Option<i32>) {
        match parse_int_literal(x) {
            Some(v) => if i32::MIN as i128 <= v && v <= i32::MAX as i128 {
                Some(v as i32)
            } else {
                None
            },
            None => None,
        }
    }
}

impl Tweakable for i64 {
    open spec fn parses_to(x: Seq<char>, r: Option<i64>) -> bool {
        match r {
            Some(v) => int_literal_in(x, i64::MIN as int, i64::MAX as int) == Some(v as int),
            None => int_literal_in(x, i64::MIN as int, i64::MAX as int) is None,
        }
    }

    fn parse(x: &str) -> (r: Option<i64>) {
        match parse_int_literal(x) {
            Some(v) => if i64::MIN as i128 <= v && v <= i64::MAX as i128 {
                Some(v as i64)
            } else {
                None
            },
            None => None,
        }
    }
}

impl Tweakable for i128 {
    open spec fn parses_to(x: Seq<char>, r: Option<i128>) -> bool {
        match r {
            Some(v) => int_literal_in(x, i128::MIN as int, i128::MAX as int) == Some(v as int),
            None => int_literal_in(x, i128::MIN as int, i128::MAX as int) is None,
        }
    }

    fn parse(x: &str) -> (r: Option<i128>) {
        match parse_int_literal(x) {
            Some(v) => if i128::MIN as i128 <= v && v <= i128::MAX as i128 {
                Some(v as i128)
            } else {
                None
            },
            None => None,
        }
    }
}

impl Tweakable for isize {
    open spec fn parses_to(x: Seq<char>, r: Option<isize>) -> bool {
        match r {
            Some(v) => int_literal_in(x, isize::MIN as int, isize::MAX as int) == Some(v as int),
            None => int_literal_in(x, isize::MIN as int, isize::MAX as int) is None,
        }
    }

    fn parse(x: &str) -> (r: Option<isize>) {
        match parse_int_literal(x) {
            Some(v) => if isize::MIN as i128 <= v && v <= isize::MAX as i128 {
                Some(v as isize)
            } else {
                None
            },
            None => None,
        }
    }
}

/// The index of the first character at or after `i` that is not `c`.
pub open spec fn skip_char(s: Seq<char>, c: char, i: int) -> int
    decreases s.len() - i,
{
    if 0 <= i < s.len() && s[i] == c {
        skip_char(s, c, i + 1)
    } else {
        i
    }
}

/// The index of the first character at or after `i` that is neither `r` nor
/// `#`: the end of a raw string's opening.
pub open spec fn skip_raw_opening(s: Seq<char>, i: int) -> int
    decreases s.len() - i,
{
    if 0 <= i < s.len() && (s[i] == 'r' || s[i] == '#') {
        skip_raw_opening(s, i + 1)
    } else {
        i
    }
}

/// Going back from `j`, not past `lo`, the index just after the last
/// character that is not `c`.
pub open spec fn trim_back(s: Seq<char>, c: char, lo: int, j: int) -> int
    decreases j - lo,
{
    if j > lo && s[j - 1] == c {
        trim_back(s, c, lo, j - 1)
    } else {
        j
    }
}

/// The first index in `i .. e` that holds `c`, or `e`.
pub open spec fn first_of(s: Seq<char>, c: char, i: int, e: int) -> int
    decreases e - i,
{
    if i >= e {
        e
    } else if s[i] == c {
        i
    } else {
        first_of(s, c, i + 1, e)
    }
}

/// The last index in `lo .. j` that holds `c`, or `j` when there is none.
pub open spec fn last_of(s: Seq<char>, c: char, lo: int, j: int) -> int
    decreases j - lo,
{
    if j <= lo {
        -1
    } else if s[j - 1] == c {
        j - 1
    } else {
        last_of(s, c, lo, j - 1)
    }
}

/// The text of a string literal: a raw string's `r` and `#` fences dropped,
/// then what lies between the first and the last `"`, as far as there are
/// quotes.
pub open spec fn string_literal(s: Seq<char>) -> Seq<char> {
    let a = skip_raw_opening(s, 0);
    let e = trim_back(s, '#', a, s.len() as int);
    let q1 = first_of(s, '"', a, e);
    let start = if q1 < e {
        q1 + 1
    } else {
        a
    };
    let q2 = last_of(s, '"', start, e);
    let end = if q2 >= start {
        q2
    } else {
        e
    };
    s.subrange(start, end)
}

/// The text `true`.
pub open spec fn true_text() -> Seq<char> {
    seq!['t', 'r', 'u', 'e']
}

/// The text `false`.
pub open spec fn false_text() -> Seq<char> {
    seq!['f', 'a', 'l', 's', 'e']
}

impl Tweakable for bool {
    open spec fn parses_to(x: Seq<char>, r: Option<bool>) -> bool {
        r == (if x == true_text() {
            Some(true)
        } else if x == false_text() {
            Some(false)
        } else {
            None
        })
    }

    fn parse(x: &str) -> (r: Option<bool>) {
        let s = chars_of(x);
        if s.len() == 4 && s[0] == 't' && s[1] == 'r' && s[2] == 'u' && s[3] == 'e' {
            proof {
                assert(x@ =~= true_text());
            }
            Some(true)
        } else if s.len() == 5 && s[0] == 'f' && s[1] == 'a' && s[2] == 'l' && s[3] == 's' && s[4]
            == 'e' {
            proof {
                assert(x@ =~= false_text());
                assert(x@ != true_text());
            }
            Some(false)
        } else {
            proof {
                if x@ == true_text() {
                    assert(x@[0] == 't' && x@[1] == 'r' && x@[2] == 'u' && x@[3] == 'e');
                }
                if x@ == false_text() {
                    assert(x@[0] == 'f' && x@[1] == 'a' && x@[2] == 'l' && x@[3] == 's' && x@[4]
                        == 'e');
                }
            }
            None
        }
    }
}

fn skip_char_exec(s: &Vec<char>, c: char, from: usize) -> (r: usize)
    requires
        from <= s@.len(),
    ensures
        r as int == skip_char(s@, c, from as int),
        from <= r <= s@.len(),
{
    let mut i = from;
    while i < s.len() && s[i] == c
        invariant
            from <= i <= s@.len(),
            skip_char(s@, c, i as int) == skip_char(s@, c, from as int),
        decreases s@.len() - i,
    {
        i = i + 1;
    }
    i
}

/// A character literal: quotes are trimmed from both ends, and the first
/// character left is the value.
impl Tweakable for char {
    open spec fn parses_to(x: Seq<char>, r: Option<char>) -> bool {
        let lead = skip_char(x, '\'', 0);
        r == (if lead < x.len() {
            Some(x[lead])
        } else {
            None
        })
    }

    fn parse(x: &str) -> (r: Option<char>) {
        let s = chars_of(x);
        let lead = skip_char_exec(&s, '\'', 0);
        if lead < s.len() {
            Some(s[lead])
        } else {
            None
        }
    }
}

impl Tweakable for String {
    open spec fn parses_to(x: Seq<char>, r: Option<String>) -> bool {
        match r {
            Some(v) => v@ == string_literal(x),
            None => false,
        }
    }

    fn parse(x: &str) -> (r: Option<String>) {
        let s = chars_of(x);
        let len = s.len();
        let mut a: usize = 0;
        while a < len && (s[a] == 'r' || s[a] == '#')
            invariant
                a <= len == s@.len(),
                skip_raw_opening(s@, a as int) == skip_raw_opening(s@, 0),
            decreases len - a,
        {
            a = a + 1;
        }
        let mut e: usize = len;
        while e > a && s[e - 1] == '#'
            invariant
                a <= e <= len == s@.len(),
                trim_back(s@, '#', a as int, e as int) == trim_back(
                    s@,
                    '#',
                    a as int,
                    len as int,
                ),
            decreases e,
        {
            e = e - 1;
        }
        let mut q1: usize = a;
        while q1 < e && s[q1] != '"'
            invariant
                a <= q1 <= e <= len == s@.len(),
                first_of(s@, '"', q1 as int, e as int) == first_of(s@, '"', a as int, e as int),
            decreases e - q1,
        {
            q1 = q1 + 1;
        }
        let start = if q1 < e {
            q1 + 1
        } else {
            a
        };
        let mut j: usize = e;
        while j > start && s[j - 1] != '"'
            invariant
                start <= j <= e <= len == s@.len(),
                last_of(s@, '"', start as int, j as int) == last_of(
                    s@,
                    '"',
                    start as int,
                    e as int,
                ),
            decreases j,
        {
            j = j - 1;
        }
        let end = if j > start {
            j - 1
        } else {
            e
        };
        Some(x.substring_char(start, end).to_owned())
    }
}

impl Tweakable for () {
    open spec fn parses_to(x: Seq<char>, r: Option<()>) -> bool {
        r == Some(())
    }

    fn parse(x: &str) -> (r: Option<()>) {
        Some(())
    }
}

/// The text of a floating-point literal with its `_` separators removed.
/// Reading the number from it is left to the caller.
#[derive(Clone, Debug)]
pub struct FloatText {
    pub text: String,
}

impl Tweakable for FloatText {
    open spec fn parses_to(x: Seq<char>, r: Option<FloatText>) -> bool {
        match r {
            Some(v) => v.text@ == strip_underscores(x),
            None => false,
        }
    }

    fn parse(x: &str) -> (r: Option<FloatText>) {
        let s = chars_of(x);
        let mut out = String::new();
        let mut i: usize = 0;
        while i < s.len()
            invariant
                s@ == x@,
                i <= s@.len(),
                out@ == strip_underscores(s@.subrange(0, i as int)),
            decreases s@.len() - i,
        {
            proof {
                assert(s@.subrange(0, i + 1).drop_last() =~= s@.subrange(0, i as int));
            }
            if s[i] != '_' {
                let one = x.substring_char(i, i + 1);
                proof {
                    assert(one@ =~= seq![s@[i as int]]);
                }
                out.append(one);
            }
            i = i + 1;
        }
        proof {
            assert(s@.subrange(0, s@.len() as int) =~= s@);
        }
        Some(FloatText { text: out })
    }
}

} // verus!
