//! Small string building blocks shared by the argument and message builders.
use vstd::prelude::*;

verus! {

broadcast use vstd::string::group_string_axioms;

/// The character views of a sequence of owned strings.
pub open spec fn views(v: Seq<String>) -> Seq<Seq<char>> {
    v.map_values(|s: String| s@)
}

/// An owned copy of `s`.
pub fn owned(s: &str) -> (r: String)
    ensures
        r@ == s@,
{
    <String as vstd::string::StringExecFns>::from_str(s)
}

/// Appends one character (`String::push`).
#[verifier::external_body]
pub(crate) fn push_char(s: &mut String, c: char)
    ensures
        final(s)@ == old(s)@.push(c),
{
    s.push(c);
}

/// Appends a string slice.
pub fn push_str(s: &mut String, other: &str)
    ensures
        final(s)@ == old(s)@ + other@,
{
    <String as vstd::string::StringExecFns>::append(s, other);
}

/// String-slice equality (`<str as PartialEq>::eq`).
#[verifier::external_body]
pub(crate) fn str_eq(a: &str, b: &str) -> (r: bool)
    ensures
        r == (a@ == b@),
{
    a == b
}

/// The decimal digit character for `d < 10`.
pub open spec fn digit_char(d: int) -> char {
    if d == 0 { '0' }
    else if d == 1 { '1' }
    else if d == 2 { '2' }
    else if d == 3 { '3' }
    else if d == 4 { '4' }
    else if d == 5 { '5' }
    else if d == 6 { '6' }
    else if d == 7 { '7' }
    else if d == 8 { '8' }
    else { '9' }
}

/// Decimal rendering of a natural number, most significant digit first,
/// without leading zeros.
pub open spec fn decimal(n: nat) -> Seq<char>
    decreases n,
{
    if n < 10 {
        seq![digit_char(n as int)]
    } else {
        decimal(n / 10).push(digit_char((n % 10) as int))
    }
}

fn digit(d: u64) -> (c: char)
    requires
        d < 10,
    ensures
        c == digit_char(d as int),
{
    if d == 0 { '0' }
    else if d == 1 { '1' }
    else if d == 2 { '2' }
    else if d == 3 { '3' }
    else if d == 4 { '4' }
    else if d == 5 { '5' }
    else if d == 6 { '6' }
    else if d == 7 { '7' }
    else if d == 8 { '8' }
    else { '9' }
}

/// Renders `n` in decimal, as `u64::to_string` does.
pub fn decimal_string(n: u64) -> (s: String)
    ensures
        s@ == decimal(n as nat),
    decreases n,
{
    if n < 10 {
        let mut s = String::new();
        push_char(&mut s, digit(n));
        s
    } else {
        let mut s = decimal_string(n / 10);
        push_char(&mut s, digit(n % 10));
        s
    }
}

/// ASCII lower-casing of one character.
pub open spec fn ascii_lower(c: char) -> char {
    if 'A' <= c && c <= 'Z' {
        ((c as u32) + 32) as char
    } else {
        c
    }
}

/// ASCII lower-casing of a whole sequence, leaving other characters alone.
pub open spec fn ascii_lower_seq(s: Seq<char>) -> Seq<char> {
    s.map_values(|c: char| ascii_lower(c))
}

pub fn lower_char(c: char) -> (r: char)
    ensures
        r == ascii_lower(c),
{
    if 'A' <= c && c <= 'Z' {
        let b: u8 = (c as u32) as u8;
        (b + 32) as char
    } else {
        c
    }
}

/// `str::to_ascii_lowercase`.
pub fn to_ascii_lowercase(s: &str) -> (r: String)
    ensures
        r@ == ascii_lower_seq(s@),
{
    let mut out = String::new();
    for c in it: s.chars()
        invariant
            it.seq() == s@,
            out@ == ascii_lower_seq(s@.take(it.index() as int)),
    {
        proof {
            assert(s@.take(it.index() as int + 1) == s@.take(it.index() as int).push(c));
        }
        push_char(&mut out, lower_char(c));
        proof {
            assert(ascii_lower_seq(s@.take(it.index() as int).push(c)) =~= ascii_lower_seq(
                s@.take(it.index() as int),
            ).push(ascii_lower(c)));
        }
    }
    proof {
        assert(s@.take(s@.len() as int) == s@);
    }
    out
}

// ---------------------------------------------------------------------------
// Whitespace trimming
// ---------------------------------------------------------------------------

/// Unicode `White_Space`, as `char::is_whitespace` tests it.
pub open spec fn is_ws(c: char) -> bool {
    ||| ('\u{9}' <= c && c <= '\u{D}')
    ||| c == ' '
    ||| c == '\u{85}'
    ||| c == '\u{A0}'
    ||| c == '\u{1680}'
    ||| ('\u{2000}' <= c && c <= '\u{200A}')
    ||| c == '\u{2028}'
    ||| c == '\u{2029}'
    ||| c == '\u{202F}'
    ||| c == '\u{205F}'
    ||| c == '\u{3000}'
}

/// `char::is_whitespace`.
pub fn is_whitespace(c: char) -> (r: bool)
    ensures
        r == is_ws(c),
{
    ('\u{9}' <= c && c <= '\u{D}') || c == ' ' || c == '\u{85}' || c == '\u{A0}' || c
        == '\u{1680}' || ('\u{2000}' <= c && c <= '\u{200A}') || c == '\u{2028}' || c
        == '\u{2029}' || c == '\u{202F}' || c == '\u{205F}' || c == '\u{3000}'
}

/// The index of the first non-whitespace character, or the length when
/// every character is whitespace.
pub open spec fn first_non_ws(s: Seq<char>) -> int
    decreases s.len(),
{
    if s.len() == 0 {
        0
    } else {
        let p = first_non_ws(s.drop_last());
        if p < s.len() - 1 {
            p
        } else if is_ws(s.last()) {
            s.len() as int
        } else {
            s.len() - 1
        }
    }
}

/// One past the index of the last non-whitespace character, or 0.
pub open spec fn end_non_ws(s: Seq<char>) -> int
    decreases s.len(),
{
    if s.len() == 0 {
        0
    } else if !is_ws(s.last()) {
        s.len() as int
    } else {
        end_non_ws(s.drop_last())
    }
}

/// `s` without leading and trailing whitespace (`str::trim`).
pub open spec fn spec_trim(s: Seq<char>) -> Seq<char> {
    if first_non_ws(s) >= s.len() {
        Seq::empty()
    } else {
        s.subrange(first_non_ws(s), end_non_ws(s))
    }
}

/// Characterizes the trim bounds: every character before the start and at
/// or after the end is whitespace, and the characters at both bounds are
/// not.
pub proof fn lemma_trim_bounds(s: Seq<char>)
    ensures
        0 <= first_non_ws(s) <= s.len(),
        0 <= end_non_ws(s) <= s.len(),
        forall|j: int| 0 <= j < first_non_ws(s) ==> is_ws(#[trigger] s[j]),
        forall|j: int| end_non_ws(s) <= j < s.len() ==> is_ws(#[trigger] s[j]),
        first_non_ws(s) < s.len() ==> !is_ws(s[first_non_ws(s)]) && first_non_ws(s) < end_non_ws(
            s,
        ) && !is_ws(s[end_non_ws(s) - 1]),
        first_non_ws(s) == s.len() ==> end_non_ws(s) == 0,
    decreases s.len(),
{
    if s.len() > 0 {
        lemma_trim_bounds(s.drop_last());
        assert forall|j: int| 0 <= j < s.len() - 1 implies s.drop_last()[j] == s[j] by {}
    }
}

/// `str::trim`: the slice of `s` without surrounding whitespace.
pub fn trim(s: &str) -> (r: &str)
    ensures
        r@ == spec_trim(s@),
{
    let n = s.unicode_len();
    let mut first: usize = 0;
    let mut end: usize = 0;
    let mut idx: usize = 0;
    for ch in it: s.chars()
        invariant
            it.seq() == s@,
            n == s@.len(),
            idx == it.index(),
            first == first_non_ws(s@.take(it.index() as int)),
            end == end_non_ws(s@.take(it.index() as int)),
    {
        proof {
            let t = s@.take(idx as int + 1);
            assert(t.drop_last() =~= s@.take(idx as int));
            assert(t.last() == ch);
            lemma_trim_bounds(s@.take(idx as int));
        }
        let ws = is_whitespace(ch);
        if first == idx && ws {
            first = idx + 1;
        }
        if !ws {
            end = idx + 1;
        }
        idx = idx + 1;
    }
    proof {
        assert(s@.take(s@.len() as int) =~= s@);
        lemma_trim_bounds(s@);
    }
    if first >= n {
        let r = s.substring_char(0, 0);
        assert(r@ =~= Seq::<char>::empty());
        r
    } else {
        s.substring_char(first, end)
    }
}

// ---------------------------------------------------------------------------
// Searching
// ---------------------------------------------------------------------------

/// The index of the first occurrence of `c` in `s`, or -1.
pub open spec fn first_index_of(s: Seq<char>, c: char) -> int
    decreases s.len(),
{
    if s.len() == 0 {
        -1
    } else {
        let p = first_index_of(s.drop_last(), c);
        if p >= 0 {
            p
        } else if s.last() == c {
            s.len() - 1
        } else {
            -1
        }
    }
}

/// Characterizes `first_index_of`.
pub proof fn lemma_first_index_of(s: Seq<char>, c: char)
    ensures
        -1 <= first_index_of(s, c) < s.len(),
        first_index_of(s, c) >= 0 ==> s[first_index_of(s, c)] == c,
        forall|j: int|
            0 <= j < s.len() && (first_index_of(s, c) == -1 || j < first_index_of(s, c))
                ==> #[trigger] s[j] != c,
    decreases s.len(),
{
    if s.len() > 0 {
        lemma_first_index_of(s.drop_last(), c);
        assert forall|j: int| 0 <= j < s.len() - 1 implies s.drop_last()[j] == s[j] by {}
    }
}

/// The index of the first `c` in `s` (by character), if any.
pub fn find_char(s: &str, c: char) -> (r: Option<usize>)
    ensures
        match r {
            Some(i) => i == first_index_of(s@, c),
            None => first_index_of(s@, c) == -1,
        },
{
    let n = s.unicode_len();
    let mut found: Option<usize> = None;
    let mut idx: usize = 0;
    for ch in it: s.chars()
        invariant
            it.seq() == s@,
            n == s@.len(),
            idx == it.index(),
            match found {
                Some(i) => i == first_index_of(s@.take(it.index() as int), c),
                None => first_index_of(s@.take(it.index() as int), c) == -1,
            },
    {
        proof {
            let t = s@.take(idx as int + 1);
            assert(t.drop_last() =~= s@.take(idx as int));
            assert(t.last() == ch);
        }
        if found.is_none() && ch == c {
            found = Some(idx);
        }
        idx = idx + 1;
    }
    proof {
        assert(s@.take(s@.len() as int) =~= s@);
    }
    found
}

// ---------------------------------------------------------------------------
// Unsigned decimal parsing
// ---------------------------------------------------------------------------

/// Whether `c` is an ASCII digit.
pub open spec fn is_digit(c: char) -> bool {
    '0' <= c && c <= '9'
}

/// The value of an ASCII digit.
pub open spec fn digit_value(c: char) -> nat {
    ((c as u32) - ('0' as u32)) as nat
}

/// A nonempty run of ASCII digits.
pub open spec fn all_digits(s: Seq<char>) -> bool {
    s.len() > 0 && forall|i: int| 0 <= i < s.len() ==> #[trigger] is_digit(s[i])
}

/// The value of a run of decimal digits.
pub open spec fn digits_value(s: Seq<char>) -> nat
    decreases s.len(),
{
    if s.len() == 0 {
        0
    } else {
        digits_value(s.drop_last()) * 10 + digit_value(s.last())
    }
}

/// The digits of an unsigned integer literal: an optional leading `+`.
pub open spec fn unsigned_digits(s: Seq<char>) -> Seq<char> {
    if s.len() > 0 && s[0] == '+' {
        s.drop_first()
    } else {
        s
    }
}

/// `u64::from_str`: an optional `+` then one or more ASCII digits whose
/// value fits in 64 bits.
pub open spec fn spec_parse_u64(s: Seq<char>) -> Option<u64> {
    let d = unsigned_digits(s);
    if all_digits(d) && digits_value(d) <= u64::MAX {
        Some(digits_value(d) as u64)
    } else {
        None
    }
}

proof fn lemma_digits_value_grows(s: Seq<char>, k: int)
    requires
        0 <= k <= s.len(),
    ensures
        digits_value(s.take(k)) <= digits_value(s),
    decreases s.len() - k,
{
    if k < s.len() {
        lemma_digits_value_grows(s, k + 1);
        assert(s.take(k + 1).drop_last() =~= s.take(k));
    } else {
        assert(s.take(k) =~= s);
    }
}

/// Parses an unsigned decimal integer as `u64::from_str` does.
pub fn parse_u64(s: &str) -> (r: Option<u64>)
    ensures
        r == spec_parse_u64(s@),
{
    let n = s.unicode_len();
    let mut skip_plus = false;
    let mut value: u64 = 0;
    let mut idx: usize = 0;
    let ghost d = unsigned_digits(s@);
    for ch in it: s.chars()
        invariant
            it.seq() == s@,
            n == s@.len(),
            idx == it.index(),
            d == unsigned_digits(s@),
            idx > 0 ==> skip_plus == (s@[0] == '+'),
            idx == 0 ==> !skip_plus,
            skip_plus ==> idx >= 1,
            forall|j: int|
                (if skip_plus { 1int } else { 0int }) <= j < idx ==> #[trigger] is_digit(s@[j]),
            value == digits_value(s@.subrange(if skip_plus { 1int } else { 0int }, idx as int)),
    {
        let ghost start: int = if skip_plus { 1 } else { 0 };
        if idx == 0 && ch == '+' {
            skip_plus = true;
            assert(s@.subrange(1, 1) =~= Seq::<char>::empty());
        } else {
            if !('0' <= ch && ch <= '9') {
                proof {
                    assert(!is_digit(s@[idx as int]));
                    if idx == 0 {
                        assert(s@[0] != '+');
                        assert(d == s@);
                    } else {
                        assert(d[idx - start] == s@[idx as int]);
                    }
                }
                return None;
            }
            let dv: u64 = ((ch as u32) - ('0' as u32)) as u64;
            proof {
                let sub = s@.subrange(start, idx as int + 1);
                assert(sub.drop_last() =~= s@.subrange(start, idx as int));
                assert(sub.last() == ch);
            }
            if value > (u64::MAX - dv) / 10 {
                proof {
                    let sub = s@.subrange(start, idx as int + 1);
                    assert(digits_value(sub) > u64::MAX) by (nonlinear_arith)
                        requires
                            digits_value(sub) == value * 10 + dv,
                            value > (u64::MAX - dv) / 10,
                            dv <= 9,
                    ;
                    assert(d =~= s@.subrange(start, n as int));
                    assert(sub =~= d.take(idx - start + 1));
                    lemma_digits_value_grows(d, idx - start + 1);
                }
                return None;
            }
            value = value * 10 + dv;
        }
        idx = idx + 1;
    }
    proof {
        let start: int = if skip_plus { 1 } else { 0 };
        if n > 0 {
            assert(d =~= s@.subrange(start, n as int));
        } else {
            assert(d =~= s@);
        }
    }
    if idx == 0 || (skip_plus && idx == 1) {
        return None;
    }
    Some(value)
}

} // verus!
