//! The display matrix ffprobe prints beside a stream's rotation: three
//! lines of `offset: a b c` integers, which must be the exact rotation
//! matrix of the reported angle.
use vstd::prelude::*;
use crate::text::{
    first_index_of, find_char, is_whitespace, is_ws, lemma_first_index_of, parse_u64, spec_parse_u64,
    spec_trim, trim, views,
};

verus! {

broadcast use vstd::string::group_string_axioms;

/// The text split at every `\n` (a trailing segment may be empty).
pub open spec fn split_lines(t: Seq<char>) -> Seq<Seq<char>>
    decreases t.len(),
{
    if t.len() == 0 {
        seq![Seq::empty()]
    } else {
        let r = split_lines(t.drop_last());
        if t.last() == '\n' {
            r.push(Seq::empty())
        } else {
            r.update(r.len() - 1, r.last().push(t.last()))
        }
    }
}

proof fn lemma_split_lines_nonempty(t: Seq<char>)
    ensures
        split_lines(t).len() >= 1,
    decreases t.len(),
{
    if t.len() > 0 {
        lemma_split_lines_nonempty(t.drop_last());
    }
}

/// The whitespace-separated tokens of `s` (`str::split_whitespace`).
pub open spec fn ws_tokens(s: Seq<char>) -> Seq<Seq<char>>
    decreases s.len(),
{
    if s.len() == 0 {
        Seq::empty()
    } else {
        let r = ws_tokens(s.drop_last());
        let c = s.last();
        if is_ws(c) {
            r
        } else if s.len() > 1 && !is_ws(s[s.len() - 2]) {
            r.update(r.len() - 1, r.last().push(c))
        } else {
            r.push(seq![c])
        }
    }
}

proof fn lemma_ws_tokens_open(s: Seq<char>)
    ensures
        s.len() > 0 && !is_ws(s.last()) ==> ws_tokens(s).len() > 0,
    decreases s.len(),
{
    if s.len() > 0 {
        lemma_ws_tokens_open(s.drop_last());
    }
}

/// `i64::from_str`: an optional sign then one or more ASCII digits whose
/// value fits in 64 signed bits.
pub open spec fn spec_parse_i64(t: Seq<char>) -> Option<i64> {
    if t.len() > 0 && t[0] == '-' {
        let rest = t.drop_first();
        if rest.len() > 0 && rest[0] == '+' {
            None
        } else {
            match spec_parse_u64(rest) {
                Some(v) => if v <= 0x8000_0000_0000_0000u64 {
                    Some((-(v as int)) as i64)
                } else {
                    None
                },
                None => None,
            }
        }
    } else {
        match spec_parse_u64(t) {
            Some(v) => if v <= 0x7fff_ffff_ffff_ffffu64 {
                Some(v as i64)
            } else {
                None
            },
            None => None,
        }
    }
}

/// Parses a signed decimal integer as `i64::from_str` does.
pub fn parse_i64(t: &str) -> (r: Option<i64>)
    ensures
        r == spec_parse_i64(t@),
{
    let n = t.unicode_len();
    if n > 0 && t.get_char(0) == '-' {
        let rest = t.substring_char(1, n);
        assert(rest@ =~= t@.drop_first());
        if rest.unicode_len() > 0 && rest.get_char(0) == '+' {
            return None;
        }
        match parse_u64(rest) {
            Some(v) => if v <= 0x8000_0000_0000_0000u64 {
                if v == 0x8000_0000_0000_0000u64 {
                    Some(-9223372036854775807i64 - 1)
                } else {
                    Some(-(v as i64))
                }
            } else {
                None
            },
            None => None,
        }
    } else {
        match parse_u64(t) {
            Some(v) => if v <= 0x7fff_ffff_ffff_ffffu64 {
                Some(v as i64)
            } else {
                None
            },
            None => None,
        }
    }
}

/// Splits a text at every `\n`.
fn lines_of(t: &str) -> (r: Vec<String>)
    ensures
        views(r@) == split_lines(t@),
{
    let n = t.unicode_len();
    let mut lines: Vec<String> = Vec::new();
    lines.push(String::new());
    let mut idx: usize = 0;
    assert(t@.take(0) =~= Seq::<char>::empty());
    assert(views(lines@) =~= seq![Seq::<char>::empty()]);
    for ch in it: t.chars()
        invariant
            it.seq() == t@,
            n == t@.len(),
            idx == it.index(),
            views(lines@) == split_lines(t@.take(idx as int)),
            lines@.len() >= 1,
    {
        proof {
            assert(t@.take(idx + 1).drop_last() =~= t@.take(idx as int));
            assert(t@.take(idx + 1).last() == ch);
            lemma_split_lines_nonempty(t@.take(idx as int));
        }
        let ghost before = views(lines@);
        if ch == '\n' {
            lines.push(String::new());
            proof {
                assert(views(lines@) =~= before.push(Seq::<char>::empty()));
            }
        } else {
            let last = lines.len() - 1;
            let mut cur = lines.pop().unwrap();
            crate::text::push_char(&mut cur, ch);
            lines.push(cur);
            proof {
                assert(views(lines@) =~= before.update(last as int, before.last().push(ch)));
            }
        }
        idx = idx + 1;
    }
    assert(t@.take(t@.len() as int) =~= t@);
    lines
}

/// Splits a text into its whitespace-separated tokens.
fn tokens_of(s: &str) -> (r: Vec<String>)
    ensures
        views(r@) == ws_tokens(s@),
{
    let n = s.unicode_len();
    let mut tokens: Vec<String> = Vec::new();
    let mut prev_ws = true;
    let mut idx: usize = 0;
    assert(s@.take(0) =~= Seq::<char>::empty());
    assert(views(tokens@) =~= Seq::<Seq<char>>::empty());
    for ch in it: s.chars()
        invariant
            it.seq() == s@,
            n == s@.len(),
            idx == it.index(),
            views(tokens@) == ws_tokens(s@.take(idx as int)),
            prev_ws == (idx == 0 || is_ws(s@[idx - 1])),
    {
        proof {
            assert(s@.take(idx + 1).drop_last() =~= s@.take(idx as int));
            assert(s@.take(idx + 1).last() == ch);
            lemma_ws_tokens_open(s@.take(idx as int));
            if idx > 0 {
                assert(s@.take(idx as int).last() == s@[idx - 1]);
                assert(s@.take(idx + 1)[idx - 1] == s@[idx - 1]);
            }
        }
        let ghost before = views(tokens@);
        let ws = is_whitespace(ch);
        if !ws {
            if prev_ws {
                let mut t = String::new();
                crate::text::push_char(&mut t, ch);
                tokens.push(t);
                proof {
                    assert(t@ =~= seq![ch]);
                    assert(views(tokens@) =~= before.push(seq![ch]));
                }
            } else {
                let last = tokens.len() - 1;
                let mut cur = tokens.pop().unwrap();
                crate::text::push_char(&mut cur, ch);
                tokens.push(cur);
                proof {
                    assert(views(tokens@) =~= before.update(last as int, before.last().push(ch)));
                }
            }
        }
        prev_ws = ws;
        idx = idx + 1;
    }
    assert(s@.take(s@.len() as int) =~= s@);
    tokens
}

/// The integers of every token, when each parses.
pub open spec fn parse_all(toks: Seq<Seq<char>>) -> Option<Seq<i64>>
    decreases toks.len(),
{
    if toks.len() == 0 {
        Some(Seq::empty())
    } else {
        match (parse_all(toks.drop_last()), spec_parse_i64(toks.last())) {
            (Some(v), Some(x)) => Some(v.push(x)),
            _ => None,
        }
    }
}

proof fn lemma_parse_all_fails(toks: Seq<Seq<char>>, k: int)
    requires
        0 <= k <= toks.len(),
        parse_all(toks.take(k)) is None,
    ensures
        parse_all(toks) is None,
    decreases toks.len() - k,
{
    if k < toks.len() {
        assert(toks.take(k + 1).drop_last() =~= toks.take(k));
        lemma_parse_all_fails(toks, k + 1);
    } else {
        assert(toks.take(k) =~= toks);
    }
}

/// The integers after the first `:` of a matrix line.
pub open spec fn spec_row(line: Seq<char>) -> Option<Seq<i64>> {
    let k = first_index_of(line, ':');
    if k < 0 {
        None
    } else {
        parse_all(ws_tokens(line.subrange(k + 1, line.len() as int)))
    }
}

/// The integers of one matrix line.
#[verifier::loop_isolation(false)]
fn row_of(line: &str) -> (r: Option<Vec<i64>>)
    ensures
        match spec_row(line@) {
            Some(v) => (r matches Some(x) && x@ == v),
            None => r is None,
        },
{
    proof {
        lemma_first_index_of(line@, ':');
    }
    let k = match find_char(line, ':') {
        Some(k) => k,
        None => return None,
    };
    let n = line.unicode_len();
    let rest = line.substring_char(k + 1, n);
    let toks = tokens_of(rest);
    let ghost ts = views(toks@);
    let mut values: Vec<i64> = Vec::new();
    let mut i: usize = 0;
    assert(ts.take(0) =~= Seq::<Seq<char>>::empty());
    while i < toks.len()
        invariant
            ts == views(toks@),
            i <= ts.len(),
            parse_all(ts.take(i as int)) == Some(values@),
        decreases ts.len() - i,
    {
        proof {
            assert(ts.take(i + 1).drop_last() =~= ts.take(i as int));
            assert(ts.take(i + 1).last() == toks@[i as int]@);
        }
        match parse_i64(toks[i].as_str()) {
            Some(x) => {
                values.push(x);
            },
            None => {
                proof {
                    lemma_parse_all_fails(ts, i as int + 1);
                }
                return None;
            },
        }
        i = i + 1;
    }
    assert(ts.take(ts.len() as int) =~= ts);
    Some(values)
}

/// The rows of the non-blank lines, when every such line is a row.
pub open spec fn spec_rows(lines: Seq<Seq<char>>) -> Option<Seq<Seq<i64>>>
    decreases lines.len(),
{
    if lines.len() == 0 {
        Some(Seq::empty())
    } else {
        match spec_rows(lines.drop_last()) {
            None => None,
            Some(rs) => if spec_trim(lines.last()).len() == 0 {
                Some(rs)
            } else {
                match spec_row(lines.last()) {
                    None => None,
                    Some(r) => Some(rs.push(r)),
                }
            },
        }
    }
}

proof fn lemma_rows_fail(lines: Seq<Seq<char>>, k: int)
    requires
        0 <= k <= lines.len(),
        spec_rows(lines.take(k)) is None,
    ensures
        spec_rows(lines) is None,
    decreases lines.len() - k,
{
    if k < lines.len() {
        assert(lines.take(k + 1).drop_last() =~= lines.take(k));
        lemma_rows_fail(lines, k + 1);
    } else {
        assert(lines.take(k) =~= lines);
    }
}

/// The rotation matrix ffprobe prints for an angle, in its fixed-point
/// form, when the angle is a multiple of 90 degrees.
pub open spec fn spec_expected_matrix(angle: Option<i64>) -> Option<Seq<Seq<i64>>> {
    match angle {
        None => None,
        Some(a) => {
            let r = (a as int) % 360;
            let (p, q, s, t) = if r == 0 {
                (65536i64, 0i64, 0i64, 65536i64)
            } else if r == 90 {
                (0i64, -65536i64, 65536i64, 0i64)
            } else if r == 180 {
                (-65536i64, 0i64, 0i64, -65536i64)
            } else {
                (0i64, 65536i64, -65536i64, 0i64)
            };
            if r == 0 || r == 90 || r == 180 || r == 270 {
                Some(seq![seq![p, q, 0i64], seq![s, t, 0i64], seq![0i64, 0i64, 1073741824i64]])
            } else {
                None
            }
        },
    }
}

/// Whether a display matrix (as text, `None` when it is not text) is the
/// exact rotation matrix of the angle.
pub open spec fn spec_valid_display_matrix(matrix: Option<Seq<char>>, angle: Option<i64>) -> bool {
    match matrix {
        None => false,
        Some(t) => match (spec_rows(split_lines(t)), spec_expected_matrix(angle)) {
            (Some(rows), Some(e)) => rows == e,
            _ => false,
        },
    }
}

/// Whether two rows of integers are equal.
#[verifier::loop_isolation(false)]
fn rows_equal(a: &Vec<Vec<i64>>, b: &Vec<Vec<i64>>) -> (r: bool)
    ensures
        r == (a@.map_values(|v: Vec<i64>| v@) == b@.map_values(|v: Vec<i64>| v@)),
{
    if a.len() != b.len() {
        proof {
            if a@.map_values(|v: Vec<i64>| v@) == b@.map_values(|v: Vec<i64>| v@) {
                assert(a@.map_values(|v: Vec<i64>| v@).len() == a@.len());
            }
        }
        return false;
    }
    let mut i: usize = 0;
    while i < a.len()
        invariant
            a@.len() == b@.len(),
            i <= a@.len(),
            forall|j: int| 0 <= j < i ==> (#[trigger] a@[j])@ == b@[j]@,
        decreases a@.len() - i,
    {
        let x = &a[i];
        let y = &b[i];
        if x.len() != y.len() {
            proof {
                assert(a@.map_values(|v: Vec<i64>| v@)[i as int] != b@.map_values(
                    |v: Vec<i64>| v@,
                )[i as int]);
            }
            return false;
        }
        let mut j: usize = 0;
        while j < x.len()
            invariant
                x@.len() == y@.len(),
                j <= x@.len(),
                forall|k: int| 0 <= k < j ==> x@[k] == y@[k],
            decreases x@.len() - j,
        {
            if x[j] != y[j] {
                proof {
                    assert(a@.map_values(|v: Vec<i64>| v@)[i as int] != b@.map_values(
                        |v: Vec<i64>| v@,
                    )[i as int]);
                }
                return false;
            }
            j = j + 1;
        }
        assert(x@ =~= y@);
        i = i + 1;
    }
    assert(a@.map_values(|v: Vec<i64>| v@) =~= b@.map_values(|v: Vec<i64>| v@));
    true
}

/// The expected matrix, computed.
fn expected_matrix(angle: Option<i64>) -> (r: Option<Vec<Vec<i64>>>)
    ensures
        match spec_expected_matrix(angle) {
            Some(e) => (r matches Some(x) && x@.map_values(|v: Vec<i64>| v@) == e),
            None => r is None,
        },
{
    let a = match angle {
        Some(a) => a,
        None => return None,
    };
    let r: i64 = if a >= 0 {
        a % 360
    } else {
        let m = (-(a as i128)) % 360;
        let m64 = m as i64;
        if m64 == 0 {
            0
        } else {
            360 - m64
        }
    };
    proof {
        let ai = a as int;
        if a < 0 {
            let m = (-ai) % 360;
            vstd::arithmetic::div_mod::lemma_fundamental_div_mod(-ai, 360);
            let q = (-ai) / 360;
            if m == 0 {
                vstd::arithmetic::div_mod::lemma_fundamental_div_mod_converse(ai, 360, -q, 0);
            } else {
                vstd::arithmetic::div_mod::lemma_fundamental_div_mod_converse(
                    ai,
                    360,
                    -q - 1,
                    360 - m,
                );
            }
        }
        assert(r as int == ai % 360);
    }
    let (p, q, s, t) = if r == 0 {
        (65536i64, 0i64, 0i64, 65536i64)
    } else if r == 90 {
        (0i64, -65536i64, 65536i64, 0i64)
    } else if r == 180 {
        (-65536i64, 0i64, 0i64, -65536i64)
    } else if r == 270 {
        (0i64, 65536i64, -65536i64, 0i64)
    } else {
        return None;
    };
    let v = vec![vec![p, q, 0i64], vec![s, t, 0i64], vec![0i64, 0i64, 1073741824i64]];
    assert(v@.map_values(|v: Vec<i64>| v@) =~= seq![
        seq![p, q, 0i64],
        seq![s, t, 0i64],
        seq![0i64, 0i64, 1073741824i64],
    ]);
    Some(v)
}

/// Whether a display matrix is the exact rotation matrix of the angle.
#[verifier::loop_isolation(false)]
pub fn valid_display_matrix(matrix: Option<&str>, angle: Option<i64>) -> (r: bool)
    ensures
        r == spec_valid_display_matrix(crate::subtitle::opt_view(matrix), angle),
{
    let text = match matrix {
        Some(t) => t,
        None => return false,
    };
    let lines = lines_of(text);
    let ghost ls = views(lines@);
    let mut rows: Vec<Vec<i64>> = Vec::new();
    let mut i: usize = 0;
    assert(ls.take(0) =~= Seq::<Seq<char>>::empty());
    assert(rows@.map_values(|v: Vec<i64>| v@) =~= Seq::<Seq<i64>>::empty());
    while i < lines.len()
        invariant
            ls == views(lines@),
            i <= ls.len(),
            spec_rows(ls.take(i as int)) == Some(rows@.map_values(|v: Vec<i64>| v@)),
        decreases ls.len() - i,
    {
        proof {
            assert(ls.take(i + 1).drop_last() =~= ls.take(i as int));
            assert(ls.take(i + 1).last() == lines@[i as int]@);
        }
        let line = lines[i].as_str();
        if trim(line).unicode_len() > 0 {
            match row_of(line) {
                Some(r) => {
                    let ghost before = rows@;
                    rows.push(r);
                    proof {
                        assert(rows@.map_values(|v: Vec<i64>| v@) =~= before.map_values(
                            |v: Vec<i64>| v@,
                        ).push(r@));
                    }
                },
                None => {
                    proof {
                        lemma_rows_fail(ls, i as int + 1);
                    }
                    return false;
                },
            }
        }
        i = i + 1;
    }
    assert(ls.take(ls.len() as int) =~= ls);
    match expected_matrix(angle) {
        Some(e) => rows_equal(&rows, &e),
        None => false,
    }
}

} // verus!
