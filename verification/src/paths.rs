//! File-name components: the final component of a path, its stem and its
//! extension.
use vstd::prelude::*;
use crate::text::{owned, push_char};

verus! {

broadcast use vstd::string::group_string_axioms;

/// The final component of a path as `std::path::Path::file_name` reports it.
pub uninterp spec fn spec_file_name(path: Seq<char>) -> Option<Seq<char>>;

/// `Path::file_name` of a path given as UTF-8 text.
#[verifier::external_body]
pub(crate) fn file_name(path: &str) -> (r: Option<String>)
    ensures
        match r {
            Some(n) => spec_file_name(path@) == Some(n@),
            None => spec_file_name(path@) is None,
        },
{
    std::path::Path::new(path).file_name().map(|n| n.to_string_lossy().into_owned())
}

/// The index of the last occurrence of `c` in `s`, or -1.
pub open spec fn last_index_of(s: Seq<char>, c: char) -> int
    decreases s.len(),
{
    if s.len() == 0 {
        -1
    } else if s.last() == c {
        s.len() - 1
    } else {
        last_index_of(s.drop_last(), c)
    }
}

proof fn lemma_last_index_bounds(s: Seq<char>, c: char)
    ensures
        -1 <= last_index_of(s, c) < s.len(),
        last_index_of(s, c) >= 0 ==> s[last_index_of(s, c)] == c,
        forall|j: int| last_index_of(s, c) < j < s.len() ==> s[j] != c,
    decreases s.len(),
{
    if s.len() > 0 && s.last() != c {
        lemma_last_index_bounds(s.drop_last(), c);
        assert forall|j: int| last_index_of(s, c) < j < s.len() implies s[j] != c by {
            if j < s.len() - 1 {
                assert(s.drop_last()[j] == s[j]);
            }
        }
    }
}

/// The stem of a file name: the part before the last `.`, or the whole name
/// when it has no `.` other than a leading one.
pub open spec fn spec_stem_of_name(name: Seq<char>) -> Seq<char> {
    let i = last_index_of(name, '.');
    if i <= 0 {
        name
    } else {
        name.take(i)
    }
}

/// The extension of a file name: the part after the last `.`, absent when
/// the name has no `.` other than a leading one.
pub open spec fn spec_extension_of_name(name: Seq<char>) -> Option<Seq<char>> {
    let i = last_index_of(name, '.');
    if i <= 0 {
        None
    } else {
        Some(name.skip(i + 1))
    }
}

/// The file stem of a path (`Path::file_stem`).
pub open spec fn spec_file_stem(path: Seq<char>) -> Option<Seq<char>> {
    match spec_file_name(path) {
        Some(name) => Some(spec_stem_of_name(name)),
        None => None,
    }
}

/// The extension of a path (`Path::extension`).
pub open spec fn spec_path_extension(path: Seq<char>) -> Option<Seq<char>> {
    match spec_file_name(path) {
        Some(name) => spec_extension_of_name(name),
        None => None,
    }
}

/// Index of the last `c` in `s` (by character), if any.
pub fn rfind_char(s: &str, c: char) -> (r: Option<usize>)
    ensures
        match r {
            Some(i) => i == last_index_of(s@, c),
            None => last_index_of(s@, c) == -1,
        },
{
    let n = s.unicode_len();
    let mut last: Option<usize> = None;
    let mut idx: usize = 0;
    for ch in it: s.chars()
        invariant
            it.seq() == s@,
            n == s@.len(),
            idx == it.index(),
            match last {
                Some(i) => i == last_index_of(s@.take(it.index() as int), c),
                None => last_index_of(s@.take(it.index() as int), c) == -1,
            },
    {
        proof {
            let t = s@.take(idx as int + 1);
            assert(t.drop_last() =~= s@.take(idx as int));
            assert(t.last() == ch);
        }
        if ch == c {
            last = Some(idx);
        }
        idx = idx + 1;
    }
    proof {
        assert(s@.take(s@.len() as int) =~= s@);
    }
    last
}

/// The characters of `s` in `[from, to)`, as an owned string.
pub fn char_range(s: &str, from: usize, to: usize) -> (r: String)
    requires
        from <= to <= s@.len(),
    ensures
        r@ == s@.subrange(from as int, to as int),
{
    let n = s.unicode_len();
    let mut out = String::new();
    let mut idx: usize = 0;
    for ch in it: s.chars()
        invariant
            it.seq() == s@,
            n == s@.len(),
            from <= to <= s@.len(),
            idx == it.index(),
            out@ == s@.subrange(
                if from < idx { from as int } else { idx as int },
                if to < idx { to as int } else { idx as int },
            ),
    {
        let ghost lo = if from < idx { from as int } else { idx as int };
        let ghost hi = if to < idx { to as int } else { idx as int };
        if from <= idx && idx < to {
            push_char(&mut out, ch);
            proof {
                assert(s@.subrange(lo, hi + 1) =~= s@.subrange(lo, hi).push(ch));
            }
        } else {
            proof {
                if idx < from {
                    assert(s@.subrange(idx as int + 1, idx as int + 1) =~= s@.subrange(
                        idx as int,
                        idx as int,
                    ));
                }
            }
        }
        idx = idx + 1;
    }
    out
}

/// The stem of a file name.
pub fn stem_of_name(name: &str) -> (r: String)
    ensures
        r@ == spec_stem_of_name(name@),
{
    proof {
        lemma_last_index_bounds(name@, '.');
    }
    match rfind_char(name, '.') {
        Some(i) if i > 0 => {
            let r = char_range(name, 0, i);
            assert(name@.subrange(0, i as int) =~= name@.take(i as int));
            r
        },
        _ => owned(name),
    }
}

/// The extension of a file name.
pub fn extension_of_name(name: &str) -> (r: Option<String>)
    ensures
        match r {
            Some(e) => spec_extension_of_name(name@) == Some(e@),
            None => spec_extension_of_name(name@) is None,
        },
{
    proof {
        lemma_last_index_bounds(name@, '.');
    }
    match rfind_char(name, '.') {
        Some(i) if i > 0 => {
            let len = name.unicode_len();
            let r = char_range(name, i + 1, len);
            assert(name@.subrange(i as int + 1, name@.len() as int) =~= name@.skip(i as int + 1));
            Some(r)
        },
        _ => None,
    }
}

/// The extension of a path given as text (`Path::extension`).
pub fn path_extension(path: &str) -> (r: Option<String>)
    ensures
        match r {
            Some(e) => spec_path_extension(path@) == Some(e@),
            None => spec_path_extension(path@) is None,
        },
{
    match file_name(path) {
        Some(name) => extension_of_name(name.as_str()),
        None => None,
    }
}

/// The file stem of a path given as text (`Path::file_stem`).
pub fn path_stem(path: &str) -> (r: Option<String>)
    ensures
        match r {
            Some(e) => spec_file_stem(path@) == Some(e@),
            None => spec_file_stem(path@) is None,
        },
{
    match file_name(path) {
        Some(name) => Some(stem_of_name(name.as_str())),
        None => None,
    }
}

} // verus!
