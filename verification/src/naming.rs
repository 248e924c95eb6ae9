//! Output file names: the stem of an input path, and a collision-free
//! output path beside existing files.
use vstd::prelude::*;
use crate::paths::{path_stem, spec_file_stem};
use crate::text::{decimal, decimal_string, owned, push_str};

verus! {

/// The stem of `input_path`, or `output` when it has none.
pub open spec fn spec_stem_of(input_path: Seq<char>) -> Seq<char> {
    match spec_file_stem(input_path) {
        Some(stem) => stem,
        None => "output"@,
    }
}

/// The file stem of `input_path` (its file name without the last
/// extension), falling back to `output` when the path has no file name.
pub fn stem_of(input_path: &str) -> (r: String)
    ensures
        r@ == spec_stem_of(input_path@),
{
    match path_stem(input_path) {
        Some(s) => s,
        None => owned("output"),
    }
}

/// `dir` joined with `name` as `std::path::Path::join` forms it.
pub uninterp spec fn spec_join(dir: Seq<char>, name: Seq<char>) -> Seq<char>;

/// `Path::join`, for paths given as text.
#[verifier::external_body]
pub(crate) fn join_path(dir: &str, name: &str) -> (r: String)
    ensures
        r@ == spec_join(dir@, name@),
{
    std::path::Path::new(dir).join(name).to_string_lossy().into_owned()
}

/// `Path::exists`: whether something is at `path` right now. Nothing is
/// promised of the answer, which depends on the file system.
#[verifier::external_body]
fn path_exists(path: &str) -> bool {
    std::path::Path::new(path).exists()
}

/// The `n`-th candidate file name: `stem.ext`, then `stem (n).ext`.
pub open spec fn spec_candidate_name(stem: Seq<char>, ext: Seq<char>, n: nat) -> Seq<char> {
    if n == 0 {
        stem + "."@ + ext
    } else {
        stem + " ("@ + decimal(n) + ")."@ + ext
    }
}

/// The `n`-th candidate file name.
pub fn candidate_name(stem: &str, ext: &str, n: u64) -> (r: String)
    ensures
        r@ == spec_candidate_name(stem@, ext@, n as nat),
{
    let mut name = owned(stem);
    if n == 0 {
        push_str(&mut name, ".");
    } else {
        push_str(&mut name, " (");
        let digits = decimal_string(n);
        push_str(&mut name, digits.as_str());
        push_str(&mut name, ").");
    }
    push_str(&mut name, ext);
    name
}

/// The number of numbered candidates tried after the plain name.
pub const MAX_NUMBERED_CANDIDATES: u64 = 9_999;

/// What to do after checking whether candidate `n` is taken: use a
/// candidate, or go on to try another.
#[derive(Debug, Clone, Copy, PartialEq, Eq, Structural)]
pub enum CandidateStep {
    Use(u64),
    Try(u64),
}

/// The step after candidate `n` was found taken (`taken`) or free: a free
/// candidate is used; a taken one leads to the next, and after the last
/// numbered candidate back to the plain name.
pub open spec fn spec_next_candidate(n: u64, taken: bool) -> CandidateStep {
    if !taken {
        CandidateStep::Use(n)
    } else if n < MAX_NUMBERED_CANDIDATES {
        CandidateStep::Try((n + 1) as u64)
    } else {
        CandidateStep::Use(0)
    }
}

/// The step after checking candidate `n`.
pub fn next_candidate(n: u64, taken: bool) -> (r: CandidateStep)
    requires
        n <= MAX_NUMBERED_CANDIDATES,
    ensures
        r == spec_next_candidate(n, taken),
{
    if !taken {
        CandidateStep::Use(n)
    } else if n < MAX_NUMBERED_CANDIDATES {
        CandidateStep::Try(n + 1)
    } else {
        CandidateStep::Use(0)
    }
}

/// The candidate chosen from the answers `taken[k]` of checking
/// candidates `k = 0, 1, ...` in order: the first one found free among
/// candidates `0..=9999`, else the plain name (candidate 0).
pub open spec fn spec_first_free(taken: Seq<bool>, k: nat) -> nat
    decreases MAX_NUMBERED_CANDIDATES + 1 - k,
{
    if k > MAX_NUMBERED_CANDIDATES || k >= taken.len() {
        0
    } else if !taken[k as int] {
        k
    } else {
        spec_first_free(taken, k + 1)
    }
}

/// Chooses a candidate from the answers `taken[k]` of checking candidates
/// `k = 0, 1, ...` in order: the first free one, else the plain name.
pub fn pick_candidate(taken: &Vec<bool>) -> (r: u64)
    ensures
        r == spec_first_free(taken@, 0),
{
    let mut n: u64 = 0;
    while (n as usize) < taken.len()
        invariant
            n <= MAX_NUMBERED_CANDIDATES,
            spec_first_free(taken@, 0) == spec_first_free(taken@, n as nat),
        decreases MAX_NUMBERED_CANDIDATES + 1 - n,
    {
        match next_candidate(n, taken[n as usize]) {
            CandidateStep::Use(k) => {
                proof {
                    if taken@[n as int] {
                        assert(spec_first_free(taken@, (n + 1) as nat) == 0);
                    }
                }
                return k;
            },
            CandidateStep::Try(m) => {
                n = m;
            },
        }
    }
    0
}

/// Whether `answers` is what checking candidates `0, 1, ...` in order can
/// give: every answer but the last says taken, and the last says free
/// unless all 10000 candidates were checked.
pub open spec fn is_probe_sequence(answers: Seq<bool>) -> bool {
    &&& 0 < answers.len() <= MAX_NUMBERED_CANDIDATES + 1
    &&& forall|i: int| 0 <= i < answers.len() - 1 ==> #[trigger] answers[i]
    &&& answers.last() ==> answers.len() == MAX_NUMBERED_CANDIDATES + 1
}

/// A path in `dir` for a new `stem.ext` file: the plain name when nothing is
/// there, else the first free `stem (n).ext` for `n` in 1..=9999, else the
/// plain name again. The candidates are checked in order until one is free
/// (`next_candidate`), and the candidate is chosen from the answers the
/// file system gave (`pick_candidate`). The answers themselves depend on
/// the disk, so they are stated only as some sequence checking can give.
pub fn allocate_output_path(dir: &str, stem: &str, ext: &str) -> (r: String)
    ensures
        exists|answers: Seq<bool>|
            is_probe_sequence(answers) && r@ == #[trigger] spec_join(
                dir@,
                spec_candidate_name(stem@, ext@, spec_first_free(answers, 0)),
            ),
{
    let mut answers: Vec<bool> = Vec::new();
    let mut n: u64 = 0;
    loop
        invariant_except_break
            n <= MAX_NUMBERED_CANDIDATES,
            answers@.len() == n,
            forall|i: int| 0 <= i < answers@.len() ==> #[trigger] answers@[i],
        ensures
            is_probe_sequence(answers@),
        decreases MAX_NUMBERED_CANDIDATES + 1 - n,
    {
        let candidate = join_path(dir, candidate_name(stem, ext, n).as_str());
        let taken = path_exists(candidate.as_str());
        answers.push(taken);
        match next_candidate(n, taken) {
            CandidateStep::Use(_) => {
                break;
            },
            CandidateStep::Try(m) => {
                n = m;
            },
        }
    }
    let k = pick_candidate(&answers);
    let chosen = join_path(dir, candidate_name(stem, ext, k).as_str());
    assert(is_probe_sequence(answers@) && chosen@ == spec_join(
        dir@,
        spec_candidate_name(stem@, ext@, spec_first_free(answers@, 0)),
    ));
    chosen
}

proof fn lemma_first_free_from(a: Seq<bool>, k: nat)
    requires
        is_probe_sequence(a),
        k <= a.len() - 1,
    ensures
        spec_first_free(a, k) == (if !a.last() { (a.len() - 1) as nat } else { 0nat }),
    decreases a.len() - k,
{
    if k < a.len() - 1 {
        assert(a[k as int]);
        lemma_first_free_from(a, k + 1);
    } else {
        if a.last() {
            assert(spec_first_free(a, k + 1) == 0);
        }
    }
}

/// Of the answers checking can give, the choice is the candidate last
/// checked when it was found free (every earlier one being taken), and the
/// plain name when all 10000 were taken.
pub proof fn lemma_probe_choice(answers: Seq<bool>)
    requires
        is_probe_sequence(answers),
    ensures
        !answers.last() ==> spec_first_free(answers, 0) == answers.len() - 1 && forall|j: int|
            0 <= j < answers.len() - 1 ==> #[trigger] answers[j],
        answers.last() ==> spec_first_free(answers, 0) == 0 && answers.len()
            == MAX_NUMBERED_CANDIDATES + 1 && forall|j: int| 0 <= j < answers.len() ==> #[trigger] answers[j],
{
    lemma_first_free_from(answers, 0);
}

} // verus!
