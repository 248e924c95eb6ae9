//! The target-size search of image compression: qualities are tried from
//! 100 down to 1, the first final candidate that fits the requested size
//! wins, and when none fits the smallest size attempted is reported. Each
//! candidate is encoded with its final bytes, so no size monotonicity is
//! assumed; the encoder's answers are handed in.
use vstd::prelude::*;
use crate::error::GoopError;
use crate::text::{decimal, decimal_string, owned, push_str};

verus! {

/// The number of qualities the search tries.
pub const TARGET_SEARCH_ATTEMPTS: u8 = 100;

/// What to do after one candidate was encoded.
#[derive(Debug, Clone, Copy, PartialEq, Eq, Structural)]
pub enum SearchStep {
    /// The candidate fits: its quality, and how many were encoded.
    Fits { quality: u8, attempts: u8 },
    /// It does not: the quality to try next and the smallest size so far.
    Next { quality: u8, smallest: u64 },
    /// No quality fits: the smallest size attempted.
    Exhausted { smallest: u64 },
}

/// The smaller of two sizes.
pub open spec fn min_size(a: u64, b: u64) -> u64 {
    if a <= b {
        a
    } else {
        b
    }
}

/// The step after the candidate of attempt `attempted` (quality
/// `100 - attempted`) came to `size` bytes, with `smallest` the smallest
/// earlier size.
pub open spec fn spec_search_step(attempted: u8, size: u64, target: u64, smallest: u64) -> SearchStep {
    if size <= target {
        SearchStep::Fits { quality: (100 - attempted) as u8, attempts: (attempted + 1) as u8 }
    } else if attempted + 1 == 100 {
        SearchStep::Exhausted { smallest: min_size(smallest, size) }
    } else {
        SearchStep::Next { quality: (99 - attempted) as u8, smallest: min_size(smallest, size) }
    }
}

/// The step after one encoded candidate.
pub fn target_search_step(attempted: u8, size: u64, target: u64, smallest: u64) -> (r: SearchStep)
    requires
        attempted < 100,
    ensures
        r == spec_search_step(attempted, size, target, smallest),
{
    let least = if smallest <= size {
        smallest
    } else {
        size
    };
    if size <= target {
        SearchStep::Fits { quality: 100 - attempted, attempts: attempted + 1 }
    } else if attempted + 1 == 100 {
        SearchStep::Exhausted { smallest: least }
    } else {
        SearchStep::Next { quality: 99 - attempted, smallest: least }
    }
}

/// Whether `sizes` is what the search can encode: the sizes of qualities
/// 100, 99, ... in order, every one but the last over `target`, and the
/// last within it unless all 100 were tried.
pub open spec fn is_search_sequence(sizes: Seq<u64>, target: u64) -> bool {
    &&& 0 < sizes.len() <= 100
    &&& forall|i: int| 0 <= i < sizes.len() - 1 ==> #[trigger] sizes[i] > target
    &&& sizes.last() > target ==> sizes.len() == 100
}

/// The smallest of the sizes (`u64::MAX` for none).
pub open spec fn smallest_of(sizes: Seq<u64>) -> u64
    decreases sizes.len(),
{
    if sizes.len() == 0 {
        u64::MAX
    } else {
        min_size(smallest_of(sizes.drop_last()), sizes.last())
    }
}

/// The outcome of a search that encoded `sizes`: the fitting quality and
/// the number of attempts, or the smallest size attempted.
pub open spec fn spec_search_outcome(sizes: Seq<u64>, target: u64) -> Result<(u8, u8), u64> {
    if sizes.last() <= target {
        Ok(((101 - sizes.len()) as u8, sizes.len() as u8))
    } else {
        Err(smallest_of(sizes))
    }
}

/// The outcome of a search from the sizes it encoded, taking each step in
/// turn.
pub fn target_search_outcome(sizes: &Vec<u64>, target: u64) -> (r: Result<(u8, u8), u64>)
    requires
        is_search_sequence(sizes@, target),
    ensures
        r == spec_search_outcome(sizes@, target),
{
    let mut attempted: u8 = 0;
    let mut smallest: u64 = u64::MAX;
    loop
        invariant
            is_search_sequence(sizes@, target),
            attempted < sizes@.len(),
            smallest == smallest_of(sizes@.take(attempted as int)),
        decreases sizes@.len() - attempted,
    {
        let size = sizes[attempted as usize];
        proof {
            assert(sizes@.take(attempted + 1).drop_last() =~= sizes@.take(attempted as int));
        }
        match target_search_step(attempted, size, target, smallest) {
            SearchStep::Fits { quality, attempts } => {
                return Ok((quality, attempts));
            },
            SearchStep::Exhausted { smallest: s } => {
                assert(sizes@.take(100) =~= sizes@);
                return Err(s);
            },
            SearchStep::Next { quality: _, smallest: s } => {
                smallest = s;
                attempted = attempted + 1;
            },
        }
    }
}

/// The refusal when no quality fits the requested size.
pub open spec fn target_size_message(target: u64, smallest: u64) -> Seq<char> {
    "target size requested "@ + decimal(target as nat) + " bytes; smallest attempted final size was "@
        + decimal(smallest as nat) + " bytes after 100 attempts"@
}

/// The refusal when no quality fits: an image failure naming the request
/// and the smallest size attempted.
pub fn target_size_failure(target: u64, smallest: u64) -> (e: GoopError)
    ensures
        e matches GoopError::SubprocessFailed { binary, stderr } && binary@ == "image"@ && stderr@
            == target_size_message(target, smallest),
{
    let mut m = owned("target size requested ");
    let t = decimal_string(target);
    push_str(&mut m, t.as_str());
    push_str(&mut m, " bytes; smallest attempted final size was ");
    let s = decimal_string(smallest);
    push_str(&mut m, s.as_str());
    push_str(&mut m, " bytes after 100 attempts");
    GoopError::SubprocessFailed { binary: owned("image"), stderr: m }
}

} // verus!
