//! ffmpeg `-progress` output: `key=value` lines and the decisions about
//! when a progress snapshot is due. Percentages, speed factors and ETAs are
//! floating-point and are computed by the caller from this state.
use vstd::prelude::*;
use crate::text::{first_index_of, find_char, lemma_first_index_of, owned, parse_u64, spec_parse_u64, spec_trim, str_eq, trim};

verus! {

broadcast use vstd::string::group_string_axioms;

/// The key and value of a `key=value` line: both trimmed, split at the first
/// `=`; absent for blank lines, lines without `=` and empty keys.
pub open spec fn spec_parse_kv_line(line: Seq<char>) -> Option<(Seq<char>, Seq<char>)> {
    let t = spec_trim(line);
    let eq = first_index_of(t, '=');
    if t.len() == 0 || eq < 0 {
        None
    } else {
        let k = spec_trim(t.take(eq));
        let v = spec_trim(t.skip(eq + 1));
        if k.len() == 0 {
            None
        } else {
            Some((k, v))
        }
    }
}

/// Splits a `key=value` progress line at its first `=`, trimming the line,
/// the key and the value.
pub fn parse_kv_line(line: &str) -> (r: Option<(&str, &str)>)
    ensures
        match r {
            Some((k, v)) => spec_parse_kv_line(line@) == Some((k@, v@)),
            None => spec_parse_kv_line(line@) is None,
        },
{
    let t = trim(line);
    if t.unicode_len() == 0 {
        return None;
    }
    let eq = match find_char(t, '=') {
        Some(i) => i,
        None => return None,
    };
    proof {
        lemma_first_index_of(t@, '=');
    }
    let n = t.unicode_len();
    let head = t.substring_char(0, eq);
    let tail = t.substring_char(eq + 1, n);
    assert(head@ =~= t@.take(eq as int));
    assert(tail@ =~= t@.skip(eq as int + 1));
    let k = trim(head);
    let v = trim(tail);
    if k.unicode_len() == 0 {
        None
    } else {
        Some((k, v))
    }
}

/// Minimum time between two non-final snapshots.
pub const MIN_EMIT_INTERVAL_MS: u64 = 200;

/// What the progress lines seen so far have established, in integers. Time
/// is measured in milliseconds on a monotonic clock the caller owns.
#[derive(Debug, Clone, PartialEq, Eq)]
pub struct ProgressState {
    /// The media duration the percentage is measured against.
    pub duration_ms: u64,
    /// The output position last reported (the `out_time_*` value / 1000).
    pub out_time_ms: u64,
    /// The last `speed` value, as reported (for example `1.5x`).
    pub speed_text: Option<String>,
    /// The last `total_size` value, when it parsed.
    pub bytes: Option<u64>,
    /// When the last non-final snapshot was emitted.
    pub last_emit_ms: Option<u64>,
}

/// One line's effect on the state: which snapshot, if any, is due.
pub open spec fn spec_emit_due(last_emit_ms: Option<u64>, now_ms: u64) -> bool {
    match last_emit_ms {
        Some(t) => (if now_ms >= t { now_ms - t } else { 0 }) >= MIN_EMIT_INTERVAL_MS,
        None => true,
    }
}

impl ProgressState {
    /// A fresh state for a job of `duration_ms`.
    pub fn new(duration_ms: u64) -> (s: Self)
        ensures
            s.duration_ms == duration_ms,
            s.out_time_ms == 0,
            s.speed_text is None,
            s.bytes is None,
            s.last_emit_ms is None,
    {
        ProgressState {
            duration_ms,
            out_time_ms: 0,
            speed_text: None,
            bytes: None,
            last_emit_ms: None,
        }
    }

    /// Takes one line of ffmpeg progress output seen at `now_ms` and says
    /// whether a snapshot is due: `Some(true)` for the final one (on
    /// `progress=end`, always), `Some(false)` for an intermediate one (on
    /// other `progress` lines, at most once per `MIN_EMIT_INTERVAL_MS`), and
    /// `None` otherwise.
    pub fn ingest(&mut self, line: &str, now_ms: u64) -> (r: Option<bool>)
        ensures
            final(self).duration_ms == old(self).duration_ms,
            spec_parse_kv_line(line@) is None ==> r is None && *final(self) == *old(self),
            spec_parse_kv_line(line@) matches Some((k, v)) ==> {
                if k == "out_time_ms"@ || k == "out_time_us"@ {
                    &&& r is None
                    &&& final(self).out_time_ms == (match spec_parse_u64(v) {
                        Some(us) => us / 1000,
                        None => old(self).out_time_ms,
                    })
                    &&& final(self).speed_text == old(self).speed_text
                    &&& final(self).bytes == old(self).bytes
                    &&& final(self).last_emit_ms == old(self).last_emit_ms
                } else if k == "speed"@ {
                    &&& r is None
                    &&& final(self).speed_text matches Some(t) && t@ == v
                    &&& final(self).out_time_ms == old(self).out_time_ms
                    &&& final(self).bytes == old(self).bytes
                    &&& final(self).last_emit_ms == old(self).last_emit_ms
                } else if k == "total_size"@ {
                    &&& r is None
                    &&& final(self).bytes == spec_parse_u64(v)
                    &&& final(self).out_time_ms == old(self).out_time_ms
                    &&& final(self).speed_text == old(self).speed_text
                    &&& final(self).last_emit_ms == old(self).last_emit_ms
                } else if k == "progress"@ {
                    &&& final(self).out_time_ms == old(self).out_time_ms
                    &&& final(self).speed_text == old(self).speed_text
                    &&& final(self).bytes == old(self).bytes
                    &&& if v == "end"@ {
                        r == Some(true) && final(self).last_emit_ms == old(self).last_emit_ms
                    } else if spec_emit_due(old(self).last_emit_ms, now_ms) {
                        r == Some(false) && final(self).last_emit_ms == Some(now_ms)
                    } else {
                        r is None && final(self).last_emit_ms == old(self).last_emit_ms
                    }
                } else {
                    r is None && *final(self) == *old(self)
                }
            },
    {
        let (k, v) = match parse_kv_line(line) {
            Some(kv) => kv,
            None => return None,
        };
        if str_eq(k, "out_time_ms") || str_eq(k, "out_time_us") {
            if let Some(us) = parse_u64(v) {
                self.out_time_ms = us / 1000;
            }
            None
        } else if str_eq(k, "speed") {
            self.speed_text = Some(owned(v));
            None
        } else if str_eq(k, "total_size") {
            self.bytes = parse_u64(v);
            None
        } else if str_eq(k, "progress") {
            if str_eq(v, "end") {
                return Some(true);
            }
            let due = match self.last_emit_ms {
                Some(t) => {
                    let elapsed = if now_ms >= t { now_ms - t } else { 0 };
                    elapsed >= MIN_EMIT_INTERVAL_MS
                },
                None => true,
            };
            if due {
                self.last_emit_ms = Some(now_ms);
                Some(false)
            } else {
                None
            }
        } else {
            None
        }
    }
}

/// Two intermediate snapshots are never closer together than the minimum
/// interval: once one is emitted at `t`, lines before `t + 200` ms emit none.
pub proof fn lemma_throttle(t: u64, now_ms: u64)
    requires
        now_ms < t + MIN_EMIT_INTERVAL_MS,
    ensures
        !spec_emit_due(Some(t), now_ms),
{
}

} // verus!
