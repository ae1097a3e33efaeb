use vstd::prelude::*;
use vstd::string::StrSliceExecFns;
use crate::errors::DownloadError;

verus! {

pub const SECONDS_IN_DAY: u32 = 86_400;

/// A recurring daily interval, both bounds in seconds of the day.
/// When `start > end` the window wraps past midnight.
#[derive(Debug, Clone)]
pub struct TimeRange {
    pub start: u32,
    pub end: u32,
}

/// Membership of a second-of-day in the window, wrap included.
pub open spec fn spec_in_range(start: u32, end: u32, now: u32) -> bool {
    if start <= end {
        start < now && now < end
    } else {
        now > start || now < end
    }
}

/// What a bound on the day must satisfy: a second of the day.
pub open spec fn valid_second(s: u32) -> bool {
    s < 86_400
}

impl TimeRange {
    pub open spec fn wf(&self) -> bool {
        valid_second(self.start) && valid_second(self.end)
    }

    /// True exactly when `now` lies inside the window. For `start <= end`
    /// this is `start < now < end`; for a wrapping window it is
    /// `now > start || now < end`.
    pub fn is_in_time_range(&self, now: u32) -> (r: bool)
        requires
            self.wf(),
            valid_second(now),
        ensures
            r == spec_in_range(self.start, self.end, now),
    {
        let mut now_adjusted = now;
        let mut time_end = self.end;
        if self.start > self.end {
            if time_end > now_adjusted {
                now_adjusted = now_adjusted + SECONDS_IN_DAY;
            }
            time_end = time_end + SECONDS_IN_DAY;
        }
        self.start < now_adjusted && time_end > now_adjusted
    }

    /// Consults the wall clock and tests membership for this moment:
    /// whatever second the clock returned, the answer is the membership
    /// of that second.
    pub fn now_in_range(&self) -> (r: bool)
        requires
            self.wf(),
        ensures
            exists|n: u32| n < 86_400 && r == spec_in_range(self.start, self.end, n),
    {
        let now = now_seconds_of_day();
        let r = self.is_in_time_range(now);
        proof {
            assert(now < 86_400 && r == spec_in_range(self.start, self.end, now));
        }
        r
    }
}

/// The go-on test over an optional window: absence means "always proceed".
pub trait TimedDownload {
    fn should_coutinue(&self) -> bool;
}

impl TimedDownload for Option<TimeRange> {
    fn should_coutinue(&self) -> (r: bool)
        ensures
            self is None ==> r,
            self matches Some(w) ==> ({
                &&& !w.wf() ==> !r
                &&& w.wf() ==> exists|n: u32|
                    n < 86_400 && r == spec_in_range(w.start, w.end, n)
            }),
    {
        match self {
            Some(range) => {
                if range.start >= SECONDS_IN_DAY || range.end >= SECONDS_IN_DAY {
                    // a window with bounds outside the day never opens
                    return false;
                }
                range.now_in_range()
            },
            None => true,
        }
    }
}

/// The go-on decision at a given second of the day: without a window
/// the answer is always yes; with one, only while the window is open.
pub fn should_continue_at(window: &Option<TimeRange>, now: u32) -> (r: bool)
    requires
        valid_second(now),
        window matches Some(w) ==> w.wf(),
    ensures
        r == match window {
            Some(w) => spec_in_range(w.start, w.end, now),
            None => true,
        },
{
    match window {
        Some(range) => range.is_in_time_range(now),
        None => true,
    }
}

/// What `parse_time` reads out of one bound of the window string.
pub uninterp spec fn parsed_time_of_day(s: Seq<char>, fmt: Seq<char>) -> Option<u32>;

/// Relies on chrono::NaiveTime::parse_from_str and num_seconds_from_midnight:
/// the parse depends on the input and format alone, and the number of
/// non-leap seconds since midnight is below 86_400.
#[verifier::external_body]
fn parse_time_of_day(s: &str, fmt: &str) -> (r: Option<u32>)
    ensures
        r == parsed_time_of_day(s@, fmt@),
        r matches Some(x) ==> x < 86_400,
{
    match chrono::NaiveTime::parse_from_str(s, fmt) {
        Ok(t) => Some(chrono::Timelike::num_seconds_from_midnight(&t)),
        Err(_) => None,
    }
}

/// Relies on chrono::Local::now: the seconds since the last local midnight,
/// always below 86_400; the value depends on the moment of the call.
#[verifier::external_body]
pub fn now_seconds_of_day() -> (r: u32)
    ensures
        r < 86_400,
{
    chrono::Timelike::num_seconds_from_midnight(&chrono::Local::now().time())
}

/// The first index where `c` occurs in `s`, if any.
pub open spec fn first_index(s: Seq<char>, c: char) -> Option<int>
    decreases s.len(),
{
    if s.len() == 0 {
        None
    } else if s[0] == c {
        Some(0)
    } else {
        match first_index(s.drop_first(), c) {
            Some(i) => Some(i + 1),
            None => None,
        }
    }
}

pub proof fn lemma_first_index(s: Seq<char>, c: char)
    ensures
        match first_index(s, c) {
            Some(i) => 0 <= i < s.len() && s[i] == c && forall|j: int| 0 <= j < i ==> s[j] != c,
            None => forall|j: int| 0 <= j < s.len() ==> s[j] != c,
        },
    decreases s.len(),
{
    if s.len() > 0 && s[0] != c {
        let t = s.drop_first();
        lemma_first_index(t, c);
        match first_index(t, c) {
            Some(i) => {
                assert(s[i + 1] == c) by {
                    assert(t[i] == s[i + 1]);
                }
                assert forall|j: int| 0 <= j < i + 1 implies s[j] != c by {
                    if j > 0 {
                        assert(t[j - 1] == s[j]);
                        assert(t[j - 1] != c);
                    }
                }
            },
            None => {
                assert forall|j: int| 0 <= j < s.len() implies s[j] != c by {
                    if j > 0 {
                        assert(t[j - 1] == s[j]);
                        assert(t[j - 1] != c);
                    }
                }
            },
        }
    }
}

/// The first two `sep`-separated fields of `s`: the text before the first
/// separator, and, when a separator exists, the text between the first
/// separator and the second one (or the end).
pub open spec fn spec_fields2(s: Seq<char>, sep: char) -> (Seq<char>, Option<Seq<char>>) {
    match first_index(s, sep) {
        None => (s, None),
        Some(i) => {
            let rest = s.skip(i + 1);
            match first_index(rest, sep) {
                None => (s.take(i), Some(rest)),
                Some(j) => (s.take(i), Some(rest.take(j))),
            }
        },
    }
}

/// The window string parsed as `start-end`, each bound read with the
/// 24-hour format. `Ok` exactly when a separator exists and both fields
/// parse as times of day.
pub open spec fn spec_parse_time(s: Seq<char>) -> Result<TimeRange, DownloadError> {
    let (a, b) = spec_fields2(s, '-');
    match b {
        None => Err(DownloadError::InvalidTimer),
        Some(bf) => match (
            parsed_time_of_day(a, "%H:%M:%S"@),
            parsed_time_of_day(bf, "%H:%M:%S"@),
        ) {
            (Some(start), Some(end)) => Ok(TimeRange { start, end }),
            _ => Err(DownloadError::InvalidTimer),
        },
    }
}

/// The character index of the first `c` at or after `from`, if any.
pub(crate) fn find_char(s: &str, c: char, from: usize) -> (r: Option<usize>)
    requires
        from <= s@.len(),
    ensures
        match r {
            Some(i) => from <= i < s@.len() && s@[i as int] == c && forall|j: int|
                from <= j < i ==> s@[j] != c,
            None => forall|j: int| from <= j < s@.len() ==> s@[j] != c,
        },
{
    let len = s.unicode_len();
    let mut i = from;
    while i < len
        invariant
            from <= i <= len,
            len == s@.len(),
            forall|j: int| from <= j < i ==> s@[j] != c,
        decreases len - i,
    {
        if s.get_char(i) == c {
            return Some(i);
        }
        i = i + 1;
    }
    None
}

pub proof fn lemma_first_index_at(s: Seq<char>, c: char, i: int)
    requires
        0 <= i < s.len(),
        s[i] == c,
        forall|j: int| 0 <= j < i ==> s[j] != c,
    ensures
        first_index(s, c) == Some(i),
{
    lemma_first_index(s, c);
    match first_index(s, c) {
        Some(k) => {
            if k < i {
                assert(s[k] != c);
            }
            if k > i {
                assert(s[i] != c);
            }
        },
        None => {
            assert(s[i] != c);
        },
    }
}

pub proof fn lemma_first_index_none(s: Seq<char>, c: char)
    requires
        forall|j: int| 0 <= j < s.len() ==> s[j] != c,
    ensures
        first_index(s, c) is None,
{
    lemma_first_index(s, c);
    match first_index(s, c) {
        Some(k) => {
            assert(s[k] == c);
        },
        None => {},
    }
}

/// Parses a window string `HH:MM:SS-HH:MM:SS`; both bounds are seconds
/// of the day, so the result is always well-formed.
pub fn parse_time(input: &str) -> (r: Result<TimeRange, DownloadError>)
    ensures
        r == spec_parse_time(input@),
        r matches Ok(tr) ==> tr.wf(),
{
    let len = input.unicode_len();
    let first_sep = find_char(input, '-', 0);
    match first_sep {
        None => {
            proof {
                lemma_first_index_none(input@, '-');
            }
            Err(DownloadError::InvalidTimer)
        },
        Some(i) => {
            proof {
                lemma_first_index_at(input@, '-', i as int);
            }
            let a = input.substring_char(0, i);
            let rest = input.substring_char(i + 1, len);
            proof {
                assert(input@.skip(i as int + 1) =~= rest@);
                assert(input@.take(i as int) =~= a@);
            }
            let second_sep = find_char(rest, '-', 0);
            let b = match second_sep {
                None => {
                    proof {
                        lemma_first_index_none(rest@, '-');
                    }
                    rest
                },
                Some(j) => {
                    proof {
                        lemma_first_index_at(rest@, '-', j as int);
                    }
                    rest.substring_char(0, j)
                },
            };
            let start = parse_time_of_day(a, "%H:%M:%S");
            let end = parse_time_of_day(b, "%H:%M:%S");
            match (start, end) {
                (Some(start), Some(end)) => Ok(TimeRange { start, end }),
                _ => Err(DownloadError::InvalidTimer),
            }
        },
    }
}

} // verus!
