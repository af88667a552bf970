//! Times of a run: when warm states and outputs are written, where warm-state
//! files are looked for, and the order in which snapshots are tried.
//!
//! Times are UTC Unix timestamps in seconds.

use vstd::prelude::*;
use vstd::string::StringExecFns;


verus! {

broadcast use vstd::string::group_string_axioms;

pub open spec fn seconds_per_hour() -> int {
    3600
}

pub open spec fn seconds_per_day() -> int {
    86400
}

/// The hour of the day, 0 to 23, of a UTC timestamp.
pub open spec fn hour_of_day(time: int) -> int {
    (time % seconds_per_day()) / seconds_per_hour()
}

/// Whether the warm state is written at `time`: its UTC hour is `warm_state_hour`.
pub fn check_write_warm_state(time: i64, warm_state_hour: i64) -> (write: bool)
    ensures
        write == (hour_of_day(time as int) == warm_state_hour),
{
    let day_second: i64 = time % 86400;
    let day_second: i64 = if day_second < 0 { day_second + 86400 } else { day_second };
    day_second / 3600 == warm_state_hour
}

/// The largest number of whole days or hours that a duration may hold:
/// durations are counted in milliseconds in an `i64`.
pub open spec fn duration_fits(seconds: int) -> bool {
    -(i64::MAX as int) <= seconds * 1000 <= i64::MAX
}

/// `days_before` days before `run_date`, moved by `hour` hours.
pub open spec fn spec_warm_state_search_time(run_date: int, hour: int, days_before: int) -> int {
    run_date - days_before * seconds_per_day() + hour * seconds_per_hour()
}

/// `days_before` days before `run_date`, moved by `hour` hours.
pub fn warm_state_search_time(run_date: i64, hour: i64, days_before: i64) -> (time: i64)
    requires
        duration_fits(days_before * seconds_per_day()),
        duration_fits(hour * seconds_per_hour()),
        i64::MIN <= run_date - days_before * seconds_per_day() <= i64::MAX,
        i64::MIN <= spec_warm_state_search_time(run_date as int, hour as int, days_before as int) <= i64::MAX,
    ensures
        time == spec_warm_state_search_time(run_date as int, hour as int, days_before as int),
{
    let back: i64 = days_before * 86400;
    let forward: i64 = hour * 3600;
    let day: i64 = run_date - back;
    day + forward
}

/// How many days, from `lag_days` on, are searched for a warm-state file.
pub open spec fn search_span() -> int {
    4
}

/// Whether every time searched for a warm-state file can be formed.
pub open spec fn search_fits(run_date: int, hour: int, lag_days: int) -> bool {
    forall|d: int| lag_days <= d < lag_days + search_span() ==> {
        &&& duration_fits(d * seconds_per_day())
        &&& duration_fits(hour * seconds_per_hour())
        &&& i64::MIN <= run_date - d * seconds_per_day() <= i64::MAX
        &&& i64::MIN <= #[trigger] spec_warm_state_search_time(run_date, hour, d) <= i64::MAX
    }
}

/// The times whose warm-state files are tried, in order: `lag_days` days
/// before the run and each of the three days before that.
pub fn warm_state_search_times(run_date: i64, hour: i64, lag_days: i64) -> (times: Vec<i64>)
    requires
        lag_days + search_span() <= i64::MAX,
        search_fits(run_date as int, hour as int, lag_days as int),
    ensures
        times@.len() == search_span(),
        forall|k: int| 0 <= k < search_span() ==>
            #[trigger] times@[k] == spec_warm_state_search_time(run_date as int, hour as int, lag_days + k),
{
    let mut times: Vec<i64> = Vec::new();
    let end: i64 = lag_days + 4;
    let mut days_before: i64 = lag_days;
    while days_before < end
        invariant
            lag_days <= days_before <= end,
            end == lag_days + search_span(),
            search_fits(run_date as int, hour as int, lag_days as int),
            times@.len() == days_before - lag_days,
            forall|k: int| 0 <= k < times@.len() ==>
                #[trigger] times@[k] == spec_warm_state_search_time(run_date as int, hour as int, lag_days + k),
        decreases end - days_before,
    {
        assert(spec_warm_state_search_time(run_date as int, hour as int, days_before as int) <= i64::MAX);
        times.push(warm_state_search_time(run_date, hour, days_before));
        days_before += 1;
    }
    times
}

/// The warm state to load among the search times, given which files opened:
/// the first that did, with its time; otherwise none, with the last time tried.
pub fn pick_warm_state(times: &Vec<i64>, opened: &Vec<bool>) -> (pick: (Option<usize>, i64))
    requires
        times@.len() > 0,
        opened@.len() == times@.len(),
    ensures
        match pick.0 {
            Some(k) => k < times@.len() && opened@[k as int] && pick.1 == times@[k as int]
                && forall|j: int| 0 <= j < k ==> !opened@[j],
            None => pick.1 == times@.last() && forall|j: int| 0 <= j < times@.len() ==> !opened@[j],
        },
{
    let mut k: usize = 0;
    while k < times.len()
        invariant
            k <= times@.len(),
            opened@.len() == times@.len(),
            forall|j: int| 0 <= j < k ==> !opened@[j],
        decreases times@.len() - k,
    {
        if opened[k] {
            return (Some(k), times[k]);
        }
        k += 1;
    }
    (None, times[times.len() - 1])
}

/// Whole hours from `run_date` to `time`, rounded toward zero.
pub open spec fn whole_hours_between(run_date: int, time: int) -> int {
    let diff = time - run_date;
    if diff >= 0 { diff / seconds_per_hour() } else { -((-diff) / seconds_per_hour()) }
}

/// Whether an output is written at `time`: a whole multiple of `resolution`
/// hours after (or before) the run date.
pub fn should_write_output(time: i64, run_date: i64, resolution: u32) -> (write: bool)
    requires
        resolution > 0,
        i64::MIN <= time - run_date <= i64::MAX,
    ensures
        write == (whole_hours_between(run_date as int, time as int) % (resolution as int) == 0),
{
    let diff: i64 = time - run_date;
    let hours: i64 = if diff >= 0 { diff / 3600 } else {
        let back: i64 = if diff == i64::MIN { i64::MAX } else { -diff };
        let h: i64 = back / 3600;
        proof {
            if diff == i64::MIN {
                assert(i64::MAX / 3600 == (-(diff as int)) / 3600);
            }
        }
        -h
    };
    let magnitude: i64 = if hours >= 0 { hours } else { -hours };
    let step: i64 = resolution as i64;
    proof {
        assert((hours as int) % (resolution as int) == 0 <==> (magnitude as int) % (resolution as int) == 0) by {
            if hours < 0 {
                vstd::arithmetic::div_mod::lemma_mod_self_0(resolution as int);
                lemma_negated_multiple(hours as int, resolution as int);
            }
        }
    }
    magnitude % step == 0
}

proof fn lemma_negated_multiple(x: int, m: int)
    requires
        m > 0,
    ensures
        x % m == 0 <==> (-x) % m == 0,
{
    if x % m == 0 {
        vstd::arithmetic::div_mod::lemma_fundamental_div_mod(x, m);
        let q = x / m;
        assert(-x == m * (-q)) by (nonlinear_arith)
            requires x == m * q + 0;
        vstd::arithmetic::div_mod::lemma_mod_multiples_basic(-q, m);
        assert((-q) * m == m * (-q)) by (nonlinear_arith);
    }
    if (-x) % m == 0 {
        vstd::arithmetic::div_mod::lemma_fundamental_div_mod(-x, m);
        let q = (-x) / m;
        assert(x == m * (-q)) by (nonlinear_arith)
            requires -x == m * q + 0;
        vstd::arithmetic::div_mod::lemma_mod_multiples_basic(-q, m);
        assert((-q) * m == m * (-q)) by (nonlinear_arith);
    }
}

/// What `chrono::NaiveDateTime::parse_from_str(text, pattern)` gives, as a UTC
/// timestamp in seconds, or `None` where the text does not match.
pub uninterp spec fn parsed_utc(text: Seq<char>, pattern: Seq<char>) -> Option<i64>;

/// What `chrono` writes for the UTC time `time` in `pattern`, or `None` where
/// `time` is outside the dates it represents.
pub uninterp spec fn formatted_utc(time: i64, pattern: Seq<char>) -> Option<Seq<char>>;

/// The patterns the runner writes times in: minutes (`%Y%m%d%H%M`) and the
/// compact ISO form of snapshot names (`%Y%m%dT%H%M%SZ`).
pub open spec fn is_known_pattern(pattern: Seq<char>) -> bool {
    pattern == "%Y%m%d%H%M"@ || pattern == "%Y%m%dT%H%M%SZ"@
}

/// Parses `text` with `pattern` as a UTC date and time.
///
/// Calls `chrono::NaiveDateTime::parse_from_str`; its result is named, not
/// described.
#[verifier::external_body]
fn parse_utc(text: &str, pattern: &str) -> (time: Option<i64>)
    ensures
        time == parsed_utc(text@, pattern@),
{
    match chrono::NaiveDateTime::parse_from_str(text, pattern) {
        Ok(naive) => Some(naive.and_utc().timestamp()),
        Err(_) => None,
    }
}

/// The first second of the year 0 and of the year 10000, UTC: the span in
/// which `chrono` writes a year as exactly four digits.
pub open spec fn four_digit_years(time: int) -> bool {
    -62_167_219_200 <= time < 253_402_300_800
}

/// `time` with its seconds dropped: the start of its minute.
pub open spec fn start_of_minute(time: int) -> int {
    time - time % 60
}

/// Writes the UTC time `time` in `pattern`.
///
/// Calls `chrono::DateTime::from_timestamp` and `format`; the text is named.
/// Formatting with a malformed pattern panics, so only the runner's own
/// patterns are accepted. Also stated: in years 0 to 9999, `chrono` writes
/// the minute pattern as fixed-width, zero-padded fields (a four-digit year,
/// then two digits each for month, day, hour and minute), which its parser
/// reads back, one field width at a time, as the start of the minute.
#[verifier::external_body]
fn format_utc(time: i64, pattern: &str) -> (text: Option<String>)
    requires
        is_known_pattern(pattern@),
    ensures
        match text {
            Some(t) => formatted_utc(time, pattern@) == Some(t@),
            None => formatted_utc(time, pattern@) is None,
        },
        pattern@ == "%Y%m%d%H%M"@ && four_digit_years(time as int)
            ==> text is Some && parsed_utc(text.unwrap()@, pattern@) == Some(start_of_minute(time as int) as i64),
{
    match chrono::DateTime::from_timestamp(time, 0) {
        Some(date) => Some(date.format(pattern).to_string()),
        None => None,
    }
}

/// Whether `chrono::DateTime::from_timestamp(time, 0)` gives a date: the
/// time lies within the years `chrono` represents.
pub uninterp spec fn is_utc_timestamp(time: i64) -> bool;

/// Whether `time` is a representable UTC date.
///
/// Calls `chrono::DateTime::from_timestamp`; which times it accepts is named,
/// not described.
#[verifier::external_body]
pub(crate) fn utc_timestamp_exists(time: i64) -> (exists: bool)
    ensures
        exists == is_utc_timestamp(time),
{
    match chrono::DateTime::from_timestamp(time, 0) {
        Some(_) => true,
        None => false,
    }
}

/// The minute-resolution stamp (`YYYYmmDDHHMM`) that names legacy files.
///
/// In the years 0 to 9999 a stamp is always written, and reads back as the
/// start of its minute.
pub fn minutes_stamp(time: i64) -> (text: Option<String>)
    ensures
        match text {
            Some(t) => formatted_utc(time, "%Y%m%d%H%M"@) == Some(t@),
            None => formatted_utc(time, "%Y%m%d%H%M"@) is None,
        },
        four_digit_years(time as int) ==> text is Some
            && parsed_utc(text.unwrap()@, "%Y%m%d%H%M"@) == Some(start_of_minute(time as int) as i64),
{
    let pattern = "%Y%m%d%H%M";
    proof {
        reveal_strlit("%Y%m%d%H%M");
    }
    format_utc(time, pattern)
}

/// Reads a minute-resolution stamp (`YYYYmmDDHHMM`) as a UTC time.
pub fn parse_minutes_stamp(text: &str) -> (time: Option<i64>)
    ensures
        time == parsed_utc(text@, "%Y%m%d%H%M"@),
{
    parse_utc(text, "%Y%m%d%H%M")
}

/// The legacy warm-state file of `time`: `base` followed by its minute stamp.
pub fn warm_state_file_name(base: &str, time: i64) -> (name: Option<String>)
    ensures
        match name {
            Some(n) => exists|stamp: Seq<char>| formatted_utc(time, "%Y%m%d%H%M"@) == Some(stamp)
                && n@ == base@ + stamp,
            None => formatted_utc(time, "%Y%m%d%H%M"@) is None,
        },
{
    match minutes_stamp(time) {
        None => None,
        Some(stamp) => {
            let mut name = base.to_owned();
            name.append(stamp.as_str());
            Some(name)
        },
    }
}

/// The name of a NetCDF snapshot of `model` at `time`:
/// `<model>_<YYYYmmDDTHHMMSSZ>.nc`.
pub fn snapshot_file_name(model: &str, time: i64) -> (name: Option<String>)
    ensures
        match name {
            Some(n) => exists|stamp: Seq<char>| formatted_utc(time, "%Y%m%dT%H%M%SZ"@) == Some(stamp)
                && n@ == model@ + "_"@ + stamp + ".nc"@,
            None => formatted_utc(time, "%Y%m%dT%H%M%SZ"@) is None,
        },
{
    let pattern = "%Y%m%dT%H%M%SZ";
    proof {
        reveal_strlit("%Y%m%dT%H%M%SZ");
    }
    match format_utc(time, pattern) {
        None => None,
        Some(stamp) => {
            let mut name = model.to_owned();
            name.append("_");
            name.append(stamp.as_str());
            name.append(".nc");
            Some(name)
        },
    }
}

} // verus!
