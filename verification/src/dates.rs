//! Dates, timestamps and durations as the service reports them and as the
//! command line shows them. Calendar arithmetic is chrono's; what this module
//! decides around it is proved.
use vstd::prelude::*;

use crate::text::{self, chars_of, dec_string, owned, parse_i64, parse_u64, push_str, string_of_range, trim, zero_pad};


verus! {

// ── chrono ──────────────────────────────────────────────────────────────────
/// The strftime patterns that this crate formats with.
pub open spec fn known_format(fmt: Seq<char>) -> bool {
    ||| fmt == "%m-%d-%Y"@
    ||| fmt == "%Y-%m-%d %H:%M:%S UTC"@
    ||| fmt == "%Y-%m-%d %H:%M:%S"@
    ||| fmt == "%Y-%m-%dT%H:%M:%S"@
}

/// `DateTime::from_timestamp_millis(ms)` rendered in UTC with `fmt`.
pub uninterp spec fn millis_formatted(ms: int, fmt: Seq<char>) -> Option<Seq<char>>;

/// `DateTime::from_timestamp(secs, 0)` rendered in UTC with `fmt`.
pub uninterp spec fn seconds_formatted(secs: int, fmt: Seq<char>) -> Option<Seq<char>>;

/// `DateTime::parse_from_rfc3339(s)`: the instant as milliseconds since the
/// epoch, and rendered in UTC with `fmt`.
pub uninterp spec fn rfc3339_read(s: Seq<char>, fmt: Seq<char>) -> Option<(i64, Seq<char>)>;

/// The milliseconds of an RFC 3339 date (the pattern does not bear on them).
pub open spec fn rfc3339_millis(s: Seq<char>) -> Option<i64> {
    match rfc3339_read(s, "%Y-%m-%d %H:%M:%S UTC"@) {
        Some(p) => Some(p.0),
        None => None,
    }
}

/// An RFC 3339 date rendered in UTC with `fmt`.
pub open spec fn rfc3339_formatted(s: Seq<char>, fmt: Seq<char>) -> Option<Seq<char>> {
    match rfc3339_read(s, fmt) {
        Some(p) => Some(p.1),
        None => None,
    }
}

/// `NaiveDateTime::parse_from_str(s, fmt)` read as UTC, in milliseconds
/// since the epoch.
pub uninterp spec fn naive_millis(s: Seq<char>, fmt: Seq<char>) -> Option<i64>;

/// Calls `chrono::DateTime::from_timestamp_millis` and, when it gives a
/// date, `format(fmt).to_string()`. Claimed: the result is the one named
/// `millis_formatted` for these arguments; the calendar is not restated.
/// `fmt` is one of the crate's own valid patterns, with which `to_string`
/// cannot fail.
#[verifier::external_body]
pub(crate) fn format_millis(ms: i64, fmt: &str) -> (r: Option<String>)
    requires
        known_format(fmt@),
    ensures
        crate::xml::opt_view(r) == millis_formatted(ms as int, fmt@),
{
    match chrono::DateTime::from_timestamp_millis(ms) {
        Some(dt) => Some(dt.format(fmt).to_string()),
        None => None,
    }
}

/// Calls `chrono::DateTime::from_timestamp(secs, 0)` and, when it gives a
/// date, `format(fmt).to_string()`. Claimed: the result is the one named
/// `seconds_formatted` for these arguments.
#[verifier::external_body]
pub(crate) fn format_seconds(secs: i64, fmt: &str) -> (r: Option<String>)
    requires
        known_format(fmt@),
    ensures
        crate::xml::opt_view(r) == seconds_formatted(secs as int, fmt@),
{
    match chrono::DateTime::from_timestamp(secs, 0) {
        Some(dt) => Some(dt.format(fmt).to_string()),
        None => None,
    }
}

/// Calls `chrono::DateTime::parse_from_rfc3339(s)` and, when it parses,
/// gives its `timestamp_millis()` and its `with_timezone(&Utc).format(fmt)`
/// rendering. Claimed: the result is the one named `rfc3339_read` for these
/// arguments; `fmt` is one of the crate's valid patterns.
#[verifier::external_body]
pub(crate) fn parse_rfc3339(s: &str, fmt: &str) -> (r: Option<(i64, String)>)
    requires
        known_format(fmt@),
    ensures
        match r {
            Some((ms, t)) => rfc3339_read(s@, fmt@) == Some((ms, t@)),
            None => rfc3339_read(s@, fmt@) is None,
        },
{
    match chrono::DateTime::parse_from_rfc3339(s) {
        Ok(dt) => Some((dt.timestamp_millis(), dt.with_timezone(&chrono::Utc).format(fmt).to_string())),
        Err(_) => None,
    }
}

/// Calls `chrono::NaiveDateTime::parse_from_str(s, fmt)` and, when it
/// parses, `and_utc().timestamp_millis()`. Claimed: the result is the one
/// named `naive_millis` for these arguments.
#[verifier::external_body]
pub(crate) fn parse_naive_millis(s: &str, fmt: &str) -> (r: Option<i64>)
    ensures
        r == naive_millis(s@, fmt@),
{
    match chrono::NaiveDateTime::parse_from_str(s, fmt) {
        Ok(dt) => Some(dt.and_utc().timestamp_millis()),
        Err(_) => None,
    }
}

// ── timestamps ──────────────────────────────────────────────────────────────
pub open spec fn starts_with(s: Seq<char>, p: Seq<char>) -> bool {
    p.len() <= s.len() && s.subrange(0, p.len() as int) == p
}

pub open spec fn ends_with(s: Seq<char>, p: Seq<char>) -> bool {
    p.len() <= s.len() && s.subrange(s.len() - p.len(), s.len() as int) == p
}

/// What `parse_json_date` reads: the OData `/Date(ms)/` form, RFC 3339, or
/// an ISO date-time without offset (with or without fractions of a second),
/// as milliseconds since the epoch.
pub open spec fn json_date_spec(s: Seq<char>) -> Option<i64> {
    let t = text::trim_spec(s);
    if starts_with(t, "/Date("@) && ends_with(t, ")/"@) {
        text::parse_i64_spec(t.subrange(6, t.len() - 2))
    } else if rfc3339_millis(t) is Some {
        rfc3339_millis(t)
    } else if naive_millis(t, "%Y-%m-%dT%H:%M:%S%.f"@) is Some {
        naive_millis(t, "%Y-%m-%dT%H:%M:%S%.f"@)
    } else {
        naive_millis(t, "%Y-%m-%dT%H:%M:%S"@)
    }
}

/// Does `v` start with the characters of `p`?
pub fn has_prefix(v: &Vec<char>, p: &str) -> (b: bool)
    ensures
        b == starts_with(v@, p@),
{
    let pv = chars_of(p);
    if pv.len() > v.len() {
        return false;
    }
    let mut i: usize = 0;
    while i < pv.len()
        invariant
            i <= pv.len() <= v.len(),
            pv@ == p@,
            forall|k: int| 0 <= k < i ==> v@[k] == pv@[k],
        decreases pv.len() - i,
    {
        if v[i] != pv[i] {
            assert(v@.subrange(0, pv.len() as int)[i as int] != p@[i as int]);
            return false;
        }
        i += 1;
    }
    assert(v@.subrange(0, pv.len() as int) =~= p@);
    true
}

/// Does `v` end with the characters of `p`?
pub fn has_suffix(v: &Vec<char>, p: &str) -> (b: bool)
    ensures
        b == ends_with(v@, p@),
{
    let pv = chars_of(p);
    if pv.len() > v.len() {
        return false;
    }
    let off = v.len() - pv.len();
    let mut i: usize = 0;
    while i < pv.len()
        invariant
            i <= pv.len() <= v.len(),
            off == v.len() - pv.len(),
            pv@ == p@,
            forall|k: int| 0 <= k < i ==> v@[off + k] == pv@[k],
        decreases pv.len() - i,
    {
        if v[off + i] != pv[i] {
            assert(v@.subrange(off as int, v.len() as int)[i as int] != p@[i as int]);
            return false;
        }
        i += 1;
    }
    assert(v@.subrange(off as int, v.len() as int) =~= p@);
    true
}

/// Reads a date as the service sends it (`/Date(1700000000000)/`, RFC 3339,
/// or `YYYY-MM-DDTHH:MM:SS[.fff]`) into milliseconds since the epoch.
pub fn parse_json_date(s: &str) -> (r: Option<i64>)
    ensures
        r == json_date_spec(s@),
{
    let t = trim(s);
    let v = chars_of(t.as_str());
    if has_prefix(&v, "/Date(") && has_suffix(&v, ")/") {
        proof {
            reveal_strlit("/Date(");
            reveal_strlit(")/");
            assert("/Date("@[5] == '(' && "/Date("@[4] == 'e' && ")/"@[0] == ')');
            assert(v@[5] == v@.subrange(0, 6)[5]);
            assert(v@[4] == v@.subrange(0, 6)[4]);
            assert(v@[v@.len() - 2] == v@.subrange(v@.len() - 2, v@.len() as int)[0]);
        }
        assert(v.len() >= 8);
        let inner = string_of_range(&v, 6, v.len() - 2);
        return parse_i64(inner.as_str());
    }
    if let Some((ms, _)) = parse_rfc3339(t.as_str(), "%Y-%m-%d %H:%M:%S UTC") {
        return Some(ms);
    }
    let n = parse_naive_millis(t.as_str(), "%Y-%m-%dT%H:%M:%S%.f");
    if n.is_some() {
        return n;
    }
    parse_naive_millis(t.as_str(), "%Y-%m-%dT%H:%M:%S")
}

/// What `format_timestamp` shows for `value`.
pub open spec fn timestamp_text(value: Seq<char>) -> Seq<char> {
    let n = text::parse_i64_spec(value);
    if n is Some && millis_formatted(n.unwrap() as int, "%m-%d-%Y"@) is Some {
        millis_formatted(n.unwrap() as int, "%m-%d-%Y"@).unwrap()
    } else if n is Some && seconds_formatted(n.unwrap() as int, "%Y-%m-%d %H:%M:%S UTC"@) is Some {
        seconds_formatted(n.unwrap() as int, "%Y-%m-%d %H:%M:%S UTC"@).unwrap()
    } else if rfc3339_formatted(value, "%Y-%m-%d %H:%M:%S UTC"@) is Some {
        rfc3339_formatted(value, "%Y-%m-%d %H:%M:%S UTC"@).unwrap()
    } else {
        value
    }
}

/// Shows a timestamp: an integer is read first as milliseconds (shown as
/// `MM-DD-YYYY`), then as seconds; otherwise an RFC 3339 date is shown in
/// UTC; anything else is shown as it is.
pub fn format_timestamp(value: &str) -> (r: String)
    ensures
        r@ == timestamp_text(value@),
{
    if let Some(ms) = parse_i64(value) {
        if let Some(d) = format_millis(ms, "%m-%d-%Y") {
            return d;
        }
    }
    if let Some(secs) = parse_i64(value) {
        if let Some(d) = format_seconds(secs, "%Y-%m-%d %H:%M:%S UTC") {
            return d;
        }
    }
    if let Some((_, d)) = parse_rfc3339(value, "%Y-%m-%d %H:%M:%S UTC") {
        return d;
    }
    owned(value)
}

// ── durations ───────────────────────────────────────────────────────────────
/// How `format_duration` shows a span of `diff` milliseconds.
pub open spec fn duration_text(diff: int) -> Seq<char> {
    if diff < 0 {
        "—"@
    } else {
        let total_secs = diff / 1000;
        let hours = total_secs / 3600;
        let minutes = (total_secs % 3600) / 60;
        let secs = total_secs % 60;
        let millis = diff % 1000;
        if hours > 0 {
            text::dec(hours as nat) + "h "@ + text::zero_padded(minutes as nat, 2) + "m "@
                + text::zero_padded(secs as nat, 2) + "s"@
        } else if minutes > 0 {
            text::dec(minutes as nat) + "m "@ + text::zero_padded(secs as nat, 2) + "."@
                + text::zero_padded(millis as nat, 3) + "s"@
        } else if secs > 0 || millis > 0 {
            text::dec(secs as nat) + "."@ + text::zero_padded(millis as nat, 3) + "s"@
        } else {
            "0ms"@
        }
    }
}

/// The time from `start_ms` to `end_ms`, such as `1h 02m 03s`, `2m 03.004s`,
/// `3.004s` or `0ms`; `—` when the end precedes the start.
pub fn format_duration(start_ms: i64, end_ms: i64) -> (r: String)
    requires
        i64::MIN <= end_ms - start_ms <= i64::MAX,
    ensures
        r@ == duration_text(end_ms - start_ms),
{
    let diff_ms = end_ms - start_ms;
    if diff_ms < 0 {
        return owned("—");
    }
    let total_secs = diff_ms / 1000;
    let hours = total_secs / 3600;
    let minutes = (total_secs % 3600) / 60;
    let secs = total_secs % 60;
    let millis = diff_ms % 1000;
    let mut out = String::new();
    if hours > 0 {
        push_str(&mut out, dec_string(hours as u64).as_str());
        push_str(&mut out, "h ");
        push_str(&mut out, zero_pad(minutes as u64, 2).as_str());
        push_str(&mut out, "m ");
        push_str(&mut out, zero_pad(secs as u64, 2).as_str());
        push_str(&mut out, "s");
    } else if minutes > 0 {
        push_str(&mut out, dec_string(minutes as u64).as_str());
        push_str(&mut out, "m ");
        push_str(&mut out, zero_pad(secs as u64, 2).as_str());
        push_str(&mut out, ".");
        push_str(&mut out, zero_pad(millis as u64, 3).as_str());
        push_str(&mut out, "s");
    } else if secs > 0 || millis > 0 {
        push_str(&mut out, dec_string(secs as u64).as_str());
        push_str(&mut out, ".");
        push_str(&mut out, zero_pad(millis as u64, 3).as_str());
        push_str(&mut out, "s");
    } else {
        push_str(&mut out, "0ms");
    }
    assert(out@ =~= duration_text(end_ms - start_ms));
    out
}

/// The number of seconds in one unit `u` of a relative duration.
pub open spec fn unit_seconds(u: char) -> Option<nat> {
    if u == 's' {
        Some(1)
    } else if u == 'm' {
        Some(60)
    } else if u == 'h' {
        Some(3600)
    } else if u == 'd' {
        Some(86400)
    } else {
        None
    }
}

/// The input is one on which `parse_duration_relative` returns rather than
/// fails: its trimmed text is empty or ends in an ASCII character (the text
/// is split one byte before its end), and the number times the unit fits in
/// a `u64`.
pub open spec fn duration_defined(s: Seq<char>) -> bool {
    let t = text::trim_spec(s);
    t.len() == 0 || ((t.last() as u32) < 128 && (t.len() == 1 || {
        let n = text::parse_u64_spec(t.drop_last());
        let f = unit_seconds(t.last());
        n is Some && f is Some ==> n.unwrap() * f.unwrap() <= u64::MAX
    }))
}

/// The seconds that a relative duration such as `30s`, `5m`, `2h` or `7d`
/// stands for.
pub open spec fn duration_seconds(s: Seq<char>) -> Option<u64> {
    let t = text::trim_spec(s);
    if t.len() < 2 {
        None
    } else {
        let n = text::parse_u64_spec(t.drop_last());
        let f = unit_seconds(t.last());
        if n is Some && f is Some {
            Some((n.unwrap() * f.unwrap()) as u64)
        } else {
            None
        }
    }
}

/// Reads a relative duration (`30s`, `5m`, `2h`, `7d`) into seconds.
pub fn parse_duration_relative(s: &str) -> (r: Option<u64>)
    requires
        duration_defined(s@),
    ensures
        r == duration_seconds(s@),
{
    let t = trim(s);
    let v = chars_of(t.as_str());
    if v.len() < 2 {
        return None;
    }
    let unit = v[v.len() - 1];
    let num_str = string_of_range(&v, 0, v.len() - 1);
    assert(num_str@ =~= t@.drop_last());
    assert(unit == t@.last());
    let num = match parse_u64(num_str.as_str()) {
        Some(n) => n,
        None => return None,
    };
    assert(text::parse_u64_spec(t@.drop_last()) == Some(num));
    let ghost n = num as nat;
    if unit == 's' {
        assert(unit_seconds(unit) == Some(1nat));
        assert(n * 1 == n);
        assert(duration_seconds(s@) == Some(num));
        Some(num)
    } else if unit == 'm' {
        assert(unit_seconds(unit) == Some(60nat));
        assert(duration_seconds(s@) == Some((n * 60) as u64));
        Some(num * 60)
    } else if unit == 'h' {
        assert(unit_seconds(unit) == Some(3600nat));
        assert(duration_seconds(s@) == Some((n * 3600) as u64));
        Some(num * 3600)
    } else if unit == 'd' {
        assert(unit_seconds(unit) == Some(86400nat));
        assert(duration_seconds(s@) == Some((n * 86400) as u64));
        Some(num * 86400)
    } else {
        assert(unit_seconds(unit) is None);
        assert(duration_seconds(s@) is None);
        None
    }
}

/// A relative duration written as a number and a unit (`s`, `m`, `h`, `d`)
/// reads back as that many seconds, minutes, hours or days.
pub proof fn written_duration_reads_back(n: nat, u: char)
    requires
        unit_seconds(u) is Some,
        n * unit_seconds(u).unwrap() <= u64::MAX,
    ensures
        duration_defined(text::dec(n).push(u)),
        duration_seconds(text::dec(n).push(u)) == Some((n * unit_seconds(u).unwrap()) as u64),
{
    let f = unit_seconds(u).unwrap();
    assert(n <= u64::MAX) by (nonlinear_arith)
        requires n * f <= u64::MAX, f >= 1;
    text::dec_reads_back(n);
    let t = text::dec(n).push(u);
    assert(text::is_digit(text::dec(n)[0]));
    assert(t[0] == text::dec(n)[0]);
    assert(t.last() == u);
    text::lemma_trim_no_ws(t);
    assert(t.drop_last() =~= text::dec(n));
}

/// Whether `parse_duration_relative` is defined on `s` (see
/// `duration_defined`); callers outside verified code test this first.
pub fn duration_is_defined(s: &str) -> (b: bool)
    ensures
        b == duration_defined(s@),
{
    let t = trim(s);
    let v = chars_of(t.as_str());
    if v.len() == 0 {
        return true;
    }
    let last = v[v.len() - 1];
    if (last as u32) >= 128 {
        return false;
    }
    if v.len() == 1 {
        return true;
    }
    let num_str = string_of_range(&v, 0, v.len() - 1);
    assert(num_str@ =~= t@.drop_last());
    let f: u64 = if last == 's' {
        1
    } else if last == 'm' {
        60
    } else if last == 'h' {
        3600
    } else if last == 'd' {
        86400
    } else {
        return true;
    };
    match parse_u64(num_str.as_str()) {
        Some(n) => n <= u64::MAX / f,
        None => true,
    }
}

/// Errors of the date computations.
#[derive(Debug, Clone, Copy, PartialEq, Eq)]
pub enum DateError {
    InvalidDuration,
    InvalidTimestamp,
}

impl DateError {
    /// The message shown for the error.
    pub fn message(&self) -> (r: String)
        ensures
            r@ == match self {
                DateError::InvalidDuration => "invalid duration format. Use: 30s, 5m, 2h, 7d"@,
                DateError::InvalidTimestamp => "invalid timestamp"@,
            },
    {
        match self {
            DateError::InvalidDuration => owned("invalid duration format. Use: 30s, 5m, 2h, 7d"),
            DateError::InvalidTimestamp => owned("invalid timestamp"),
        }
    }
}

/// The moment `dur_str` before `now_secs`, clamped at the epoch.
pub open spec fn since_seconds(now_secs: u64, dur: u64) -> u64 {
    (now_secs - if dur < now_secs {
        dur
    } else {
        now_secs
    }) as u64
}

/// What `compute_since_datetime` gives back.
pub open spec fn since_datetime_spec(dur_str: Seq<char>, now_secs: u64) -> Result<Seq<char>, DateError> {
    match duration_seconds(dur_str) {
        None => Err(DateError::InvalidDuration),
        Some(d) => match seconds_formatted(
            since_seconds(now_secs, d) as i64 as int,
            "%Y-%m-%dT%H:%M:%S"@,
        ) {
            Some(t) => Ok(t),
            None => Err(DateError::InvalidTimestamp),
        },
    }
}

/// The UTC date-time, as `YYYY-MM-DDTHH:MM:SS`, that lies the relative
/// duration `dur_str` before `now_secs` (seconds since the epoch).
pub fn compute_since_datetime(dur_str: &str, now_secs: u64) -> (r: Result<String, DateError>)
    requires
        duration_defined(dur_str@),
    ensures
        match r {
            Ok(x) => since_datetime_spec(dur_str@, now_secs) == Ok::<Seq<char>, DateError>(x@),
            Err(e) => since_datetime_spec(dur_str@, now_secs) == Err::<Seq<char>, DateError>(e),
        },
{
    let dur = match parse_duration_relative(dur_str) {
        Some(d) => d,
        None => return Err(DateError::InvalidDuration),
    };
    let past_secs = now_secs - if dur < now_secs {
        dur
    } else {
        now_secs
    };
    match format_seconds(past_secs as i64, "%Y-%m-%dT%H:%M:%S") {
        Some(t) => Ok(t),
        None => Err(DateError::InvalidTimestamp),
    }
}

} // verus!
