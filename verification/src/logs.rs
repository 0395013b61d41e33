//! Message processing logs: reading them from the service's XML, the lines
//! that show them, the query that fetches them, and the bookkeeping of
//! `logs -f`, which polls and shows each message once.
use vstd::prelude::*;

use crate::dates::{self, format_duration, format_millis, parse_json_date, DateError};
use crate::style;
use crate::text::{self, owned, pad_left, pad_right, push_str, dec_string};
use crate::xml::{self, XmlNode, child_text_trimmed, first_desc_named, is_entry};

verus! {

/// One message processing log entry.
#[derive(Debug)]
pub struct LogRecord {
    pub guid: String,
    pub flow: Option<String>,
    pub status: Option<String>,
    pub log_start: Option<String>,
    pub log_end: Option<String>,
}

pub type LogView = (Seq<char>, Option<Seq<char>>, Option<Seq<char>>, Option<Seq<char>>, Option<
    Seq<char>,
>);

pub open spec fn log_view(r: LogRecord) -> LogView {
    (
        r.guid@,
        xml::opt_view(r.flow),
        xml::opt_view(r.status),
        xml::opt_view(r.log_start),
        xml::opt_view(r.log_end),
    )
}

pub open spec fn logs_view(v: Seq<LogRecord>) -> Seq<LogView> {
    v.map_values(|r: LogRecord| log_view(r))
}

pub open spec fn ov(o: Option<&str>) -> Option<Seq<char>> {
    match o {
        Some(s) => Some(s@),
        None => None,
    }
}

// ── reading ─────────────────────────────────────────────────────────────────
/// A property of a log entry: the trimmed text of the child, unless empty.
pub open spec fn log_prop(ns: Seq<xml::NodeView>, p: int, name: Seq<char>) -> Option<Seq<char>> {
    let t = xml::child_text_or_empty(ns, p, name);
    if t.len() == 0 {
        None
    } else {
        Some(t)
    }
}

/// The record of entry `i`: from its first `properties` element, the fields
/// `MessageGuid` (required), `IntegrationFlowName`, `Status`, `LogStart`
/// and `LogEnd`.
pub open spec fn log_entry(ns: Seq<xml::NodeView>) -> spec_fn(int) -> Option<LogView> {
    |i: int|
        match xml::find_desc(ns, i, xml::named(ns, "properties"@)) {
            Some(p) => match log_prop(ns, p, "MessageGuid"@) {
                Some(g) => Some(
                    (
                        g,
                        log_prop(ns, p, "IntegrationFlowName"@),
                        log_prop(ns, p, "Status"@),
                        log_prop(ns, p, "LogStart"@),
                        log_prop(ns, p, "LogEnd"@),
                    ),
                ),
                None => None,
            },
            None => None,
        }
}

fn prop(ns: &Vec<XmlNode>, p: usize, name: &str) -> (r: Option<String>)
    requires
        p < ns.len(),
    ensures
        xml::opt_view(r) == log_prop(xml::nodes_view(ns@), p as int, name@),
{
    let t = child_text_trimmed(ns, p, name);
    if t.as_str().is_empty() {
        None
    } else {
        Some(t)
    }
}

fn entry_record(ns: &Vec<XmlNode>, i: usize) -> (r: Option<LogRecord>)
    requires
        i < ns.len(),
    ensures
        match r {
            Some(rec) => (log_entry(xml::nodes_view(ns@)))(i as int) == Some(log_view(rec)),
            None => (log_entry(xml::nodes_view(ns@)))(i as int) is None,
        },
{
    let p = match first_desc_named(ns, i, "properties") {
        Some(p) => p,
        None => return None,
    };
    let guid = match prop(ns, p, "MessageGuid") {
        Some(g) => g,
        None => return None,
    };
    let flow = prop(ns, p, "IntegrationFlowName");
    let status = prop(ns, p, "Status");
    let log_start = prop(ns, p, "LogStart");
    let log_end = prop(ns, p, "LogEnd");
    Some(LogRecord { guid, flow, status, log_start, log_end })
}

/// The log records of a `MessageProcessingLogs` response, in document order.
pub fn log_records(ns: &Vec<XmlNode>) -> (r: Vec<LogRecord>)
    ensures
        logs_view(r@) == xml::over_entries(
            xml::nodes_view(ns@),
            log_entry(xml::nodes_view(ns@)),
            ns@.len() as int,
        ),
{
    let ghost nv = xml::nodes_view(ns@);
    let mut out: Vec<LogRecord> = Vec::new();
    let mut k: usize = 0;
    while k < ns.len()
        invariant
            k <= ns.len(),
            nv == xml::nodes_view(ns@),
            logs_view(out@) == xml::over_entries(nv, log_entry(nv), k as int),
        decreases ns.len() - k,
    {
        if is_entry(ns, k) {
            if let Some(rec) = entry_record(ns, k) {
                out.push(rec);
                assert(logs_view(out@) =~= xml::over_entries(nv, log_entry(nv), k + 1));
            }
        }
        k += 1;
    }
    out
}


// ── one line per message ───────────────────────────────────────────────────
/// The start of a message as shown: its date in UTC when it reads as one,
/// else the raw value, else `—`.
pub open spec fn start_shown(log_start: Option<Seq<char>>) -> Seq<char> {
    match log_start {
        Some(ls) => match dates::json_date_spec(ls) {
            Some(ms) => match dates::millis_formatted(ms as int, "%Y-%m-%d %H:%M:%S"@) {
                Some(t) => t,
                None => ls,
            },
            None => ls,
        },
        None => "—"@,
    }
}

/// The processing time shown: the span between start and end when both
/// read as dates, else `—`.
pub open spec fn processing_shown(log_start: Option<Seq<char>>, log_end: Option<Seq<char>>) -> Seq<
    char,
> {
    match (log_start, log_end) {
        (Some(a), Some(b)) => match (dates::json_date_spec(a), dates::json_date_spec(b)) {
            (Some(x), Some(y)) => dates::duration_text(y - x),
            _ => "—"@,
        },
        _ => "—"@,
    }
}

/// The status shown, coloured: green when completed, red when failed or
/// discarded, yellow while processing or retrying, white otherwise.
pub open spec fn status_shown(status: Option<Seq<char>>) -> Seq<char> {
    let s = match status {
        Some(x) => x,
        None => "UNKNOWN"@,
    };
    if s == "COMPLETED"@ {
        "\x1b[32m"@ + s + "\x1b[39m"@
    } else if s == "FAILED"@ || s == "DISCARDED"@ {
        "\x1b[31m"@ + s + "\x1b[39m"@
    } else if s == "PROCESSING"@ || s == "RETRY"@ {
        "\x1b[33m"@ + s + "\x1b[39m"@
    } else {
        "\x1b[37m"@ + s + "\x1b[39m"@
    }
}

/// The line shown for one message.
pub open spec fn log_line_spec(
    guid: Seq<char>,
    flow: Option<Seq<char>>,
    status: Option<Seq<char>>,
    log_start: Option<Seq<char>>,
    log_end: Option<Seq<char>>,
) -> Seq<char> {
    start_shown(log_start) + " ["@ + text::pad_right_spec(status_shown(status), 9) + "] "@ + guid
        + " "@ + text::pad_left_spec(processing_shown(log_start, log_end), 10, ' ') + " "@
        + text::pad_right_spec(
        match flow {
            Some(f) => f,
            None => "—"@,
        },
        30,
    )
}

/// The span between the two dates fits in an `i64` (else the subtraction
/// that measures it overflows).
pub open spec fn log_line_defined(log_start: Option<Seq<char>>, log_end: Option<Seq<char>>) -> bool {
    match (log_start, log_end) {
        (Some(a), Some(b)) => match (dates::json_date_spec(a), dates::json_date_spec(b)) {
            (Some(x), Some(y)) => i64::MIN <= y - x <= i64::MAX,
            _ => true,
        },
        _ => true,
    }
}

/// The line shown for one message: start, status, id, processing time, flow.
pub fn format_log_line(
    message_guid: &str,
    integration_flow_name: Option<&str>,
    status: Option<&str>,
    log_start: Option<&str>,
    log_end: Option<&str>,
) -> (r: String)
    requires
        log_line_defined(ov(log_start), ov(log_end)),
    ensures
        r@ == log_line_spec(
            message_guid@,
            ov(integration_flow_name),
            ov(status),
            ov(log_start),
            ov(log_end),
        ),
{
    let start_ts = match log_start {
        Some(ls) => match parse_json_date(ls) {
            Some(ms) => match format_millis(ms, "%Y-%m-%d %H:%M:%S") {
                Some(t) => t,
                None => owned(ls),
            },
            None => owned(ls),
        },
        None => owned("—"),
    };
    let proc_time = match (log_start, log_end) {
        (Some(a), Some(b)) => match (parse_json_date(a), parse_json_date(b)) {
            (Some(x), Some(y)) => format_duration(x, y),
            _ => owned("—"),
        },
        _ => owned("—"),
    };
    let st = match status {
        Some(x) => owned(x),
        None => owned("UNKNOWN"),
    };
    let colored = if st == owned("COMPLETED") {
        style::green(st.as_str())
    } else if st == owned("FAILED") || st == owned("DISCARDED") {
        style::red(st.as_str())
    } else if st == owned("PROCESSING") || st == owned("RETRY") {
        style::yellow(st.as_str())
    } else {
        style::white(st.as_str())
    };
    let flow = match integration_flow_name {
        Some(f) => owned(f),
        None => owned("—"),
    };
    let mut out = start_ts;
    push_str(&mut out, " [");
    push_str(&mut out, pad_right(colored.as_str(), 9).as_str());
    push_str(&mut out, "] ");
    push_str(&mut out, message_guid);
    push_str(&mut out, " ");
    push_str(&mut out, pad_left(proc_time.as_str(), 10, ' ').as_str());
    push_str(&mut out, " ");
    push_str(&mut out, pad_right(flow.as_str(), 30).as_str());
    out
}

/// Whether `format_log_line` is defined on these dates (see
/// `log_line_defined`); callers outside verified code test this first.
pub fn log_line_is_defined(log_start: Option<&str>, log_end: Option<&str>) -> (b: bool)
    ensures
        b == log_line_defined(ov(log_start), ov(log_end)),
{
    match (log_start, log_end) {
        (Some(a), Some(b)) => match (parse_json_date(a), parse_json_date(b)) {
            (Some(x), Some(y)) => {
                if x >= 0 {
                    y >= i64::MIN + x
                } else {
                    y <= i64::MAX + x
                }
            },
            _ => true,
        },
        _ => true,
    }
}

/// The line for a record.
pub fn record_line(rec: &LogRecord) -> (r: String)
    requires
        log_line_defined(crate::xml::opt_view(rec.log_start), crate::xml::opt_view(rec.log_end)),
    ensures
        r@ == log_line_spec(
            rec.guid@,
            crate::xml::opt_view(rec.flow),
            crate::xml::opt_view(rec.status),
            crate::xml::opt_view(rec.log_start),
            crate::xml::opt_view(rec.log_end),
        ),
{
    format_log_line(
        rec.guid.as_str(),
        opt_str(&rec.flow),
        opt_str(&rec.status),
        opt_str(&rec.log_start),
        opt_str(&rec.log_end),
    )
}

/// The line for a record, when its dates allow one (`None` where
/// `record_line` is undefined, see `log_line_defined`).
pub fn record_line_checked(rec: &LogRecord) -> (r: Option<String>)
    ensures
        match r {
            Some(l) => log_line_defined(crate::xml::opt_view(rec.log_start), crate::xml::opt_view(rec.log_end))
                && l@ == log_line_spec(
                rec.guid@,
                crate::xml::opt_view(rec.flow),
                crate::xml::opt_view(rec.status),
                crate::xml::opt_view(rec.log_start),
                crate::xml::opt_view(rec.log_end),
            ),
            None => !log_line_defined(crate::xml::opt_view(rec.log_start), crate::xml::opt_view(rec.log_end)),
        },
{
    if log_line_is_defined(opt_str(&rec.log_start), opt_str(&rec.log_end)) {
        Some(record_line(rec))
    } else {
        None
    }
}

fn opt_str(o: &Option<String>) -> (r: Option<&str>)
    ensures
        ov(r) == crate::xml::opt_view(*o),
{
    match o {
        Some(s) => Some(s.as_str()),
        None => None,
    }
}


// ── the query ───────────────────────────────────────────────────────────────
/// Why a log query cannot be built.
#[derive(Debug, Clone, Copy, PartialEq, Eq)]
pub enum LogQueryError {
    SinceConflict,
    Date(DateError),
}

impl LogQueryError {
    /// The message shown for the error.
    pub fn message(&self) -> (r: String)
        ensures
            r@ == match self {
                LogQueryError::SinceConflict => "--since and --since-time are mutually exclusive"@,
                LogQueryError::Date(DateError::InvalidDuration) =>
                    "invalid duration format. Use: 30s, 5m, 2h, 7d"@,
                LogQueryError::Date(DateError::InvalidTimestamp) => "invalid timestamp"@,
            },
    {
        match self {
            LogQueryError::SinceConflict => owned("--since and --since-time are mutually exclusive"),
            LogQueryError::Date(e) => e.message(),
        }
    }
}

pub open spec fn since_clause(t: Seq<char>) -> Seq<char> {
    "LogStart ge datetime'"@ + t + "'"@
}

/// The `$filter` conditions of a log query: the flow's name, and the start
/// time from `--since` (relative to `now_secs`) or `--since-time`, which
/// exclude each other.
pub open spec fn filter_parts_spec(
    iflow_id: Option<Seq<char>>,
    since: Option<Seq<char>>,
    since_time: Option<Seq<char>>,
    now_secs: u64,
) -> Result<Seq<Seq<char>>, LogQueryError> {
    if since is Some && since_time is Some {
        Err(LogQueryError::SinceConflict)
    } else {
        let a = match iflow_id {
            Some(id) => seq!["IntegrationFlowName eq '"@ + id + "'"@],
            None => Seq::empty(),
        };
        match since {
            Some(d) => match dates::since_datetime_spec(d, now_secs) {
                Ok(t) => Ok(a.push(since_clause(t))),
                Err(e) => Err(LogQueryError::Date(e)),
            },
            None => match since_time {
                Some(t) => Ok(a.push(since_clause(t))),
                None => Ok(a),
            },
        }
    }
}

/// The `$filter` conditions for `logs` (see `filter_parts_spec`).
pub fn log_filter_parts(
    iflow_id: Option<&str>,
    since: Option<&str>,
    since_time: Option<&str>,
    now_secs: u64,
) -> (r: Result<Vec<String>, LogQueryError>)
    requires
        since_time is None ==> (since matches Some(d) ==> dates::duration_defined(d@)),
    ensures
        match r {
            Ok(v) => filter_parts_spec(ov(iflow_id), ov(since), ov(since_time), now_secs) == Ok::<
                Seq<Seq<char>>,
                LogQueryError,
            >(text::strings_view(v@)),
            Err(e) => filter_parts_spec(ov(iflow_id), ov(since), ov(since_time), now_secs) == Err::<
                Seq<Seq<char>>,
                LogQueryError,
            >(e),
        },
{
    let mut parts: Vec<String> = Vec::new();
    if let Some(id) = iflow_id {
        let mut p = owned("IntegrationFlowName eq '");
        push_str(&mut p, id);
        push_str(&mut p, "'");
        parts.push(p);
    }
    if since.is_some() && since_time.is_some() {
        return Err(LogQueryError::SinceConflict);
    }
    if let Some(d) = since {
        match dates::compute_since_datetime(d, now_secs) {
            Ok(t) => {
                let mut p = owned("LogStart ge datetime'");
                push_str(&mut p, t.as_str());
                push_str(&mut p, "'");
                parts.push(p);
            },
            Err(e) => return Err(LogQueryError::Date(e)),
        }
    }
    if let Some(t) = since_time {
        let mut p = owned("LogStart ge datetime'");
        push_str(&mut p, t);
        push_str(&mut p, "'");
        parts.push(p);
    }
    assert(text::strings_view(parts@) =~= filter_parts_spec(
        ov(iflow_id),
        ov(since),
        ov(since_time),
        now_secs,
    )->Ok_0);
    Ok(parts)
}

/// The address that lists the logs, newest first, filtered and limited.
pub open spec fn logs_url_spec(base_url: Seq<char>, parts: Seq<Seq<char>>, tail: Option<usize>) -> Seq<
    char,
> {
    let f = text::join_spec(parts, " and "@);
    base_url + "/api/v1/MessageProcessingLogs?$orderby=LogStart desc"@ + (if f.len() > 0 {
        "&$filter="@ + f
    } else {
        Seq::empty()
    }) + match tail {
        Some(t) => "&$top="@ + text::dec(t as nat),
        None => Seq::empty(),
    }
}

/// The address that lists the logs, newest first, with the given filter
/// conditions and at most `tail` entries.
pub fn logs_url(base_url: &str, parts: &Vec<String>, tail: Option<usize>) -> (r: String)
    ensures
        r@ == logs_url_spec(base_url@, text::strings_view(parts@), tail),
{
    let f = text::join(parts, " and ");
    let mut url = owned(base_url);
    push_str(&mut url, "/api/v1/MessageProcessingLogs?$orderby=LogStart desc");
    if !f.as_str().is_empty() {
        push_str(&mut url, "&$filter=");
        push_str(&mut url, f.as_str());
    }
    if let Some(t) = tail {
        push_str(&mut url, "&$top=");
        push_str(&mut url, dec_string(t as u64).as_str());
    }
    assert(url@ =~= logs_url_spec(base_url@, text::strings_view(parts@), tail));
    url
}

/// Where the logs are read and how requests are authorised: the sandbox with
/// an API key, or the tenant's URL with its OAuth bearer token.
pub struct LogAccess {
    pub base_url: String,
    pub auth_header: String,
    pub auth_value: String,
}

/// The access for `logs`: with an API key, the public sandbox; otherwise the
/// profile's URL (without trailing slashes) and the bearer token.
pub fn log_access(api_key: Option<&str>, oauth_url: &str, token: &str) -> (r: LogAccess)
    ensures
        match api_key {
            Some(k) => r.base_url@ == "https://sandbox.api.sap.com/cpi"@ && r.auth_header@
                == "APIKey"@ && r.auth_value@ == k@,
            None => r.base_url@ == text::strip_trailing(oauth_url@, '/') && r.auth_header@
                == "Authorization"@ && r.auth_value@ == "Bearer "@ + token@,
        },
{
    match api_key {
        Some(k) => LogAccess {
            base_url: owned("https://sandbox.api.sap.com/cpi"),
            auth_header: owned("APIKey"),
            auth_value: owned(k),
        },
        None => {
            let mut v = owned("Bearer ");
            push_str(&mut v, token);
            LogAccess {
                base_url: text::trim_end_char(oauth_url, '/'),
                auth_header: owned("Authorization"),
                auth_value: v,
            }
        },
    }
}

// ── following ───────────────────────────────────────────────────────────────
/// What `logs -f` remembers between polls: the latest start time seen, and
/// the ids of the messages already shown.
pub struct FollowState {
    pub last_seen: i64,
    pub seen: Vec<String>,
}

pub open spec fn start_millis(r: LogView) -> Option<i64> {
    match r.3 {
        Some(s) => dates::json_date_spec(s),
        None => None,
    }
}

/// The latest start time among the first `n` records, if any reads.
pub open spec fn max_start(recs: Seq<LogView>, n: int) -> Option<i64>
    decreases n,
{
    if n <= 0 {
        None
    } else {
        let m = max_start(recs, n - 1);
        match start_millis(recs[n - 1]) {
            Some(t) => Some(
                match m {
                    Some(x) => if x >= t {
                        x
                    } else {
                        t
                    },
                    None => t,
                },
            ),
            None => m,
        }
    }
}

pub open spec fn guids(recs: Seq<LogView>) -> Seq<Seq<char>> {
    recs.map_values(|r: LogView| r.0)
}

/// The state after the first listing: the latest start time (0 when none
/// reads) and the ids of all listed messages.
pub fn follow_start(recs: &Vec<LogRecord>) -> (st: FollowState)
    ensures
        st.last_seen == match max_start(logs_view(recs@), recs@.len() as int) {
            Some(m) => m,
            None => 0,
        },
        text::strings_view(st.seen@) == guids(logs_view(recs@)),
{
    let ghost rv = logs_view(recs@);
    let mut best: Option<i64> = None;
    let mut seen: Vec<String> = Vec::new();
    let mut i: usize = 0;
    while i < recs.len()
        invariant
            i <= recs.len(),
            rv == logs_view(recs@),
            best == max_start(rv, i as int),
            text::strings_view(seen@) == guids(rv).take(i as int),
        decreases recs.len() - i,
    {
        let rec = &recs[i];
        if let Some(s) = &rec.log_start {
            if let Some(t) = parse_json_date(s.as_str()) {
                best = match best {
                    Some(x) => if x >= t {
                        Some(x)
                    } else {
                        Some(t)
                    },
                    None => Some(t),
                };
            }
        }
        let g = rec.guid.clone();
        proof {
            text::lemma_strings_view_push(seen@, g);
            assert(guids(rv).take(i + 1) =~= guids(rv).take(i as int).push(g@));
        }
        seen.push(g);
        i += 1;
    }
    assert(guids(rv).take(recs@.len() as int) =~= guids(rv));
    FollowState {
        last_seen: match best {
            Some(m) => m,
            None => 0,
        },
        seen,
    }
}

/// One poll of `logs -f`: over the first `n` records, the ids seen so far,
/// the latest start time, and the indices of the records to show (those
/// whose id was not seen before).
pub open spec fn absorb_spec(seen: Seq<Seq<char>>, last: i64, recs: Seq<LogView>, n: int) -> (
    Seq<Seq<char>>,
    i64,
    Seq<int>,
)
    decreases n,
{
    if n <= 0 {
        (seen, last, Seq::empty())
    } else {
        let prev = absorb_spec(seen, last, recs, n - 1);
        let r = recs[n - 1];
        if prev.0.contains(r.0) {
            prev
        } else {
            let l = match start_millis(r) {
                Some(t) => if t > prev.1 {
                    t
                } else {
                    prev.1
                },
                None => prev.1,
            };
            (prev.0.push(r.0), l, prev.2.push(n - 1))
        }
    }
}

fn seen_contains(seen: &Vec<String>, g: &String) -> (b: bool)
    ensures
        b == text::strings_view(seen@).contains(g@),
{
    let ghost sv = text::strings_view(seen@);
    let mut i: usize = 0;
    while i < seen.len()
        invariant
            i <= seen.len(),
            sv == text::strings_view(seen@),
            forall|k: int| 0 <= k < i ==> sv[k] != g@,
        decreases seen.len() - i,
    {
        if seen[i] == *g {
            assert(sv[i as int] == g@);
            return true;
        }
        i += 1;
    }
    false
}

/// Takes in the records of one poll: remembers their ids and the latest
/// start time, and returns the indices of the records not shown before, in
/// order.
pub fn follow_absorb(st: &mut FollowState, recs: &Vec<LogRecord>) -> (fresh: Vec<usize>)
    ensures
        ({
            let a = absorb_spec(
                text::strings_view(old(st).seen@),
                old(st).last_seen,
                logs_view(recs@),
                recs@.len() as int,
            );
            &&& text::strings_view(final(st).seen@) == a.0
            &&& final(st).last_seen == a.1
            &&& fresh@.len() == a.2.len()
            &&& forall|j: int| 0 <= j < fresh@.len() ==> fresh@[j] as int == a.2[j]
        }),
{
    let ghost rv = logs_view(recs@);
    let ghost s0 = text::strings_view(st.seen@);
    let ghost l0 = st.last_seen;
    let mut fresh: Vec<usize> = Vec::new();
    let mut i: usize = 0;
    while i < recs.len()
        invariant
            i <= recs.len(),
            rv == logs_view(recs@),
            ({
                let a = absorb_spec(s0, l0, rv, i as int);
                &&& text::strings_view(st.seen@) == a.0
                &&& st.last_seen == a.1
                &&& fresh@.len() == a.2.len()
                &&& forall|j: int| 0 <= j < fresh@.len() ==> fresh@[j] as int == a.2[j]
            }),
        decreases recs.len() - i,
    {
        let rec = &recs[i];
        if !seen_contains(&st.seen, &rec.guid) {
            let g = rec.guid.clone();
            proof {
                text::lemma_strings_view_push(st.seen@, g);
            }
            st.seen.push(g);
            if let Some(s) = &rec.log_start {
                if let Some(t) = parse_json_date(s.as_str()) {
                    if t > st.last_seen {
                        st.last_seen = t;
                    }
                }
            }
            fresh.push(i);
            assert(text::strings_view(st.seen@) =~= absorb_spec(s0, l0, rv, i + 1).0);
        }
        i += 1;
    }
    fresh
}

/// The address that `logs -f` polls: the logs, oldest first, with the
/// query's conditions and, once a start time has been seen, those from that
/// time on.
pub open spec fn follow_url_spec(base_url: Seq<char>, parts: Seq<Seq<char>>, last_seen: i64) -> Seq<
    char,
> {
    let all = if last_seen > 0 {
        parts.push(
            since_clause(
                match dates::millis_formatted(last_seen as int, "%Y-%m-%dT%H:%M:%S"@) {
                    Some(t) => t,
                    None => Seq::empty(),
                },
            ),
        )
    } else {
        parts
    };
    base_url + "/api/v1/MessageProcessingLogs?$orderby=LogStart asc&$filter="@ + text::join_spec(
        all,
        " and "@,
    )
}

/// The address polled by `logs -f` (see `follow_url_spec`).
pub fn follow_url(base_url: &str, parts: &Vec<String>, last_seen: i64) -> (r: String)
    ensures
        r@ == follow_url_spec(base_url@, text::strings_view(parts@), last_seen),
{
    let mut all: Vec<String> = Vec::new();
    let mut i: usize = 0;
    while i < parts.len()
        invariant
            i <= parts.len(),
            text::strings_view(all@) == text::strings_view(parts@).take(i as int),
        decreases parts.len() - i,
    {
        let p = parts[i].clone();
        proof {
            text::lemma_strings_view_push(all@, p);
            assert(text::strings_view(parts@).take(i + 1) =~= text::strings_view(parts@).take(
                i as int,
            ).push(p@));
        }
        all.push(p);
        i += 1;
    }
    assert(text::strings_view(parts@).take(parts@.len() as int) =~= text::strings_view(parts@));
    if last_seen > 0 {
        let dt = match format_millis(last_seen, "%Y-%m-%dT%H:%M:%S") {
            Some(t) => t,
            None => String::new(),
        };
        let mut p = owned("LogStart ge datetime'");
        push_str(&mut p, dt.as_str());
        push_str(&mut p, "'");
        proof {
            text::lemma_strings_view_push(all@, p);
        }
        all.push(p);
    }
    let mut url = owned(base_url);
    push_str(&mut url, "/api/v1/MessageProcessingLogs?$orderby=LogStart asc&$filter=");
    push_str(&mut url, text::join(&all, " and ").as_str());
    url
}


// ── laws of the log lines and the query ────────────────────────────────────
proof fn lemma_padded_starts_with(s: Seq<char>, w: nat, c: char)
    ensures
        text::pad_right_spec(s, w).subrange(0, s.len() as int) == s,
        text::pad_left_spec(s, w, c).len() >= s.len(),
{
    assert(text::pad_right_spec(s, w).subrange(0, s.len() as int) =~= s);
}

/// A log line starts with the message's start time: when `LogStart` reads as
/// `ms` milliseconds since the epoch, the UTC date-time that lies `ms`
/// milliseconds after the epoch (`millis_formatted`, never the value read as
/// seconds); a start that does not read as a date is shown as it is, and a
/// missing one as `—`. A ` [` follows.
pub proof fn log_line_starts_with_start_time(
    guid: Seq<char>,
    flow: Option<Seq<char>>,
    status: Option<Seq<char>>,
    log_start: Option<Seq<char>>,
    log_end: Option<Seq<char>>,
)
    ensures
        ({
            let line = log_line_spec(guid, flow, status, log_start, log_end);
            let shown = match log_start {
                Some(ls) => match dates::json_date_spec(ls) {
                    Some(ms) => match dates::millis_formatted(ms as int, "%Y-%m-%d %H:%M:%S"@) {
                        Some(t) => t,
                        None => ls,
                    },
                    None => ls,
                },
                None => "—"@,
            };
            line.subrange(0, (shown + " ["@).len() as int) == shown + " ["@
        }),
{
    let line = log_line_spec(guid, flow, status, log_start, log_end);
    let head = start_shown(log_start) + " ["@;
    assert(line.subrange(0, head.len() as int) =~= head);
}

/// `piece` stands in `line` at position `p`.
pub open spec fn holds_at(line: Seq<char>, p: int, piece: Seq<char>) -> bool {
    0 <= p && p + piece.len() <= line.len() && line.subrange(p, p + piece.len()) == piece
}

/// The status column of a log line is coloured by the status: `COMPLETED`
/// green, `FAILED` and `DISCARDED` red, `PROCESSING` and `RETRY` yellow, any
/// other (and a missing status, shown as `UNKNOWN`) white. The coloured
/// status follows the start time and ` [`.
pub proof fn log_line_status_colour(
    guid: Seq<char>,
    flow: Option<Seq<char>>,
    status: Option<Seq<char>>,
    log_start: Option<Seq<char>>,
    log_end: Option<Seq<char>>,
)
    ensures
        ({
            let line = log_line_spec(guid, flow, status, log_start, log_end);
            let p = (start_shown(log_start) + " ["@).len() as int;
            let s = match status {
                Some(x) => x,
                None => "UNKNOWN"@,
            };
            &&& s == "COMPLETED"@ ==> holds_at(line, p, "\x1b[32m"@ + s + "\x1b[39m"@)
            &&& (s == "FAILED"@ || s == "DISCARDED"@) ==> holds_at(line, p, "\x1b[31m"@ + s + "\x1b[39m"@)
            &&& (s == "PROCESSING"@ || s == "RETRY"@) ==> holds_at(line, p, "\x1b[33m"@ + s + "\x1b[39m"@)
            &&& (s != "COMPLETED"@ && s != "FAILED"@ && s != "DISCARDED"@ && s != "PROCESSING"@
                && s != "RETRY"@) ==> holds_at(line, p, "\x1b[37m"@ + s + "\x1b[39m"@)
        }),
{
    reveal_strlit("COMPLETED");
    reveal_strlit("FAILED");
    reveal_strlit("DISCARDED");
    reveal_strlit("PROCESSING");
    reveal_strlit("RETRY");
    assert("COMPLETED"@.len() == 9 && "FAILED"@.len() == 6 && "DISCARDED"@.len() == 9
        && "PROCESSING"@.len() == 10 && "RETRY"@.len() == 5);
    assert("COMPLETED"@[0] != "DISCARDED"@[0]);
    let line = log_line_spec(guid, flow, status, log_start, log_end);
    let head = start_shown(log_start) + " ["@;
    let c = status_shown(status);
    lemma_padded_starts_with(c, 9, ' ');
    let padded = text::pad_right_spec(c, 9);
    let p = head.len() as int;
    assert(line.subrange(p, p + c.len()) =~= padded.subrange(0, c.len() as int));
    assert(p + c.len() <= line.len());
    assert(holds_at(line, p, c));
    let s = match status {
        Some(x) => x,
        None => "UNKNOWN"@,
    };
    if s == "COMPLETED"@ {
        assert(c == "\x1b[32m"@ + s + "\x1b[39m"@);
    } else if s == "FAILED"@ || s == "DISCARDED"@ {
        assert(c == "\x1b[31m"@ + s + "\x1b[39m"@);
    } else if s == "PROCESSING"@ || s == "RETRY"@ {
        assert(c == "\x1b[33m"@ + s + "\x1b[39m"@);
    } else {
        assert(c == "\x1b[37m"@ + s + "\x1b[39m"@);
    }
}

/// The `$filter` conditions of a log query: the flow's name first when one is
/// given, then the start-time condition of `--since` (the date-time that the
/// duration reaches back to from `now_secs`) or of `--since-time`, nothing
/// else. Giving both options is refused, and otherwise only a `--since` that
/// cannot be read or dated fails.
pub proof fn log_query_conditions(
    iflow_id: Option<Seq<char>>,
    since: Option<Seq<char>>,
    since_time: Option<Seq<char>>,
    now_secs: u64,
)
    ensures
        ({
            let r = filter_parts_spec(iflow_id, since, since_time, now_secs);
            &&& (since is Some && since_time is Some) ==> r == Err::<Seq<Seq<char>>, LogQueryError>(
                LogQueryError::SinceConflict,
            )
            &&& !(since is Some && since_time is Some) && (since matches Some(d) ==> dates::since_datetime_spec(d, now_secs) is Ok) ==> r is Ok
            &&& r matches Ok(v) ==> ({
                let nf: int = if iflow_id is Some { 1 } else { 0 };
                let nt: int = if since is Some || since_time is Some { 1 } else { 0 };
                &&& v.len() == nf + nt
                &&& (iflow_id matches Some(id) ==> v[0] == "IntegrationFlowName eq '"@ + id + "'"@)
                &&& (since_time matches Some(t) ==> v.last() == "LogStart ge datetime'"@ + t + "'"@)
                &&& (since matches Some(d) ==> (dates::since_datetime_spec(d, now_secs) matches Ok(t)
                    && v.last() == "LogStart ge datetime'"@ + t + "'"@))
            })
        }),
{
}

/// After a poll of `logs -f`, the remembered start time is the latest of
/// its previous value and the start times of the records newly shown: never
/// below any of them, and either the previous value or one of them.
pub proof fn follow_moves_start_forward(seen: Seq<Seq<char>>, last: i64, recs: Seq<LogView>, n: int)
    requires
        0 <= n <= recs.len(),
    ensures
        ({
            let a = absorb_spec(seen, last, recs, n);
            &&& a.1 >= last
            &&& forall|j: int|
                0 <= j < a.2.len() ==> (start_millis(recs[#[trigger] a.2[j]]) matches Some(t) ==> a.1 >= t)
            &&& a.1 == last || exists|j: int|
                0 <= j < a.2.len() && start_millis(recs[#[trigger] a.2[j]]) == Some(a.1)
        }),
    decreases n,
{
    if n > 0 {
        follow_moves_start_forward(seen, last, recs, n - 1);
        let prev = absorb_spec(seen, last, recs, n - 1);
        let a = absorb_spec(seen, last, recs, n);
        let r = recs[n - 1];
        if !prev.0.contains(r.0) {
            assert(a.2 == prev.2.push(n - 1));
            assert forall|j: int|
                0 <= j < a.2.len() implies (start_millis(recs[#[trigger] a.2[j]]) matches Some(t) ==> a.1 >= t) by {
                if j < prev.2.len() {
                    assert(a.2[j] == prev.2[j]);
                }
            }
            if a.1 != last {
                if a.1 == prev.1 {
                    let j = choose|j: int|
                        0 <= j < prev.2.len() && start_millis(recs[#[trigger] prev.2[j]]) == Some(prev.1);
                    assert(a.2[j] == prev.2[j]);
                } else {
                    assert(a.2[prev.2.len() as int] == n - 1);
                }
            }
        }
    }
}

// ── laws of following ───────────────────────────────────────────────────────
/// One poll of `logs -f` never moves the latest start time back, forgets no
/// id, remembers every id it was given, and shows each message at most once:
/// only records whose id had not been seen, no two with the same id.
pub proof fn follow_poll_facts(seen: Seq<Seq<char>>, last: i64, recs: Seq<LogView>, n: int)
    requires
        0 <= n <= recs.len(),
    ensures
        ({
            let a = absorb_spec(seen, last, recs, n);
            &&& a.1 >= last
            &&& forall|g: Seq<char>| seen.contains(g) ==> #[trigger] a.0.contains(g)
            &&& forall|k: int| 0 <= k < n ==> a.0.contains(#[trigger] recs[k].0)
            &&& forall|j: int|
                0 <= j < a.2.len() ==> 0 <= #[trigger] a.2[j] < n && !seen.contains(
                    recs[a.2[j]].0,
                )
            &&& forall|j1: int, j2: int|
                0 <= j1 < j2 < a.2.len() ==> recs[#[trigger] a.2[j1]].0 != recs[#[trigger] a.2[
                    j2]].0
        }),
    decreases n,
{
    if n > 0 {
        follow_poll_facts(seen, last, recs, n - 1);
        let prev = absorb_spec(seen, last, recs, n - 1);
        let a = absorb_spec(seen, last, recs, n);
        let r = recs[n - 1];
        if !prev.0.contains(r.0) {
            assert forall|g: Seq<char>| seen.contains(g) implies #[trigger] a.0.contains(g) by {
                assert(prev.0.contains(g));
                let w = choose|x: int| 0 <= x < prev.0.len() && prev.0[x] == g;
                assert(a.0[w] == g);
            }
            assert forall|k: int| 0 <= k < n implies a.0.contains(#[trigger] recs[k].0) by {
                if k < n - 1 {
                    assert(prev.0.contains(recs[k].0));
                    let w = choose|x: int| 0 <= x < prev.0.len() && prev.0[x] == recs[k].0;
                    assert(a.0[w] == recs[k].0);
                } else {
                    assert(a.0[prev.0.len() as int] == r.0);
                }
            }
            assert forall|j1: int, j2: int|
                0 <= j1 < j2 < a.2.len() implies recs[#[trigger] a.2[j1]].0 != recs[#[trigger] a.2[
                j2]].0 by {
                if j2 == a.2.len() - 1 {
                    assert(a.2[j2] == n - 1);
                    assert(prev.2[j1] == a.2[j1]);
                    assert(prev.0.contains(recs[prev.2[j1]].0));
                } else {
                    assert(prev.2[j1] == a.2[j1] && prev.2[j2] == a.2[j2]);
                }
            }
            assert forall|j: int|
                0 <= j < a.2.len() implies 0 <= #[trigger] a.2[j] < n && !seen.contains(
                recs[a.2[j]].0,
            ) by {
                if j == a.2.len() - 1 {
                    if seen.contains(r.0) {
                        assert(prev.0.contains(r.0));
                    }
                } else {
                    assert(prev.2[j] == a.2[j]);
                }
            }
        } else {
            assert forall|k: int| 0 <= k < n implies a.0.contains(#[trigger] recs[k].0) by {
                if k < n - 1 {
                    assert(prev.0.contains(recs[k].0));
                }
            }
        }
    }
}

/// What one poll remembers and picks: the ids remembered are those seen
/// before and those of the poll's records; the picked indices are below `n`
/// and increasing.
pub proof fn absorb_remembers(seen: Seq<Seq<char>>, last: i64, recs: Seq<LogView>, n: int)
    requires
        0 <= n <= recs.len(),
    ensures
        ({
            let a = absorb_spec(seen, last, recs, n);
            &&& forall|g: Seq<char>|
                #[trigger] a.0.contains(g) <==> (seen.contains(g) || exists|k: int|
                    0 <= k < n && recs[k].0 == g)
            &&& forall|i: int| 0 <= i < a.2.len() ==> 0 <= #[trigger] a.2[i] < n
            &&& forall|i1: int, i2: int| 0 <= i1 < i2 < a.2.len() ==> #[trigger] a.2[i1] < #[trigger] a.2[i2]
        }),
    decreases n,
{
    if n > 0 {
        absorb_remembers(seen, last, recs, n - 1);
        let prev = absorb_spec(seen, last, recs, n - 1);
        let a = absorb_spec(seen, last, recs, n);
        let r = recs[n - 1];
        assert forall|g: Seq<char>|
            #[trigger] a.0.contains(g) <==> (seen.contains(g) || exists|k: int|
                0 <= k < n && recs[k].0 == g) by {
            if prev.0.contains(r.0) {
                if exists|k: int| 0 <= k < n && recs[k].0 == g {
                    let k = choose|k: int| 0 <= k < n && recs[k].0 == g;
                    if k < n - 1 {
                        assert(exists|k2: int| 0 <= k2 < n - 1 && recs[k2].0 == g);
                    }
                }
                if exists|k: int| 0 <= k < n - 1 && recs[k].0 == g {
                    let k = choose|k: int| 0 <= k < n - 1 && recs[k].0 == g;
                    assert(0 <= k < n && recs[k].0 == g);
                }
            } else {
                let b = prev.0.push(r.0);
                assert(a.0 == b);
                if b.contains(g) {
                    let w = choose|w: int| 0 <= w < b.len() && b[w] == g;
                    if w < prev.0.len() {
                        assert(prev.0[w] == g);
                        assert(prev.0.contains(g));
                        if exists|k: int| 0 <= k < n - 1 && recs[k].0 == g {
                            let k = choose|k: int| 0 <= k < n - 1 && recs[k].0 == g;
                            assert(0 <= k < n && recs[k].0 == g);
                        }
                    } else {
                        assert(recs[n - 1].0 == g);
                    }
                }
                if seen.contains(g) || exists|k: int| 0 <= k < n && recs[k].0 == g {
                    if g == r.0 {
                        assert(b[prev.0.len() as int] == g);
                    } else {
                        if exists|k: int| 0 <= k < n && recs[k].0 == g {
                            let k = choose|k: int| 0 <= k < n && recs[k].0 == g;
                            assert(k < n - 1);
                            assert(exists|k2: int| 0 <= k2 < n - 1 && recs[k2].0 == g);
                        }
                        assert(prev.0.contains(g));
                        let w = choose|w: int| 0 <= w < prev.0.len() && prev.0[w] == g;
                        assert(b[w] == g);
                    }
                }
            }
        }
        if !prev.0.contains(r.0) {
            assert forall|i: int| 0 <= i < a.2.len() implies 0 <= #[trigger] a.2[i] < n by {
                if i < prev.2.len() {
                    assert(a.2[i] == prev.2[i]);
                }
            }
            assert forall|i1: int, i2: int| 0 <= i1 < i2 < a.2.len() implies #[trigger] a.2[i1]
                < #[trigger] a.2[i2] by {
                assert(a.2[i1] == prev.2[i1]);
                if i2 < prev.2.len() {
                    assert(a.2[i2] == prev.2[i2]);
                }
            }
        }
    }
}

/// In one poll of `logs -f`, record `j` is shown exactly when its id had not
/// been seen and no earlier record of the same poll has it; the records shown
/// keep their order.
pub proof fn follow_shows_exactly_new(seen: Seq<Seq<char>>, last: i64, recs: Seq<LogView>, n: int)
    requires
        0 <= n <= recs.len(),
    ensures
        ({
            let a = absorb_spec(seen, last, recs, n);
            &&& forall|j: int|
                0 <= j < n ==> (#[trigger] a.2.contains(j) <==> (!seen.contains(recs[j].0) && forall|k: int|
                    0 <= k < j ==> recs[k].0 != recs[j].0))
            &&& forall|i1: int, i2: int| 0 <= i1 < i2 < a.2.len() ==> #[trigger] a.2[i1] < #[trigger] a.2[i2]
        }),
    decreases n,
{
    absorb_remembers(seen, last, recs, n);
    if n > 0 {
        follow_shows_exactly_new(seen, last, recs, n - 1);
        absorb_remembers(seen, last, recs, n - 1);
        let prev = absorb_spec(seen, last, recs, n - 1);
        let a = absorb_spec(seen, last, recs, n);
        let r = recs[n - 1];
        assert forall|j: int|
            0 <= j < n implies (#[trigger] a.2.contains(j) <==> (!seen.contains(recs[j].0)
                && forall|k: int| 0 <= k < j ==> recs[k].0 != recs[j].0)) by {
            if prev.0.contains(r.0) {
                assert(a.2 == prev.2);
                if j == n - 1 {
                    if a.2.contains(j) {
                        let w = choose|w: int| 0 <= w < prev.2.len() && prev.2[w] == j;
                        assert(prev.2[w] < n - 1);
                    }
                    if !seen.contains(r.0) {
                        let k = choose|k: int| 0 <= k < n - 1 && recs[k].0 == r.0;
                        assert(0 <= k < j && recs[k].0 == recs[j].0);
                    }
                } else {
                    assert(prev.2.contains(j) <==> (!seen.contains(recs[j].0) && forall|k: int|
                        0 <= k < j ==> recs[k].0 != recs[j].0));
                }
            } else {
                let b = prev.2.push(n - 1);
                assert(a.2 == b);
                if j == n - 1 {
                    assert(b[prev.2.len() as int] == j);
                    assert(!seen.contains(r.0));
                    assert forall|k: int| 0 <= k < j implies recs[k].0 != recs[j].0 by {
                        if recs[k].0 == recs[j].0 {
                            assert(exists|k2: int| 0 <= k2 < n - 1 && recs[k2].0 == r.0);
                        }
                    }
                } else {
                    if b.contains(j) {
                        let w = choose|w: int| 0 <= w < b.len() && b[w] == j;
                        assert(w < prev.2.len());
                        assert(prev.2[w] == j);
                        assert(prev.2.contains(j));
                    }
                    if prev.2.contains(j) {
                        let w = choose|w: int| 0 <= w < prev.2.len() && prev.2[w] == j;
                        assert(b[w] == j);
                    }
                    assert(prev.2.contains(j) <==> (!seen.contains(recs[j].0) && forall|k: int|
                        0 <= k < j ==> recs[k].0 != recs[j].0));
                }
            }
        }
    }
}

/// The state of `logs -f` after the first `m` polls: the ids remembered and
/// the latest start time.
pub open spec fn polls_state(seen: Seq<Seq<char>>, last: i64, polls: Seq<Seq<LogView>>, m: int) -> (
    Seq<Seq<char>>,
    i64,
)
    decreases m,
{
    if m <= 0 {
        (seen, last)
    } else {
        let st = polls_state(seen, last, polls, m - 1);
        let a = absorb_spec(st.0, st.1, polls[m - 1], polls[m - 1].len() as int);
        (a.0, a.1)
    }
}

/// The ids that the first `m` polls of `logs -f` show, in the order shown.
pub open spec fn polls_shown(seen: Seq<Seq<char>>, last: i64, polls: Seq<Seq<LogView>>, m: int) -> Seq<
    Seq<char>,
>
    decreases m,
{
    if m <= 0 {
        Seq::empty()
    } else {
        let st = polls_state(seen, last, polls, m - 1);
        let recs = polls[m - 1];
        let a = absorb_spec(st.0, st.1, recs, recs.len() as int);
        polls_shown(seen, last, polls, m - 1) + a.2.map_values(|k: int| recs[k].0)
    }
}

/// Over any number of polls, `logs -f` never shows an id twice, and never one
/// that the first listing showed (or that was otherwise seen before); every
/// id shown is remembered.
pub proof fn follow_never_repeats(seen: Seq<Seq<char>>, last: i64, polls: Seq<Seq<LogView>>, m: int)
    requires
        0 <= m <= polls.len(),
    ensures
        ({
            let shown = polls_shown(seen, last, polls, m);
            let st = polls_state(seen, last, polls, m);
            &&& forall|i: int, j: int| 0 <= i < j < shown.len() ==> shown[i] != shown[j]
            &&& forall|i: int| 0 <= i < shown.len() ==> !seen.contains(#[trigger] shown[i])
            &&& forall|i: int| 0 <= i < shown.len() ==> st.0.contains(#[trigger] shown[i])
            &&& forall|g: Seq<char>| seen.contains(g) ==> #[trigger] st.0.contains(g)
        }),
    decreases m,
{
    if m > 0 {
        follow_never_repeats(seen, last, polls, m - 1);
        let prev = polls_shown(seen, last, polls, m - 1);
        let st = polls_state(seen, last, polls, m - 1);
        let recs = polls[m - 1];
        let n = recs.len() as int;
        let a = absorb_spec(st.0, st.1, recs, n);
        follow_poll_facts(st.0, st.1, recs, n);
        let new = a.2.map_values(|k: int| recs[k].0);
        let shown = polls_shown(seen, last, polls, m);
        assert(shown == prev + new);
        assert forall|i: int| 0 <= i < shown.len() implies a.0.contains(#[trigger] shown[i]) by {
            if i < prev.len() {
                assert(shown[i] == prev[i]);
                assert(st.0.contains(prev[i]));
            } else {
                let k = a.2[i - prev.len()];
                assert(shown[i] == recs[k].0);
            }
        }
        assert forall|i: int| 0 <= i < shown.len() implies !seen.contains(#[trigger] shown[i]) by {
            if i < prev.len() {
                assert(shown[i] == prev[i]);
            } else {
                let k = a.2[i - prev.len()];
                assert(shown[i] == recs[k].0);
                assert(!st.0.contains(recs[k].0));
            }
        }
        assert forall|i: int, j: int| 0 <= i < j < shown.len() implies shown[i] != shown[j] by {
            if j < prev.len() {
                assert(shown[i] == prev[i] && shown[j] == prev[j]);
            } else if i < prev.len() {
                let kj = a.2[j - prev.len()];
                assert(shown[j] == recs[kj].0);
                assert(shown[i] == prev[i]);
                assert(st.0.contains(prev[i]));
                assert(!st.0.contains(recs[kj].0));
            } else {
                let ki = a.2[i - prev.len()];
                let kj = a.2[j - prev.len()];
                assert(shown[i] == recs[ki].0);
                assert(shown[j] == recs[kj].0);
            }
        }
    }
}

/// Across two successive polls of `logs -f`, no message is shown twice:
/// whatever the second poll shows has an id that the first one did not show.
pub proof fn follow_never_shows_twice(
    seen: Seq<Seq<char>>,
    last: i64,
    first: Seq<LogView>,
    second: Seq<LogView>,
)
    ensures
        ({
            let a = absorb_spec(seen, last, first, first.len() as int);
            let b = absorb_spec(a.0, a.1, second, second.len() as int);
            forall|i: int, j: int|
                0 <= i < a.2.len() && 0 <= j < b.2.len() ==> first[#[trigger] a.2[i]].0
                    != second[#[trigger] b.2[j]].0
        }),
{
    let a = absorb_spec(seen, last, first, first.len() as int);
    let b = absorb_spec(a.0, a.1, second, second.len() as int);
    follow_poll_facts(seen, last, first, first.len() as int);
    follow_poll_facts(a.0, a.1, second, second.len() as int);
    assert forall|i: int, j: int|
        0 <= i < a.2.len() && 0 <= j < b.2.len() implies first[#[trigger] a.2[i]].0
            != second[#[trigger] b.2[j]].0 by {
        assert(a.0.contains(first[a.2[i]].0));
    }
}

} // verus!
