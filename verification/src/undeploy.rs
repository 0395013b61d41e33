//! Undeploying integration flows, one by id or many from a CSV file.
use vstd::prelude::*;

use crate::auth::{is_success, status_ok};
use crate::text::{self, dec_string, eq_ignore_ascii_case, owned, push_str, trim};

verus! {

/// The `undeploy` subcommands; a bulk file is given by its path.
#[derive(Debug)]
pub enum UnDeployCommands {
    /// Undeploy a single integration flow.
    Iflow { id: String },
    /// Undeploy the integration flows listed in a CSV file.
    Bulk { file: String },
}

/// One flow to undeploy.
#[derive(Debug)]
pub struct UnDeployEntry {
    pub id: String,
}

/// The address that undeploys flow `id` (version `1.0`) on the tenant at
/// `base_url`.
pub fn build_undeploy_url(base_url: &str, id: &str) -> (r: String)
    ensures
        r@ == base_url@ + "/api/v1/IntegrationRuntimeArtifacts?Id='"@ + id@ + "'&Version='1.0'"@,
{
    let mut r = owned(base_url);
    push_str(&mut r, "/api/v1/IntegrationRuntimeArtifacts?Id='");
    push_str(&mut r, id);
    push_str(&mut r, "'&Version='1.0'");
    r
}

// ── reading the CSV ────────────────────────────────────────────────────────
#[verifier::external_type_specification]
#[verifier::external_body]
pub struct ExCsvError(csv::Error);

/// The header row of `content`, read as CSV with a header, and the records
/// that follow up to the first one that fails to read, with whether one
/// failed; `None` when the header row itself fails.
pub uninterp spec fn csv_read(content: Seq<char>) -> Option<
    (Seq<Seq<char>>, Seq<Seq<Seq<char>>>, bool),
>;

pub open spec fn rows_view(rows: Seq<Vec<String>>) -> Seq<Seq<Seq<char>>> {
    rows.map_values(|r: Vec<String>| text::strings_view(r@))
}

/// Reads `content` with `csv::ReaderBuilder::new().has_headers(true)`:
/// `headers()`, then `records()` until the first error. Claimed: the header,
/// the records read and whether one failed are those named `csv_read`; the
/// CSV grammar is not restated.
#[verifier::external_body]
fn read_csv(content: &str) -> (r: Result<(Vec<String>, Vec<Vec<String>>, Option<csv::Error>), csv::Error>)
    ensures
        match r {
            Ok((h, rows, failed)) => csv_read(content@) == Some(
                (text::strings_view(h@), rows_view(rows@), failed is Some),
            ),
            Err(_) => csv_read(content@) is None,
        },
{
    let mut reader = csv::ReaderBuilder::new().has_headers(true).from_reader(content.as_bytes());
    let headers: Vec<String> = reader.headers()?.iter().map(|h| h.to_string()).collect();
    let mut rows: Vec<Vec<String>> = Vec::new();
    for result in reader.records() {
        match result {
            Ok(record) => rows.push(record.iter().map(|f| f.to_string()).collect()),
            Err(e) => return Ok((headers, rows, Some(e))),
        }
    }
    Ok((headers, rows, None))
}

/// `csv::Error`'s `Display` text. Nothing is claimed of it.
#[verifier::external_body]
fn csv_error_text(e: &csv::Error) -> String {
    e.to_string()
}

/// Why a CSV file yields no undeploy list.
#[derive(Debug)]
pub enum UndeployError {
    /// The CSV reader failed, with its message.
    Csv(String),
    /// None of these column names is in the header.
    MissingColumn(String),
    /// The file lists no flow.
    NoEntries(String),
    /// The service refused, with this status and body.
    Refused(String, String),
}

impl UndeployError {
    /// The message shown for the error.
    pub fn message(&self) -> (r: String)
        ensures
            r@ == match self {
                UndeployError::Csv(m) => m@,
                UndeployError::MissingColumn(c) =>
                    "CSV file is missing a required column. Expected one of: "@ + c@,
                UndeployError::NoEntries(f) => "no undeploy entries were found in "@ + f@,
                UndeployError::Refused(s, b) => "Undeployment request failed with status "@ + s@
                    + ": "@ + b@,
            },
    {
        match self {
            UndeployError::Csv(m) => m.clone(),
            UndeployError::MissingColumn(c) => {
                let mut m = owned("CSV file is missing a required column. Expected one of: ");
                push_str(&mut m, c.as_str());
                m
            },
            UndeployError::NoEntries(f) => {
                let mut m = owned("no undeploy entries were found in ");
                push_str(&mut m, f.as_str());
                m
            },
            UndeployError::Refused(s, b) => {
                let mut m = owned("Undeployment request failed with status ");
                push_str(&mut m, s.as_str());
                push_str(&mut m, ": ");
                push_str(&mut m, b.as_str());
                m
            },
        }
    }
}

/// The column names that hold a flow's id, in order of preference.
pub open spec fn id_columns() -> Seq<Seq<char>> {
    seq!["id"@, "iflow"@, "iflow_id"@, "name"@]
}

/// The column names that hold a flow's version, in order of preference.
pub open spec fn version_columns() -> Seq<Seq<char>> {
    seq!["version"@, "version_no"@, "ver"@]
}

/// The first header at or after `k` that, trimmed, equals `c` ignoring ASCII
/// case.
pub open spec fn header_pos(headers: Seq<Seq<char>>, c: Seq<char>, k: int) -> Option<int>
    decreases headers.len() - k,
{
    if k < 0 || k >= headers.len() {
        None
    } else if text::eq_ignore_case_spec(text::trim_spec(headers[k]), c) {
        Some(k)
    } else {
        header_pos(headers, c, k + 1)
    }
}

/// The column of the first candidate at or after `ci` that some header names.
pub open spec fn column_of(headers: Seq<Seq<char>>, cands: Seq<Seq<char>>, ci: int) -> Option<int>
    decreases cands.len() - ci,
{
    if ci < 0 || ci >= cands.len() {
        None
    } else {
        match header_pos(headers, cands[ci], 0) {
            Some(k) => Some(k),
            None => column_of(headers, cands, ci + 1),
        }
    }
}

/// The trimmed field of `record` under the first candidate column, empty when
/// the record is too short; `None` when no candidate column exists.
pub open spec fn csv_value(headers: Seq<Seq<char>>, record: Seq<Seq<char>>, cands: Seq<Seq<char>>) -> Option<
    Seq<char>,
> {
    match column_of(headers, cands, 0) {
        Some(k) => Some(
            if k < record.len() {
                text::trim_spec(record[k])
            } else {
                Seq::empty()
            },
        ),
        None => None,
    }
}

/// Why a CSV table yields no list: the reader failed, or a record lacks an
/// id or a version column.
pub enum EntriesFailure {
    Unreadable,
    MissingId,
    MissingVersion,
}

/// The flow ids of the first `n` records: each record's id and version
/// columns must exist; records with a blank id or version are skipped.
pub open spec fn entries_spec(headers: Seq<Seq<char>>, records: Seq<Seq<Seq<char>>>, n: int) -> Result<
    Seq<Seq<char>>,
    EntriesFailure,
>
    decreases n,
{
    if n <= 0 {
        Ok(Seq::empty())
    } else {
        match entries_spec(headers, records, n - 1) {
            Err(e) => Err(e),
            Ok(prev) => match csv_value(headers, records[n - 1], id_columns()) {
                None => Err(EntriesFailure::MissingId),
                Some(id) => match csv_value(headers, records[n - 1], version_columns()) {
                    None => Err(EntriesFailure::MissingVersion),
                    Some(v) => if text::trim_spec(id).len() == 0 || text::trim_spec(v).len() == 0 {
                        Ok(prev)
                    } else {
                        Ok(prev.push(text::trim_spec(id)))
                    },
                },
            },
        }
    }
}

pub proof fn lemma_entries_err_stays(h: Seq<Seq<char>>, rs: Seq<Seq<Seq<char>>>, m: int, n: int)
    requires
        1 <= m <= n,
        entries_spec(h, rs, m) is Err,
    ensures
        entries_spec(h, rs, n) == entries_spec(h, rs, m),
    decreases n - m,
{
    if n > m {
        lemma_entries_err_stays(h, rs, m, n - 1);
    }
}

/// The trimmed field of a record in column `k`, empty when the record is
/// too short.
pub open spec fn field_at(record: Seq<Seq<char>>, k: int) -> Seq<char> {
    if k < record.len() {
        text::trim_spec(record[k])
    } else {
        Seq::empty()
    }
}

/// The ids listed by the first `n` records, with the id in column `ic` and
/// the version in column `vc`: the trimmed ids of the records whose id and
/// version are not blank, in order.
pub open spec fn listed_ids(rows: Seq<Seq<Seq<char>>>, ic: int, vc: int, n: int) -> Seq<Seq<char>>
    decreases n,
{
    if n <= 0 {
        Seq::empty()
    } else {
        let prev = listed_ids(rows, ic, vc, n - 1);
        let id = field_at(rows[n - 1], ic);
        let v = field_at(rows[n - 1], vc);
        if text::trim_spec(id).len() == 0 || text::trim_spec(v).len() == 0 {
            prev
        } else {
            prev.push(text::trim_spec(id))
        }
    }
}

/// Reading the records of a bulk file fails exactly when the header names no
/// id column (then that is the error) or no version column; otherwise it
/// lists, in order, the trimmed ids of the records whose id and version are
/// not blank.
pub proof fn bulk_rows_read(h: Seq<Seq<char>>, rows: Seq<Seq<Seq<char>>>, n: int)
    requires
        1 <= n <= rows.len(),
    ensures
        match (column_of(h, id_columns(), 0), column_of(h, version_columns(), 0)) {
            (Some(ic), Some(vc)) => entries_spec(h, rows, n) == Ok::<Seq<Seq<char>>, EntriesFailure>(
                listed_ids(rows, ic, vc, n),
            ),
            (None, _) => entries_spec(h, rows, n) == Err::<Seq<Seq<char>>, EntriesFailure>(
                EntriesFailure::MissingId,
            ),
            (Some(_), None) => entries_spec(h, rows, n) == Err::<Seq<Seq<char>>, EntriesFailure>(
                EntriesFailure::MissingVersion,
            ),
        },
    decreases n,
{
    if n > 1 {
        bulk_rows_read(h, rows, n - 1);
    } else {
        assert(entries_spec(h, rows, 0) == Ok::<Seq<Seq<char>>, EntriesFailure>(Seq::empty()));
        assert(forall|ic: int, vc: int| listed_ids(rows, ic, vc, 0) == Seq::<Seq<char>>::empty());
    }
    let r = rows[n - 1];
    assert(column_of(h, id_columns(), 0) is None ==> csv_value(h, r, id_columns()) is None);
    assert(column_of(h, version_columns(), 0) is None ==> csv_value(h, r, version_columns()) is None);
    match (column_of(h, id_columns(), 0), column_of(h, version_columns(), 0)) {
        (Some(ic), Some(vc)) => {
            assert(csv_value(h, r, id_columns()) == Some(field_at(r, ic)));
            assert(csv_value(h, r, version_columns()) == Some(field_at(r, vc)));
            assert(entries_spec(h, rows, n - 1) == Ok::<Seq<Seq<char>>, EntriesFailure>(
                listed_ids(rows, ic, vc, n - 1),
            ));
            let id = field_at(r, ic);
            let v = field_at(r, vc);
            let prev = listed_ids(rows, ic, vc, n - 1);
            if text::trim_spec(id).len() == 0 || text::trim_spec(v).len() == 0 {
                assert(listed_ids(rows, ic, vc, n) == prev);
                assert(entries_spec(h, rows, n) == Ok::<Seq<Seq<char>>, EntriesFailure>(prev));
            } else {
                assert(listed_ids(rows, ic, vc, n) == prev.push(text::trim_spec(id)));
                assert(entries_spec(h, rows, n) == Ok::<Seq<Seq<char>>, EntriesFailure>(
                    prev.push(text::trim_spec(id)),
                ));
            }
        },
        _ => {},
    }
}

pub open spec fn entries_view(v: Seq<UnDeployEntry>) -> Seq<Seq<char>> {
    v.map_values(|e: UnDeployEntry| e.id@)
}

fn header_position(headers: &Vec<String>, c: &str) -> (r: Option<usize>)
    ensures
        match r {
            Some(k) => k < headers.len() && header_pos(text::strings_view(headers@), c@, 0) == Some(
                k as int,
            ),
            None => header_pos(text::strings_view(headers@), c@, 0) is None,
        },
{
    let ghost hv = text::strings_view(headers@);
    let mut k: usize = 0;
    while k < headers.len()
        invariant
            k <= headers.len(),
            hv == text::strings_view(headers@),
            header_pos(hv, c@, 0) == header_pos(hv, c@, k as int),
        decreases headers.len() - k,
    {
        let h = trim(headers[k].as_str());
        if eq_ignore_ascii_case(h.as_str(), c) {
            return Some(k);
        }
        k += 1;
    }
    None
}

/// The trimmed value of `record` in the first of `cands` that the header
/// names, or the names joined by `, ` when none does.
pub fn get_csv_value(headers: &Vec<String>, record: &Vec<String>, cands: &Vec<String>) -> (r: Result<
    String,
    String,
>)
    ensures
        match r {
            Ok(v) => csv_value(text::strings_view(headers@), text::strings_view(record@), text::strings_view(cands@))
                == Some(v@),
            Err(names) => csv_value(text::strings_view(headers@), text::strings_view(record@), text::strings_view(cands@))
                is None && names@ == text::join_spec(text::strings_view(cands@), ", "@),
        },
{
    let ghost hv = text::strings_view(headers@);
    let ghost cv = text::strings_view(cands@);
    let mut ci: usize = 0;
    while ci < cands.len()
        invariant
            ci <= cands.len(),
            hv == text::strings_view(headers@),
            cv == text::strings_view(cands@),
            column_of(hv, cv, 0) == column_of(hv, cv, ci as int),
        decreases cands.len() - ci,
    {
        if let Some(k) = header_position(headers, cands[ci].as_str()) {
            if k < record.len() {
                return Ok(trim(record[k].as_str()));
            } else {
                return Ok(String::new());
            }
        }
        ci += 1;
    }
    Err(text::join(cands, ", "))
}

fn column_names(id: bool) -> (r: Vec<String>)
    ensures
        text::strings_view(r@) == if id {
            id_columns()
        } else {
            version_columns()
        },
{
    let mut r: Vec<String> = Vec::new();
    if id {
        r.push(owned("id"));
        r.push(owned("iflow"));
        r.push(owned("iflow_id"));
        r.push(owned("name"));
        assert(text::strings_view(r@) =~= id_columns());
    } else {
        r.push(owned("version"));
        r.push(owned("version_no"));
        r.push(owned("ver"));
        assert(text::strings_view(r@) =~= version_columns());
    }
    r
}

/// What `undeploy_entries` gives for a read table: the ids, or the first
/// failure met (a missing column precedes a reader failure after the records
/// read).
pub open spec fn table_entries_spec(h: Seq<Seq<char>>, rows: Seq<Seq<Seq<char>>>, failed: bool) -> Result<
    Seq<Seq<char>>,
    EntriesFailure,
> {
    match entries_spec(h, rows, rows.len() as int) {
        Err(e) => Err(e),
        Ok(ids) => if failed {
            Err(EntriesFailure::Unreadable)
        } else {
            Ok(ids)
        },
    }
}

/// What `parse_undeploy_csv` gives for `content`.
pub open spec fn undeploy_csv_spec(content: Seq<char>) -> Result<Seq<Seq<char>>, EntriesFailure> {
    match csv_read(content) {
        None => Err(EntriesFailure::Unreadable),
        Some((h, rows, failed)) => table_entries_spec(h, rows, failed),
    }
}

/// The flows listed in a read CSV table (its header, its records, and the
/// reader's message if it stopped early): from each record the trimmed value
/// of the first of the columns `id`, `iflow`, `iflow_id`, `name` and of
/// `version`, `version_no`, `ver` (header names trimmed, ASCII case
/// ignored); records with a blank id or version are skipped. A missing
/// column fails at the first record; a reader failure counts after the
/// records read before it.
pub fn undeploy_entries(headers: &Vec<String>, rows: &Vec<Vec<String>>, failure: Option<String>) -> (r:
    Result<Vec<UnDeployEntry>, UndeployError>)
    ensures
        ({
            let spec = table_entries_spec(
                text::strings_view(headers@),
                rows_view(rows@),
                failure is Some,
            );
            match r {
                Ok(v) => spec == Ok::<Seq<Seq<char>>, EntriesFailure>(entries_view(v@)),
                Err(UndeployError::Csv(m)) => spec == Err::<Seq<Seq<char>>, EntriesFailure>(EntriesFailure::Unreadable) && failure == Some(m),
                Err(UndeployError::MissingColumn(c)) => (spec == Err::<Seq<Seq<char>>, EntriesFailure>(EntriesFailure::MissingId) && c@
                    == text::join_spec(id_columns(), ", "@)) || (spec == Err::<Seq<Seq<char>>, EntriesFailure>(EntriesFailure::MissingVersion)
                    && c@ == text::join_spec(version_columns(), ", "@)),
                Err(_) => false,
            }
        }),
{
    let ghost hv = text::strings_view(headers@);
    let ghost rv = rows_view(rows@);
    let id_cols = column_names(true);
    let ver_cols = column_names(false);
    let mut entries: Vec<UnDeployEntry> = Vec::new();
    assert(entries_view(entries@) =~= Seq::<Seq<char>>::empty());
    let mut i: usize = 0;
    while i < rows.len()
        invariant
            i <= rows.len(),
            hv == text::strings_view(headers@),
            rv == rows_view(rows@),
            text::strings_view(id_cols@) == id_columns(),
            text::strings_view(ver_cols@) == version_columns(),
            entries_spec(hv, rv, i as int) == Ok::<Seq<Seq<char>>, EntriesFailure>(
                entries_view(entries@),
            ),
        decreases rows.len() - i,
    {
        assert(rv[i as int] == text::strings_view(rows@[i as int]@));
        let id = match get_csv_value(headers, &rows[i], &id_cols) {
            Ok(v) => v,
            Err(names) => {
                proof {
                    lemma_entries_err_stays(hv, rv, i + 1, rv.len() as int);
                }
                return Err(UndeployError::MissingColumn(names));
            },
        };
        let version = match get_csv_value(headers, &rows[i], &ver_cols) {
            Ok(v) => v,
            Err(names) => {
                proof {
                    lemma_entries_err_stays(hv, rv, i + 1, rv.len() as int);
                }
                return Err(UndeployError::MissingColumn(names));
            },
        };
        let tid = trim(id.as_str());
        let tver = trim(version.as_str());
        if !tid.as_str().is_empty() && !tver.as_str().is_empty() {
            let ghost prev = entries_view(entries@);
            let ghost tv = tid@;
            entries.push(UnDeployEntry { id: tid });
            assert(entries_view(entries@) =~= prev.push(tv));
        }
        i += 1;
    }
    match failure {
        Some(m) => Err(UndeployError::Csv(m)),
        None => Ok(entries),
    }
}

/// The flows listed in a CSV file (see `undeploy_entries`), read with the
/// `csv` crate.
pub fn parse_undeploy_csv(content: &str) -> (r: Result<Vec<UnDeployEntry>, UndeployError>)
    ensures
        match r {
            Ok(v) => undeploy_csv_spec(content@) == Ok::<Seq<Seq<char>>, EntriesFailure>(entries_view(v@)),
            Err(UndeployError::Csv(_)) => undeploy_csv_spec(content@) == Err::<Seq<Seq<char>>, EntriesFailure>(EntriesFailure::Unreadable),
            Err(UndeployError::MissingColumn(c)) => (undeploy_csv_spec(content@) == Err::<Seq<Seq<char>>, EntriesFailure>(EntriesFailure::MissingId) && c@ == text::join_spec(id_columns(), ", "@)) || (undeploy_csv_spec(content@)
                == Err::<Seq<Seq<char>>, EntriesFailure>(EntriesFailure::MissingVersion) && c@ == text::join_spec(version_columns(), ", "@)),
            Err(_) => false,
        },
{
    let (headers, rows, failed) = match read_csv(content) {
        Ok(t) => t,
        Err(e) => return Err(UndeployError::Csv(csv_error_text(&e))),
    };
    let failure = match failed {
        Some(e) => Some(csv_error_text(&e)),
        None => None,
    };
    undeploy_entries(&headers, &rows, failure)
}

/// The flows of a bulk file, which must list at least one (`file` names it
/// in the error).
pub fn bulk_undeploy_entries(content: &str, file: &str) -> (r: Result<Vec<UnDeployEntry>, UndeployError>)
    ensures
        match r {
            Ok(v) => v@.len() > 0 && undeploy_csv_spec(content@) == Ok::<Seq<Seq<char>>, EntriesFailure>(entries_view(v@)),
            Err(UndeployError::NoEntries(f)) => f@ == file@ && undeploy_csv_spec(content@) == Ok::<Seq<Seq<char>>, EntriesFailure>(Seq::empty()),
            Err(UndeployError::Csv(_)) => undeploy_csv_spec(content@) == Err::<Seq<Seq<char>>, EntriesFailure>(EntriesFailure::Unreadable),
            Err(UndeployError::MissingColumn(_)) => undeploy_csv_spec(content@) is Err,
            Err(_) => false,
        },
{
    let entries = parse_undeploy_csv(content)?;
    if entries.len() == 0 {
        assert(entries_view(entries@) =~= Seq::<Seq<char>>::empty());
        return Err(UndeployError::NoEntries(owned(file)));
    }
    Ok(entries)
}

/// The progress line shown when a bulk undeploy starts.
pub fn bulk_start_message(profile: &str, count: usize, file: &str) -> (r: String)
    ensures
        r@ == "["@ + profile@ + "] Undeploying "@ + text::dec(count as nat) + " iflow(s) from "@ + file@,
{
    let mut m = owned("[");
    push_str(&mut m, profile);
    push_str(&mut m, "] Undeploying ");
    push_str(&mut m, dec_string(count as u64).as_str());
    push_str(&mut m, " iflow(s) from ");
    push_str(&mut m, file);
    m
}

/// The progress line for the flow at `index` (counting from 0) of `count`.
pub fn bulk_progress_message(index: usize, count: usize, id: &str) -> (r: String)
    requires
        index < count,
    ensures
        r@ == "["@ + text::dec(index as nat + 1) + "/"@ + text::dec(count as nat) + "] Undeploying "@ + id@,
{
    let mut m = owned("[");
    push_str(&mut m, dec_string((index + 1) as u64).as_str());
    push_str(&mut m, "/");
    push_str(&mut m, dec_string(count as u64).as_str());
    push_str(&mut m, "] Undeploying ");
    push_str(&mut m, id);
    m
}

/// The line shown once a flow is undeployed.
pub fn undeploy_success_message(profile: &str, id: &str) -> (r: String)
    ensures
        r@ == "\n["@ + profile@ + "] Undeployment of iflow "@ + id@ + " is successfull."@,
{
    let mut m = owned("\n[");
    push_str(&mut m, profile);
    push_str(&mut m, "] Undeployment of iflow ");
    push_str(&mut m, id);
    push_str(&mut m, " is successfull.");
    m
}

/// The outcome of an undeploy request, from its status and body: on a
/// success status the line to show, otherwise the refusal with the status
/// and the body.
pub fn undeploy_answer(profile: &str, id: &str, status: u16, status_text: &str, body: &str) -> (r: Result<
    String,
    UndeployError,
>)
    ensures
        status_ok(status) ==> (r matches Ok(m) && m@ == "\n["@ + profile@ + "] Undeployment of iflow "@
            + id@ + " is successfull."@),
        !status_ok(status) ==> (r matches Err(UndeployError::Refused(s, b)) && s@ == status_text@
            && b@ == body@),
{
    if is_success(status) {
        Ok(undeploy_success_message(profile, id))
    } else {
        Err(UndeployError::Refused(owned(status_text), owned(body)))
    }
}

/// What a bulk undeploy does next.
#[derive(Debug)]
pub enum BulkStep {
    /// Undeploy the entry at `index`, showing `progress`.
    Undeploy { index: usize, id: String, progress: String },
    /// Every entry is undeployed.
    Finished,
    /// The last undeploy failed; the run stops there.
    Stopped,
}

/// The next step of a bulk undeploy after `done` entries, the last of which
/// succeeded when `last_ok`: a failure stops the run; otherwise the next
/// entry is undeployed, in order, until all are.
pub fn bulk_next(entries: &Vec<UnDeployEntry>, done: usize, last_ok: bool) -> (r: BulkStep)
    requires
        done <= entries@.len(),
    ensures
        !last_ok ==> r is Stopped,
        last_ok && done == entries@.len() ==> r is Finished,
        last_ok && done < entries@.len() ==> (r matches BulkStep::Undeploy { index, id, progress }
            && index == done && id@ == entries@[done as int].id@ && progress@ == "["@ + text::dec(
            done as nat + 1,
        ) + "/"@ + text::dec(entries@.len()) + "] Undeploying "@ + id@),
{
    if !last_ok {
        return BulkStep::Stopped;
    }
    if done == entries.len() {
        return BulkStep::Finished;
    }
    let id = entries[done].id.clone();
    let progress = bulk_progress_message(done, entries.len(), id.as_str());
    BulkStep::Undeploy { index: done, id, progress }
}

/// What `undeploy` does with its arguments.
#[derive(Debug)]
pub enum UndeployAction {
    /// Run the given subcommand.
    Subcommand,
    /// Undeploy the flows listed in the file.
    Bulk,
    /// Undeploy the flow with this id.
    Single(String),
    /// The file is missing (message names it).
    MissingFile(String),
    /// Both a subcommand and a file were given.
    Both,
    /// Neither was given.
    Neither,
}

impl UndeployAction {
    /// The message of the failing actions.
    pub fn message(&self) -> (r: Option<String>)
        ensures
            match self {
                UndeployAction::MissingFile(p) => r matches Some(m) && m@ == "failed to read CSV file: "@ + p@,
                UndeployAction::Both => r matches Some(m) && m@ == "provide either 'iflow <id>' or a file name, not both"@,
                UndeployAction::Neither => r matches Some(m) && m@ == "provide either 'iflow <id>' or a file name"@,
                _ => r is None,
            },
    {
        match self {
            UndeployAction::MissingFile(p) => {
                let mut m = owned("failed to read CSV file: ");
                push_str(&mut m, p.as_str());
                Some(m)
            },
            UndeployAction::Both => Some(owned("provide either 'iflow <id>' or a file name, not both")),
            UndeployAction::Neither => Some(owned("provide either 'iflow <id>' or a file name")),
            _ => None,
        }
    }
}

/// Decides `undeploy [SUBCOMMAND] [FILE]`: a subcommand alone runs; a file
/// alone is a bulk file when it exists, an error when it looks like a path
/// (absolute, several components, an extension, or a separator), and
/// otherwise the id of one flow; both or neither is an error.
pub fn undeploy_action(has_subcommand: bool, file: Option<&str>, file_exists: bool, looks_like_path: bool) -> (r: UndeployAction)
    ensures
        match (has_subcommand, file) {
            (true, None) => r matches UndeployAction::Subcommand,
            (false, Some(f)) => if file_exists {
                r matches UndeployAction::Bulk
            } else if looks_like_path {
                r matches UndeployAction::MissingFile(p) && p@ == f@
            } else {
                r matches UndeployAction::Single(id) && id@ == f@
            },
            (true, Some(_)) => r matches UndeployAction::Both,
            (false, None) => r matches UndeployAction::Neither,
        },
{
    match (has_subcommand, file) {
        (true, None) => UndeployAction::Subcommand,
        (false, Some(f)) => {
            if file_exists {
                UndeployAction::Bulk
            } else if looks_like_path {
                UndeployAction::MissingFile(owned(f))
            } else {
                UndeployAction::Single(owned(f))
            }
        },
        (true, Some(_)) => UndeployAction::Both,
        (false, None) => UndeployAction::Neither,
    }
}

} // verus!
