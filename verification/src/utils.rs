//! CSV output of the configuration listing.
use vstd::prelude::*;

use crate::listing::ConfigDisplayRow;
use crate::text::{self, chars_of, contains_char, owned, push_str};

verus! {

/// Every `"` doubled, as CSV quoting requires.
pub open spec fn double_quotes(s: Seq<char>) -> Seq<char>
    decreases s.len(),
{
    if s.len() == 0 {
        Seq::empty()
    } else if s.last() == '"' {
        double_quotes(s.drop_last()) + seq!['"', '"']
    } else {
        double_quotes(s.drop_last()).push(s.last())
    }
}

/// A field needs quoting when it holds a comma, a quote or a line break.
pub open spec fn needs_quoting(s: Seq<char>) -> bool {
    s.contains(',') || s.contains('"') || s.contains('\n') || s.contains('\r')
}

/// A CSV field: quoted, with quotes doubled, when it needs quoting; else as
/// it is.
pub open spec fn csv_escape_spec(s: Seq<char>) -> Seq<char> {
    if needs_quoting(s) {
        seq!['"'] + double_quotes(s) + seq!['"']
    } else {
        s
    }
}

/// The number of `"` in `s`.
pub open spec fn quote_count(s: Seq<char>) -> nat
    decreases s.len(),
{
    if s.len() == 0 {
        0
    } else {
        quote_count(s.drop_last()) + if s.last() == '"' {
            1nat
        } else {
            0nat
        }
    }
}

proof fn lemma_double_quotes(s: Seq<char>)
    ensures
        double_quotes(s).len() == s.len() + quote_count(s),
        quote_count(double_quotes(s)) == 2 * quote_count(s),
    decreases s.len(),
{
    if s.len() > 0 {
        let p = s.drop_last();
        lemma_double_quotes(p);
        let d = double_quotes(p);
        if s.last() == '"' {
            let e = d + seq!['"', '"'];
            assert(e.drop_last() =~= d.push('"'));
            assert(d.push('"').drop_last() =~= d);
            assert(quote_count(d.push('"')) == quote_count(d) + 1);
        } else {
            assert(d.push(s.last()).drop_last() =~= d);
        }
    }
}

/// A field that needs quoting is escaped as one quoted string: it starts and
/// ends with `"`, grows by two plus its number of quotes, and inside the
/// outer quotes holds each of its quotes twice. Any other field is left as
/// it is.
pub proof fn escaped_field_shape(s: Seq<char>)
    ensures
        needs_quoting(s) ==> ({
            let e = csv_escape_spec(s);
            &&& e[0] == '"'
            &&& e.last() == '"'
            &&& e.len() == s.len() + 2 + quote_count(s)
            &&& e.subrange(1, e.len() - 1) == double_quotes(s)
            &&& quote_count(e.subrange(1, e.len() - 1)) == 2 * quote_count(s)
        }),
        !needs_quoting(s) ==> csv_escape_spec(s) == s,
{
    lemma_double_quotes(s);
    if needs_quoting(s) {
        let e = csv_escape_spec(s);
        assert(e.subrange(1, e.len() - 1) =~= double_quotes(s));
    }
}

/// Escapes one CSV field (see `csv_escape_spec`).
pub fn csv_escape(s: &str) -> (r: String)
    ensures
        r@ == csv_escape_spec(s@),
{
    if contains_char(s, ',') || contains_char(s, '"') || contains_char(s, '\n') || contains_char(s, '\r') {
        let v = chars_of(s);
        let mut out = String::new();
        out.push('"');
        let mut i: usize = 0;
        while i < v.len()
            invariant
                i <= v.len(),
                v@ == s@,
                out@ == seq!['"'] + double_quotes(v@.take(i as int)),
            decreases v.len() - i,
        {
            if v[i] == '"' {
                out.push('"');
                out.push('"');
            } else {
                out.push(v[i]);
            }
            assert(v@.take(i + 1).drop_last() =~= v@.take(i as int));
            assert(out@ =~= seq!['"'] + double_quotes(v@.take(i + 1)));
            i += 1;
        }
        assert(v@.take(v@.len() as int) =~= v@);
        out.push('"');
        out
    } else {
        owned(s)
    }
}

/// The CSV lines of `list configurations --csv`: a header, then per row the
/// escaped flow name, key and value.
pub open spec fn csv_lines_spec(rows: Seq<ConfigDisplayRow>) -> Seq<Seq<char>> {
    seq!["Iflow Name,Parameter Key,Parameter Value"@] + rows.map_values(
        |r: ConfigDisplayRow|
            csv_escape_spec(r.iflow_name@) + ","@ + csv_escape_spec(r.key@) + ","@
                + csv_escape_spec(r.value@),
    )
}

/// The lines of `list configurations --csv` (see `csv_lines_spec`).
pub fn configuration_csv_lines(rows: &Vec<ConfigDisplayRow>) -> (r: Vec<String>)
    ensures
        text::strings_view(r@) == csv_lines_spec(rows@),
{
    let mut out: Vec<String> = Vec::new();
    let head = owned("Iflow Name,Parameter Key,Parameter Value");
    proof {
        text::lemma_strings_view_push(out@, head);
    }
    out.push(head);
    let mut i: usize = 0;
    while i < rows.len()
        invariant
            i <= rows.len(),
            text::strings_view(out@) == csv_lines_spec(rows@).take(i + 1),
        decreases rows.len() - i,
    {
        let r = &rows[i];
        let mut line = csv_escape(r.iflow_name.as_str());
        push_str(&mut line, ",");
        push_str(&mut line, csv_escape(r.key.as_str()).as_str());
        push_str(&mut line, ",");
        push_str(&mut line, csv_escape(r.value.as_str()).as_str());
        proof {
            text::lemma_strings_view_push(out@, line);
            assert(csv_lines_spec(rows@).take(i + 2) =~= csv_lines_spec(rows@).take(i + 1).push(
                line@,
            ));
        }
        out.push(line);
        i += 1;
    }
    assert(csv_lines_spec(rows@).take(rows@.len() as int + 1) =~= csv_lines_spec(rows@));
    out
}

// ── reading the output back ────────────────────────────────────────────────
/// Where a reader of RFC 4180 text stands: at the start of a line, at the
/// start of a field after a comma, inside an unquoted field, inside a quoted
/// field, or just after a quote inside a quoted field.
pub enum CsvScanMode {
    LineStart,
    FieldStart,
    Unquoted,
    Quoted,
    QuoteSeen,
}

/// What a reader of RFC 4180 text has read so far: the finished records, the
/// finished fields of the current record, the current field, and where it
/// stands.
pub struct CsvScan {
    pub records: Seq<Seq<Seq<char>>>,
    pub fields: Seq<Seq<char>>,
    pub cur: Seq<char>,
    pub mode: CsvScanMode,
}

pub open spec fn scan_start() -> CsvScan {
    CsvScan { records: Seq::empty(), fields: Seq::empty(), cur: Seq::empty(), mode: CsvScanMode::LineStart }
}

pub open spec fn scan_mode(st: CsvScan, mode: CsvScanMode) -> CsvScan {
    CsvScan { records: st.records, fields: st.fields, cur: st.cur, mode }
}

pub open spec fn scan_char(st: CsvScan, c: char, mode: CsvScanMode) -> CsvScan {
    CsvScan { records: st.records, fields: st.fields, cur: st.cur.push(c), mode }
}

pub open spec fn end_field(st: CsvScan) -> CsvScan {
    CsvScan {
        records: st.records,
        fields: st.fields.push(st.cur),
        cur: Seq::empty(),
        mode: CsvScanMode::FieldStart,
    }
}

pub open spec fn end_record(st: CsvScan) -> CsvScan {
    CsvScan {
        records: st.records.push(st.fields.push(st.cur)),
        fields: Seq::empty(),
        cur: Seq::empty(),
        mode: CsvScanMode::LineStart,
    }
}

/// One character read: a quote opens a quoted field at the start of a
/// field, and inside one it either closes it or, doubled, stands for itself;
/// a comma outside quotes ends the field; a line break outside quotes ends
/// the record (an empty line holds none).
pub open spec fn csv_step(st: CsvScan, c: char) -> CsvScan {
    match st.mode {
        CsvScanMode::Quoted => if c == '"' {
            scan_mode(st, CsvScanMode::QuoteSeen)
        } else {
            scan_char(st, c, CsvScanMode::Quoted)
        },
        CsvScanMode::QuoteSeen => if c == '"' {
            scan_char(st, '"', CsvScanMode::Quoted)
        } else if c == ',' {
            end_field(st)
        } else if c == '\n' {
            end_record(st)
        } else {
            scan_char(st, c, CsvScanMode::Unquoted)
        },
        CsvScanMode::Unquoted => if c == ',' {
            end_field(st)
        } else if c == '\n' {
            end_record(st)
        } else {
            scan_char(st, c, CsvScanMode::Unquoted)
        },
        _ => if c == '"' {
            scan_mode(st, CsvScanMode::Quoted)
        } else if c == ',' {
            end_field(st)
        } else if c == '\n' {
            if st.mode is LineStart {
                st
            } else {
                end_record(st)
            }
        } else {
            scan_char(st, c, CsvScanMode::Unquoted)
        },
    }
}

/// The reader after the characters of `s`.
pub open spec fn csv_scan(st: CsvScan, s: Seq<char>) -> CsvScan
    decreases s.len(),
{
    if s.len() == 0 {
        st
    } else {
        csv_step(csv_scan(st, s.drop_last()), s.last())
    }
}

/// The records that an RFC 4180 reader (no header row, nothing trimmed,
/// records ending at a line break, empty lines skipped) reads from `text`.
pub open spec fn csv_records(text: Seq<char>) -> Seq<Seq<Seq<char>>> {
    let st = csv_scan(scan_start(), text);
    if st.mode is LineStart {
        st.records
    } else {
        st.records.push(st.fields.push(st.cur))
    }
}

proof fn lemma_scan_concat(st: CsvScan, s1: Seq<char>, s2: Seq<char>)
    ensures
        csv_scan(st, s1 + s2) == csv_scan(csv_scan(st, s1), s2),
    decreases s2.len(),
{
    if s2.len() == 0 {
        assert(s1 + s2 =~= s1);
    } else {
        assert((s1 + s2).drop_last() =~= s1 + s2.drop_last());
        lemma_scan_concat(st, s1, s2.drop_last());
    }
}

proof fn lemma_scan_one(st: CsvScan, c: char)
    ensures
        csv_scan(st, seq![c]) == csv_step(st, c),
{
    assert(seq![c].drop_last() =~= Seq::<char>::empty());
    assert(csv_scan(st, Seq::<char>::empty()) == st);
}

/// The reader has just read field `a` after the fields `fs` of the record
/// and the records `recs`, and a comma, a line break or the end of the text
/// would finish it.
pub open spec fn settled(st: CsvScan, recs: Seq<Seq<Seq<char>>>, fs: Seq<Seq<char>>, a: Seq<char>) -> bool {
    &&& st.records == recs
    &&& st.fields == fs
    &&& st.cur == a
    &&& (st.mode is Unquoted || st.mode is QuoteSeen || (a.len() == 0 && (st.mode is FieldStart
        || (st.mode is LineStart && fs.len() == 0))))
}

proof fn lemma_unquoted_run(st: CsvScan, a: Seq<char>, k: int)
    requires
        st.mode is LineStart || st.mode is FieldStart,
        st.cur.len() == 0,
        !needs_quoting(a),
        1 <= k <= a.len(),
    ensures
        csv_scan(st, a.take(k)) == (CsvScan {
            records: st.records,
            fields: st.fields,
            cur: a.take(k),
            mode: CsvScanMode::Unquoted,
        }),
    decreases k,
{
    assert(a.take(k).drop_last() =~= a.take(k - 1));
    assert(a.take(k).last() == a[k - 1]);
    assert(a[k - 1] != ',' && a[k - 1] != '"' && a[k - 1] != '\n') by {
        assert(a.contains(a[k - 1]));
    }
    if k == 1 {
        assert(a.take(0) =~= Seq::<char>::empty());
        assert(st.cur.push(a[0]) =~= a.take(1));
    } else {
        lemma_unquoted_run(st, a, k - 1);
        assert(a.take(k - 1).push(a[k - 1]) =~= a.take(k));
    }
}

proof fn lemma_quoted_run(st: CsvScan, a: Seq<char>)
    requires
        st.mode is Quoted,
    ensures
        csv_scan(st, double_quotes(a)) == (CsvScan {
            records: st.records,
            fields: st.fields,
            cur: st.cur + a,
            mode: CsvScanMode::Quoted,
        }),
    decreases a.len(),
{
    if a.len() == 0 {
        assert(st.cur + a =~= st.cur);
        assert(double_quotes(a) == Seq::<char>::empty());
        assert(csv_scan(st, Seq::<char>::empty()) == st);
    } else {
        let p = a.drop_last();
        lemma_quoted_run(st, p);
        let mid = CsvScan { records: st.records, fields: st.fields, cur: st.cur + p, mode: CsvScanMode::Quoted };
        if a.last() == '"' {
            lemma_scan_concat(st, double_quotes(p), seq!['"', '"']);
            assert(seq!['"', '"'] =~= seq!['"'] + seq!['"']);
            lemma_scan_concat(mid, seq!['"'], seq!['"']);
            lemma_scan_one(mid, '"');
            lemma_scan_one(scan_mode(mid, CsvScanMode::QuoteSeen), '"');
            assert(double_quotes(a) == double_quotes(p) + seq!['"', '"']);
        } else {
            lemma_scan_concat(st, double_quotes(p), seq![a.last()]);
            lemma_scan_one(mid, a.last());
            assert(double_quotes(a) =~= double_quotes(p) + seq![a.last()]);
        }
        assert((st.cur + p).push(a.last()) =~= st.cur + a);
    }
}

proof fn lemma_field(st: CsvScan, a: Seq<char>)
    requires
        st.mode is LineStart || st.mode is FieldStart,
        st.cur.len() == 0,
        st.mode is LineStart ==> st.fields.len() == 0,
    ensures
        settled(csv_scan(st, csv_escape_spec(a)), st.records, st.fields, a),
{
    if needs_quoting(a) {
        let q = scan_mode(st, CsvScanMode::Quoted);
        lemma_scan_concat(st, seq!['"'] + double_quotes(a), seq!['"']);
        lemma_scan_concat(st, seq!['"'], double_quotes(a));
        lemma_scan_one(st, '"');
        lemma_quoted_run(q, a);
        assert(st.cur + a =~= a);
        let r = CsvScan { records: st.records, fields: st.fields, cur: a, mode: CsvScanMode::Quoted };
        lemma_scan_one(r, '"');
    } else if a.len() == 0 {
        assert(st.cur =~= a);
    } else {
        lemma_unquoted_run(st, a, a.len() as int);
        assert(a.take(a.len() as int) =~= a);
    }
}

pub open spec fn escaped_fields(fields: Seq<Seq<char>>) -> Seq<Seq<char>> {
    fields.map_values(|f: Seq<char>| csv_escape_spec(f))
}

proof fn lemma_joined_fields(fields: Seq<Seq<char>>, n: int)
    requires
        1 <= n <= fields.len(),
    ensures
        settled(
            csv_scan(scan_start(), text::join_spec(escaped_fields(fields).take(n), seq![','])),
            Seq::empty(),
            fields.take(n - 1),
            fields[n - 1],
        ),
    decreases n,
{
    let es = escaped_fields(fields);
    if n == 1 {
        assert(es.take(1) =~= seq![csv_escape_spec(fields[0])]);
        assert(fields.take(0) =~= Seq::<Seq<char>>::empty());
        lemma_field(scan_start(), fields[0]);
    } else {
        lemma_joined_fields(fields, n - 1);
        let j = text::join_spec(es.take(n - 1), seq![',']);
        assert(es.take(n).drop_last() =~= es.take(n - 1));
        assert(text::join_spec(es.take(n), seq![',']) == j + seq![','] + csv_escape_spec(fields[n - 1]));
        let s1 = csv_scan(scan_start(), j);
        lemma_scan_concat(scan_start(), j + seq![','], csv_escape_spec(fields[n - 1]));
        lemma_scan_concat(scan_start(), j, seq![',']);
        lemma_scan_one(s1, ',');
        assert(fields.take(n - 2).push(fields[n - 2]) =~= fields.take(n - 1));
        lemma_field(end_field(s1), fields[n - 1]);
    }
}

/// Escaped fields joined by commas, with or without a closing line break,
/// read back through an RFC 4180 reader as exactly one record that holds the
/// fields. (A single empty field makes an empty line, which holds no record.)
pub proof fn escaped_record_reads_back(fields: Seq<Seq<char>>)
    requires
        fields.len() >= 2 || (fields.len() == 1 && fields[0].len() > 0),
    ensures
        csv_records(text::join_spec(escaped_fields(fields), seq![','])) == seq![fields],
        csv_records(text::join_spec(escaped_fields(fields), seq![',']).push('\n')) == seq![fields],
{
    let n = fields.len() as int;
    let es = escaped_fields(fields);
    lemma_joined_fields(fields, n);
    assert(es.take(n) =~= es);
    assert(fields.take(n - 1).push(fields[n - 1]) =~= fields);
    let j = text::join_spec(es, seq![',']);
    let st = csv_scan(scan_start(), j);
    assert(csv_scan(scan_start(), j.push('\n')) == csv_step(st, '\n')) by {
        assert(j.push('\n').drop_last() =~= j);
    }
    assert(seq![fields] =~= Seq::<Seq<Seq<char>>>::empty().push(fields));
}

/// Each data line of `list configurations --csv`, followed by a line break,
/// reads back through an RFC 4180 reader as one record: the flow's name, the
/// parameter's key and its value.
pub proof fn configuration_line_reads_back(rows: Seq<ConfigDisplayRow>, i: int)
    requires
        0 <= i < rows.len(),
    ensures
        csv_records(csv_lines_spec(rows)[i + 1].push('\n')) == seq![
            seq![rows[i].iflow_name@, rows[i].key@, rows[i].value@],
        ],
{
    let r = rows[i];
    let f = seq![r.iflow_name@, r.key@, r.value@];
    escaped_record_reads_back(f);
    let es = escaped_fields(f);
    let sep = seq![','];
    reveal_strlit(",");
    assert(","@ =~= sep);
    assert(es.drop_last() =~= seq![es[0], es[1]]);
    assert(seq![es[0], es[1]].drop_last() =~= seq![es[0]]);
    assert(es.len() == 3);
    assert(text::join_spec(seq![es[0]], sep) == es[0]);
    assert(text::join_spec(seq![es[0], es[1]], sep) == es[0] + sep + es[1]);
    assert(text::join_spec(es, sep) == text::join_spec(seq![es[0], es[1]], sep) + sep + es[2]);
    assert(text::join_spec(es, sep) == es[0] + sep + es[1] + sep + es[2]);
    assert(csv_lines_spec(rows)[i + 1] == csv_escape_spec(r.iflow_name@) + ","@ + csv_escape_spec(
        r.key@,
    ) + ","@ + csv_escape_spec(r.value@));
}

} // verus!
