use btpis::logs::{
    follow_absorb, follow_start, follow_url, format_log_line, log_access, log_filter_parts,
    log_line_is_defined, log_records, logs_url, record_line, record_line_checked, LogQueryError,
    LogRecord,
};
use btpis::xml::parse_xml;

const LOGS: &str = r#"<feed xmlns="http://www.w3.org/2005/Atom" xmlns:m="urn:m" xmlns:d="urn:d">
 <entry>
  <content type="application/xml">
   <m:properties>
     <d:MessageGuid> G1 </d:MessageGuid>
     <d:IntegrationFlowName>Flow</d:IntegrationFlowName>
     <d:Status>FAILED</d:Status>
     <d:LogStart>/Date(1000)/</d:LogStart>
     <d:LogEnd></d:LogEnd>
   </m:properties>
  </content>
 </entry>
 <entry><content><m:properties><d:Status>X</d:Status></m:properties></content></entry>
 <entry><content><m:properties><d:MessageGuid>G2</d:MessageGuid><d:LogStart>/Date(3000)/</d:LogStart></m:properties></content></entry>
</feed>"#;

fn rec(guid: &str, start: Option<&str>) -> LogRecord {
    LogRecord {
        guid: guid.to_string(),
        flow: None,
        status: None,
        log_start: start.map(|s| s.to_string()),
        log_end: None,
    }
}

#[test]
fn log_entries_are_read_from_xml() {
    let nodes = parse_xml(LOGS).unwrap();
    let recs = log_records(&nodes);
    assert_eq!(recs.len(), 2);
    assert_eq!(recs[0].guid, "G1");
    assert_eq!(recs[0].flow.as_deref(), Some("Flow"));
    assert_eq!(recs[0].status.as_deref(), Some("FAILED"));
    assert_eq!(recs[0].log_start.as_deref(), Some("/Date(1000)/"));
    assert_eq!(recs[0].log_end, None);
    assert_eq!(recs[1].guid, "G2");
    assert!(parse_xml("<a><b></a>").is_err());
}

#[test]
fn log_lines_show_time_status_and_duration() {
    let line = format_log_line(
        "g1",
        Some("Flow"),
        Some("COMPLETED"),
        Some("/Date(0)/"),
        Some("/Date(1500)/"),
    );
    let expected = format!(
        "1970-01-01 00:00:00 [\x1b[32mCOMPLETED\x1b[39m] g1     1.500s {:<30}",
        "Flow"
    );
    assert_eq!(line, expected);
    let line = format_log_line("g2", None, None, Some("soon"), None);
    assert_eq!(line, format!("soon [\x1b[37mUNKNOWN\x1b[39m] g2          — {:<30}", "—"));
    let line = format_log_line("g3", None, Some("RETRY"), None, None);
    assert!(line.starts_with("— [\x1b[33mRETRY\x1b[39m] g3"));
    let line = format_log_line("g4", None, Some("DISCARDED"), None, None);
    assert!(line.contains("\x1b[31mDISCARDED\x1b[39m"));
    assert!(log_line_is_defined(Some("/Date(0)/"), Some("/Date(5)/")));
    assert!(!log_line_is_defined(
        Some("/Date(-9223372036854775808)/"),
        Some("/Date(9223372036854775807)/")
    ));
    assert_eq!(record_line(&rec("x", None)), format_log_line("x", None, None, None, None));
    let mut extreme = rec("y", Some("/Date(-9223372036854775808)/"));
    extreme.log_end = Some("/Date(9223372036854775807)/".to_string());
    assert_eq!(record_line_checked(&extreme), None);
    assert_eq!(record_line_checked(&rec("x", None)), Some(record_line(&rec("x", None))));
}

#[test]
fn log_queries_are_built() {
    let parts = log_filter_parts(Some("F"), None, Some("2024-01-01T00:00:00"), 0).unwrap();
    assert_eq!(
        parts,
        vec![
            "IntegrationFlowName eq 'F'".to_string(),
            "LogStart ge datetime'2024-01-01T00:00:00'".to_string()
        ]
    );
    assert_eq!(
        logs_url("https://h", &parts, Some(5)),
        "https://h/api/v1/MessageProcessingLogs?$orderby=LogStart desc&$filter=IntegrationFlowName eq 'F' and LogStart ge datetime'2024-01-01T00:00:00'&$top=5"
    );
    assert_eq!(
        logs_url("https://h", &Vec::new(), None),
        "https://h/api/v1/MessageProcessingLogs?$orderby=LogStart desc"
    );
    let since = log_filter_parts(None, Some("1h"), None, 7200).unwrap();
    assert_eq!(since, vec!["LogStart ge datetime'1970-01-01T01:00:00'".to_string()]);
    let err = log_filter_parts(None, Some("1h"), Some("x"), 0).unwrap_err();
    assert_eq!(err, LogQueryError::SinceConflict);
    assert_eq!(err.message(), "--since and --since-time are mutually exclusive");
    assert!(log_filter_parts(None, Some("1y"), None, 0).is_err());
}

#[test]
fn log_access_uses_key_or_token() {
    let a = log_access(Some("KEY"), "", "");
    assert_eq!(a.base_url, "https://sandbox.api.sap.com/cpi");
    assert_eq!(a.auth_header, "APIKey");
    assert_eq!(a.auth_value, "KEY");
    let b = log_access(None, "https://t.example//", "tok");
    assert_eq!(b.base_url, "https://t.example");
    assert_eq!(b.auth_header, "Authorization");
    assert_eq!(b.auth_value, "Bearer tok");
}

#[test]
fn following_shows_each_message_once() {
    let first = vec![rec("A", Some("/Date(2000)/")), rec("B", Some("/Date(1000)/"))];
    let mut st = follow_start(&first);
    assert_eq!(st.last_seen, 2000);
    assert_eq!(st.seen, vec!["A".to_string(), "B".to_string()]);
    let poll = vec![
        rec("B", Some("/Date(9000)/")),
        rec("C", Some("/Date(5000)/")),
        rec("C", Some("/Date(6000)/")),
        rec("D", None),
    ];
    let fresh = follow_absorb(&mut st, &poll);
    assert_eq!(fresh, vec![1, 3]);
    assert_eq!(st.last_seen, 5000);
    let again = follow_absorb(&mut st, &poll);
    assert!(again.is_empty());
    assert_eq!(st.last_seen, 5000);
    let empty = follow_start(&Vec::new());
    assert_eq!(empty.last_seen, 0);
}

#[test]
fn follow_url_adds_the_last_start() {
    let parts = vec!["IntegrationFlowName eq 'F'".to_string()];
    assert_eq!(
        follow_url("https://h", &parts, 0),
        "https://h/api/v1/MessageProcessingLogs?$orderby=LogStart asc&$filter=IntegrationFlowName eq 'F'"
    );
    assert_eq!(
        follow_url("https://h", &parts, 1704067200000),
        "https://h/api/v1/MessageProcessingLogs?$orderby=LogStart asc&$filter=IntegrationFlowName eq 'F' and LogStart ge datetime'2024-01-01T00:00:00'"
    );
}

#[test]
fn following_never_repeats_over_many_polls() {
    let first = vec![rec("A", Some("/Date(1000)/"))];
    let mut st = follow_start(&first);
    let polls = vec![
        vec![rec("A", Some("/Date(1000)/")), rec("B", Some("/Date(2000)/"))],
        vec![rec("B", Some("/Date(2000)/")), rec("C", Some("/Date(3000)/")), rec("C", None)],
        vec![rec("A", None), rec("B", None), rec("C", None), rec("D", Some("/Date(500)/"))],
    ];
    let mut shown = Vec::new();
    for poll in &polls {
        for i in follow_absorb(&mut st, poll) {
            shown.push(poll[i].guid.clone());
        }
    }
    assert_eq!(shown, vec!["B", "C", "D"]);
    assert_eq!(st.last_seen, 3000);
}
