use btpis::undeploy::{
    build_undeploy_url, bulk_progress_message, bulk_start_message, bulk_undeploy_entries,
    bulk_next, get_csv_value, parse_undeploy_csv, undeploy_answer, BulkStep, UnDeployEntry, undeploy_action, undeploy_success_message, UndeployAction, UndeployError,
};

#[test]
fn undeploy_url_is_built_with_iflow_id_and_version() {
    let url = build_undeploy_url("https://example.test", "MyFlow");
    assert_eq!(
        url,
        "https://example.test/api/v1/IntegrationRuntimeArtifacts?Id='MyFlow'&Version='1.0'"
    );
}

#[test]
fn parses_bulk_undeploy_rows_from_csv() {
    let csv = "id,version\nFlowA,active\nFlowB,active";
    let entries = parse_undeploy_csv(csv).unwrap();

    assert_eq!(entries.len(), 2);
    assert_eq!(entries[0].id, "FlowA");
    assert_eq!(entries[1].id, "FlowB");
}

#[test]
fn csv_columns_are_matched_by_alias_and_case() {
    let csv = " IFLOW_ID , Ver \n  FlowA  , 1.0 \nFlowB,\n,2.0\nFlowC,3";
    let entries = parse_undeploy_csv(csv).unwrap();
    let ids: Vec<&str> = entries.iter().map(|e| e.id.as_str()).collect();
    assert_eq!(ids, vec!["FlowA", "FlowC"]);
}

#[test]
fn csv_without_id_column_is_refused() {
    let err = parse_undeploy_csv("flow,version\nA,1").unwrap_err();
    match &err {
        UndeployError::MissingColumn(c) => assert_eq!(c, "id, iflow, iflow_id, name"),
        other => panic!("unexpected error {:?}", other),
    }
    assert_eq!(
        err.message(),
        "CSV file is missing a required column. Expected one of: id, iflow, iflow_id, name"
    );
}

#[test]
fn csv_without_version_column_is_refused() {
    match parse_undeploy_csv("name,state\nA,1").unwrap_err() {
        UndeployError::MissingColumn(c) => assert_eq!(c, "version, version_no, ver"),
        other => panic!("unexpected error {:?}", other),
    }
}

#[test]
fn csv_header_only_gives_no_entries() {
    assert!(parse_undeploy_csv("flow,state\n").unwrap().is_empty());
    match bulk_undeploy_entries("id,version\n", "flows.csv").unwrap_err() {
        UndeployError::NoEntries(f) => assert_eq!(f, "flows.csv"),
        other => panic!("unexpected error {:?}", other),
    }
}

#[test]
fn malformed_csv_is_a_reader_error() {
    match parse_undeploy_csv("id,version\nA,1,extra") {
        Err(UndeployError::Csv(m)) => assert!(!m.is_empty()),
        other => panic!("unexpected result {:?}", other),
    }
}

#[test]
fn undeploy_messages() {
    assert_eq!(
        bulk_start_message("dev", 2, "f.csv"),
        "[dev] Undeploying 2 iflow(s) from f.csv"
    );
    assert_eq!(bulk_progress_message(0, 2, "A"), "[1/2] Undeploying A");
    assert_eq!(
        undeploy_success_message("dev", "A"),
        "\n[dev] Undeployment of iflow A is successfull."
    );
    let refused = UndeployError::Refused("404 Not Found".to_string(), "gone".to_string());
    assert_eq!(
        refused.message(),
        "Undeployment request failed with status 404 Not Found: gone"
    );
}

#[test]
fn undeploy_arguments_are_dispatched() {
    assert!(matches!(undeploy_action(true, None, false, false), UndeployAction::Subcommand));
    assert!(matches!(undeploy_action(false, Some("f.csv"), true, true), UndeployAction::Bulk));
    match undeploy_action(false, Some("dir/f.csv"), false, true) {
        UndeployAction::MissingFile(p) => assert_eq!(p, "dir/f.csv"),
        other => panic!("unexpected {:?}", other),
    }
    match undeploy_action(false, Some("MyFlow"), false, false) {
        UndeployAction::Single(id) => assert_eq!(id, "MyFlow"),
        other => panic!("unexpected {:?}", other),
    }
    let both = undeploy_action(true, Some("x"), false, false);
    assert_eq!(
        both.message().unwrap(),
        "provide either 'iflow <id>' or a file name, not both"
    );
    let none = undeploy_action(false, None, false, false);
    assert_eq!(none.message().unwrap(), "provide either 'iflow <id>' or a file name");
}

#[test]
fn csv_value_takes_first_named_column() {
    let headers = vec![" Name ".to_string(), "ID".to_string(), "ver".to_string()];
    let record = vec!["  Named  ".to_string(), " Flow1 ".to_string()];
    let ids = vec!["id".to_string(), "iflow".to_string(), "name".to_string()];
    assert_eq!(get_csv_value(&headers, &record, &ids), Ok("Flow1".to_string()));
    let vers = vec!["version".to_string(), "ver".to_string()];
    assert_eq!(get_csv_value(&headers, &record, &vers), Ok(String::new()));
    let missing = vec!["state".to_string(), "status".to_string()];
    assert_eq!(
        get_csv_value(&headers, &record, &missing),
        Err("state, status".to_string())
    );
}

#[test]
fn undeploy_answers_follow_the_status() {
    assert_eq!(
        undeploy_answer("dev", "A", 202, "202 Accepted", "").unwrap(),
        "\n[dev] Undeployment of iflow A is successfull."
    );
    match undeploy_answer("dev", "A", 404, "404 Not Found", "gone") {
        Err(UndeployError::Refused(s, b)) => assert_eq!((s.as_str(), b.as_str()), ("404 Not Found", "gone")),
        other => panic!("unexpected {:?}", other),
    }
}

#[test]
fn bulk_undeploy_steps_stop_at_the_first_failure() {
    let entries = vec![
        UnDeployEntry { id: "A".to_string() },
        UnDeployEntry { id: "B".to_string() },
    ];
    match bulk_next(&entries, 0, true) {
        BulkStep::Undeploy { index, id, progress } => {
            assert_eq!((index, id.as_str(), progress.as_str()), (0, "A", "[1/2] Undeploying A"))
        }
        other => panic!("unexpected {:?}", other),
    }
    match bulk_next(&entries, 1, true) {
        BulkStep::Undeploy { index, id, .. } => assert_eq!((index, id.as_str()), (1, "B")),
        other => panic!("unexpected {:?}", other),
    }
    assert!(matches!(bulk_next(&entries, 2, true), BulkStep::Finished));
    assert!(matches!(bulk_next(&entries, 1, false), BulkStep::Stopped));
}
