use btpis::adapters::{adapter_columns, summarise_adapters, Adapter, AdapterDirection};
use btpis::listing::{
    add_configuration_rows, configuration_answer, package_answer, PackageAnswer, configuration_scope, configuration_target, configurations_found_line,
    found_line, iflow_configurations_url, iflow_display_row, needs_adapters, package_iflows_url,
    package_is_read_only, package_rows, packages_url, parameter_pairs, select_package_ids,
    service_endpoint_rows, service_endpoints_url, ConfigTarget, IflowRecord, ListError,
    PackageRecord,
};
use btpis::xml::parse_xml;

fn pkg(id: &str, mode: &str) -> PackageRecord {
    PackageRecord {
        id: id.to_string(),
        name: format!("{} name", id),
        vendor: "SAP".to_string(),
        mode: mode.to_string(),
    }
}

fn ad(d: AdapterDirection, t: &str) -> Adapter {
    Adapter { direction: d, component_type: t.to_string() }
}

fn flow(id: Option<&str>, name: Option<&str>, version: Option<&str>) -> IflowRecord {
    IflowRecord {
        id: id.map(String::from),
        name: name.map(String::from),
        version: version.map(String::from),
        sender: Some("S".to_string()),
        receiver: None,
    }
}

#[test]
fn adapter_types_are_summarised() {
    assert_eq!(summarise_adapters(vec!["HTTP", "SFTP", "HTTP"]), "2 HTTP, SFTP");
    assert_eq!(summarise_adapters(vec!["A", "B", "B", "B", "A", "C"]), "2 A, 3 B, C");
    assert_eq!(summarise_adapters(vec![]), "");
    let ads = vec![
        ad(AdapterDirection::Sender, "HTTPS"),
        ad(AdapterDirection::Receiver, "SFTP"),
        ad(AdapterDirection::Sender, "HTTPS"),
    ];
    let (s, r) = adapter_columns(Some(&ads));
    assert_eq!(s, "2 HTTPS");
    assert_eq!(r, "SFTP");
    let only = vec![ad(AdapterDirection::Receiver, "Mail")];
    assert_eq!(adapter_columns(Some(&only)), ("—".to_string(), "Mail".to_string()));
    assert_eq!(adapter_columns(None), ("—".to_string(), "—".to_string()));
}

#[test]
fn packages_are_listed() {
    let ps = vec![pkg("P1", "EDIT_ALLOWED"), pkg("P2", "READ_ONLY")];
    let rows = package_rows(&ps);
    assert_eq!(rows.len(), 2);
    assert_eq!(rows[1].name, "P2 name");
    assert_eq!(rows[1].mode, "READ_ONLY");
    assert_eq!(packages_url("https://t"), "https://t/api/v1/IntegrationPackages?$format=json");
    assert_eq!(found_line("dev", 2, "package(s)"), "[dev] 2 package(s) found.");
    assert!(package_is_read_only(&ps, "P2"));
    assert!(!package_is_read_only(&ps, "P1"));
    assert!(!package_is_read_only(&ps, "P9"));
    let later = vec![pkg("P", "READ_ONLY"), pkg("P", "EDIT_ALLOWED")];
    assert!(!package_is_read_only(&later, "P"));
}

#[test]
fn packages_to_read_are_chosen() {
    let ps = vec![pkg("P1", ""), pkg("P2", "")];
    assert_eq!(select_package_ids(&ps, None, true).unwrap(), vec!["P1", "P2"]);
    assert_eq!(select_package_ids(&ps, Some("X"), false).unwrap(), vec!["X"]);
    let e = select_package_ids(&ps, Some("  "), false).unwrap_err();
    assert_eq!(e, ListError::EmptyPackageId);
    assert_eq!(e.message(), "package_id cannot be empty");
    let e = select_package_ids(&ps, None, false).unwrap_err();
    assert_eq!(e.message(), "provide a package_id or use --all to fetch from all packages");
    assert_eq!(
        package_iflows_url("https://t", "P1"),
        "https://t/api/v1/IntegrationPackages('P1')/IntegrationDesigntimeArtifacts?$format=json"
    );
}

#[test]
fn flow_rows_show_adapters() {
    let f = flow(Some("F"), Some("Flow"), Some("1.0"));
    assert!(needs_adapters(&f, false));
    assert!(!needs_adapters(&f, true));
    let ro = iflow_display_row(&f, true, None);
    assert_eq!((ro.sender_adapter.as_str(), ro.receiver_adapter.as_str()), ("N/A", "N/A"));
    assert_eq!(ro.name, "Flow");
    assert_eq!(ro.sender, "S");
    assert_eq!(ro.receiver, "");
    let ads = vec![ad(AdapterDirection::Sender, "SOAP")];
    let row = iflow_display_row(&f, false, Some(&ads));
    assert_eq!(row.sender_adapter, "SOAP");
    assert_eq!(row.receiver_adapter, "—");
    let failed = iflow_display_row(&f, false, None);
    assert_eq!(failed.sender_adapter, "—");
    let noversion = flow(Some("F"), None, None);
    let row = iflow_display_row(&noversion, false, Some(&ads));
    assert_eq!(row.sender_adapter, "—");
    assert_eq!(row.version, "");
}

const ENDPOINTS: &str = r#"<feed xmlns:m="urn:m" xmlns:d="urn:d">
<entry>
  <link><inline><feed><entry><content><m:properties><d:Url> https://x/http/a </d:Url></m:properties></content></entry></feed></inline></link>
  <content><m:properties><d:Name> Orders </d:Name><d:Version>1.0.2</d:Version><d:Protocol>REST</d:Protocol></m:properties></content>
</entry>
<entry><content><m:properties><d:Name>NoVersion</d:Name></m:properties></content></entry>
</feed>"#;

#[test]
fn service_endpoints_are_read() {
    let nodes = parse_xml(ENDPOINTS).unwrap();
    let rows = service_endpoint_rows(&nodes);
    assert_eq!(rows.len(), 1);
    assert_eq!(rows[0].name, "Orders");
    assert_eq!(rows[0].version, "1.0.2");
    assert_eq!(rows[0].protocol, "REST");
    assert_eq!(rows[0].url, "https://x/http/a");
    assert_eq!(
        service_endpoints_url("https://t"),
        "https://t/api/v1/ServiceEndpoints?$expand=EntryPoints"
    );
}

const PARAMS: &str = r#"<feed xmlns:m="urn:m" xmlns:d="urn:d">
<entry><content><m:properties><d:ParameterKey>host</d:ParameterKey><d:ParameterValue> h </d:ParameterValue><d:DataType>xsd:string</d:DataType></m:properties></content></entry>
<entry><content><m:properties><d:ParameterKey></d:ParameterKey><d:ParameterValue/></m:properties></content></entry>
<entry><content><m:properties><d:ParameterValue>only value</d:ParameterValue></m:properties></content></entry>
</feed>"#;

#[test]
fn parameters_are_read() {
    let nodes = parse_xml(PARAMS).unwrap();
    let pairs = parameter_pairs(&nodes);
    assert_eq!(
        pairs,
        vec![
            ("host".to_string(), "h".to_string()),
            ("".to_string(), "only value".to_string())
        ]
    );
    assert_eq!(
        iflow_configurations_url("https://t", "F", "1.0"),
        "https://t/api/v1/IntegrationDesigntimeArtifacts(Id='F',Version='1.0')/Configurations"
    );
}

#[test]
fn configuration_listing_is_scoped() {
    let all = vec!["Pkg1".to_string(), "Pkg2".to_string()];
    let (ids, f) = configuration_scope(&all, Some("Pkg2"));
    assert_eq!(ids, vec!["Pkg2"]);
    assert_eq!(f, None);
    let (ids, f) = configuration_scope(&all, Some("pkg2"));
    assert_eq!(ids, all);
    assert_eq!(f.as_deref(), Some("pkg2"));
    let (ids, f) = configuration_scope(&all, Some("MyFlow"));
    assert_eq!(ids, all);
    assert_eq!(f.as_deref(), Some("MyFlow"));
    let (ids, f) = configuration_scope(&all, None);
    assert_eq!(ids, all);
    assert_eq!(f, None);

    let t = configuration_target(&flow(Some("F"), None, Some("1")), Some("F")).unwrap();
    assert_eq!((t.id.as_str(), t.version.as_str(), t.name.as_str()), ("F", "1", "F"));
    assert!(configuration_target(&flow(Some("F"), None, Some("1")), Some("f")).is_none());
    assert!(configuration_target(&flow(Some("F"), Some("Other"), Some("1")), Some("f")).is_none());
    assert!(configuration_target(&flow(Some("F"), Some("N"), None), None).is_none());
    assert!(configuration_target(&flow(None, Some("N"), Some("1")), None).is_none());
}

#[test]
fn configuration_rows_are_collected() {
    let mut rows = Vec::new();
    let mut flows = Vec::new();
    let t = ConfigTarget { id: "F".to_string(), version: "1".to_string(), name: "Flow".to_string() };
    add_configuration_rows(&mut rows, &mut flows, &t, &vec![]);
    assert!(rows.is_empty() && flows.is_empty());
    let params = vec![("a".to_string(), "1".to_string()), ("b".to_string(), "2".to_string())];
    add_configuration_rows(&mut rows, &mut flows, &t, &params);
    add_configuration_rows(&mut rows, &mut flows, &t, &params);
    assert_eq!(rows.len(), 4);
    assert_eq!(flows, vec!["F"]);
    assert_eq!(rows[1].iflow_name, "Flow");
    assert_eq!(rows[1].key, "b");
    assert_eq!(rows[3].value, "2");
    assert_eq!(
        configurations_found_line("dev", 4, 1),
        "[dev] 4 configuration(s) found across 1 iflow(s)."
    );
}

#[test]
fn package_answers_follow_the_status() {
    assert!(matches!(package_answer("P", 200, "200 OK"), PackageAnswer::Read));
    match package_answer("P", 404, "404 Not Found") {
        PackageAnswer::Skip(w) => assert_eq!(w, "warning: skipping package 'P' — status 404 Not Found"),
        other => panic!("unexpected {:?}", other),
    }
    let body = parse_xml(
        "<feed><entry><m:properties xmlns:m=\"urn:m\"><ParameterKey>k</ParameterKey><ParameterValue>v</ParameterValue></m:properties></entry></feed>",
    )
    .unwrap();
    assert_eq!(
        configuration_answer(200, &body),
        vec![("k".to_string(), "v".to_string())]
    );
    assert!(configuration_answer(500, &body).is_empty());
    assert!(btpis::auth::is_success(204));
    assert!(!btpis::auth::is_success(302));
}
