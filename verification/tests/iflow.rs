use btpis::iflow::{
    configuration_rows, iflow_detail_rows, iflow_properties, iflow_url,
    missing_properties_message, resource_rows, section_header,
};
use btpis::xml::parse_xml;

const DETAIL: &str = r#"<entry xmlns:m="urn:m" xmlns:d="urn:d"><content><m:properties>
<d:Id>F</d:Id><d:Version>1.0</d:Version><d:PackageId>P</d:PackageId><d:Name>Flow</d:Name>
<d:Description>  </d:Description><d:Sender>S</d:Sender><d:Receiver/>
<d:CreatedBy>me</d:CreatedBy><d:CreatedAt>1700000000000</d:CreatedAt>
<d:ModifiedBy>you</d:ModifiedBy><d:ModifiedAt>later</d:ModifiedAt><d:Comment>c</d:Comment>
</m:properties></content></entry>"#;

#[test]
fn flow_details_are_tabulated() {
    let nodes = parse_xml(DETAIL).unwrap();
    let p = iflow_properties(&nodes).unwrap();
    let rows = iflow_detail_rows(&nodes, p, "HTTPS".to_string(), "—".to_string());
    let pairs: Vec<(&str, &str)> =
        rows.iter().map(|r| (r.field.as_str(), r.value.as_str())).collect();
    assert_eq!(
        pairs,
        vec![
            ("ID", "F"),
            ("Name", "Flow"),
            ("Version", "1.0"),
            ("Package", "P"),
            ("Description", "—"),
            ("Sender", "S"),
            ("Receiver", "—"),
            ("Sender Adapter", "HTTPS"),
            ("Receiver Adapter", "—"),
            ("Created By", "me"),
            ("Created At", "11-14-2023"),
            ("Modified By", "you"),
            ("Modified At", "later"),
            ("Comment", "c"),
        ]
    );
    let bare = parse_xml("<feed><entry/></feed>").unwrap();
    assert!(iflow_properties(&bare).is_none());
    assert_eq!(missing_properties_message(), "missing <m:properties> in response");
}

#[test]
fn flow_parts_are_read() {
    let xml = r#"<feed xmlns:m="urn:m" xmlns:d="urn:d">
<entry><content><m:properties><d:ParameterKey>k</d:ParameterKey><d:ParameterValue>v</d:ParameterValue><d:DataType>t</d:DataType></m:properties></content></entry>
<entry><content><m:properties><d:Name>script.groovy</d:Name><d:ResourceType>groovy</d:ResourceType></m:properties></content></entry>
<entry/>
</feed>"#;
    let nodes = parse_xml(xml).unwrap();
    let c = configuration_rows(&nodes);
    assert_eq!(c.len(), 2);
    assert_eq!((c[0].key.as_str(), c[0].value.as_str(), c[0].data_type.as_str()), ("k", "v", "t"));
    assert_eq!(c[1].key, "");
    let r = resource_rows(&nodes);
    assert_eq!(r.len(), 2);
    assert_eq!((r[1].name.as_str(), r[1].resource_type.as_str()), ("script.groovy", "groovy"));
    assert_eq!(
        iflow_url("https://t", "F", "1", "/Resources"),
        "https://t/api/v1/IntegrationDesigntimeArtifacts(Id='F',Version='1')/Resources"
    );
}

#[test]
fn section_headings_are_coloured() {
    assert_eq!(
        section_header("Configurations", 2, 3),
        "\x1b[1m\x1b[96m── Configurations (2) ───\x1b[39m\x1b[0m"
    );
}
