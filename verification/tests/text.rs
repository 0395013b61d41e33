use btpis::text::{dec_string, eq_ignore_ascii_case, parse_i64, parse_u64, trim, trim_end_char};
use btpis::utils::{configuration_csv_lines, csv_escape};
use btpis::listing::ConfigDisplayRow;

#[test]
fn trims_unicode_white_space() {
    assert_eq!(trim("  \t a b \n"), "a b");
    assert_eq!(trim("\u{3000}x\u{00A0}"), "x");
    assert_eq!(trim("   "), "");
    assert_eq!(trim_end_char("https://h///", '/'), "https://h");
}

#[test]
fn parses_integers_like_std() {
    assert_eq!(parse_i64("-9223372036854775808"), Some(i64::MIN));
    assert_eq!(parse_i64("9223372036854775807"), Some(i64::MAX));
    assert_eq!(parse_i64("9223372036854775808"), None);
    assert_eq!(parse_i64("+12"), Some(12));
    assert_eq!(parse_i64("-"), None);
    assert_eq!(parse_i64(""), None);
    assert_eq!(parse_i64("1a"), None);
    assert_eq!(parse_u64("18446744073709551615"), Some(u64::MAX));
    assert_eq!(parse_u64("18446744073709551616"), None);
    assert_eq!(parse_u64("-1"), None);
    assert_eq!(parse_u64("+7"), Some(7));
    assert_eq!(dec_string(0), "0");
    assert_eq!(dec_string(1234567890), "1234567890");
}

#[test]
fn ascii_case_is_ignored() {
    assert!(eq_ignore_ascii_case("FlowA", "flowa"));
    assert!(!eq_ignore_ascii_case("Flow", "flows"));
    assert!(!eq_ignore_ascii_case("É", "é"));
}

#[test]
fn csv_fields_are_escaped() {
    assert_eq!(csv_escape("plain"), "plain");
    assert_eq!(csv_escape("a,b"), "\"a,b\"");
    assert_eq!(csv_escape("say \"hi\""), "\"say \"\"hi\"\"\"");
    assert_eq!(csv_escape("line\nbreak"), "\"line\nbreak\"");
    assert_eq!(csv_escape("cr\r"), "\"cr\r\"");
}

#[test]
fn configuration_csv_lines_escape_each_field() {
    let rows = vec![ConfigDisplayRow {
        iflow_name: "Flow, A".to_string(),
        key: "k".to_string(),
        value: "v\"1".to_string(),
    }];
    assert_eq!(
        configuration_csv_lines(&rows),
        vec![
            "Iflow Name,Parameter Key,Parameter Value".to_string(),
            "\"Flow, A\",k,\"v\"\"1\"".to_string()
        ]
    );
}

#[test]
fn escaped_fields_read_back_with_a_csv_reader() {
    let cases = [
        ("plain", "a,b"),
        ("say \"hi\"", "line\nbreak"),
        ("", "\"\""),
        ("x\ry", ",,"),
    ];
    for (a, b) in cases {
        let text = format!("{},{}\n", csv_escape(a), csv_escape(b));
        let mut reader = csv::ReaderBuilder::new()
            .has_headers(false)
            .from_reader(text.as_bytes());
        let records: Vec<Vec<String>> = reader
            .records()
            .map(|r| r.unwrap().iter().map(|f| f.to_string()).collect())
            .collect();
        assert_eq!(records, vec![vec![a.to_string(), b.to_string()]]);
    }
}

#[test]
fn decimal_numerals_read_back() {
    for n in [0u64, 7, 10, 99, 1000, 4294967296, u64::MAX] {
        assert_eq!(parse_u64(&dec_string(n)), Some(n));
    }
}
