use url_tester::export::{encode_csv, export_csv, export_header, export_record, export_rows, seconds_string};
use url_tester::order::{partition_results, report_order, sort_results};
use url_tester::outcome::UrlTestResult;
use url_tester::report::{duration_string, format_result_row, report_header, report_lines, report_rule};
use url_tester::text::{contains_str, decimal_string, pad_right, str_lt, truncate_string};

fn result(env: &str, state: Option<&str>, passed: bool) -> UrlTestResult {
    UrlTestResult {
        environment_name: env.to_string(),
        url: format!("http://{}/x", env),
        status_code: Some(if passed { 200 } else { 500 }),
        response_body_preview: "body".to_string(),
        passed,
        error_message: if passed { None } else { Some("HTTP Status Error: 500 Internal Server Error".to_string()) },
        duration_nanos: 1_234_000_000,
        state_param: state.map(|s| s.to_string()),
    }
}

fn names(v: &[UrlTestResult]) -> Vec<String> {
    v.iter().map(|r| r.environment_name.clone()).collect()
}

#[test]
fn sort_puts_a_before_b() {
    let (p, f) = report_order(vec![result("b", None, true), result("a", None, true), result("b", None, false), result("a", None, false)]);
    assert_eq!(names(&p), vec!["a", "b"]);
    assert_eq!(names(&f), vec!["a", "b"]);
}

#[test]
fn sort_by_state_absent_first() {
    let v = sort_results(vec![result("a", Some("z"), true), result("a", None, true), result("a", Some("m"), true)]);
    let states: Vec<Option<String>> = v.iter().map(|r| r.state_param.clone()).collect();
    assert_eq!(states, vec![None, Some("m".to_string()), Some("z".to_string())]);
}

#[test]
fn partition_keeps_order() {
    let (p, f) = partition_results(vec![result("c", None, true), result("a", None, false), result("b", None, true)]);
    assert_eq!(names(&p), vec!["c", "b"]);
    assert_eq!(names(&f), vec!["a"]);
}

#[test]
fn lexicographic_compare() {
    assert!(str_lt("a", "b"));
    assert!(str_lt("ab", "abc"));
    assert!(!str_lt("abc", "ab"));
    assert!(!str_lt("a", "a"));
    assert!(str_lt("", "a"));
    assert!(str_lt("Z", "a"));
}

#[test]
fn truncate_cases() {
    assert_eq!(truncate_string("production-eu", 8), "produ...");
    assert_eq!(truncate_string("dev", 8), "dev");
    assert_eq!(truncate_string("12345678", 8), "12345678");
    assert_eq!(truncate_string("abcdef", 3), "abc");
    assert_eq!(truncate_string("abcdef", 0), "abcdef");
    assert_eq!(truncate_string("ééééééééé", 8), "ééééé...");
}

#[test]
fn padding_and_numbers() {
    assert_eq!(pad_right("ab", 5), "ab   ");
    assert_eq!(pad_right("abcdef", 3), "abcdef");
    assert_eq!(decimal_string(0), "0");
    assert_eq!(decimal_string(404), "404");
    assert_eq!(decimal_string(18446744073709551615), "18446744073709551615");
    assert!(contains_str("xx\"code\":\"1\"yy", "\"code\":\"1\""));
    assert!(!contains_str("xx", "xxx"));
    assert!(contains_str("abc", ""));
}

#[test]
fn duration_texts() {
    assert_eq!(duration_string(1_234_000_000), "1.23s");
    assert_eq!(duration_string(1_235_000_000), "1.24s");
    assert_eq!(duration_string(4_999_999), "0.00s");
    assert_eq!(duration_string(0), "0.00s");
    assert_eq!(duration_string(61_999_000_000), "62.00s");
    assert_eq!(seconds_string(1_234_000_000), "1.234000000");
    assert_eq!(seconds_string(5), "0.000000005");
}

#[test]
fn row_layout() {
    let r = result("production", Some("ready"), true);
    let expected = format!(
        "{: <10} | {: <20} | {: <10} | {: <7} | {: <10} | {: <60}",
        "production", "ready", "200", "PASS", "1.23s", "None"
    );
    assert_eq!(format_result_row(&r, false), expected);
    let r = result("production-eu", Some("a-very-long-state-name"), true);
    let expected = format!(
        "{: <10} | {: <20} | {: <10} | {: <7} | {: <10} | {: <60}",
        "product...", "a-very-long-sta...", "200", "PASS", "1.23s", "None"
    );
    assert_eq!(format_result_row(&r, false), expected);
    let colored = format_result_row(&r, true);
    assert!(colored.contains(" | \x1b[32mPASS\x1b[0m    | 1.23s"));
    let f = result("dev", None, false);
    let row = format_result_row(&f, false);
    assert!(row.starts_with("dev        | N/A                  | 500        | FAIL    | 1.23s      | HTTP Status Error: 500 Internal Server Error"));
}

#[test]
fn header_and_rule() {
    let expected = format!(
        "{: <10} | {: <20} | {: <10} | {: <7} | {: <10} | {: <60}",
        "Env", "State", "Status", "Passed", "Duration", "Error Message"
    );
    assert_eq!(report_header(), expected);
    assert_eq!(report_rule(), "-".repeat(128));
}

#[test]
fn report_with_nothing_passing() {
    let lines = report_lines(&vec![], &vec![result("a", None, false)], false);
    assert_eq!(lines[0], "");
    assert_eq!(lines[1], "--- No Passing Tests Detected ---");
    assert_eq!(lines[3], "--- Failing Tests Report (1) ---");
    assert_eq!(lines.len(), 9);
    assert_eq!(lines[8], "--- Failing Tests Report End ---");
}

#[test]
fn report_with_nothing_failing() {
    let lines = report_lines(&vec![result("a", None, true), result("b", None, true)], &vec![], false);
    assert_eq!(lines[1], "--- Passing Tests Report (2) ---");
    assert_eq!(lines.len(), 8);
    assert_eq!(lines[7], "--- Passing Tests Report End ---");
    assert!(!lines.iter().any(|l| l.contains("Failing")));
}

#[test]
fn export_rows_one_per_result() {
    let p = vec![result("a", Some("s"), true)];
    let mut failing = result("b", None, false);
    failing.status_code = None;
    let f = vec![failing];
    let rows = export_rows(&p, &f);
    assert_eq!(rows.len(), 3);
    assert_eq!(rows[0], export_header());
    assert!(rows.iter().all(|r| r.len() == 8));
    assert_eq!(rows[1], vec!["a", "http://a/x", "200", "body", "true", "", "1.234000000", "s"]);
    assert_eq!(rows[2][2], "");
    assert_eq!(rows[2][4], "false");
    assert_eq!(rows[2][7], "");
    assert_eq!(export_record(&p[0]), rows[1]);
}

#[test]
fn csv_bytes() {
    let rows = vec![vec!["a,b".to_string(), "c".to_string(), String::new()]];
    assert_eq!(encode_csv(&rows), b"\"a,b\",c,\n".to_vec());
    let bytes = export_csv(&vec![result("a", None, true)], &vec![]);
    let text = String::from_utf8(bytes).unwrap();
    assert_eq!(
        text,
        "environment_name,url,status_code,response_body_preview,passed,error_message,duration_secs,state_param\na,http://a/x,200,body,true,,1.234000000,\n"
    );
}
