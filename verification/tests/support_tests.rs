use wfgen::datagen_plan::{event_interval, merge_order, ReservedKeyBands};
use wfgen::error::{WfgenError, WfgenReason};
use wfgen::injection_targets::injected_rule_names;
use wfgen::json_text::{entry_value_of, json_get_of, json_is_valid, json_top_level_entries, visible_entries_of};
use wfgen::lint::lint_lines;
use wfgen::source_api::SourceError;
use wfgen::text::{decimal, push_duration, str_is, trim_text};
use wfgen::validate::{validate_wfg, SchemaInfo, ValidationError};
use wfgen::wfg_file::parse_wfg;

fn pairs(items: &[(&str, &str)]) -> Vec<(String, String)> {
    items.iter().map(|(k, v)| (k.to_string(), v.to_string())).collect()
}

// ---------------------------------------------------------------------------
// JSON and text helpers
// ---------------------------------------------------------------------------

#[test]
fn top_level_entries_leave_internal_keys_out() {
    let entries = json_top_level_entries(r#"{"b": [1, 2], "_stream": "x", "a": "v"}"#).unwrap();
    assert_eq!(entries, pairs(&[("a", "\"v\""), ("b", "[1,2]")]));
    assert_eq!(json_top_level_entries("[1]"), None);
    assert_eq!(
        visible_entries_of(&pairs(&[("_t", "1"), ("x", "2")])),
        pairs(&[("x", "2")])
    );
}

#[test]
fn json_lookups() {
    assert_eq!(json_get_of(r#"{"k": {"n": 1}}"#, "k"), Some("{\"n\":1}".to_string()));
    assert_eq!(json_get_of(r#"{"k": 1}"#, "z"), None);
    assert_eq!(json_get_of("[1]", "k"), None);
    assert_eq!(entry_value_of(&pairs(&[("a", "1"), ("a", "2")]), "a"), Some("1".to_string()));
    assert!(json_is_valid("{\"a\": 1}"));
    assert!(!json_is_valid("{\"a\": "));
}

#[test]
fn durations_are_written_as_debug_does() {
    let cases: [(u64, &str); 6] = [
        (7_200_000_000_000, "7200s"),
        (1_500_000_000, "1.5s"),
        (250_000_000, "250ms"),
        (1_250_000, "1.25ms"),
        (3_000, "3\u{b5}s"),
        (7, "7ns"),
    ];
    for (ns, text) in cases {
        let mut s = String::new();
        push_duration(&mut s, ns);
        assert_eq!(s, text, "{ns} ns");
    }
    assert_eq!(decimal(0), "0");
    assert_eq!(decimal(18_446_744_073_709_551_615), "18446744073709551615");
}

#[test]
fn trimming_and_comparing_text() {
    assert_eq!(trim_text("\u{3000} token \n"), "token");
    assert_eq!(trim_text(" \t\n"), "");
    assert!(str_is("abc", "abc"));
    assert!(!str_is("abc", "abd"));
}

#[test]
fn spread_message_writes_durations_as_debug_does() {
    let input = r#"
#[duration=10m]
scenario s<seed=1> {
    background { stream auth_events gen 100/s }
    inject {
        hit<user: 5> for rule_a auth_events {
            use(login="failed") x 1
            spread 20m
        }
    }
}
"#;
    let wfg = parse_wfg(input).unwrap();
    let schemas = vec![SchemaInfo {
        name: "auth_events".to_string(),
        fields: vec!["user".to_string(), "login".to_string()],
    }];
    let errors = validate_wfg(&wfg, &schemas, &vec![], true);
    let vn25: Vec<&ValidationError> = errors.iter().filter(|e| e.code == "VN25").collect();
    assert_eq!(vn25.len(), 1);
    assert_eq!(vn25[0].message, "injection case 'auth_events' spread 1200s 超过场景 duration 600s");
}

// ---------------------------------------------------------------------------
// Errors and lint
// ---------------------------------------------------------------------------

#[test]
fn errors_render_their_detail() {
    let e = WfgenError::new(WfgenReason::Io, "cannot read x".to_string());
    assert_eq!(e.to_string(), "cannot read x");
    assert_eq!(SourceError::Io("disk".to_string()).to_string(), "I/O error: disk");
    assert_eq!(SourceError::Connect("refused".to_string()).to_string(), "connect error: refused");
    assert_eq!(SourceError::Decode("bad".to_string()).to_string(), "decode error: bad");
    assert_eq!(SourceError::NotFound("s1".to_string()).to_string(), "source not found: s1");
    assert_eq!(SourceError::Other("plain".to_string()).to_string(), "plain");
}

#[test]
fn lint_passes_only_without_errors() {
    assert_eq!(lint_lines(&vec![], &vec![]), (true, vec!["OK".to_string()]));
    let errors = vec![ValidationError {
        code: "VN3".to_string(),
        message: "stream 'x' not found".to_string(),
    }];
    let (ok, lines) = lint_lines(&errors, &vec!["rule r: bad".to_string()]);
    assert!(!ok);
    assert_eq!(lines, vec!["[VN3] stream 'x' not found".to_string(), "rule r: bad".to_string()]);
}

// ---------------------------------------------------------------------------
// Generation plans
// ---------------------------------------------------------------------------

#[test]
fn reserved_bands_apply_to_their_fields_only() {
    let bands = ReservedKeyBands::new(1_000, pairs(&[("LoginWindow", "uid")]));
    assert_eq!(bands.floor_for("LoginWindow", "uid"), Some(1_000));
    assert_eq!(bands.floor_for("LoginWindow", "other"), None);
    assert_eq!(bands.floor_for("OtherWindow", "uid"), None);
    let empty = ReservedKeyBands::new(0, pairs(&[("LoginWindow", "uid")]));
    assert_eq!(empty.floor_for("LoginWindow", "uid"), None);
}

#[test]
fn background_events_are_spaced_evenly() {
    assert_eq!(event_interval(10_000_000_000, 4), 2_500_000_000);
    assert_eq!(event_interval(10_000_000_000, 1), 0);
    assert_eq!(event_interval(10_000_000_000, 0), 0);
    assert_eq!(event_interval(u64::MAX, 2), i64::MAX / 2);
    // Event i lands at i * interval, never past the duration.
    let d: u64 = 7_000_000_001;
    let n: u64 = 3;
    let iv = event_interval(d, n);
    assert!((0..n as i64).all(|i| i * iv <= d as i64));
}

#[test]
fn merge_takes_the_earliest_next_event() {
    let chunks = vec![vec![1, 5, 9], vec![2, 5], vec![], vec![0]];
    let total = chunks.iter().map(|c| c.len()).sum();
    let order = merge_order(&chunks, total);
    assert_eq!(order, vec![(3, 0), (0, 0), (1, 0), (0, 1), (1, 1), (0, 2)]);
    let times: Vec<i64> = order.iter().map(|&(c, p)| chunks[c][p]).collect();
    assert!(times.windows(2).all(|w| w[0] <= w[1]));
    assert_eq!(merge_order(&vec![], 0), vec![]);
}

#[test]
fn injected_rules_are_listed_once_in_order() {
    let input = r#"
#[duration=10m]
scenario s<seed=1> {
    background { stream auth_events gen 100/s }
    inject {
        hit<5> for rule_b auth_events { use(login="x") x 1 }
        near_miss<5> for rule_a auth_events { use(login="x") x 1 }
        miss<5> for rule_b auth_events { use(login="x") x 1 }
    }
}
"#;
    let wfg = parse_wfg(input).unwrap();
    assert_eq!(injected_rule_names(&wfg), vec!["rule_b".to_string(), "rule_a".to_string()]);
    let plain = parse_wfg("#[duration=1m]\nscenario s<seed=1> { background { stream a gen 1/s } }\n").unwrap();
    assert!(injected_rule_names(&plain).is_empty());
}
