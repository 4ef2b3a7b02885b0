use serde_json::Value;
use session_trace_receipt::{
    count_unsafe_execves, evaluate, filter_events, HardConstraints, TraceEvent,
};

fn event(kind: &str, file: Option<&str>) -> TraceEvent {
    TraceEvent {
        ts: 1,
        kind: kind.to_string(),
        pid: Some(7),
        comm: None,
        file: file.map(str::to_string),
        path: None,
        flags: None,
    }
}

fn json(text: &str) -> Value {
    serde_json::from_str::<Value>(text).unwrap()
}

fn constraints(network: bool, runtime: bool, depth: Option<u32>) -> HardConstraints {
    HardConstraints {
        deny_network: network,
        deny_unsafe_runtime: runtime,
        max_subprocess_depth: depth,
    }
}

fn mixed_trace() -> Vec<TraceEvent> {
    vec![
        event("begin", None),
        event("execve", Some("/usr/bin/cargo")),
        event("openat", None),
        event("execve", Some("/usr/bin/python3")),
        event("connect", None),
        event("execve", None),
        event("connect", None),
    ]
}

#[test]
fn all_constraints_are_reported() {
    let eval = evaluate(&mixed_trace(), &constraints(true, true, Some(2)));
    assert_eq!(eval.verdict, "block");
    assert_eq!(
        Value::Object(eval.map),
        json(
            r#"{
                "deny_network": {"claimed": true, "connect_events": 2, "violated": true},
                "deny_unsafe_runtime":
                    {"claimed": true, "unsafe_execve_events": 2, "violated": true},
                "max_subprocess_depth": {"claimed": 2, "observed_depth": 3, "violated": true}
            }"#
        )
    );
}

#[test]
fn only_claimed_constraints_appear() {
    let eval = evaluate(&mixed_trace(), &constraints(false, true, None));
    let keys: Vec<&String> = eval.map.keys().collect();
    assert_eq!(keys, vec!["deny_unsafe_runtime"]);
    assert_eq!(eval.verdict, "block");

    let eval = evaluate(&mixed_trace(), &constraints(false, false, Some(3)));
    assert_eq!(
        Value::Object(eval.map),
        json(r#"{"max_subprocess_depth": {"claimed": 3, "observed_depth": 3, "violated": false}}"#)
    );
    assert_eq!(eval.verdict, "pass");
}

#[test]
fn nothing_claimed_passes_without_entries() {
    let eval = evaluate(&mixed_trace(), &HardConstraints::default());
    assert_eq!(eval.map, serde_json::Map::new());
    assert_eq!(eval.verdict, "pass");
}

#[test]
fn a_single_connect_blocks_where_network_is_denied() {
    let eval = evaluate(&[event("connect", None)], &constraints(true, false, None));
    assert_eq!(eval.verdict, "block");
    assert_eq!(
        Value::Object(eval.map),
        json(r#"{"deny_network": {"claimed": true, "connect_events": 1, "violated": true}}"#)
    );
}

#[test]
fn a_quiet_trace_passes() {
    let events = vec![event("begin", None), event("execve", Some("/bin/sh"))];
    let eval = evaluate(&events, &constraints(true, true, Some(1)));
    assert_eq!(eval.verdict, "pass");
    assert_eq!(
        Value::Object(eval.map),
        json(
            r#"{
                "deny_network": {"claimed": true, "connect_events": 0, "violated": false},
                "deny_unsafe_runtime":
                    {"claimed": true, "unsafe_execve_events": 0, "violated": false},
                "max_subprocess_depth": {"claimed": 1, "observed_depth": 1, "violated": false}
            }"#
        )
    );
}

#[test]
fn an_empty_trace_passes_even_a_limit_of_zero() {
    let eval = evaluate(&[], &constraints(true, true, Some(0)));
    assert_eq!(eval.verdict, "pass");
    assert_eq!(eval.map.len(), 3);
}

#[test]
fn a_limit_of_zero_forbids_the_first_execve() {
    let eval = evaluate(&[event("execve", Some("/bin/sh"))], &constraints(false, false, Some(0)));
    assert_eq!(eval.verdict, "block");
}

#[test]
fn allowlist_goes_by_prefix() {
    for safe in [
        "/usr/bin/cargo",
        "/usr/bin/rustc",
        "/usr/bin/git",
        "/usr/bin/sh",
        "/bin/sh",
        "/usr/bin/cargo-clippy",
        "/usr/bin/shred",
        "/bin/sh -c",
    ] {
        assert_eq!(count_unsafe_execves(&[event("execve", Some(safe))]), 0, "{safe}");
    }
    for unsafe_file in [
        "",
        "/usr/bin/carg",
        "cargo",
        "/bin/bash",
        "/usr/local/bin/sh",
        " /bin/sh",
        "/usr/bin/gi",
    ] {
        assert_eq!(
            count_unsafe_execves(&[event("execve", Some(unsafe_file))]),
            1,
            "{unsafe_file}"
        );
    }
    assert_eq!(count_unsafe_execves(&[event("execve", None)]), 1);
    assert_eq!(count_unsafe_execves(&[event("openat", Some("/bin/bash"))]), 0);
}

#[test]
fn only_types_and_targets_matter() {
    let mut events = mixed_trace();
    let claims = constraints(true, true, Some(2));
    let forward = evaluate(&events, &claims);
    events.reverse();
    for event in events.iter_mut() {
        event.ts += 100;
        event.pid = None;
        event.path = Some("/etc".to_string());
    }
    let backward = evaluate(&events, &claims);
    assert_eq!(forward.map, backward.map);
    assert_eq!(forward.verdict, backward.verdict);
}

#[test]
fn filtering_connect_and_execve_keeps_the_evaluation() {
    let claims = constraints(true, true, Some(2));
    let whole = evaluate(&mixed_trace(), &claims);
    let kept = filter_events(mixed_trace(), &["connect", "execve"]);
    assert_eq!(kept.len(), 5);
    let filtered = evaluate(&kept, &claims);
    assert_eq!(whole.map, filtered.map);
    assert_eq!(whole.verdict, filtered.verdict);
}

#[test]
fn more_events_excuse_nothing() {
    let claims = constraints(true, false, None);
    let mut events = vec![event("connect", None)];
    assert_eq!(evaluate(&events, &claims).verdict, "block");
    events.extend(mixed_trace());
    events.reverse();
    let eval = evaluate(&events, &claims);
    assert_eq!(eval.verdict, "block");
    assert_eq!(
        Value::Object(eval.map),
        json(r#"{"deny_network": {"claimed": true, "connect_events": 3, "violated": true}}"#)
    );
}

#[test]
fn weaker_constraints_pass() {
    let events = vec![event("execve", Some("/bin/bash"))];
    assert_eq!(evaluate(&events, &constraints(true, false, Some(1))).verdict, "pass");
    assert_eq!(evaluate(&events, &constraints(false, false, Some(2))).verdict, "pass");
    assert_eq!(evaluate(&events, &constraints(false, false, None)).verdict, "pass");
}

#[test]
fn evaluation_clones_whole() {
    let eval = evaluate(&mixed_trace(), &constraints(true, true, Some(2)));
    let copy = eval.clone();
    assert_eq!(copy.map, eval.map);
    assert_eq!(copy.verdict, eval.verdict);
}

#[test]
fn card_claims_are_read() {
    let card = json(
        r#"{"hard_constraints":
            {"deny_network": true, "deny_unsafe_runtime": true, "max_subprocess_depth": 4}}"#,
    );
    let claims = HardConstraints::from_intent_card(&card);
    assert!(claims.deny_network);
    assert!(claims.deny_unsafe_runtime);
    assert_eq!(claims.max_subprocess_depth, Some(4));
}

#[test]
fn card_without_block_claims_nothing() {
    for card in [r#"{}"#, r#"{"deny_network": true}"#, "null", "[1]", r#""hard_constraints""#] {
        let claims = HardConstraints::from_intent_card(&json(card));
        assert!(!claims.deny_network);
        assert!(!claims.deny_unsafe_runtime);
        assert_eq!(claims.max_subprocess_depth, None);
    }
}

#[test]
fn card_fields_of_the_wrong_type_are_unclaimed() {
    for block in [
        r#"{"deny_network": 1, "deny_unsafe_runtime": "true", "max_subprocess_depth": "4"}"#,
        r#"{"deny_network": null, "deny_unsafe_runtime": false, "max_subprocess_depth": -1}"#,
        r#"{"max_subprocess_depth": 4.0}"#,
        r#"{"max_subprocess_depth": 4294967296}"#,
        r#"{"max_subprocess_depth": 18446744073709551616}"#,
        r#"["deny_network"]"#,
        "true",
    ] {
        let card = json(&format!(r#"{{"hard_constraints": {block}}}"#));
        let claims = HardConstraints::from_intent_card(&card);
        assert!(!claims.deny_network, "{block}");
        assert!(!claims.deny_unsafe_runtime, "{block}");
        assert_eq!(claims.max_subprocess_depth, None, "{block}");
    }
}

#[test]
fn largest_limit_is_claimed() {
    let card = json(r#"{"hard_constraints": {"max_subprocess_depth": 4294967295}}"#);
    let claims = HardConstraints::from_intent_card(&card);
    assert_eq!(claims.max_subprocess_depth, Some(4294967295));
}

#[test]
fn unknown_siblings_are_ignored() {
    let card = json(
        r#"{"title": "x", "hard_constraints":
            {"deny_unsafe": true, "deny_network": true, "custom": {"deny_unsafe_runtime": true}}}"#,
    );
    let claims = HardConstraints::from_intent_card(&card);
    assert!(claims.deny_network);
    assert!(!claims.deny_unsafe_runtime);
    assert_eq!(claims.max_subprocess_depth, None);
}

#[test]
fn fields_are_taken_over() {
    let claims = HardConstraints::from_fields(Some(true), Some(false), Some(9));
    assert!(claims.deny_network);
    assert!(!claims.deny_unsafe_runtime);
    assert_eq!(claims.max_subprocess_depth, Some(9));
    let claims = HardConstraints::from_fields(None, None, Some(4294967296));
    assert!(!claims.deny_network);
    assert_eq!(claims.max_subprocess_depth, None);
    let copy = claims.clone();
    assert_eq!(copy.max_subprocess_depth, None);
}
