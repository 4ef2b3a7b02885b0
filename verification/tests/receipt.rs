use serde_json::Value;
use session_trace_receipt::{
    build_receipt, evaluate, hex_string, nibble_to_hex, sha256_hex, skipped_receipt,
    HardConstraints, TraceEvent, TracerInfo, RECEIPT_SCHEMA,
};

fn tracer() -> TracerInfo {
    TracerInfo {
        tool: "ctrace".to_string(),
        version: Some("0.3".to_string()),
        root_pid: Some(42),
        log_sha256: "00".to_string(),
        log_path: "/tmp/trace.ndjson".to_string(),
        event_count: 1,
    }
}

#[test]
fn receipt_holds_the_evaluation() {
    let events = vec![TraceEvent {
        ts: 0,
        kind: "connect".to_string(),
        pid: None,
        comm: None,
        file: None,
        path: None,
        flags: None,
    }];
    let claims = HardConstraints {
        deny_network: true,
        deny_unsafe_runtime: false,
        max_subprocess_depth: None,
    };
    let eval = evaluate(&events, &claims);
    let expected = eval.map.clone();
    let receipt = build_receipt(
        "abc".to_string(),
        "2024-01-01T00:00:00Z".to_string(),
        tracer(),
        eval,
        vec!["note".to_string()],
    );
    assert_eq!(receipt.schema, "autobuilder.session_trace_receipt.v1");
    assert_eq!(receipt.schema, RECEIPT_SCHEMA);
    assert_eq!(receipt.head_sha, "abc");
    assert_eq!(receipt.captured_at, "2024-01-01T00:00:00Z");
    assert_eq!(receipt.tracer.tool, "ctrace");
    assert_eq!(receipt.tracer.version, Some("0.3".to_string()));
    assert_eq!(receipt.tracer.root_pid, Some(42));
    assert_eq!(receipt.tracer.event_count, 1);
    assert_eq!(receipt.constraints_evaluated, expected);
    assert_eq!(
        receipt.constraints_evaluated.get("deny_network").and_then(|e| e.get("violated")),
        Some(&Value::Bool(true))
    );
    assert_eq!(receipt.verdict, "block");
    assert_eq!(receipt.skip_reason, None);
    assert_eq!(receipt.notes, vec!["note".to_string()]);

    let copy = receipt.clone();
    assert_eq!(copy.schema, receipt.schema);
    assert_eq!(copy.head_sha, receipt.head_sha);
    assert_eq!(copy.captured_at, receipt.captured_at);
    assert_eq!(copy.tracer.log_path, "/tmp/trace.ndjson");
    assert_eq!(copy.tracer.log_sha256, "00");
    assert_eq!(copy.constraints_evaluated, receipt.constraints_evaluated);
    assert_eq!(copy.verdict, receipt.verdict);
    assert_eq!(copy.skip_reason, None);
    assert_eq!(copy.notes, receipt.notes);
}

#[test]
fn skipped_receipt_gives_the_reason() {
    let receipt = skipped_receipt("abc".to_string(), "now".to_string(), "ctrace not found");
    assert_eq!(receipt.schema, RECEIPT_SCHEMA);
    assert_eq!(receipt.head_sha, "abc");
    assert_eq!(receipt.captured_at, "now");
    assert_eq!(receipt.tracer.tool, "ctrace");
    assert_eq!(receipt.tracer.version, None);
    assert_eq!(receipt.tracer.root_pid, None);
    assert_eq!(receipt.tracer.log_sha256, "");
    assert_eq!(receipt.tracer.log_path, "");
    assert_eq!(receipt.tracer.event_count, 0);
    assert_eq!(receipt.constraints_evaluated, serde_json::Map::new());
    assert_eq!(receipt.verdict, "skipped");
    assert_eq!(receipt.skip_reason, Some("ctrace not found".to_string()));
    assert!(receipt.notes.is_empty());
}

#[test]
fn digests_of_known_messages() {
    assert_eq!(
        sha256_hex(b""),
        "e3b0c44298fc1c149afbf4c8996fb92427ae41e4649b934ca495991b7852b855"
    );
    assert_eq!(
        sha256_hex(b"abc"),
        "ba7816bf8f01cfea414140de5dae2223b00361a396177a9cb410ff61f20015ad"
    );
    assert_eq!(
        sha256_hex(b"abcdbcdecdefdefgefghfghighijhijkijkljklmklmnlmnomnopnopq"),
        "248d6a61d20638b8e5c026930c3e6039a33ce45964ff2167f6ecedd419db06c1"
    );
}

#[test]
fn hexadecimal_of_every_byte() {
    for b in 0..=255_u8 {
        assert_eq!(hex_string(&[b]), format!("{b:02x}"));
    }
    assert_eq!(hex_string(&[]), "");
    assert_eq!(hex_string(&[0xbe, 0xef, 0x07]), "beef07");
}

#[test]
fn nibbles_are_masked() {
    let digits = b"0123456789abcdef";
    for nibble in 0..=255_u8 {
        assert_eq!(nibble_to_hex(nibble), digits[(nibble & 0x0f) as usize]);
    }
}
