use session_trace_receipt::{
    count_kind, event_lines, filter_events, is_blank, is_whitespace, keep_decoded, parse_ndjson,
    LogScan, TraceEvent, MAX_MESSAGE_LEN,
};

fn event(ts: u64, kind: &str) -> TraceEvent {
    TraceEvent {
        ts,
        kind: kind.to_string(),
        pid: None,
        comm: Some("sh".to_string()),
        file: None,
        path: Some("/tmp".to_string()),
        flags: Some(-1),
    }
}

/// Reads the object that a line holds: its `ts` and its `type`.
fn decode(line: &str) -> Option<TraceEvent> {
    let value = serde_json::from_str::<serde_json::Value>(line).ok()?;
    let ts = value.get("ts")?.as_u64()?;
    let kind = value.get("type")?.as_str()?;
    Some(event(ts, kind))
}

fn seen(events: &[TraceEvent]) -> Vec<(u64, String)> {
    events.iter().map(|e| (e.ts, e.kind.clone())).collect()
}

#[test]
fn events_are_read_in_order() {
    let log = "{\"ts\": 1, \"type\": \"begin\"}\n{\"ts\": 2, \"type\": \"connect\"}\n";
    let events = parse_ndjson(log, decode);
    assert_eq!(seen(&events), vec![(1, "begin".to_string()), (2, "connect".to_string())]);
}

#[test]
fn blank_and_undecodable_lines_are_skipped() {
    let log = "\n  \t\r\n{\"ts\": 1, \"type\": \"begin\"}\r\nnot json\n\u{3000}\n   \
               {\"ts\": 2, \"type\": \"execve\"}  \n{\"ts\": 3, \"ty";
    let events = parse_ndjson(log, decode);
    assert_eq!(seen(&events), vec![(1, "begin".to_string()), (2, "execve".to_string())]);
}

#[test]
fn empty_log_has_no_events() {
    assert!(parse_ndjson("", decode).is_empty());
    assert!(parse_ndjson("\n\n\n", decode).is_empty());
}

#[test]
fn only_event_lines_are_handed_to_the_decoder() {
    let lines = std::cell::RefCell::new(Vec::new());
    let events = parse_ndjson(" a \n\n\tb", |line: &str| {
        lines.borrow_mut().push(line.to_string());
        None
    });
    assert!(events.is_empty());
    assert_eq!(lines.into_inner(), vec!["a".to_string(), "b".to_string()]);
}

#[test]
fn torn_end_costs_no_event() {
    let whole = "{\"ts\": 1, \"type\": \"begin\"}\n{\"ts\": 2, \"type\": \"connect\"}";
    let torn = format!("{whole}\n{{\"ts\": 3, \"type\": \"conn");
    assert_eq!(seen(&parse_ndjson(&torn, decode)), seen(&parse_ndjson(whole, decode)));
}

#[test]
fn joined_logs_have_the_events_of_both() {
    let a = "{\"ts\": 1, \"type\": \"begin\"}";
    let b = "{\"ts\": 2, \"type\": \"connect\"}\nx";
    let mut both = seen(&parse_ndjson(a, decode));
    both.extend(seen(&parse_ndjson(b, decode)));
    assert_eq!(seen(&parse_ndjson(&format!("{a}\n{b}"), decode)), both);
}

#[test]
fn decoded_attempts_are_kept() {
    let kept = keep_decoded(vec![None, Some(event(5, "a")), None, Some(event(6, "b"))]);
    assert_eq!(seen(&kept), vec![(5, "a".to_string()), (6, "b".to_string())]);
}

#[test]
fn lines_agree_with_std() {
    for text in [
        "",
        "\n",
        "a",
        "a\n",
        "a\r\n",
        "a\r",
        "\r\r\n\r",
        "a\n\nb",
        "  a b \n\u{85}c\u{a0}\n \u{2003} \nd",
        "\u{200b}\n\u{feff}x",
        "ä\u{1680}ö\n",
        "a\u{2028}b\u{b}\n\u{c}",
    ] {
        let expected: Vec<String> = text
            .lines()
            .map(str::trim)
            .filter(|line| !line.is_empty())
            .map(str::to_string)
            .collect();
        assert_eq!(event_lines(text), expected, "{text:?}");
    }
}

#[test]
fn whitespace_agrees_with_std() {
    for code in 0..=0x10ffff_u32 {
        if let Some(c) = char::from_u32(code) {
            assert_eq!(is_whitespace(c), c.is_whitespace(), "{code:x}");
        }
    }
}

#[test]
fn blank_agrees_with_std() {
    for text in ["", " ", "\t\r\n", " x ", "\u{3000}\u{2029}", "\u{200b}", "x", " \u{0}"] {
        assert_eq!(is_blank(text), text.trim().is_empty(), "{text:?}");
    }
}

#[test]
fn filter_keeps_allowed_types_in_order() {
    let events = vec![
        event(1, "begin"),
        event(2, "connect"),
        event(3, "execve"),
        event(4, "connect"),
        event(5, "conn"),
    ];
    let kept = filter_events(events.clone(), &["execve", "connect", "connect"]);
    assert_eq!(
        seen(&kept),
        vec![
            (2, "connect".to_string()),
            (3, "execve".to_string()),
            (4, "connect".to_string())
        ]
    );
    let again = filter_events(kept.clone(), &["execve", "connect"]);
    assert_eq!(seen(&again), seen(&kept));
    assert!(filter_events(events.clone(), &[]).is_empty());
    assert!(filter_events(events.clone(), &["", "connec", "connects"]).is_empty());
    assert_eq!(kept[0].flags, Some(-1));
    assert_eq!(kept[0].path, Some("/tmp".to_string()));
    assert_eq!(count_kind(&events, "connect"), 2);
    assert_eq!(count_kind(&events, "unlinkat"), 0);
}

#[test]
fn event_clones_whole() {
    let original = event(9, "openat");
    let copy = original.clone();
    assert_eq!(copy.ts, 9);
    assert_eq!(copy.kind, "openat");
    assert_eq!(copy.comm, original.comm);
    assert_eq!(copy.path, original.path);
    assert_eq!(copy.flags, Some(-1));
}

#[test]
fn scan_of_an_empty_log() {
    let info = LogScan::new().finish("/var/log/empty".to_string());
    assert_eq!(info.tool, "ctrace");
    assert_eq!(info.version, None);
    assert_eq!(info.root_pid, None);
    assert_eq!(
        info.log_sha256,
        "e3b0c44298fc1c149afbf4c8996fb92427ae41e4649b934ca495991b7852b855"
    );
    assert_eq!(info.log_path, "/var/log/empty");
    assert_eq!(info.event_count, 0);
}

#[test]
fn scan_does_not_depend_on_chunks() {
    let mut scan = LogScan::new();
    assert_eq!(scan.room(), MAX_MESSAGE_LEN);
    scan.hash_chunk(b"a");
    scan.hash_chunk(b"");
    scan.hash_chunk(b"bc");
    assert_eq!(scan.room(), MAX_MESSAGE_LEN - 3);
    let info = scan.finish(String::new());
    assert_eq!(
        info.log_sha256,
        "ba7816bf8f01cfea414140de5dae2223b00361a396177a9cb410ff61f20015ad"
    );
}

#[test]
fn scan_counts_lines_that_are_not_blank() {
    let mut scan = LogScan::new();
    for line in ["{}", "", "  \t", "torn {", "\r", "{}\r"] {
        scan.count_line(line);
    }
    assert_eq!(scan.finish(String::new()).event_count, 3);
}

#[test]
fn scan_counts_the_lines_that_are_parsed() {
    for text in ["", "\n", "{}\r\n\r\n{}\n \n", "a\nb", "a\r\nb\r", "\r\n\u{a0}\nx\n"] {
        let mut scan = LogScan::new();
        for line in std::io::BufRead::lines(text.as_bytes()) {
            scan.count_line(&line.unwrap());
        }
        let count = scan.finish(String::new()).event_count;
        assert_eq!(count, event_lines(text).len() as u64, "{text:?}");
    }
}

/// Writes every field of an event that is set, in JSON on one line.
fn write_line(event: &TraceEvent) -> String {
    let mut object = serde_json::Map::new();
    object.insert("ts".to_string(), event.ts.into());
    object.insert("type".to_string(), event.kind.clone().into());
    if let Some(pid) = event.pid {
        object.insert("pid".to_string(), pid.into());
    }
    if let Some(flags) = event.flags {
        object.insert("flags".to_string(), flags.into());
    }
    for (name, text) in [("comm", &event.comm), ("file", &event.file), ("path", &event.path)] {
        if let Some(text) = text {
            object.insert(name.to_string(), text.clone().into());
        }
    }
    serde_json::to_string(&serde_json::Value::Object(object)).unwrap()
}

/// Reads what `write_line` writes.
fn read_line(line: &str) -> Option<TraceEvent> {
    let value = serde_json::from_str::<serde_json::Value>(line).ok()?;
    let text = |name: &str| value.get(name).and_then(|v| v.as_str()).map(str::to_string);
    Some(TraceEvent {
        ts: value.get("ts")?.as_u64()?,
        kind: text("type")?,
        pid: value.get("pid").and_then(|v| v.as_u64()).and_then(|n| u32::try_from(n).ok()),
        comm: text("comm"),
        file: text("file"),
        path: text("path"),
        flags: value.get("flags").and_then(|v| v.as_i64()).and_then(|n| i32::try_from(n).ok()),
    })
}

#[test]
fn written_events_are_read_back() {
    let mut written = vec![event(1, "begin"), event(u64::MAX, " open\nat\r"), event(0, "")];
    written[1].pid = Some(u32::MAX);
    written[1].file = Some("/bin/sh\n{}\u{2028}\u{3000}".to_string());
    written[2].comm = None;
    written[2].flags = Some(i32::MIN);
    for n in 0..=written.len() {
        let events = &written[..n];
        let lines: Vec<String> = events.iter().map(write_line).collect();
        let read = parse_ndjson(&lines.join("\n"), read_line);
        assert_eq!(read.len(), n);
        for (r, e) in read.iter().zip(events) {
            assert_eq!(r.ts, e.ts);
            assert_eq!(r.kind, e.kind);
            assert_eq!(r.pid, e.pid);
            assert_eq!(r.comm, e.comm);
            assert_eq!(r.file, e.file);
            assert_eq!(r.path, e.path);
            assert_eq!(r.flags, e.flags);
        }
    }
}
