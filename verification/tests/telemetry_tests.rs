use dialogue_dispatch::broker::DialogueProviderKind;
use dialogue_dispatch::errors::{DialogueContextSource, DialogueError, DialogueErrorKind};
use dialogue_dispatch::events::{DialogueRequestFailedEvent, DialogueResponseEvent};
use dialogue_dispatch::telemetry::{
    record_dialogue_telemetry, DialogueTelemetry, DialogueTelemetryEvent, DialogueTelemetryLog,
    DialogueTelemetryRecord,
};
use dialogue_dispatch::telemetry_line::{
    parse_line_text, render_line, SerializableDialogueError, SerializableDialogueTelemetryEvent,
    SerializableDialogueTelemetryRecord,
};
use dialogue_dispatch::types::{DialogueRequestId, DialogueResponse, NpcId};

fn response_record(at: u64, id: u64, speaker: u64, content: &str) -> DialogueTelemetryRecord {
    DialogueTelemetryRecord {
        occurred_at_millis: at,
        event: DialogueTelemetryEvent::Response(DialogueResponse::new(
            DialogueRequestId::new(id),
            DialogueProviderKind::OpenAi,
            NpcId::new(speaker),
            None,
            content,
        )),
    }
}

fn failure_record(at: u64, id: u64, kind: DialogueErrorKind) -> DialogueTelemetryRecord {
    DialogueTelemetryRecord {
        occurred_at_millis: at,
        event: DialogueTelemetryEvent::Failure(DialogueError::new(
            DialogueRequestId::new(id),
            DialogueProviderKind::OpenAi,
            kind,
        )),
    }
}

#[test]
fn telemetry_drops_old_records_when_full() {
    let mut telemetry = DialogueTelemetry::new(2);
    telemetry.push(response_record(1000, 1, 1, "Hello"));
    telemetry.push(failure_record(
        2000,
        2,
        DialogueErrorKind::provider_failure("boom"),
    ));
    telemetry.push(response_record(3000, 3, 2, "Hi"));

    assert_eq!(telemetry.len(), 2);
    assert!(telemetry
        .records()
        .iter()
        .all(|record| record.occurred_at_millis >= 2000));
}

#[test]
fn telemetry_keeps_the_newest_in_order() {
    let mut telemetry = DialogueTelemetry::new(0);
    assert!(telemetry.is_empty());
    telemetry.push(response_record(1, 1, 1, "a"));
    telemetry.push(response_record(2, 2, 1, "b"));
    assert_eq!(telemetry.len(), 1);
    assert_eq!(telemetry.records()[0].occurred_at_millis, 2);

    let mut telemetry = DialogueTelemetry::new(3);
    for at in 1..=7u64 {
        telemetry.push(response_record(at, at, 1, "x"));
        assert_eq!(telemetry.len() as u64, at.min(3));
    }
    let times: Vec<u64> = telemetry
        .records()
        .iter()
        .map(|record| record.occurred_at_millis)
        .collect();
    assert_eq!(times, vec![5, 6, 7]);

    let mut telemetry = DialogueTelemetry::default();
    for at in 0..100u64 {
        telemetry.push(response_record(at, at, 1, "x"));
    }
    assert_eq!(telemetry.len(), 64);
    assert_eq!(telemetry.records()[0].occurred_at_millis, 36);
}

#[test]
fn recording_fills_history_and_log() {
    let mut telemetry = DialogueTelemetry::new(8);
    let mut log = DialogueTelemetryLog::new("out/log.jsonl");
    assert_eq!(log.path(), "out/log.jsonl");
    assert!(log.is_empty());
    let responses = vec![
        DialogueResponseEvent {
            response: DialogueResponse::new(
                DialogueRequestId::new(1),
                DialogueProviderKind::OpenAi,
                NpcId::new(1),
                Some(NpcId::new(2)),
                "Hello",
            ),
        },
        DialogueResponseEvent {
            response: DialogueResponse::new(
                DialogueRequestId::new(2),
                DialogueProviderKind::OpenAi,
                NpcId::new(3),
                None,
                "Hi",
            ),
        },
    ];
    let failures = vec![DialogueRequestFailedEvent {
        error: DialogueError::new(
            DialogueRequestId::new(3),
            DialogueProviderKind::OpenAi,
            DialogueErrorKind::rate_limited(3000),
        ),
    }];
    record_dialogue_telemetry(12500, &mut telemetry, &responses, &failures, &mut log);
    assert_eq!(telemetry.len(), 3);
    assert!(!log.is_empty());
    let lines = log.pending_lines();
    assert_eq!(
        lines,
        vec![
            "{\"occurred_at_seconds\":12.500,\"event\":{\"event_type\":\"response\",\
             \"request_id\":1,\"provider\":\"OpenAi\",\"speaker\":\"NPC-0001\",\
             \"target\":\"NPC-0002\",\"content\":\"Hello\"}}",
            "{\"occurred_at_seconds\":12.500,\"event\":{\"event_type\":\"response\",\
             \"request_id\":2,\"provider\":\"OpenAi\",\"speaker\":\"NPC-0003\",\
             \"target\":null,\"content\":\"Hi\"}}",
            "{\"occurred_at_seconds\":12.500,\"event\":{\"event_type\":\"failure\",\
             \"request_id\":3,\"provider\":\"OpenAi\",\"error\":{\"error_kind\":\"rate_limited\",\
             \"retry_after_seconds\":3.000}}}",
        ]
    );
    let kinds: Vec<bool> = telemetry
        .records()
        .iter()
        .map(|record| matches!(record.event, DialogueTelemetryEvent::Response(_)))
        .collect();
    assert_eq!(kinds, vec![true, true, false]);

    log.mark_written(1);
    assert_eq!(log.pending_lines(), lines[1..].to_vec());
    log.mark_written(0);
    assert_eq!(log.pending_lines().len(), 2);
    log.mark_written(5);
    assert!(log.is_empty());
    assert!(log.pending_lines().is_empty());
    assert_eq!(log.path(), "out/log.jsonl");
    assert_eq!(DialogueTelemetryLog::default().path(), "logs/dialogue_history.jsonl");
}

#[test]
fn lines_are_json_with_the_documented_fields() {
    let mut log = DialogueTelemetryLog::default();
    log.push(&DialogueTelemetryRecord {
        occurred_at_millis: 12500,
        event: DialogueTelemetryEvent::Response(DialogueResponse::new(
            DialogueRequestId::new(9),
            DialogueProviderKind::OpenAi,
            NpcId::new(42),
            Some(NpcId::new(7)),
            "Greetings, \"friend\"\n\tA back\\slash, a bell \u{7} and a snowman \u{2603}",
        )),
    });
    log.push(&failure_record(
        7,
        u64::MAX,
        DialogueErrorKind::provider_failure("bad \u{1f}\u{0}\u{8}\u{c}\r line"),
    ));
    log.push(&failure_record(
        u64::MAX,
        0,
        DialogueErrorKind::context_missing(DialogueContextSource::TradeHistory),
    ));
    log.push(&failure_record(0, 1, DialogueErrorKind::rate_limited(-1500)));
    let lines = log.pending_lines();
    assert_eq!(lines.len(), 4);
    for line in &lines {
        assert!(!line.contains('\n'));
    }

    let value: serde_json::Value = serde_json::from_str(&lines[0]).expect("json line should parse");
    assert_eq!(value["occurred_at_seconds"], serde_json::Value::from(12.5));
    assert_eq!(value["event"]["event_type"], "response");
    assert_eq!(value["event"]["request_id"], 9);
    assert_eq!(value["event"]["provider"], "OpenAi");
    assert_eq!(value["event"]["speaker"], "NPC-0042");
    assert_eq!(value["event"]["target"], "NPC-0007");
    assert_eq!(
        value["event"]["content"],
        "Greetings, \"friend\"\n\tA back\\slash, a bell \u{7} and a snowman \u{2603}"
    );

    let value: serde_json::Value = serde_json::from_str(&lines[1]).expect("json line should parse");
    assert_eq!(value["occurred_at_seconds"], serde_json::Value::from(0.007));
    assert_eq!(value["event"]["event_type"], "failure");
    assert_eq!(value["event"]["request_id"], u64::MAX);
    assert_eq!(value["event"]["error"]["error_kind"], "provider_failure");
    assert_eq!(
        value["event"]["error"]["message"],
        "bad \u{1f}\u{0}\u{8}\u{c}\r line"
    );
    assert_eq!(
        serde_json::to_string(&value["event"]["error"]["message"]).expect("a string"),
        "\"bad \\u001f\\u0000\\b\\f\\r line\""
    );
    assert!(lines[1].contains("\"bad \\u001f\\u0000\\b\\f\\r line\""));

    let value: serde_json::Value = serde_json::from_str(&lines[2]).expect("json line should parse");
    assert_eq!(value["event"]["error"]["error_kind"], "context_missing");
    assert_eq!(value["event"]["error"]["missing"], "trade history");
    assert!(lines[2].starts_with("{\"occurred_at_seconds\":18446744073709551.615,"));

    let value: serde_json::Value = serde_json::from_str(&lines[3]).expect("json line should parse");
    assert_eq!(value["event"]["error"]["error_kind"], "rate_limited");
    assert_eq!(
        value["event"]["error"]["retry_after_seconds"],
        serde_json::Value::from(-1.5)
    );
    assert!(value["event"].get("target").is_none());
}

fn round_trip(record: SerializableDialogueTelemetryRecord) {
    let line = render_line(&record);
    let back = parse_line_text(&line).expect("a written line reads back");
    assert_eq!(format!("{:?}", back), format!("{:?}", record));
    assert_eq!(render_line(&back), line);
}

#[test]
fn written_lines_read_back() {
    let texts = [
        "",
        "plain",
        "\"",
        "\\",
        "\\\"",
        "\\u0041",
        "a\nb\rc\td",
        "\u{0}\u{1}\u{8}\u{9}\u{a}\u{b}\u{c}\u{d}\u{e}\u{1f}\u{20}\u{7f}\u{80}",
        "null",
        "}{\":,",
        "\u{2603}\u{1F600}\u{10FFFF}\u{D7FF}\u{E000}",
    ];
    for (index, text) in texts.iter().enumerate() {
        round_trip(SerializableDialogueTelemetryRecord {
            occurred_at_millis: index as u64 * 1001,
            event: SerializableDialogueTelemetryEvent::Response {
                request_id: index as u64,
                provider: text.to_string(),
                speaker: format!("{}{}", text, text),
                target: if index % 2 == 0 {
                    Some(text.to_string())
                } else {
                    None
                },
                content: text.to_string(),
            },
        });
        round_trip(SerializableDialogueTelemetryRecord {
            occurred_at_millis: u64::MAX - index as u64,
            event: SerializableDialogueTelemetryEvent::Failure {
                request_id: u64::MAX - index as u64,
                provider: text.to_string(),
                error: SerializableDialogueError::ProviderFailure {
                    message: text.to_string(),
                },
            },
        });
        round_trip(SerializableDialogueTelemetryRecord {
            occurred_at_millis: 5,
            event: SerializableDialogueTelemetryEvent::Failure {
                request_id: 1,
                provider: "OpenAi".to_string(),
                error: SerializableDialogueError::ContextMissing {
                    missing: text.to_string(),
                },
            },
        });
    }
    for millis in [0, 1, -1, 999, -999, 1000, -1000, 123456, i64::MAX, i64::MIN] {
        round_trip(SerializableDialogueTelemetryRecord {
            occurred_at_millis: 10,
            event: SerializableDialogueTelemetryEvent::Failure {
                request_id: 1,
                provider: "OpenAi".to_string(),
                error: SerializableDialogueError::RateLimited {
                    retry_after_millis: millis,
                },
            },
        });
    }
}

#[test]
fn telemetry_record_reads_back_with_its_labels() {
    let record = DialogueTelemetryRecord {
        occurred_at_millis: 12500,
        event: DialogueTelemetryEvent::Response(DialogueResponse::new(
            DialogueRequestId::new(9),
            DialogueProviderKind::OpenAi,
            NpcId::new(42),
            Some(NpcId::new(7)),
            "Greetings",
        )),
    };
    let logged = SerializableDialogueTelemetryRecord::from_record(&record);
    let back = parse_line_text(&render_line(&logged)).expect("a written line reads back");
    assert_eq!(back.occurred_at_millis, 12500);
    match back.event {
        SerializableDialogueTelemetryEvent::Response {
            request_id,
            provider,
            speaker,
            target,
            content,
        } => {
            assert_eq!(request_id, 9);
            assert_eq!(provider, "OpenAi");
            assert_eq!(speaker, "NPC-0042");
            assert_eq!(target.as_deref(), Some("NPC-0007"));
            assert_eq!(content, "Greetings");
        }
        other => panic!("expected a response, got {:?}", other),
    }
    let failure = failure_record(
        1,
        2,
        DialogueErrorKind::context_missing(DialogueContextSource::InventoryState),
    );
    let logged = SerializableDialogueTelemetryRecord::from_record(&failure);
    match parse_line_text(&render_line(&logged)).expect("reads back").event {
        SerializableDialogueTelemetryEvent::Failure {
            request_id,
            provider,
            error,
        } => {
            assert_eq!(request_id, 2);
            assert_eq!(provider, "OpenAi");
            assert!(matches!(
                error,
                SerializableDialogueError::ContextMissing { ref missing } if missing == "inventory state"
            ));
        }
        other => panic!("expected a failure, got {:?}", other),
    }
}

#[test]
fn other_lines_are_turned_down() {
    let good = "{\"occurred_at_seconds\":0.001,\"event\":{\"event_type\":\"failure\",\
                \"request_id\":3,\"provider\":\"p\",\"error\":{\"error_kind\":\"rate_limited\",\
                \"retry_after_seconds\":3.000}}}";
    assert!(parse_line_text(good).is_some());
    let bad = [
        String::new(),
        format!("{} ", good),
        format!(" {}", good),
        format!("{}\n", good),
        good.replace("0.001", "0.0010"),
        good.replace("0.001", "00.001"),
        good.replace("0.001", "1"),
        good.replace("0.001", "18446744073709551.616"),
        good.replace(":3,", ":03,"),
        good.replace(":3,", ":18446744073709551616,"),
        good.replace(":3,", ":-3,"),
        good.replace("3.000", "-0.000"),
        good.replace("3.000", "9223372036854775.808"),
        good.replace("3.000", "+3.000"),
        good.replace("\"p\"", "\"p"),
        good.replace("\"p\"", "\"\\/\""),
        good.replace("\"p\"", "\"\\u0041\""),
        good.replace("\"p\"", "\"\\u000a\""),
        good.replace("\"p\"", "\"\\u001F\""),
        good.replace("\"p\"", "\"\t\""),
        good.replace("\"p\"", "null"),
        good.replace("failure", "response"),
        good.replace("rate_limited", "provider_failure"),
        good.replace(",\"event\"", ", \"event\""),
        good[..good.len() - 1].to_string(),
    ];
    for line in bad {
        assert!(parse_line_text(&line).is_none(), "accepted {:?}", line);
    }
    let ok = [
        good.replace("3.000", "-9223372036854775.808"),
        good.replace("3.000", "9223372036854775.807"),
        good.replace("0.001", "18446744073709551.615"),
        good.replace("\"p\"", "\"\\u001f\\u0000\\b\""),
    ];
    for line in ok {
        assert!(parse_line_text(&line).is_some(), "refused {:?}", line);
    }
}
