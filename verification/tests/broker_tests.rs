use dialogue_dispatch::broker::config::{OpenAiConfig, OpenAiConfigError, OpenAiEnv};
use dialogue_dispatch::broker::openai::{
    build_messages, build_user_message, classify_reply, compose_context_segments,
    parse_retry_after, topic_label, validate_request, BrokerStep, OpenAiErrorDetail,
    ProviderReply,
};
use dialogue_dispatch::broker::{DialogueBroker, DialogueProviderKind, OpenAiDialogueBroker};
use dialogue_dispatch::errors::{DialogueContextSource, DialogueErrorKind};
use dialogue_dispatch::status::{DialogueBrokerStatus, DialogueConnectionState};
use dialogue_dispatch::types::{
    DialogueContext, DialogueContextEvent, DialogueRequest, DialogueRequestId,
    DialogueTopicHint, NpcId, TradeContext, TradeContextReason, TradeDescriptor,
};

fn fallback() -> OpenAiDialogueBroker {
    OpenAiDialogueBroker::new(Err(OpenAiConfigError::MissingApiKey))
}

fn env_with_key(key: &str) -> OpenAiEnv {
    OpenAiEnv {
        api_key: Some(key.to_string()),
        base_url: None,
        model: None,
        timeout_secs: None,
        max_output_tokens: None,
        temperature: None,
    }
}

fn live() -> OpenAiDialogueBroker {
    OpenAiDialogueBroker::new(OpenAiConfig::from_env(&env_with_key("key")))
}

fn trade_request() -> DialogueRequest {
    let trade_context = DialogueContextEvent::Trade(TradeContext {
        day: 3,
        from: Some(NpcId::new(1)),
        to: Some(NpcId::new(2)),
        descriptor: TradeDescriptor::new("grain crate", 2),
        reason: TradeContextReason::Exchange,
    });
    DialogueRequest::new(
        NpcId::new(1),
        Some(NpcId::new(2)),
        "Discuss the latest trade",
        DialogueTopicHint::Trade,
        DialogueContext {
            summary: Some("Short summary".to_string()),
            events: vec![trade_context],
        },
    )
}

fn status_request(prompt: &str) -> DialogueRequest {
    DialogueRequest::new(
        NpcId::new(1),
        None,
        prompt,
        DialogueTopicHint::Status,
        DialogueContext::default(),
    )
}

fn kind_of(step: BrokerStep) -> DialogueErrorKind {
    match step {
        BrokerStep::Done(Err(error)) => {
            assert_eq!(error.provider, DialogueProviderKind::OpenAi);
            error.kind
        }
        other => panic!("expected an error, got {:?}", other),
    }
}

#[test]
fn fallback_response_includes_context() {
    let broker = fallback();
    let request = trade_request();
    let response = match broker.process(DialogueRequestId::new(7), &request) {
        BrokerStep::Done(Ok(response)) => response,
        other => panic!("fallback should succeed: {:?}", other),
    };
    assert!(response.content.contains("Summary"));
    assert!(response.content.contains("grain crate"));
    assert_eq!(response.provider, DialogueProviderKind::OpenAi);
}

#[test]
fn manual_retry_prompt_triggers_backoff() {
    let broker = fallback();
    let request = status_request("retry later");
    let error = match broker.process(DialogueRequestId::new(1), &request) {
        BrokerStep::Done(Err(error)) => error,
        other => panic!("retry prompt should error: {:?}", other),
    };
    assert!(matches!(error.kind, DialogueErrorKind::RateLimited { .. }));
}

#[test]
fn fallback_text_is_assembled_in_order() {
    let response = fallback().fabricate_response(DialogueRequestId::new(7), &trade_request());
    assert_eq!(response.request_id.value(), 7);
    assert_eq!(response.speaker, NpcId::new(1));
    assert_eq!(response.target, Some(NpcId::new(2)));
    assert_eq!(
        response.content,
        "Speaker: NPC-0001 Target: NPC-0002 Topic: trade Discuss the latest trade \
         Summary: Short summary \
         On day 3 they exchanged 2 grain crate with NPC-0002 after receiving it from NPC-0001."
    );
    assert_eq!(compose_context_segments(&trade_request()), response.content);
}

#[test]
fn live_message_is_assembled_in_order() {
    assert_eq!(
        build_user_message(&trade_request()),
        "Speaker: NPC-0001\nTarget: NPC-0002\nTopic: trade\nPrompt: Discuss the latest trade\n\
         Context summary: Short summary\n\
         Trade event: Day 3 exchanged 2 grain crate (from NPC-0001) (to NPC-0002)\n\
         Respond as the speaker, addressing the target naturally."
    );
}

#[test]
fn message_without_context_holds_the_fixed_line() {
    let request = status_request("  How are you?  ");
    assert_eq!(
        build_user_message(&request),
        "Speaker: NPC-0001\nTarget: player\nTopic: status\nPrompt: How are you?\n\
         No notable context available.\n\
         Respond as the speaker, addressing the target naturally."
    );
    assert_eq!(
        compose_context_segments(&request),
        "Speaker: NPC-0001 Target: player Topic: status How are you? \
         No notable context available."
    );
    let blank_summary = DialogueRequest::new(
        NpcId::new(1),
        None,
        "Hi",
        DialogueTopicHint::Status,
        DialogueContext {
            summary: Some(" \t ".to_string()),
            events: Vec::new(),
        },
    );
    assert!(build_user_message(&blank_summary).contains("No notable context available."));
    assert!(!build_user_message(&blank_summary).contains("Context summary"));
}

#[test]
fn events_are_rendered_one_per_line_in_their_order() {
    let request = DialogueRequest::new(
        NpcId::new(12),
        None,
        "Plan",
        DialogueTopicHint::Schedule,
        DialogueContext {
            summary: None,
            events: vec![
                DialogueContextEvent::ScheduleUpdate {
                    description: " Mill at dawn ".to_string(),
                },
                DialogueContextEvent::Trade(TradeContext {
                    day: 10,
                    from: None,
                    to: None,
                    descriptor: TradeDescriptor::new("tool crate", 0),
                    reason: TradeContextReason::Production,
                }),
                DialogueContextEvent::Trade(TradeContext {
                    day: 11,
                    from: None,
                    to: Some(NpcId::new(3)),
                    descriptor: TradeDescriptor::new("flour crate", 40),
                    reason: TradeContextReason::Processing,
                }),
            ],
        },
    );
    assert_eq!(
        build_user_message(&request),
        "Speaker: NPC-0012\nTarget: player\nTopic: schedule\nPrompt: Plan\n\
         Schedule update: Mill at dawn\n\
         Trade event: Day 10 produced 0 tool crate\n\
         Trade event: Day 11 processed 40 flour crate (to NPC-0003)\n\
         Respond as the speaker, addressing the target naturally."
    );
    assert_eq!(
        compose_context_segments(&request),
        "Speaker: NPC-0012 Target: player Topic: schedule Plan \
         Schedule update:  Mill at dawn . \
         On day 10 they produced 0 tool crate. \
         On day 11 they processed 40 flour crate with NPC-0003."
    );
}

#[test]
fn messages_open_with_the_system_prompt() {
    let messages = build_messages(&status_request("Hi"));
    assert_eq!(messages.len(), 2);
    assert_eq!(messages[0].role, "system");
    assert!(messages[0].content.starts_with("You are a medieval villager"));
    assert!(messages[0].content.ends_with("acknowledge the gap."));
    assert_eq!(messages[1].role, "user");
    assert_eq!(messages[1].content, build_user_message(&status_request("Hi")));
    assert_eq!(topic_label(DialogueTopicHint::Status), "status");
    assert_eq!(topic_label(DialogueTopicHint::Trade), "trade");
    assert_eq!(topic_label(DialogueTopicHint::Schedule), "schedule");
}

#[test]
fn blank_prompt_is_a_provider_failure() {
    for prompt in ["", "   ", "\t\n", "\u{3000}\u{a0}"] {
        match kind_of(fallback().process(DialogueRequestId::new(1), &status_request(prompt))) {
            DialogueErrorKind::ProviderFailure { message } => {
                assert_eq!(message, "prompt cannot be empty")
            }
            other => panic!("unexpected kind {:?}", other),
        }
        assert!(validate_request(&status_request(prompt)).is_err());
    }
    assert!(fallback().validate(&status_request("x")).is_ok());
}

#[test]
fn manual_retry_prompt_ignores_ascii_case_only() {
    for prompt in ["retry later", "RETRY LATER", "Retry Later"] {
        match kind_of(live().process(DialogueRequestId::new(1), &status_request(prompt))) {
            DialogueErrorKind::RateLimited { retry_after_millis } => {
                assert_eq!(retry_after_millis, 3000)
            }
            other => panic!("unexpected kind {:?}", other),
        }
    }
    for prompt in [" retry later", "retry later ", "retry  later", "retry later!"] {
        assert!(validate_request(&status_request(prompt)).is_ok());
    }
}

#[test]
fn trade_without_trade_event_misses_trade_history() {
    let request = DialogueRequest::new(
        NpcId::new(1),
        None,
        "Trade talk",
        DialogueTopicHint::Trade,
        DialogueContext {
            summary: Some("Stock is low".to_string()),
            events: vec![DialogueContextEvent::ScheduleUpdate {
                description: "Market day".to_string(),
            }],
        },
    );
    for broker in [fallback(), live()] {
        match kind_of(broker.process(DialogueRequestId::new(3), &request)) {
            DialogueErrorKind::ContextMissing { missing } => {
                assert_eq!(missing, DialogueContextSource::TradeHistory)
            }
            other => panic!("unexpected kind {:?}", other),
        }
    }
}

#[test]
fn trade_without_summary_misses_inventory_state() {
    for summary in [None, Some(String::new()), Some("  ".to_string())] {
        let mut request = trade_request();
        request.context.summary = summary;
        match kind_of(fallback().process(DialogueRequestId::new(3), &request)) {
            DialogueErrorKind::ContextMissing { missing } => {
                assert_eq!(missing, DialogueContextSource::InventoryState)
            }
            other => panic!("unexpected kind {:?}", other),
        }
    }
    assert!(validate_request(&trade_request()).is_ok());
}

#[test]
fn schedule_without_update_misses_schedule_state() {
    let mut request = trade_request();
    request.topic_hint = DialogueTopicHint::Schedule;
    match kind_of(fallback().process(DialogueRequestId::new(3), &request)) {
        DialogueErrorKind::ContextMissing { missing } => {
            assert_eq!(missing, DialogueContextSource::ScheduleState)
        }
        other => panic!("unexpected kind {:?}", other),
    }
    request.context.events.push(DialogueContextEvent::ScheduleUpdate {
        description: String::new(),
    });
    assert!(validate_request(&request).is_ok());
}

#[test]
fn live_broker_asks_for_a_call() {
    let mut env = env_with_key("  secret-key \n");
    env.base_url = Some(" https://example.test/api// ".to_string());
    env.model = Some("gpt-test".to_string());
    env.timeout_secs = Some("30".to_string());
    env.max_output_tokens = Some("64".to_string());
    env.temperature = Some("0.25".to_string());
    let config = OpenAiConfig::from_env(&env);
    assert!(OpenAiDialogueBroker::startup_warning(&config).is_none());
    let broker = OpenAiDialogueBroker::new(config);
    assert_eq!(broker.connection_state(), DialogueConnectionState::Live);
    assert_eq!(broker.provider_kind(), DialogueProviderKind::OpenAi);
    let request = status_request("Hello");
    let call = match broker.process(DialogueRequestId::new(1), &request) {
        BrokerStep::Send(call) => call,
        other => panic!("expected a call, got {:?}", other),
    };
    assert_eq!(call.url, "https://example.test/api/v1/chat/completions");
    assert_eq!(call.api_key, "secret-key");
    assert_eq!(call.timeout_secs, 30);
    assert_eq!(call.payload.model, "gpt-test");
    assert_eq!(call.payload.max_tokens, Some(64));
    assert_eq!(call.payload.temperature_thousandths, 250);
    assert_eq!(call.payload.messages.len(), 2);
    assert_eq!(call.payload.messages[1].content, build_user_message(&request));
}

#[test]
fn config_falls_back_to_its_defaults() {
    let config = OpenAiConfig::from_env(&env_with_key("k")).expect("key is present");
    assert_eq!(config.api_key, "k");
    assert_eq!(config.base_url, "https://api.openai.com");
    assert_eq!(config.model, "gpt-4o-mini");
    assert_eq!(config.max_output_tokens, 220);
    assert_eq!(config.temperature_thousandths, 700);
    assert_eq!(config.timeout_secs, 15);
    assert_eq!(config.chat_url(), "https://api.openai.com/v1/chat/completions");

    let mut env = env_with_key("k");
    env.timeout_secs = Some("0".to_string());
    env.max_output_tokens = Some("65536".to_string());
    env.temperature = Some("-0.5".to_string());
    let config = OpenAiConfig::from_env(&env).expect("key is present");
    assert_eq!(config.timeout_secs, 15);
    assert_eq!(config.max_output_tokens, 220);
    assert_eq!(config.temperature_thousandths, 700);

    let mut env = env_with_key("k");
    env.timeout_secs = Some(" 20".to_string());
    env.max_output_tokens = Some("+65535".to_string());
    env.temperature = Some("2".to_string());
    env.base_url = Some("///".to_string());
    let config = OpenAiConfig::from_env(&env).expect("key is present");
    assert_eq!(config.timeout_secs, 15);
    assert_eq!(config.max_output_tokens, 65535);
    assert_eq!(config.temperature_thousandths, 2000);
    assert_eq!(config.chat_url(), "/v1/chat/completions");

    let mut env = env_with_key("k");
    env.timeout_secs = Some("18446744073709551615".to_string());
    env.max_output_tokens = Some("abc".to_string());
    env.temperature = Some("warm".to_string());
    let config = OpenAiConfig::from_env(&env).expect("key is present");
    assert_eq!(config.timeout_secs, u64::MAX);
    assert_eq!(config.max_output_tokens, 220);
    assert_eq!(config.temperature_thousandths, 700);
    let mut env = env_with_key("k");
    env.timeout_secs = Some("18446744073709551616".to_string());
    assert_eq!(OpenAiConfig::from_env(&env).expect("key").timeout_secs, 15);
}

#[test]
fn missing_key_gives_the_fallback_broker() {
    for key in [None, Some(String::new()), Some("   ".to_string())] {
        let mut env = env_with_key("");
        env.api_key = key;
        let config = OpenAiConfig::from_env(&env);
        assert!(matches!(config, Err(OpenAiConfigError::MissingApiKey)));
        assert_eq!(
            OpenAiDialogueBroker::startup_warning(&config).as_deref(),
            Some("OPENAI_API_KEY not set; dialogue broker using local fallback responses.")
        );
        let broker = OpenAiDialogueBroker::new(config);
        assert_eq!(broker.connection_state(), DialogueConnectionState::Fallback);
    }
    let failed = Err(OpenAiConfigError::ClientBuild("no tls".to_string()));
    assert_eq!(
        OpenAiDialogueBroker::startup_warning(&failed).as_deref(),
        Some(
            "OpenAI broker running in fallback mode (client build failure: no tls). \
             Check HTTP client configuration."
        )
    );
    assert_eq!(
        OpenAiDialogueBroker::new(failed).connection_state(),
        DialogueConnectionState::Fallback
    );
    assert_eq!(OpenAiConfigError::MissingApiKey.describe(), "missing OPENAI_API_KEY");
    assert_eq!(
        OpenAiConfigError::ClientBuild("x".to_string()).describe(),
        "client build failure: x"
    );
}

#[test]
fn status_reports_the_broker() {
    let broker = fallback();
    let status = DialogueBrokerStatus::new(broker.provider_kind(), broker.connection_state());
    assert_eq!(status.provider(), DialogueProviderKind::OpenAi);
    assert_eq!(status.connection_state(), DialogueConnectionState::Fallback);
    assert_eq!(status.connection_label(), "fallback");
    assert_eq!(DialogueConnectionState::Live.label(), "live");
    let snapshot = status.to_snapshot();
    assert_eq!(snapshot.provider, "OpenAi");
    assert_eq!(snapshot.connection_state, DialogueConnectionState::Fallback);
}

fn answered(
    status: u16,
    retry_after: Option<&str>,
    error: Option<OpenAiErrorDetail>,
    completion: Result<Vec<Option<String>>, String>,
) -> ProviderReply {
    ProviderReply::Answered {
        status,
        retry_after: retry_after.map(|text| text.to_string()),
        error,
        completion,
    }
}

fn failure_message(reply: &ProviderReply) -> String {
    match classify_reply(DialogueRequestId::new(4), &status_request("Hi"), reply) {
        Err(DialogueErrorKind::ProviderFailure { message }) => message,
        other => panic!("expected a provider failure, got {:?}", other),
    }
}

fn backoff(reply: &ProviderReply) -> i64 {
    match classify_reply(DialogueRequestId::new(4), &status_request("Hi"), reply) {
        Err(DialogueErrorKind::RateLimited { retry_after_millis }) => retry_after_millis,
        other => panic!("expected a rate limit, got {:?}", other),
    }
}

#[test]
fn too_many_requests_is_a_rate_limit() {
    let undecoded = || Err("no body".to_string());
    assert_eq!(backoff(&answered(429, None, None, undecoded())), 10000);
    assert_eq!(backoff(&answered(429, Some("7"), None, undecoded())), 7000);
    assert_eq!(backoff(&answered(429, Some("2.5"), None, undecoded())), 2500);
    assert_eq!(backoff(&answered(429, Some("0.0429"), None, undecoded())), 42);
    assert_eq!(backoff(&answered(429, Some("+3."), None, undecoded())), 3000);
    assert_eq!(backoff(&answered(429, Some("-1.5"), None, undecoded())), -1500);
    assert_eq!(backoff(&answered(429, Some("soon"), None, undecoded())), 10000);
    assert_eq!(backoff(&answered(429, Some(" 7"), None, undecoded())), 10000);
    assert_eq!(backoff(&answered(429, Some(""), None, undecoded())), 10000);
    assert_eq!(backoff(&answered(429, Some(".5"), None, undecoded())), 10000);
    assert_eq!(
        backoff(&answered(429, Some("99999999999999999999"), None, undecoded())),
        i64::MAX
    );
    assert_eq!(
        backoff(&answered(429, Some("-99999999999999999999"), None, undecoded())),
        i64::MIN
    );
    assert_eq!(parse_retry_after(&Some("12.345678".to_string())), Some(12345));
    assert_eq!(parse_retry_after(&Some("1e3".to_string())), None);
    assert_eq!(parse_retry_after(&None), None);
    let detail = OpenAiErrorDetail {
        message: "slow down".to_string(),
        error_type: "rate".to_string(),
        code: None,
    };
    assert_eq!(backoff(&answered(429, Some("1"), Some(detail), undecoded())), 1000);
}

#[test]
fn failed_status_is_a_provider_failure() {
    let detail = OpenAiErrorDetail {
        message: "model overloaded".to_string(),
        error_type: "server_error".to_string(),
        code: Some("over\"loaded".to_string()),
    };
    assert_eq!(
        failure_message(&answered(500, None, Some(detail), Ok(vec![Some("x".to_string())]))),
        "model overloaded (type: server_error, code: Some(\"over\\\"loaded\"))"
    );
    let detail = OpenAiErrorDetail {
        message: "bad key".to_string(),
        error_type: "auth".to_string(),
        code: None,
    };
    assert_eq!(
        failure_message(&answered(401, None, Some(detail), Err("x".to_string()))),
        "bad key (type: auth, code: None)"
    );
    assert_eq!(
        failure_message(&answered(404, None, None, Err("x".to_string()))),
        "HTTP 404 Not Found from OpenAI"
    );
    assert_eq!(
        failure_message(&answered(503, Some("5"), None, Err("x".to_string()))),
        "HTTP 503 Service Unavailable from OpenAI"
    );
    assert_eq!(
        failure_message(&answered(199, None, None, Ok(vec![Some("x".to_string())]))),
        "HTTP 199 <unknown status code> from OpenAI"
    );
    assert_eq!(
        failure_message(&answered(300, None, None, Ok(vec![Some("x".to_string())]))),
        "HTTP 300 Multiple Choices from OpenAI"
    );
    assert_eq!(
        failure_message(&answered(42, None, None, Err("x".to_string()))),
        "HTTP 42 <unknown status code> from OpenAI"
    );
    assert_eq!(
        failure_message(&ProviderReply::Unreachable {
            message: "connection refused".to_string()
        }),
        "connection refused"
    );
}

#[test]
fn successful_status_gives_the_first_text() {
    let request = DialogueRequest::new(
        NpcId::new(6),
        Some(NpcId::new(8)),
        "Hi",
        DialogueTopicHint::Status,
        DialogueContext::default(),
    );
    let reply = answered(
        200,
        None,
        None,
        Ok(vec![None, Some("  Well met!\n".to_string()), Some("later".to_string())]),
    );
    let response = classify_reply(DialogueRequestId::new(4), &request, &reply)
        .expect("a text is present");
    assert_eq!(response.content, "Well met!");
    assert_eq!(response.request_id.value(), 4);
    assert_eq!(response.speaker, NpcId::new(6));
    assert_eq!(response.target, Some(NpcId::new(8)));
    assert_eq!(response.provider, DialogueProviderKind::OpenAi);

    let resolved = live()
        .resolve_reply(DialogueRequestId::new(4), &request, &reply)
        .expect("a text is present");
    assert_eq!(resolved.content, "Well met!");
    let failed = live()
        .resolve_reply(
            DialogueRequestId::new(4),
            &request,
            &answered(299, None, None, Ok(Vec::new())),
        )
        .expect_err("no text is present");
    assert_eq!(failed.request_id.value(), 4);
    assert_eq!(failed.provider, DialogueProviderKind::OpenAi);

    let empty = "OpenAI returned an empty completion for dialogue request";
    assert_eq!(failure_message(&answered(200, None, None, Ok(Vec::new()))), empty);
    assert_eq!(failure_message(&answered(200, None, None, Ok(vec![None, None]))), empty);
    assert_eq!(
        failure_message(&answered(
            201,
            None,
            None,
            Ok(vec![Some(" \n".to_string()), Some("text".to_string())])
        )),
        empty
    );
    assert_eq!(
        failure_message(&answered(200, None, None, Err("expected value at line 1".to_string()))),
        "expected value at line 1"
    );
}
