use dialogue_dispatch::broker::openai::BrokerStep;
use dialogue_dispatch::broker::{DialogueBroker, DialogueProviderKind, OpenAiDialogueBroker};
use dialogue_dispatch::broker::config::OpenAiConfigError;
use dialogue_dispatch::errors::{DialogueContextSource, DialogueError, DialogueErrorKind};
use dialogue_dispatch::events::{DialogueRequestFailedEvent, DialogueResponseEvent};
use dialogue_dispatch::queue::{
    DialogueRateLimitConfig, DialogueRateLimitState, DialogueRequestQueue,
};
use dialogue_dispatch::types::{
    DialogueContext, DialogueContextEvent, DialogueRequest, DialogueRequestId, DialogueResponse,
    DialogueTopicHint, NpcId, TradeContext, TradeContextReason, TradeDescriptor,
};

#[test]
fn dialogue_types_cover_all_variants() {
    let speaker = NpcId::new(1);
    let target = Some(NpcId::new(2));

    let descriptor = TradeDescriptor::new("grain crate", 3);
    assert_eq!(descriptor.label, "grain crate");
    assert_eq!(descriptor.quantity, 3);

    let trade_context = TradeContext {
        day: 12,
        from: Some(speaker),
        to: target,
        descriptor: descriptor.clone(),
        reason: TradeContextReason::Production,
    };

    let events = vec![
        DialogueContextEvent::Trade(trade_context.clone()),
        DialogueContextEvent::ScheduleUpdate {
            description: "Updated chores".to_string(),
        },
    ];

    let mut context = DialogueContext::with_events(events);
    context.summary = Some("Busy day".to_string());
    assert_eq!(context.summary.as_deref(), Some("Busy day"));
    assert_eq!(context.events.len(), 2);

    let request = DialogueRequest::new(
        speaker,
        target,
        "Status report",
        DialogueTopicHint::Schedule,
        context.clone(),
    );
    assert!(matches!(request.topic_hint, DialogueTopicHint::Schedule));

    if let DialogueContextEvent::Trade(trade) = &context.events[0] {
        assert_eq!(trade.day, 12);
        assert_eq!(trade.descriptor.label, "grain crate");
        assert_eq!(trade.reason, TradeContextReason::Production);
        assert_eq!(trade.to, target);
    } else {
        panic!("expected trade event");
    }

    if let DialogueContextEvent::ScheduleUpdate { description } = &context.events[1] {
        assert!(description.contains("Updated"));
    } else {
        panic!("expected schedule update");
    }

    let request_id = DialogueRequestId::new(42);
    assert_eq!(request_id.value(), 42);

    let response = DialogueResponse::new(
        request_id,
        DialogueProviderKind::OpenAi,
        speaker,
        target,
        "All good",
    );
    assert_eq!(response.provider, DialogueProviderKind::OpenAi);
    assert_eq!(response.content, "All good");
    assert_eq!(response.target, target);
}

#[test]
fn constructs_error_variants() {
    let rate_limited = DialogueErrorKind::rate_limited(2500);
    match rate_limited {
        DialogueErrorKind::RateLimited { retry_after_millis } => {
            assert_eq!(retry_after_millis, 2500)
        }
        _ => panic!("expected rate limited variant"),
    }

    let provider_failure = DialogueErrorKind::provider_failure("unreachable");
    assert!(matches!(
        provider_failure,
        DialogueErrorKind::ProviderFailure { .. }
    ));

    let missing_schedule = DialogueErrorKind::context_missing(DialogueContextSource::ScheduleState);
    let missing_inventory =
        DialogueErrorKind::context_missing(DialogueContextSource::InventoryState);

    for missing in [&missing_schedule, &missing_inventory] {
        if let DialogueErrorKind::ContextMissing { missing } = missing {
            assert!(missing.label().contains("state") || missing.label().contains("history"));
        } else {
            panic!("expected context missing variant");
        }
    }

    let request_id = DialogueRequestId::new(7);
    assert_eq!(request_id.value(), 7);

    let error = DialogueError::new(
        request_id,
        DialogueProviderKind::OpenAi,
        provider_failure.clone(),
    );
    assert!(error.describe().contains("OpenAi"));
    assert_eq!(
        format!("{}", error.kind.describe()),
        format!("{}", provider_failure.describe())
    );
}

#[test]
fn wraps_dialogue_payloads() {
    let speaker = NpcId::new(3);
    let request_id = DialogueRequestId::new(11);
    let response = DialogueResponse::new(
        request_id,
        DialogueProviderKind::OpenAi,
        speaker,
        None,
        "Hello there",
    );

    let response_event = DialogueResponseEvent { response };
    assert_eq!(response_event.response.content, "Hello there");
    assert_eq!(response_event.response.request_id.value(), 11);

    let error = DialogueError::new(
        request_id,
        DialogueProviderKind::OpenAi,
        DialogueErrorKind::provider_failure("boom"),
    );
    let failure_event = DialogueRequestFailedEvent { error };
    assert!(matches!(
        failure_event.error.kind,
        DialogueErrorKind::ProviderFailure { .. }
    ));
    assert_eq!(failure_event.error.request_id.value(), 11);
}

#[test]
fn reexports_are_usable() {
    let mut queue = DialogueRequestQueue::default();
    let request = DialogueRequest::new(
        NpcId::new(1),
        None,
        "hello world",
        DialogueTopicHint::Status,
        DialogueContext::default(),
    );
    let request_id = queue.enqueue(request);
    assert_eq!(request_id.value(), 0);
    assert!(queue.front_ready());

    let broker = OpenAiDialogueBroker::new(Err(OpenAiConfigError::MissingApiKey));
    let step = broker.process(
        request_id,
        &DialogueRequest::new(
            NpcId::new(1),
            Some(NpcId::new(2)),
            "How's the market?",
            DialogueTopicHint::Status,
            DialogueContext::default(),
        ),
    );
    let response = match step {
        BrokerStep::Done(Ok(response)) => response,
        other => panic!("stub broker should fabricate a response: {:?}", other),
    };
    assert_eq!(response.provider, DialogueProviderKind::OpenAi);

    let error = DialogueError::new(
        request_id,
        DialogueProviderKind::OpenAi,
        DialogueErrorKind::provider_failure("not yet implemented"),
    );

    let _failure_event = DialogueRequestFailedEvent {
        error: error.clone(),
    };
    let _response_event = DialogueResponseEvent {
        response: response.clone(),
    };

    let mut limits = DialogueRateLimitState::default();
    limits.record_success(NpcId::new(1), &DialogueRateLimitConfig::default());
    assert!(!limits.can_process(NpcId::new(1)));

    let trade_descriptor = TradeDescriptor::new("grain", 5);
    let trade_context = TradeContext {
        day: 1,
        from: Some(NpcId::new(1)),
        to: Some(NpcId::new(2)),
        descriptor: trade_descriptor,
        reason: TradeContextReason::Exchange,
    };
    let context_event = DialogueContextEvent::Trade(trade_context);
    assert!(matches!(context_event, DialogueContextEvent::Trade(_)));
}

#[test]
fn npc_label_pads_to_four_digits() {
    assert_eq!(NpcId::new(0).label(), "NPC-0000");
    assert_eq!(NpcId::new(7).label(), "NPC-0007");
    assert_eq!(NpcId::new(42).label(), "NPC-0042");
    assert_eq!(NpcId::new(9999).label(), "NPC-9999");
    assert_eq!(NpcId::new(10000).label(), "NPC-10000");
    assert_eq!(NpcId::new(u64::MAX).label(), format!("NPC-{:04}", u64::MAX));
    assert_eq!(NpcId::new(5).value(), 5);
}

#[test]
fn errors_describe_themselves() {
    assert_eq!(
        DialogueErrorKind::rate_limited(2500).describe(),
        format!("Rate limited. Retry after {:.2}s", 2.5f32)
    );
    assert_eq!(
        DialogueErrorKind::rate_limited(2500).describe(),
        "Rate limited. Retry after 2.50s"
    );
    assert_eq!(
        DialogueErrorKind::rate_limited(3000).describe(),
        format!("Rate limited. Retry after {:.2}s", 3.0f32)
    );
    assert_eq!(
        DialogueErrorKind::rate_limited(-20).describe(),
        "Rate limited. Retry after -0.02s"
    );
    assert_eq!(
        DialogueErrorKind::rate_limited(-4).describe(),
        format!("Rate limited. Retry after {:.2}s", -0.004f32)
    );
    assert_eq!(
        DialogueErrorKind::provider_failure("boom").describe(),
        "Provider failure: boom"
    );
    assert_eq!(
        DialogueErrorKind::context_missing(DialogueContextSource::TradeHistory).describe(),
        "Missing context: trade history"
    );
    assert_eq!(DialogueContextSource::ScheduleState.label(), "schedule state");
    assert_eq!(DialogueContextSource::InventoryState.label(), "inventory state");
    let error = DialogueError::new(
        DialogueRequestId::new(7),
        DialogueProviderKind::OpenAi,
        DialogueErrorKind::provider_failure("boom"),
    );
    assert_eq!(
        error.describe(),
        "Dialogue error (OpenAi - request 7): Provider failure: boom"
    );
    assert_eq!(DialogueProviderKind::OpenAi.label(), "OpenAi");
}

#[test]
fn clones_keep_every_field() {
    let context = DialogueContext {
        summary: Some("Busy day".to_string()),
        events: vec![
            DialogueContextEvent::Trade(TradeContext {
                day: 3,
                from: None,
                to: Some(NpcId::new(2)),
                descriptor: TradeDescriptor::new("flour crate", 9),
                reason: TradeContextReason::Processing,
            }),
            DialogueContextEvent::ScheduleUpdate {
                description: "Mill at dawn".to_string(),
            },
        ],
    };
    let request = DialogueRequest::new(
        NpcId::new(4),
        Some(NpcId::new(2)),
        "Report",
        DialogueTopicHint::Trade,
        context,
    );
    let copy = request.clone();
    assert_eq!(format!("{:?}", copy), format!("{:?}", request));
    assert_eq!(DialogueTopicHint::default(), DialogueTopicHint::Status);
}
