use dialogue_dispatch::broker::config::{OpenAiConfig, OpenAiConfigError, OpenAiEnv};
use dialogue_dispatch::broker::openai::BrokerStep;
use dialogue_dispatch::broker::{DialogueBroker, DialogueProviderKind, OpenAiDialogueBroker};
use dialogue_dispatch::errors::{DialogueContextSource, DialogueError, DialogueErrorKind};
use dialogue_dispatch::queue::{
    advance_dialogue_queue_timers, poll_dialogue_tasks, resolve_dialogue_task,
    run_dialogue_request_queue, ActiveDialogueBroker, DialogueNotification,
    DialogueRateLimitConfig, DialogueRateLimitState, DialogueRequestQueue, DialogueTaskResult,
    QueuedDialogueRequest,
};
use dialogue_dispatch::types::{
    DialogueContext, DialogueRequest, DialogueRequestId, DialogueResponse, DialogueTopicHint,
    NpcId,
};

fn request(speaker: u64, prompt: &str) -> DialogueRequest {
    DialogueRequest::new(
        NpcId::new(speaker),
        None,
        prompt,
        DialogueTopicHint::Status,
        DialogueContext::default(),
    )
}

fn fallback_broker() -> ActiveDialogueBroker {
    ActiveDialogueBroker::new(OpenAiDialogueBroker::new(Err(OpenAiConfigError::MissingApiKey)))
}

fn run_task(broker: &ActiveDialogueBroker, queued: QueuedDialogueRequest) -> DialogueTaskResult {
    let result = match broker.process(queued.id, &queued.request) {
        BrokerStep::Done(result) => result,
        BrokerStep::Send(call) => panic!("fallback broker asked for a call: {:?}", call),
    };
    DialogueTaskResult {
        id: queued.id,
        request: queued.request,
        result,
        attempts: queued.attempts,
    }
}

#[test]
fn empty_prompt_fails_for_good_after_the_retries() {
    let config = DialogueRateLimitConfig {
        global_cooldown_millis: 0,
        per_npc_cooldown_millis: 0,
        max_retries: 2,
        retry_backoff_millis: 100,
    };
    let broker = fallback_broker();
    let mut queue = DialogueRequestQueue::default();
    let mut limits = DialogueRateLimitState::default();
    let id = queue.enqueue(request(1, "   "));

    let mut failures = Vec::new();
    let mut attempts_seen = Vec::new();
    for _ in 0..50 {
        advance_dialogue_queue_timers(100, &mut queue, &mut limits);
        let Some(queued) = run_dialogue_request_queue(&mut queue, &limits) else {
            continue;
        };
        assert!(queue.is_empty(), "a dispatched request is not queued");
        attempts_seen.push(queued.attempts);
        let task = run_task(&broker, queued);
        match &task.result {
            Err(error) => match &error.kind {
                DialogueErrorKind::ProviderFailure { message } => {
                    assert_eq!(message, "prompt cannot be empty")
                }
                other => panic!("unexpected kind {:?}", other),
            },
            Ok(response) => panic!("unexpected response {:?}", response),
        }
        for notification in poll_dialogue_tasks(vec![task], &mut queue, &mut limits, &config) {
            match notification {
                DialogueNotification::Failed(event) => failures.push(event.error),
                DialogueNotification::Response(event) => {
                    panic!("unexpected response {:?}", event)
                }
            }
        }
    }
    assert_eq!(attempts_seen, vec![0, 1, 2]);
    assert_eq!(failures.len(), 1);
    assert_eq!(failures[0].request_id, id);
    assert_eq!(failures[0].provider, DialogueProviderKind::OpenAi);
    assert!(queue.is_empty());
}

#[test]
fn global_cooldown_withholds_the_second_speaker() {
    let config = DialogueRateLimitConfig {
        global_cooldown_millis: 1000,
        per_npc_cooldown_millis: 0,
        max_retries: 2,
        retry_backoff_millis: 5000,
    };
    let broker = fallback_broker();
    let mut queue = DialogueRequestQueue::default();
    let mut limits = DialogueRateLimitState::default();
    queue.enqueue(request(1, "Good morning"));
    queue.enqueue(request(2, "Good evening"));

    let first = run_dialogue_request_queue(&mut queue, &limits).expect("first dispatches at once");
    assert_eq!(first.id.value(), 0);
    let task = run_task(&broker, first);
    let raised = poll_dialogue_tasks(vec![task], &mut queue, &mut limits, &config);
    assert_eq!(raised.len(), 1);
    assert!(matches!(raised[0], DialogueNotification::Response(_)));

    assert!(queue.front_ready());
    assert!(run_dialogue_request_queue(&mut queue, &limits).is_none());
    advance_dialogue_queue_timers(400, &mut queue, &mut limits);
    assert!(run_dialogue_request_queue(&mut queue, &limits).is_none());
    advance_dialogue_queue_timers(599, &mut queue, &mut limits);
    assert!(run_dialogue_request_queue(&mut queue, &limits).is_none());
    assert_eq!(queue.len(), 1);
    advance_dialogue_queue_timers(1, &mut queue, &mut limits);
    let second = run_dialogue_request_queue(&mut queue, &limits).expect("second dispatches now");
    assert_eq!(second.id.value(), 1);
    assert_eq!(second.request.speaker, NpcId::new(2));
    assert!(queue.is_empty());
}

#[test]
fn manual_retry_prompt_is_requeued_not_dropped() {
    let config = DialogueRateLimitConfig::default();
    let broker = fallback_broker();
    let mut queue = DialogueRequestQueue::default();
    let mut limits = DialogueRateLimitState::default();
    let id = queue.enqueue(request(1, "Retry Later"));
    let queued = run_dialogue_request_queue(&mut queue, &limits).expect("ready at once");
    let task = run_task(&broker, queued);
    match &task.result {
        Err(error) => match error.kind {
            DialogueErrorKind::RateLimited { retry_after_millis } => {
                assert_eq!(retry_after_millis, 3000)
            }
            _ => panic!("expected a rate limit"),
        },
        Ok(_) => panic!("expected a rate limit"),
    }
    let raised = poll_dialogue_tasks(vec![task], &mut queue, &mut limits, &config);
    assert!(raised.is_empty());
    assert_eq!(queue.len(), 1);
    assert_eq!(limits.global_remaining, 3000);
    assert_eq!(limits.npc_remaining[&1], 3000);
    assert!(!queue.front_ready());

    advance_dialogue_queue_timers(4999, &mut queue, &mut limits);
    assert!(!queue.front_ready());
    advance_dialogue_queue_timers(1, &mut queue, &mut limits);
    assert!(queue.front_ready());
    let again = run_dialogue_request_queue(&mut queue, &limits).expect("ready after the backoff");
    assert_eq!(again.id, id);
    assert_eq!(again.attempts, 1);
    assert_eq!(again.request.prompt, "Retry Later");
}

#[test]
fn provider_failure_backs_off_by_the_configured_time() {
    let config = DialogueRateLimitConfig {
        global_cooldown_millis: 10,
        per_npc_cooldown_millis: 20,
        max_retries: 1,
        retry_backoff_millis: 700,
    };
    let mut queue = DialogueRequestQueue::default();
    let mut limits = DialogueRateLimitState::default();
    let error = DialogueError::new(
        DialogueRequestId::new(5),
        DialogueProviderKind::OpenAi,
        DialogueErrorKind::context_missing(DialogueContextSource::ScheduleState),
    );
    let task = DialogueTaskResult {
        id: DialogueRequestId::new(5),
        request: request(3, "plan"),
        result: Err(error),
        attempts: 0,
    };
    assert!(resolve_dialogue_task(task, &mut queue, &mut limits, &config).is_none());
    assert_eq!(limits.global_remaining, 700);
    assert_eq!(limits.npc_remaining[&3], 700);
    assert_eq!(queue.len(), 1);

    let error = DialogueError::new(
        DialogueRequestId::new(5),
        DialogueProviderKind::OpenAi,
        DialogueErrorKind::rate_limited(-40),
    );
    let task = DialogueTaskResult {
        id: DialogueRequestId::new(5),
        request: request(3, "plan"),
        result: Err(error),
        attempts: 1,
    };
    let raised = resolve_dialogue_task(task, &mut queue, &mut limits, &config);
    match raised {
        Some(DialogueNotification::Failed(event)) => {
            assert_eq!(event.error.request_id.value(), 5);
            assert!(matches!(
                event.error.kind,
                DialogueErrorKind::RateLimited {
                    retry_after_millis: -40
                }
            ));
        }
        other => panic!("expected a failure, got {:?}", other),
    }
    assert_eq!(limits.global_remaining, 700);
    assert_eq!(queue.len(), 1);
}

#[test]
fn largest_retry_count_still_ends_in_a_failure() {
    let config = DialogueRateLimitConfig {
        global_cooldown_millis: 0,
        per_npc_cooldown_millis: 0,
        max_retries: 255,
        retry_backoff_millis: 0,
    };
    let ready = DialogueRateLimitState::default();
    let mut queue = DialogueRequestQueue::default();
    let mut limits = DialogueRateLimitState::default();
    let failed = |attempts: u8| DialogueTaskResult {
        id: DialogueRequestId::new(1),
        request: request(1, "x"),
        result: Err(DialogueError::new(
            DialogueRequestId::new(1),
            DialogueProviderKind::OpenAi,
            DialogueErrorKind::provider_failure("boom"),
        )),
        attempts,
    };

    assert!(resolve_dialogue_task(failed(254), &mut queue, &mut limits, &config).is_none());
    let entry = queue.take_ready(&ready).expect("requeued and ready");
    assert_eq!(entry.attempts, 255);
    assert!(queue.is_empty());

    match resolve_dialogue_task(failed(255), &mut queue, &mut limits, &config) {
        Some(DialogueNotification::Failed(event)) => {
            assert_eq!(event.error.request_id.value(), 1);
            assert!(matches!(
                event.error.kind,
                DialogueErrorKind::ProviderFailure { ref message } if message == "boom"
            ));
        }
        other => panic!("expected a failure, got {:?}", other),
    }
    assert!(queue.is_empty());
}

#[test]
fn every_retry_limit_ends_after_one_more_failure_than_retries() {
    for max_retries in [0u8, 1, 2, 7, 254, 255] {
        let config = DialogueRateLimitConfig {
            global_cooldown_millis: 0,
            per_npc_cooldown_millis: 0,
            max_retries,
            retry_backoff_millis: 0,
        };
        let broker = fallback_broker();
        let mut queue = DialogueRequestQueue::default();
        let mut limits = DialogueRateLimitState::default();
        queue.enqueue(request(1, ""));
        let mut failures = 0u32;
        let mut raised = Vec::new();
        while raised.is_empty() {
            assert!(failures <= u32::from(max_retries), "retried without end");
            advance_dialogue_queue_timers(1, &mut queue, &mut limits);
            let queued = run_dialogue_request_queue(&mut queue, &limits).expect("ready");
            assert_eq!(u32::from(queued.attempts), failures);
            let task = run_task(&broker, queued);
            failures += 1;
            raised = poll_dialogue_tasks(vec![task], &mut queue, &mut limits, &config);
        }
        assert_eq!(failures, u32::from(max_retries) + 1);
        assert_eq!(raised.len(), 1);
        match &raised[0] {
            DialogueNotification::Failed(event) => assert!(matches!(
                event.error.kind,
                DialogueErrorKind::ProviderFailure { ref message }
                    if message == "prompt cannot be empty"
            )),
            other => panic!("expected a failure, got {:?}", other),
        }
        assert!(queue.is_empty());
    }
}

#[test]
fn success_is_reported_and_starts_the_cooldowns() {
    let config = DialogueRateLimitConfig::default();
    let mut queue = DialogueRequestQueue::default();
    let mut limits = DialogueRateLimitState::default();
    let response = DialogueResponse::new(
        DialogueRequestId::new(9),
        DialogueProviderKind::OpenAi,
        NpcId::new(4),
        None,
        "Fine weather",
    );
    let failed = DialogueTaskResult {
        id: DialogueRequestId::new(8),
        request: request(5, "x"),
        result: Err(DialogueError::new(
            DialogueRequestId::new(8),
            DialogueProviderKind::OpenAi,
            DialogueErrorKind::provider_failure("boom"),
        )),
        attempts: 2,
    };
    let succeeded = DialogueTaskResult {
        id: DialogueRequestId::new(9),
        request: request(4, "weather?"),
        result: Ok(response),
        attempts: 0,
    };
    let raised = poll_dialogue_tasks(vec![failed, succeeded], &mut queue, &mut limits, &config);
    assert_eq!(raised.len(), 2);
    match &raised[0] {
        DialogueNotification::Failed(event) => assert_eq!(event.error.request_id.value(), 8),
        other => panic!("expected the failure first, got {:?}", other),
    }
    match &raised[1] {
        DialogueNotification::Response(event) => {
            assert_eq!(event.response.content, "Fine weather")
        }
        other => panic!("expected the response second, got {:?}", other),
    }
    assert!(queue.is_empty());
    assert_eq!(limits.global_remaining, 1500);
    assert_eq!(limits.npc_remaining[&4], 8000);
    assert_eq!(limits.npc_remaining[&5], 5000);
    assert!(poll_dialogue_tasks(Vec::new(), &mut queue, &mut limits, &config).is_empty());
}

#[test]
fn shared_broker_handles_answer_alike() {
    let broker = fallback_broker();
    let shared = broker.clone();
    let ask = request(1, "Hello");
    let first = format!("{:?}", broker.process(DialogueRequestId::new(1), &ask));
    let second = format!("{:?}", shared.process(DialogueRequestId::new(1), &ask));
    assert_eq!(first, second);

    let env = OpenAiEnv {
        api_key: Some("key".to_string()),
        base_url: None,
        model: None,
        timeout_secs: None,
        max_output_tokens: None,
        temperature: None,
    };
    let live = OpenAiDialogueBroker::new(OpenAiConfig::from_env(&env));
    assert!(matches!(
        live.process(DialogueRequestId::new(1), &ask),
        BrokerStep::Send(_)
    ));
}
