use dialogue_dispatch::queue::{
    advance_dialogue_queue_timers, DialogueRateLimitConfig, DialogueRateLimitState,
    DialogueRequestQueue,
};
use dialogue_dispatch::types::{DialogueContext, DialogueRequest, DialogueTopicHint, NpcId};

fn request(speaker: u64, prompt: &str) -> DialogueRequest {
    DialogueRequest::new(
        NpcId::new(speaker),
        None,
        prompt,
        DialogueTopicHint::Status,
        DialogueContext::default(),
    )
}

#[test]
fn default_config_holds_the_documented_values() {
    let config = DialogueRateLimitConfig::default();
    assert_eq!(config.global_cooldown_millis, 1500);
    assert_eq!(config.per_npc_cooldown_millis, 8000);
    assert_eq!(config.max_retries, 2);
    assert_eq!(config.retry_backoff_millis, 5000);
}

#[test]
fn unknown_speaker_may_be_processed() {
    let limits = DialogueRateLimitState::default();
    assert!(limits.can_process(NpcId::new(99)));
    assert_eq!(limits.global_remaining, 0);
    assert!(limits.npc_remaining.is_empty());
}

#[test]
fn tick_floors_every_cooldown_at_zero() {
    let mut limits = DialogueRateLimitState::default();
    limits.record_success(NpcId::new(1), &DialogueRateLimitConfig::default());
    limits.apply_backoff(NpcId::new(2), 300);
    limits.tick(1000);
    assert_eq!(limits.global_remaining, 500);
    assert_eq!(limits.npc_remaining[&1], 7000);
    assert_eq!(limits.npc_remaining[&2], 0);
    limits.tick(600);
    assert_eq!(limits.global_remaining, 0);
    assert_eq!(limits.npc_remaining[&1], 6400);
    limits.tick(i64::MAX);
    assert_eq!(limits.global_remaining, 0);
    assert_eq!(limits.npc_remaining[&1], 0);
    assert_eq!(limits.npc_remaining[&2], 0);
    assert!(limits.can_process(NpcId::new(1)));
}

#[test]
fn negative_delta_counts_as_zero() {
    let mut limits = DialogueRateLimitState::default();
    limits.apply_backoff(NpcId::new(1), 400);
    limits.tick(-250);
    assert_eq!(limits.global_remaining, 400);
    assert_eq!(limits.npc_remaining[&1], 400);
    limits.tick(i64::MIN);
    assert_eq!(limits.global_remaining, 400);

    let mut queue = DialogueRequestQueue::default();
    queue.enqueue_with_cooldown(request(1, "hi"), 700);
    queue.tick(-1);
    assert!(!queue.front_ready());
    advance_dialogue_queue_timers(-5, &mut queue, &mut limits);
    assert!(!queue.front_ready());
    assert_eq!(limits.global_remaining, 400);
}

#[test]
fn success_blocks_speaker_until_cooldown_has_elapsed() {
    let config = DialogueRateLimitConfig::default();
    let speaker = NpcId::new(1);
    let mut limits = DialogueRateLimitState::default();
    limits.record_success(speaker, &config);
    assert!(!limits.can_process(speaker));
    assert!(!limits.can_process(NpcId::new(2)));
    limits.tick(1500);
    assert!(limits.can_process(NpcId::new(2)));
    assert!(!limits.can_process(speaker));
    limits.tick(6499);
    assert!(!limits.can_process(speaker));
    limits.tick(1);
    assert!(limits.can_process(speaker));
}

#[test]
fn success_overwrites_a_longer_cooldown() {
    let config = DialogueRateLimitConfig::default();
    let speaker = NpcId::new(1);
    let mut limits = DialogueRateLimitState::default();
    limits.apply_backoff(speaker, 60000);
    limits.record_success(speaker, &config);
    assert_eq!(limits.global_remaining, 1500);
    assert_eq!(limits.npc_remaining[&1], 8000);
}

#[test]
fn success_with_negative_constants_starts_no_cooldown() {
    let config = DialogueRateLimitConfig {
        global_cooldown_millis: -5,
        per_npc_cooldown_millis: -1,
        max_retries: 0,
        retry_backoff_millis: 0,
    };
    let mut limits = DialogueRateLimitState::default();
    limits.record_success(NpcId::new(1), &config);
    assert_eq!(limits.global_remaining, 0);
    assert_eq!(limits.npc_remaining[&1], 0);
    assert!(limits.can_process(NpcId::new(1)));
}

#[test]
fn backoff_never_lowers_a_cooldown() {
    let speaker = NpcId::new(1);
    let mut limits = DialogueRateLimitState::default();
    limits.apply_backoff(speaker, 5000);
    assert_eq!(limits.global_remaining, 5000);
    assert_eq!(limits.npc_remaining[&1], 5000);
    limits.apply_backoff(speaker, 3000);
    assert_eq!(limits.global_remaining, 5000);
    assert_eq!(limits.npc_remaining[&1], 5000);
    limits.apply_backoff(speaker, 9000);
    assert_eq!(limits.global_remaining, 9000);
    assert_eq!(limits.npc_remaining[&1], 9000);
    limits.apply_backoff(speaker, -100);
    assert_eq!(limits.global_remaining, 9000);
    assert_eq!(limits.npc_remaining[&1], 9000);
    limits.apply_backoff(NpcId::new(2), 100);
    assert_eq!(limits.global_remaining, 9000);
    assert_eq!(limits.npc_remaining[&2], 100);
    assert_eq!(limits.npc_remaining[&1], 9000);
}

#[test]
fn fresh_queue_issues_ids_from_zero() {
    let mut queue = DialogueRequestQueue::default();
    for expected in 0..20u64 {
        let id = if expected % 2 == 0 {
            queue.enqueue(request(expected, "hi"))
        } else {
            queue.enqueue_with_cooldown(request(expected, "hi"), 10)
        };
        assert_eq!(id.value(), expected);
    }
    assert_eq!(queue.len(), 20);
}

#[test]
fn queue_ticks_entries_behind_the_head() {
    let limits = DialogueRateLimitState::default();
    let mut queue = DialogueRequestQueue::default();
    queue.enqueue_with_cooldown(request(1, "first"), 1000);
    queue.enqueue_with_cooldown(request(2, "second"), 400);
    assert!(!queue.front_ready());
    assert!(queue.take_ready(&limits).is_none());
    queue.tick(999);
    assert!(!queue.front_ready());
    queue.tick(1);
    assert!(queue.front_ready());
    let first = queue.take_ready(&limits).expect("head is ready");
    assert_eq!(first.id.value(), 0);
    assert_eq!(first.request.prompt, "first");
    assert_eq!(first.attempts, 0);
    assert_eq!(first.cooldown_remaining, 0);
    assert!(queue.front_ready());
    let second = queue.take_ready(&limits).expect("second became ready behind the head");
    assert_eq!(second.id.value(), 1);
    assert!(queue.is_empty());
    assert!(!queue.front_ready());
    assert!(queue.take_ready(&limits).is_none());
}

#[test]
fn negative_cooldown_is_enqueued_as_zero() {
    let mut queue = DialogueRequestQueue::default();
    queue.enqueue_with_cooldown(request(1, "now"), -500);
    assert!(queue.front_ready());
}
