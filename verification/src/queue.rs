//! The request queue, the rate limiter and the dispatch rules that connect them.
use std::collections::HashMap;
use std::collections::VecDeque;
use std::sync::Arc;
use vstd::prelude::*;
use vstd::std_specs::iter::IteratorSpec;

use crate::broker::openai::{
    resolution_for, step_for, BrokerModeView, BrokerStep, DialogueBroker, OpenAiDialogueBroker,
    ProviderReply,
};
use crate::errors::{DialogueError, DialogueErrorKindView, DialogueErrorView};
use crate::events::{DialogueRequestFailedEvent, DialogueResponseEvent};
use crate::types::{
    DialogueRequest, DialogueRequestId, DialogueRequestView, DialogueResponse,
    DialogueResponseView, NpcId,
};

verus! {

pub const DEFAULT_GLOBAL_COOLDOWN_MILLIS: i64 = 1500;

pub const DEFAULT_PER_NPC_COOLDOWN_MILLIS: i64 = 8000;

pub const DEFAULT_MAX_RETRIES: u8 = 2;

pub const DEFAULT_RETRY_BACKOFF_MILLIS: i64 = 5000;

/// Rate limit settings of the dialogue queue.
#[derive(Debug, Clone, Copy)]
pub struct DialogueRateLimitConfig {
    pub global_cooldown_millis: i64,
    pub per_npc_cooldown_millis: i64,
    pub max_retries: u8,
    pub retry_backoff_millis: i64,
}

impl Default for DialogueRateLimitConfig {
    fn default() -> (config: Self)
        ensures
            config.global_cooldown_millis == DEFAULT_GLOBAL_COOLDOWN_MILLIS,
            config.per_npc_cooldown_millis == DEFAULT_PER_NPC_COOLDOWN_MILLIS,
            config.max_retries == DEFAULT_MAX_RETRIES,
            config.retry_backoff_millis == DEFAULT_RETRY_BACKOFF_MILLIS,
    {
        Self {
            global_cooldown_millis: DEFAULT_GLOBAL_COOLDOWN_MILLIS,
            per_npc_cooldown_millis: DEFAULT_PER_NPC_COOLDOWN_MILLIS,
            max_retries: DEFAULT_MAX_RETRIES,
            retry_backoff_millis: DEFAULT_RETRY_BACKOFF_MILLIS,
        }
    }
}

/// `millis`, or zero where it is negative.
pub open spec fn non_negative(millis: i64) -> i64 {
    if millis < 0 {
        0
    } else {
        millis
    }
}

/// The larger of two durations.
pub open spec fn longer(a: i64, b: i64) -> i64 {
    if a >= b {
        a
    } else {
        b
    }
}

/// What is left of a cooldown after `delta` has elapsed: a running cooldown
/// loses `delta` (a negative `delta` counts as zero) and stops at zero.
pub open spec fn cooled(remaining: i64, delta: i64) -> i64 {
    if remaining > 0 {
        let left = remaining - non_negative(delta);
        if left < 0 {
            0
        } else {
            left as i64
        }
    } else {
        remaining
    }
}

/// `millis`, or zero where it is negative.
pub fn clamp_non_negative(millis: i64) -> (clamped: i64)
    ensures
        clamped == non_negative(millis),
{
    if millis < 0 {
        0
    } else {
        millis
    }
}

/// What is left of a cooldown after `delta` has elapsed.
pub fn cool_down(remaining: i64, delta: i64) -> (left: i64)
    ensures
        left == cooled(remaining, delta),
{
    if remaining > 0 {
        let left = remaining - clamp_non_negative(delta);
        if left < 0 {
            0
        } else {
            left
        }
    } else {
        remaining
    }
}

/// The keys of `map`, each once.
fn speaker_keys(map: &HashMap<u64, i64>) -> (keys: Vec<u64>)
    ensures
        keys@.no_duplicates(),
        keys@.to_set() == map@.dom(),
{
    broadcast use vstd::std_specs::hash::group_hash_axioms;

    let ghost all = vstd::std_specs::hash::spec_keys_iter(map).remaining();
    let mut keys: Vec<u64> = Vec::new();
    for key in it: map.keys()
        invariant
            it.seq() == all,
            keys@ == all.unref().take(it.index() as int),
    {
        keys.push(*key);
    }
    proof {
        assert(keys@ == all.unref());
        assert forall|i: int, j: int|
            0 <= i < keys@.len() && 0 <= j < keys@.len() && i != j implies keys@[i] != keys@[j] by {
            assert(all[i] != all[j]);
        }
    }
    keys
}

/// Remaining time until requests can be processed again: one cooldown shared
/// by all speakers and one per speaker, keyed by the speaker's number.
#[derive(Debug)]
pub struct DialogueRateLimitState {
    pub global_remaining: i64,
    pub npc_remaining: HashMap<u64, i64>,
}

pub struct DialogueRateLimitView {
    pub global_remaining: i64,
    pub npc_remaining: Map<u64, i64>,
}

impl DialogueRateLimitView {
    /// The speaker's remaining cooldown; zero for a speaker not seen yet.
    pub open spec fn remaining_for(self, speaker: NpcId) -> i64 {
        if self.npc_remaining.contains_key(speaker.0) {
            self.npc_remaining[speaker.0]
        } else {
            0
        }
    }

    /// No cooldown is negative.
    pub open spec fn wf(self) -> bool {
        &&& self.global_remaining >= 0
        &&& forall|key: u64| self.npc_remaining.contains_key(key) ==> self.npc_remaining[key] >= 0
    }

    /// A request of `speaker` may be processed: neither cooldown is running.
    pub open spec fn can_process(self, speaker: NpcId) -> bool {
        self.global_remaining <= 0 && self.remaining_for(speaker) <= 0
    }

    /// The state after `delta` has elapsed.
    pub open spec fn ticked(self, delta: i64) -> Self {
        DialogueRateLimitView {
            global_remaining: cooled(self.global_remaining, delta),
            npc_remaining: self.npc_remaining.map_values(|left: i64| cooled(left, delta)),
        }
    }

    /// The state after a request of `speaker` has succeeded.
    pub open spec fn succeeded(self, speaker: NpcId, config: DialogueRateLimitConfig) -> Self {
        DialogueRateLimitView {
            global_remaining: non_negative(config.global_cooldown_millis),
            npc_remaining: self.npc_remaining.insert(
                speaker.0,
                non_negative(config.per_npc_cooldown_millis),
            ),
        }
    }

    /// The state after a backoff of `millis` for `speaker`.
    pub open spec fn backed_off(self, speaker: NpcId, millis: i64) -> Self {
        let backoff = non_negative(millis);
        DialogueRateLimitView {
            global_remaining: longer(self.global_remaining, backoff),
            npc_remaining: self.npc_remaining.insert(
                speaker.0,
                if self.npc_remaining.contains_key(speaker.0) {
                    longer(self.npc_remaining[speaker.0], backoff)
                } else {
                    backoff
                },
            ),
        }
    }
}

impl View for DialogueRateLimitState {
    type V = DialogueRateLimitView;

    open spec fn view(&self) -> DialogueRateLimitView {
        DialogueRateLimitView {
            global_remaining: self.global_remaining,
            npc_remaining: self.npc_remaining@,
        }
    }
}

impl Default for DialogueRateLimitState {
    fn default() -> (state: Self)
        ensures
            state@.global_remaining == 0,
            state@.npc_remaining == Map::<u64, i64>::empty(),
            state@.wf(),
    {
        Self { global_remaining: 0, npc_remaining: HashMap::new() }
    }
}

impl DialogueRateLimitState {
    /// Lets `delta_millis` elapse on every running cooldown.
    pub fn tick(&mut self, delta_millis: i64)
        ensures
            final(self)@ == old(self)@.ticked(delta_millis),
            old(self)@.wf() ==> final(self)@.wf(),
    {
        broadcast use vstd::std_specs::hash::group_hash_axioms;

        self.global_remaining = cool_down(self.global_remaining, delta_millis);
        let ghost before = self.npc_remaining@;
        let keys = speaker_keys(&self.npc_remaining);
        let mut i: usize = 0;
        while i < keys.len()
            invariant
                i <= keys.len(),
                keys@.no_duplicates(),
                keys@.to_set() == before.dom(),
                self.global_remaining == cooled(old(self).global_remaining, delta_millis),
                self.npc_remaining@.dom() == before.dom(),
                forall|key: u64| #[trigger]
                    before.contains_key(key) ==> self.npc_remaining@[key] == if keys@.take(
                        i as int,
                    ).contains(key) {
                        cooled(before[key], delta_millis)
                    } else {
                        before[key]
                    },
            decreases keys.len() - i,
        {
            let key = keys[i];
            proof {
                assert(keys@.to_set().contains(key));
                assert(!keys@.take(i as int).contains(key));
                let shorter = keys@.take(i as int);
                let longer_run = keys@.take(i + 1);
                assert forall|other: u64|
                    longer_run.contains(other) <==> (other == key || shorter.contains(
                        other,
                    )) by {
                    if longer_run.contains(other) {
                        let j = choose|j: int|
                            0 <= j < longer_run.len() && #[trigger] longer_run[j] == other;
                        if j < i {
                            assert(shorter[j] == other);
                        }
                    }
                    if other == key {
                        assert(longer_run[i as int] == key);
                    }
                    if shorter.contains(other) {
                        let j = choose|j: int|
                            0 <= j < shorter.len() && #[trigger] shorter[j] == other;
                        assert(longer_run[j] == other);
                    }
                }
            }
            let left = match self.npc_remaining.get(&key) {
                Some(left) => *left,
                None => 0,
            };
            self.npc_remaining.insert(key, cool_down(left, delta_millis));
            i += 1;
        }
        proof {
            assert(keys@.take(keys.len() as int) =~= keys@);
            let after = before.map_values(|left: i64| cooled(left, delta_millis));
            assert forall|key: u64| after.contains_key(key) implies #[trigger] self.npc_remaining@[key]
                == after[key] by {
                assert(before.contains_key(key));
                assert(keys@.to_set().contains(key));
            }
            assert(self.npc_remaining@ =~= after);
        }
    }

    /// Tells whether a request of `speaker` may be processed now.
    pub fn can_process(&self, speaker: NpcId) -> (allowed: bool)
        ensures
            allowed == self@.can_process(speaker),
    {
        broadcast use vstd::std_specs::hash::group_hash_axioms;

        if self.global_remaining > 0 {
            return false;
        }
        match self.npc_remaining.get(&speaker.0) {
            Some(left) => !(*left > 0),
            None => true,
        }
    }

    /// Starts both cooldowns anew after a request of `speaker` has succeeded.
    pub fn record_success(&mut self, speaker: NpcId, config: &DialogueRateLimitConfig)
        ensures
            final(self)@ == old(self)@.succeeded(speaker, *config),
            old(self)@.wf() ==> final(self)@.wf(),
    {
        broadcast use vstd::std_specs::hash::group_hash_axioms;

        self.global_remaining = clamp_non_negative(config.global_cooldown_millis);
        self.npc_remaining.insert(speaker.0, clamp_non_negative(config.per_npc_cooldown_millis));
        proof {
            if old(self)@.wf() {
                assert forall|key: u64| self.npc_remaining@.contains_key(key) implies self.npc_remaining@[key]
                    >= 0 by {
                    if key != speaker.0 {
                        assert(old(self)@.npc_remaining.contains_key(key));
                    }
                }
            }
        }
    }

    /// Raises both cooldowns to at least `millis`.
    pub fn apply_backoff(&mut self, speaker: NpcId, millis: i64)
        ensures
            final(self)@ == old(self)@.backed_off(speaker, millis),
            old(self)@.wf() ==> final(self)@.wf(),
            final(self)@.global_remaining >= old(self)@.global_remaining,
            final(self)@.remaining_for(speaker) >= old(self)@.remaining_for(speaker),
    {
        broadcast use vstd::std_specs::hash::group_hash_axioms;

        let backoff = clamp_non_negative(millis);
        if backoff > self.global_remaining {
            self.global_remaining = backoff;
        }
        let raised = match self.npc_remaining.get(&speaker.0) {
            Some(left) => if *left >= backoff {
                *left
            } else {
                backoff
            },
            None => backoff,
        };
        self.npc_remaining.insert(speaker.0, raised);
        proof {
            if old(self)@.wf() {
                assert forall|key: u64| self.npc_remaining@.contains_key(key) implies self.npc_remaining@[key]
                    >= 0 by {
                    if key != speaker.0 {
                        assert(old(self)@.npc_remaining.contains_key(key));
                    }
                }
            }
        }
    }
}

/// A queued request with its retry bookkeeping.
#[derive(Debug)]
pub struct QueuedDialogueRequest {
    pub id: DialogueRequestId,
    pub request: DialogueRequest,
    pub attempts: u8,
    pub cooldown_remaining: i64,
}

pub struct QueuedDialogueRequestView {
    pub id: DialogueRequestId,
    pub request: DialogueRequestView,
    pub attempts: u8,
    pub cooldown_remaining: i64,
}

impl View for QueuedDialogueRequest {
    type V = QueuedDialogueRequestView;

    open spec fn view(&self) -> QueuedDialogueRequestView {
        QueuedDialogueRequestView {
            id: self.id,
            request: self.request@,
            attempts: self.attempts,
            cooldown_remaining: self.cooldown_remaining,
        }
    }
}

impl QueuedDialogueRequestView {
    /// This entry after `delta` has elapsed.
    pub open spec fn ticked(self, delta: i64) -> Self {
        QueuedDialogueRequestView {
            cooldown_remaining: cooled(self.cooldown_remaining, delta),
            ..self
        }
    }
}

/// The views of `entries`, in order.
pub open spec fn entry_views(entries: Seq<QueuedDialogueRequest>) -> Seq<
    QueuedDialogueRequestView,
> {
    Seq::new(entries.len(), |i: int| entries[i]@)
}

/// The identifier issued after `current`.
pub open spec fn next_id_after(current: u64) -> u64 {
    if current == u64::MAX {
        0
    } else {
        (current + 1) as u64
    }
}

/// Pending dialogue requests, oldest first.
#[derive(Debug)]
pub struct DialogueRequestQueue {
    next_request_id: u64,
    pending: VecDeque<QueuedDialogueRequest>,
}

pub struct DialogueRequestQueueView {
    pub next_request_id: u64,
    pub pending: Seq<QueuedDialogueRequestView>,
}

impl DialogueRequestQueueView {
    /// The queue before anything was enqueued.
    pub open spec fn fresh() -> Self {
        DialogueRequestQueueView { next_request_id: 0, pending: Seq::empty() }
    }

    /// The entry that `enqueue_with_cooldown` makes of `request`.
    pub open spec fn new_entry(self, request: DialogueRequestView, cooldown: i64)
        -> QueuedDialogueRequestView {
        QueuedDialogueRequestView {
            id: DialogueRequestId(self.next_request_id),
            request,
            attempts: 0,
            cooldown_remaining: non_negative(cooldown),
        }
    }

    /// The queue after `request` was appended with a cooldown.
    pub open spec fn enqueued(self, request: DialogueRequestView, cooldown: i64) -> Self {
        DialogueRequestQueueView {
            next_request_id: next_id_after(self.next_request_id),
            pending: self.pending.push(self.new_entry(request, cooldown)),
        }
    }

    /// The queue after `entry` was appended as it is.
    pub open spec fn requeued(self, entry: QueuedDialogueRequestView) -> Self {
        DialogueRequestQueueView { pending: self.pending.push(entry), ..self }
    }

    /// A head entry exists and its cooldown has run out.
    pub open spec fn front_ready(self) -> bool {
        self.pending.len() > 0 && self.pending[0].cooldown_remaining <= 0
    }

    /// The queue after `delta` has elapsed, on every entry.
    pub open spec fn ticked(self, delta: i64) -> Self {
        DialogueRequestQueueView {
            pending: self.pending.map_values(|entry: QueuedDialogueRequestView| entry.ticked(delta)),
            ..self
        }
    }

    /// The queue without its head entry.
    pub open spec fn without_head(self) -> Self {
        DialogueRequestQueueView { pending: self.pending.skip(1), ..self }
    }

    /// No entry has a negative cooldown.
    pub open spec fn wf(self) -> bool {
        forall|i: int| 0 <= i < self.pending.len() ==> (#[trigger] self.pending[i]).cooldown_remaining >= 0
    }

    /// The head entry may be handed to a provider now.
    pub open spec fn can_dispatch(self, limits: DialogueRateLimitView) -> bool {
        self.front_ready() && limits.can_process(self.pending[0].request.speaker)
    }
}

impl View for DialogueRequestQueue {
    type V = DialogueRequestQueueView;

    closed spec fn view(&self) -> DialogueRequestQueueView {
        DialogueRequestQueueView {
            next_request_id: self.next_request_id,
            pending: entry_views(self.pending@),
        }
    }
}

impl Default for DialogueRequestQueue {
    fn default() -> (queue: Self)
        ensures
            queue@ == DialogueRequestQueueView::fresh(),
    {
        let queue = Self { next_request_id: 0, pending: VecDeque::new() };
        assert(queue@.pending =~= Seq::empty());
        queue
    }
}

impl DialogueRequestQueue {
    /// Appends `request` with no cooldown and returns its new identifier.
    pub fn enqueue(&mut self, request: DialogueRequest) -> (id: DialogueRequestId)
        ensures
            id.0 == old(self)@.next_request_id,
            final(self)@ == old(self)@.enqueued(request@, 0),
            old(self)@.wf() ==> final(self)@.wf(),
    {
        self.enqueue_with_cooldown(request, 0)
    }

    /// Appends `request` with a cooldown and returns its new identifier.
    pub fn enqueue_with_cooldown(&mut self, request: DialogueRequest, cooldown_millis: i64) -> (id:
        DialogueRequestId)
        ensures
            id.0 == old(self)@.next_request_id,
            final(self)@ == old(self)@.enqueued(request@, cooldown_millis),
            old(self)@.wf() ==> final(self)@.wf(),
    {
        let id = DialogueRequestId::new(self.next_request_id);
        self.next_request_id = self.next_request_id.wrapping_add(1);
        let entry = QueuedDialogueRequest {
            id,
            request,
            attempts: 0,
            cooldown_remaining: clamp_non_negative(cooldown_millis),
        };
        self.pending.push_back(entry);
        assert(self@.pending =~= old(self)@.pending.push(
            old(self)@.new_entry(request@, cooldown_millis),
        ));
        id
    }

    /// Appends an entry as it is: its identifier, attempts and cooldown stay.
    pub fn requeue(&mut self, entry: QueuedDialogueRequest)
        ensures
            final(self)@ == old(self)@.requeued(entry@),
            old(self)@.wf() && entry.cooldown_remaining >= 0 ==> final(self)@.wf(),
    {
        self.pending.push_back(entry);
        assert(self@.pending =~= old(self)@.pending.push(entry@));
    }

    pub fn is_empty(&self) -> (empty: bool)
        ensures
            empty == (self@.pending.len() == 0),
    {
        self.pending.len() == 0
    }

    /// The number of pending requests.
    pub fn len(&self) -> (len: usize)
        ensures
            len == self@.pending.len(),
    {
        self.pending.len()
    }

    /// Tells whether a head entry exists whose cooldown has run out.
    pub fn front_ready(&self) -> (ready: bool)
        ensures
            ready == self@.front_ready(),
    {
        if self.pending.len() == 0 {
            return false;
        }
        self.pending[0].cooldown_remaining <= 0
    }

    /// Lets `delta_millis` elapse on the cooldown of every entry.
    pub fn tick(&mut self, delta_millis: i64)
        ensures
            final(self)@ == old(self)@.ticked(delta_millis),
            old(self)@.wf() ==> final(self)@.wf(),
    {
        let ghost before = self@.pending;
        let count = self.pending.len();
        let mut i: usize = 0;
        while i < count
            invariant
                i <= count,
                count == before.len(),
                self.next_request_id == old(self).next_request_id,
                self@.pending.len() == count,
                forall|k: int|
                    0 <= k < count - i ==> #[trigger] self@.pending[k] == before[k + i],
                forall|k: int|
                    count - i <= k < count ==> #[trigger] self@.pending[k] == before[k - (count
                        - i)].ticked(delta_millis),
            decreases count - i,
        {
            let ghost at_start = self@.pending;
            let head = self.pending.pop_front();
            match head {
                Some(entry) => {
                    let ghost entry_view = entry@;
                    assert(entry_view == at_start[0]);
                    let QueuedDialogueRequest { id, request, attempts, cooldown_remaining } = entry;
                    let cooled_entry = QueuedDialogueRequest {
                        id,
                        request,
                        attempts,
                        cooldown_remaining: cool_down(cooldown_remaining, delta_millis),
                    };
                    assert(cooled_entry@ == entry_view.ticked(delta_millis));
                    self.pending.push_back(cooled_entry);
                    proof {
                        assert forall|k: int| 0 <= k < count - 1 implies #[trigger] self@.pending[k]
                            == at_start[k + 1] by {}
                        assert(self@.pending[count - 1] == at_start[0].ticked(delta_millis));
                    }
                },
                None => {
                    assert(false);
                },
            }
            i += 1;
        }
        assert(self@.pending =~= before.map_values(
            |entry: QueuedDialogueRequestView| entry.ticked(delta_millis),
        ));
    }

    /// Removes and returns the head entry where it is ready and `limits`
    /// lets its speaker through; leaves the queue as it is otherwise.
    pub fn take_ready(&mut self, limits: &DialogueRateLimitState) -> (taken: Option<
        QueuedDialogueRequest,
    >)
        ensures
            old(self)@.can_dispatch(limits@) ==> taken is Some && taken->0@ == old(self)@.pending[0]
                && final(self)@ == old(self)@.without_head(),
            !old(self)@.can_dispatch(limits@) ==> taken is None && final(self)@ == old(self)@,
            old(self)@.wf() ==> final(self)@.wf(),
    {
        if self.pending.len() == 0 {
            return None;
        }
        if !(self.pending[0].cooldown_remaining <= 0) {
            return None;
        }
        if !limits.can_process(self.pending[0].request.speaker) {
            return None;
        }
        let taken = self.pending.pop_front();
        assert(self@.pending =~= old(self)@.pending.skip(1));
        taken
    }
}

/// Lets `delta_millis` elapse on the queue and on the rate limiter.
pub fn advance_dialogue_queue_timers(
    delta_millis: i64,
    queue: &mut DialogueRequestQueue,
    limits: &mut DialogueRateLimitState,
)
    ensures
        final(queue)@ == old(queue)@.ticked(delta_millis),
        final(limits)@ == old(limits)@.ticked(delta_millis),
        old(queue)@.wf() ==> final(queue)@.wf(),
        old(limits)@.wf() ==> final(limits)@.wf(),
{
    let delta = clamp_non_negative(delta_millis);
    queue.tick(delta);
    limits.tick(delta);
    proof {
        assert(old(queue)@.ticked(delta).pending =~= old(queue)@.ticked(delta_millis).pending);
        assert(old(limits)@.ticked(delta).npc_remaining =~= old(limits)@.ticked(
            delta_millis,
        ).npc_remaining);
    }
}

/// Picks the request to hand to a provider in this tick, if any: the head of
/// the queue, where it is ready and the rate limiter lets its speaker
/// through. At most one request leaves the queue per call.
pub fn run_dialogue_request_queue(
    queue: &mut DialogueRequestQueue,
    limits: &DialogueRateLimitState,
) -> (dispatched: Option<QueuedDialogueRequest>)
    ensures
        old(queue)@.can_dispatch(limits@) ==> dispatched is Some && dispatched->0@ == old(
            queue,
        )@.pending[0] && final(queue)@ == old(queue)@.without_head(),
        !old(queue)@.can_dispatch(limits@) ==> dispatched is None && final(queue)@ == old(queue)@,
        old(queue)@.wf() ==> final(queue)@.wf(),
{
    if queue.is_empty() {
        return None;
    }
    if !queue.front_ready() {
        return None;
    }
    queue.take_ready(limits)
}

/// What a provider made of a dispatched request: the request as it left the
/// queue, with the provider's answer.
#[derive(Debug)]
pub struct DialogueTaskResult {
    pub id: DialogueRequestId,
    pub request: DialogueRequest,
    pub result: Result<DialogueResponse, DialogueError>,
    pub attempts: u8,
}

pub struct DialogueTaskResultView {
    pub id: DialogueRequestId,
    pub request: DialogueRequestView,
    pub result: Result<DialogueResponseView, DialogueErrorView>,
    pub attempts: u8,
}

impl View for DialogueTaskResult {
    type V = DialogueTaskResultView;

    open spec fn view(&self) -> DialogueTaskResultView {
        DialogueTaskResultView {
            id: self.id,
            request: self.request@,
            result: match self.result {
                Ok(response) => Ok(response@),
                Err(error) => Err(error@),
            },
            attempts: self.attempts,
        }
    }
}

/// What the queue runner tells its listeners.
#[derive(Debug)]
pub enum DialogueNotification {
    Response(DialogueResponseEvent),
    Failed(DialogueRequestFailedEvent),
}

pub enum DialogueNotificationView {
    Response(DialogueResponseView),
    Failed(DialogueErrorView),
}

impl View for DialogueNotification {
    type V = DialogueNotificationView;

    open spec fn view(&self) -> DialogueNotificationView {
        match self {
            DialogueNotification::Response(event) => DialogueNotificationView::Response(
                event.response@,
            ),
            DialogueNotification::Failed(event) => DialogueNotificationView::Failed(event.error@),
        }
    }
}

/// The views of `notifications`, in order.
pub open spec fn notification_views(notifications: Seq<DialogueNotification>) -> Seq<
    DialogueNotificationView,
> {
    Seq::new(notifications.len(), |i: int| notifications[i]@)
}

/// The views of `tasks`, in order.
pub open spec fn task_views(tasks: Seq<DialogueTaskResult>) -> Seq<DialogueTaskResultView> {
    Seq::new(tasks.len(), |i: int| tasks[i]@)
}

/// The rate limiter, the queue and the notifications raised so far.
pub struct DispatchView {
    pub limits: DialogueRateLimitView,
    pub queue: DialogueRequestQueueView,
    pub notifications: Seq<DialogueNotificationView>,
}

/// The backoff that a failure asks of the rate limiter: what the provider
/// named when it limited the rate, the configured retry backoff otherwise.
pub open spec fn failure_backoff(kind: DialogueErrorKindView, config: DialogueRateLimitConfig)
    -> i64 {
    match kind {
        DialogueErrorKindView::RateLimited { retry_after_millis } => retry_after_millis,
        DialogueErrorKindView::ProviderFailure { .. } => config.retry_backoff_millis,
        DialogueErrorKindView::ContextMissing { .. } => config.retry_backoff_millis,
    }
}

/// A failed task is tried again while its attempts, this failure counted,
/// do not exceed the configured retries: while `attempts + 1 <= max_retries`.
pub open spec fn retries_left(attempts: u8, config: DialogueRateLimitConfig) -> bool {
    attempts < config.max_retries
}

/// The entry under which a failed task that has retries left goes back into
/// the queue: its identifier and request stay, one more attempt is counted.
pub open spec fn retry_entry(task: DialogueTaskResultView, config: DialogueRateLimitConfig)
    -> QueuedDialogueRequestView
    recommends
        retries_left(task.attempts, config),
{
    QueuedDialogueRequestView {
        id: task.id,
        request: task.request,
        attempts: (task.attempts + 1) as u8,
        cooldown_remaining: non_negative(config.retry_backoff_millis),
    }
}

impl DispatchView {
    /// The state after one finished task was taken in.
    pub open spec fn resolved(self, task: DialogueTaskResultView, config: DialogueRateLimitConfig)
        -> Self {
        match task.result {
            Ok(response) => DispatchView {
                limits: self.limits.succeeded(task.request.speaker, config),
                queue: self.queue,
                notifications: self.notifications.push(DialogueNotificationView::Response(response)),
            },
            Err(error) => {
                let limits = self.limits.backed_off(
                    task.request.speaker,
                    failure_backoff(error.kind, config),
                );
                if retries_left(task.attempts, config) {
                    DispatchView {
                        limits,
                        queue: self.queue.requeued(retry_entry(task, config)),
                        notifications: self.notifications,
                    }
                } else {
                    DispatchView {
                        limits,
                        queue: self.queue,
                        notifications: self.notifications.push(
                            DialogueNotificationView::Failed(error),
                        ),
                    }
                }
            },
        }
    }

    /// The state after the finished tasks were taken in, in their order.
    pub open spec fn polled(self, tasks: Seq<DialogueTaskResultView>, config: DialogueRateLimitConfig)
        -> Self
        decreases tasks.len(),
    {
        if tasks.len() == 0 {
            self
        } else {
            self.polled(tasks.drop_last(), config).resolved(tasks.last(), config)
        }
    }

    /// No cooldown is negative, in the rate limiter or in the queue.
    pub open spec fn wf(self) -> bool {
        self.limits.wf() && self.queue.wf()
    }
}

/// Takes in one finished task: a success starts the cooldowns anew and is
/// reported; a failure raises the cooldowns and either puts the request back
/// into the queue, with one more attempt counted, or reports it as failed for
/// good. Returns the notification to raise, if any.
pub fn resolve_dialogue_task(
    task: DialogueTaskResult,
    queue: &mut DialogueRequestQueue,
    limits: &mut DialogueRateLimitState,
    config: &DialogueRateLimitConfig,
) -> (notification: Option<DialogueNotification>)
    ensures
        ({
            let before = DispatchView {
                limits: old(limits)@,
                queue: old(queue)@,
                notifications: Seq::empty(),
            };
            let after = before.resolved(task@, *config);
            &&& final(limits)@ == after.limits
            &&& final(queue)@ == after.queue
            &&& match notification {
                Some(notification) => after.notifications == seq![notification@],
                None => after.notifications == Seq::<DialogueNotificationView>::empty(),
            }
        }),
        notification is None <==> task@.result is Err && task@.attempts + 1
            <= config.max_retries,
        task@.result is Err && task@.attempts + 1 > config.max_retries ==> final(queue)@ == old(
            queue,
        )@ && notification is Some && notification->0@ == DialogueNotificationView::Failed(
            task@.result->Err_0,
        ),
        task@.result is Err && task@.attempts + 1 <= config.max_retries ==> final(queue)@.pending
            == old(queue)@.pending.push(retry_entry(task@, *config)) && retry_entry(
            task@,
            *config,
        ).attempts == task@.attempts + 1,
        old(queue)@.wf() ==> final(queue)@.wf(),
        old(limits)@.wf() ==> final(limits)@.wf(),
{
    let DialogueTaskResult { id, request, result, attempts } = task;
    let ghost empty = Seq::<DialogueNotificationView>::empty();
    match result {
        Ok(response) => {
            limits.record_success(request.speaker, config);
            let notification = DialogueNotification::Response(DialogueResponseEvent { response });
            assert(empty.push(notification@) =~= seq![notification@]);
            Some(notification)
        },
        Err(error) => {
            let backoff = match &error.kind {
                crate::errors::DialogueErrorKind::RateLimited { retry_after_millis } => {
                    *retry_after_millis
                },
                crate::errors::DialogueErrorKind::ProviderFailure { .. } => {
                    config.retry_backoff_millis
                },
                crate::errors::DialogueErrorKind::ContextMissing { .. } => {
                    config.retry_backoff_millis
                },
            };
            limits.apply_backoff(request.speaker, backoff);
            if attempts < config.max_retries {
                queue.requeue(
                    QueuedDialogueRequest {
                        id,
                        request,
                        attempts: attempts + 1,
                        cooldown_remaining: clamp_non_negative(config.retry_backoff_millis),
                    },
                );
                None
            } else {
                let notification = DialogueNotification::Failed(
                    DialogueRequestFailedEvent { error },
                );
                assert(empty.push(notification@) =~= seq![notification@]);
                Some(notification)
            }
        },
    }
}

/// Takes in the tasks that have finished since the last call, in their
/// order, and returns the notifications to raise, in the same order.
pub fn poll_dialogue_tasks(
    completed: Vec<DialogueTaskResult>,
    queue: &mut DialogueRequestQueue,
    limits: &mut DialogueRateLimitState,
    config: &DialogueRateLimitConfig,
) -> (notifications: Vec<DialogueNotification>)
    ensures
        ({
            let before = DispatchView {
                limits: old(limits)@,
                queue: old(queue)@,
                notifications: Seq::empty(),
            };
            let after = before.polled(task_views(completed@), *config);
            &&& final(limits)@ == after.limits
            &&& final(queue)@ == after.queue
            &&& notification_views(notifications@) == after.notifications
        }),
        old(queue)@.wf() ==> final(queue)@.wf(),
        old(limits)@.wf() ==> final(limits)@.wf(),
{
    let ghost before = DispatchView {
        limits: old(limits)@,
        queue: old(queue)@,
        notifications: Seq::empty(),
    };
    let ghost tasks = completed@;
    let ghost all = task_views(completed@);
    let mut notifications: Vec<DialogueNotification> = Vec::new();
    proof {
        assert(all.take(0) =~= Seq::empty());
        assert(notification_views(notifications@) =~= Seq::empty());
    }
    for task in it: completed
        invariant
            it.seq() == tasks,
            all == task_views(tasks),
            ({
                let now = before.polled(all.take(it.index() as int), *config);
                &&& limits@ == now.limits
                &&& queue@ == now.queue
                &&& notification_views(notifications@) == now.notifications
            }),
            old(queue)@.wf() ==> queue@.wf(),
            old(limits)@.wf() ==> limits@.wf(),
    {
        let ghost done = it.index() as int;
        let ghost task_view = task@;
        let ghost now = before.polled(all.take(done), *config);
        let ghost raised = notification_views(notifications@);
        proof {
            assert(task_view == all[done]);
            assert(all.take(done + 1).drop_last() =~= all.take(done));
            assert(all.take(done + 1).last() == all[done]);
        }
        let notification = resolve_dialogue_task(task, queue, limits, config);
        match notification {
            Some(notification) => {
                notifications.push(notification);
                proof {
                    assert(notification_views(notifications@) =~= raised.push(notification@));
                }
            },
            None => {},
        }
        proof {
            let step = DispatchView {
                limits: now.limits,
                queue: now.queue,
                notifications: Seq::empty(),
            }.resolved(task_view, *config);
            let next = now.resolved(task_view, *config);
            assert(next.limits == step.limits);
            assert(next.queue == step.queue);
            assert(next.notifications =~= raised + step.notifications);
            assert(notification_views(notifications@) =~= next.notifications);
        }
    }
    proof {
        assert(all.take(all.len() as int) =~= all);
    }
    notifications
}

/// `Arc::clone`: one more handle to the same broker.
#[verifier::external_body]
fn share_broker(handle: &Arc<OpenAiDialogueBroker>) -> (shared: Arc<OpenAiDialogueBroker>)
    ensures
        shared == *handle,
{
    Arc::clone(handle)
}

/// A handle to the broker in use, cheap to copy into background work. The
/// broker behind it is never changed.
pub struct ActiveDialogueBroker {
    inner: Arc<OpenAiDialogueBroker>,
}

impl View for ActiveDialogueBroker {
    type V = BrokerModeView;

    closed spec fn view(&self) -> BrokerModeView {
        self.inner@
    }
}

impl ActiveDialogueBroker {
    pub fn new(inner: OpenAiDialogueBroker) -> (broker: Self)
        ensures
            broker@ == inner@,
    {
        Self { inner: Arc::new(inner) }
    }

    /// Takes the next step for `request`, as the broker behind the handle does.
    pub fn process(&self, request_id: DialogueRequestId, request: &DialogueRequest) -> (step:
        BrokerStep)
        ensures
            step@ == step_for(self@, request_id, request@),
    {
        self.inner.process(request_id, request)
    }

    /// What the broker behind the handle makes of the reply to a call.
    pub fn resolve_reply(
        &self,
        request_id: DialogueRequestId,
        request: &DialogueRequest,
        reply: &ProviderReply,
    ) -> (resolution: Result<DialogueResponse, DialogueError>)
        ensures
            match resolution {
                Ok(response) => resolution_for(request_id, request@, reply@) == Ok::<
                    DialogueResponseView,
                    DialogueErrorView,
                >(response@),
                Err(error) => resolution_for(request_id, request@, reply@) == Err::<
                    DialogueResponseView,
                    DialogueErrorView,
                >(error@),
            },
    {
        self.inner.resolve_reply(request_id, request, reply)
    }
}

impl Clone for ActiveDialogueBroker {
    fn clone(&self) -> (copy: Self)
        ensures
            copy@ == self@,
    {
        Self { inner: share_broker(&self.inner) }
    }
}

impl DialogueRequestQueueView {
    /// The queue after `requests` were appended without cooldown, in their order.
    pub open spec fn enqueued_all(self, requests: Seq<DialogueRequestView>) -> Self
        decreases requests.len(),
    {
        if requests.len() == 0 {
            self
        } else {
            self.enqueued_all(requests.drop_last()).enqueued(requests.last(), 0)
        }
    }
}

impl DialogueRateLimitView {
    /// The state after the times `deltas` have elapsed, one after the other.
    pub open spec fn ticked_all(self, deltas: Seq<i64>) -> Self
        decreases deltas.len(),
    {
        if deltas.len() == 0 {
            self
        } else {
            self.ticked_all(deltas.drop_last()).ticked(deltas.last())
        }
    }
}

/// The time that `deltas` add up to, a negative one counting as zero.
pub open spec fn elapsed(deltas: Seq<i64>) -> int
    decreases deltas.len(),
{
    if deltas.len() == 0 {
        0
    } else {
        elapsed(deltas.drop_last()) + non_negative(deltas.last())
    }
}

/// What is left of a cooldown of `start` after `passed` has elapsed.
pub open spec fn left_after(start: i64, passed: int) -> int {
    if start - passed < 0 {
        0
    } else {
        start - passed
    }
}

/// Enqueuing into a fresh queue issues the identifiers 0, 1, 2, ... in
/// order: the queue holds the requests under these identifiers, and the
/// next identifier is their number.
pub proof fn lemma_fresh_queue_issues_ids_in_order(requests: Seq<DialogueRequestView>)
    requires
        requests.len() <= u64::MAX,
    ensures
        ({
            let queue = DialogueRequestQueueView::fresh().enqueued_all(requests);
            &&& queue.next_request_id == requests.len()
            &&& queue.pending.len() == requests.len()
            &&& forall|i: int|
                0 <= i < requests.len() ==> (#[trigger] queue.pending[i]).id == DialogueRequestId(
                    i as u64,
                ) && queue.pending[i].request == requests[i] && queue.pending[i].attempts == 0
                    && queue.pending[i].cooldown_remaining == 0
        }),
    decreases requests.len(),
{
    if requests.len() > 0 {
        lemma_fresh_queue_issues_ids_in_order(requests.drop_last());
        let before = DialogueRequestQueueView::fresh().enqueued_all(requests.drop_last());
        let queue = DialogueRequestQueueView::fresh().enqueued_all(requests);
        assert(queue == before.enqueued(requests.last(), 0));
        assert forall|i: int| 0 <= i < requests.len() implies (#[trigger] queue.pending[i]).id
            == DialogueRequestId(i as u64) && queue.pending[i].request == requests[i]
            && queue.pending[i].attempts == 0 && queue.pending[i].cooldown_remaining == 0 by {
            if i < requests.len() - 1 {
                assert(queue.pending[i] == before.pending[i]);
                assert(requests.drop_last()[i] == requests[i]);
            }
        }
    }
}

/// Letting time elapse never makes a cooldown negative, in the rate limiter
/// or in the queue.
pub proof fn lemma_tick_keeps_cooldowns_non_negative(
    limits: DialogueRateLimitView,
    queue: DialogueRequestQueueView,
    delta: i64,
)
    requires
        limits.wf(),
        queue.wf(),
    ensures
        limits.ticked(delta).wf(),
        queue.ticked(delta).wf(),
{
    let ticked = queue.ticked(delta);
    assert forall|i: int| 0 <= i < ticked.pending.len() implies (
    #[trigger] ticked.pending[i]).cooldown_remaining >= 0 by {
        assert(queue.pending[i].cooldown_remaining >= 0);
    }
}

/// What is left of every cooldown after the times `deltas` have elapsed.
pub proof fn lemma_ticked_all(state: DialogueRateLimitView, deltas: Seq<i64>)
    requires
        state.wf(),
    ensures
        ({
            let after = state.ticked_all(deltas);
            &&& after.wf()
            &&& after.global_remaining == left_after(state.global_remaining, elapsed(deltas))
            &&& after.npc_remaining.dom() == state.npc_remaining.dom()
            &&& forall|key: u64| #[trigger]
                state.npc_remaining.contains_key(key) ==> after.npc_remaining[key] == left_after(
                    state.npc_remaining[key],
                    elapsed(deltas),
                )
        }),
        elapsed(deltas) >= 0,
    decreases deltas.len(),
{
    if deltas.len() > 0 {
        lemma_ticked_all(state, deltas.drop_last());
        let before = state.ticked_all(deltas.drop_last());
        let after = state.ticked_all(deltas);
        assert(after == before.ticked(deltas.last()));
        assert forall|key: u64| #[trigger] state.npc_remaining.contains_key(key) implies after.npc_remaining[key]
            == left_after(state.npc_remaining[key], elapsed(deltas)) by {
            assert(before.npc_remaining.contains_key(key));
        }
        assert forall|key: u64| after.npc_remaining.contains_key(key) implies after.npc_remaining[key]
            >= 0 by {
            assert(state.npc_remaining.contains_key(key));
        }
    }
}

/// After a success the speaker is held back, and stays so until the time
/// that has elapsed reaches the speaker's cooldown; once it has reached both
/// cooldowns, the speaker is let through again.
pub proof fn lemma_success_holds_speaker_back(
    state: DialogueRateLimitView,
    speaker: NpcId,
    config: DialogueRateLimitConfig,
    deltas: Seq<i64>,
)
    requires
        state.wf(),
        config.per_npc_cooldown_millis > 0,
    ensures
        !state.succeeded(speaker, config).can_process(speaker),
        elapsed(deltas) < config.per_npc_cooldown_millis ==> !state.succeeded(
            speaker,
            config,
        ).ticked_all(deltas).can_process(speaker),
        elapsed(deltas) >= config.per_npc_cooldown_millis && elapsed(deltas)
            >= config.global_cooldown_millis ==> state.succeeded(speaker, config).ticked_all(
            deltas,
        ).can_process(speaker),
{
    let started = state.succeeded(speaker, config);
    assert(started.npc_remaining.contains_key(speaker.0));
    assert forall|key: u64| started.npc_remaining.contains_key(key) implies started.npc_remaining[key]
        >= 0 by {
        if key != speaker.0 {
            assert(state.npc_remaining.contains_key(key));
        }
    }
    lemma_ticked_all(started, deltas);
    let after = started.ticked_all(deltas);
    assert(after.npc_remaining.contains_key(speaker.0));
}

/// A backoff raises each cooldown to the larger of its value and the
/// backoff, so it never lowers one, and a second backoff of the same length
/// changes nothing.
pub proof fn lemma_backoff_raises_to_maximum(
    state: DialogueRateLimitView,
    speaker: NpcId,
    millis: i64,
)
    ensures
        ({
            let after = state.backed_off(speaker, millis);
            &&& after.global_remaining == longer(state.global_remaining, non_negative(millis))
            &&& after.global_remaining >= state.global_remaining
            &&& after.remaining_for(speaker) >= state.remaining_for(speaker)
            &&& after.remaining_for(speaker) >= non_negative(millis)
            &&& (state.npc_remaining.contains_key(speaker.0) ==> after.remaining_for(speaker)
                == longer(state.npc_remaining[speaker.0], non_negative(millis)))
            &&& forall|other: u64|
                other != speaker.0 && state.npc_remaining.contains_key(other)
                    ==> after.npc_remaining.contains_key(other) && after.npc_remaining[other]
                    == state.npc_remaining[other]
            &&& after.backed_off(speaker, millis) == after
        }),
{
    let after = state.backed_off(speaker, millis);
    assert(after.npc_remaining.contains_key(speaker.0));
    assert(after.backed_off(speaker, millis).npc_remaining =~= after.npc_remaining);
}

/// A failed request whose attempts, this failure counted, exceed the
/// configured retries does not go back into the queue: the queue stays as
/// it is, and the one thing raised is its failure, with the error as it
/// came. A failed request that does go back counts one more attempt, which
/// is no more than there are retries, and raises nothing.
pub proof fn lemma_exhausted_request_fails_for_good(
    state: DispatchView,
    task: DialogueTaskResultView,
    config: DialogueRateLimitConfig,
)
    requires
        task.result is Err,
    ensures
        task.attempts + 1 > config.max_retries ==> state.resolved(task, config).queue
            == state.queue && state.resolved(task, config).notifications
            == state.notifications.push(DialogueNotificationView::Failed(task.result->Err_0)),
        task.attempts + 1 <= config.max_retries ==> state.resolved(task, config).queue.pending
            == state.queue.pending.push(retry_entry(task, config)) && retry_entry(
            task,
            config,
        ).attempts == task.attempts + 1 && state.resolved(task, config).notifications
            == state.notifications,
{
}

} // verus!
