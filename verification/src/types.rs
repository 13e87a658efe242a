//! Request and response types exchanged with the dialogue queue.
use vstd::prelude::*;

use crate::broker::DialogueProviderKind;
use crate::text::{zero_padded, zero_padded_text};

verus! {

/// Unique identifier of a speaker.
#[derive(Debug, Clone, Copy, PartialEq, Eq, Hash, Structural)]
pub struct NpcId(pub u64);

/// The label of the speaker with number `value`: `NPC-` and at least four digits.
pub open spec fn npc_label(value: u64) -> Seq<char> {
    "NPC-"@ + zero_padded(value as nat, 4)
}

/// The label of an optional speaker, `fallback` standing for none.
pub open spec fn npc_label_or(id: Option<NpcId>, fallback: Seq<char>) -> Seq<char> {
    match id {
        Some(id) => npc_label(id.0),
        None => fallback,
    }
}

impl NpcId {
    pub fn new(value: u64) -> (id: Self)
        ensures
            id.0 == value,
    {
        Self(value)
    }

    pub fn value(self) -> (value: u64)
        ensures
            value == self.0,
    {
        self.0
    }

    /// The label shown for this speaker.
    pub fn label(self) -> (s: String)
        ensures
            s@ == npc_label(self.0),
    {
        let mut s = String::from_str("NPC-");
        let digits = zero_padded_text(self.0, 4);
        s.append(digits.as_str());
        s
    }
}

/// Identifier assigned to a dialogue request when it is queued.
#[derive(Debug, Clone, Copy, PartialEq, Eq, Hash, Structural)]
pub struct DialogueRequestId(pub u64);

impl DialogueRequestId {
    pub fn new(value: u64) -> (id: Self)
        ensures
            id.0 == value,
    {
        Self(value)
    }

    pub fn value(self) -> (value: u64)
        ensures
            value == self.0,
    {
        self.0
    }
}

/// Hint that tells a provider how to frame its response.
#[derive(Debug, Clone, Copy, PartialEq, Eq, Hash, Structural)]
pub enum DialogueTopicHint {
    Status,
    Trade,
    Schedule,
}

impl Default for DialogueTopicHint {
    fn default() -> (hint: Self)
        ensures
            hint == DialogueTopicHint::Status,
    {
        DialogueTopicHint::Status
    }
}

/// Why a trade occurred.
#[derive(Debug, Clone, Copy, PartialEq, Eq, Structural)]
pub enum TradeContextReason {
    Production,
    Processing,
    Exchange,
}

/// The traded good in simple language.
#[derive(Debug)]
pub struct TradeDescriptor {
    pub label: String,
    pub quantity: u32,
}

pub struct TradeDescriptorView {
    pub label: Seq<char>,
    pub quantity: u32,
}

impl View for TradeDescriptor {
    type V = TradeDescriptorView;

    open spec fn view(&self) -> TradeDescriptorView {
        TradeDescriptorView { label: self.label@, quantity: self.quantity }
    }
}

impl TradeDescriptor {
    pub fn new(label: &str, quantity: u32) -> (descriptor: Self)
        ensures
            descriptor@ == (TradeDescriptorView { label: label@, quantity }),
    {
        Self { label: String::from_str(label), quantity }
    }
}

impl Clone for TradeDescriptor {
    fn clone(&self) -> (copy: Self)
        ensures
            copy@ == self@,
    {
        Self { label: self.label.clone(), quantity: self.quantity }
    }
}

/// A trade that dialogue can refer to.
#[derive(Debug)]
pub struct TradeContext {
    pub day: u64,
    pub from: Option<NpcId>,
    pub to: Option<NpcId>,
    pub descriptor: TradeDescriptor,
    pub reason: TradeContextReason,
}

pub struct TradeContextView {
    pub day: u64,
    pub from: Option<NpcId>,
    pub to: Option<NpcId>,
    pub descriptor: TradeDescriptorView,
    pub reason: TradeContextReason,
}

impl View for TradeContext {
    type V = TradeContextView;

    open spec fn view(&self) -> TradeContextView {
        TradeContextView {
            day: self.day,
            from: self.from,
            to: self.to,
            descriptor: self.descriptor@,
            reason: self.reason,
        }
    }
}

impl Clone for TradeContext {
    fn clone(&self) -> (copy: Self)
        ensures
            copy@ == self@,
    {
        Self {
            day: self.day,
            from: self.from,
            to: self.to,
            descriptor: self.descriptor.clone(),
            reason: self.reason,
        }
    }
}

/// One structured event of a request's context.
#[derive(Debug)]
pub enum DialogueContextEvent {
    Trade(TradeContext),
    ScheduleUpdate { description: String },
}

pub enum DialogueContextEventView {
    Trade(TradeContextView),
    ScheduleUpdate { description: Seq<char> },
}

impl View for DialogueContextEvent {
    type V = DialogueContextEventView;

    open spec fn view(&self) -> DialogueContextEventView {
        match self {
            DialogueContextEvent::Trade(trade) => DialogueContextEventView::Trade(trade@),
            DialogueContextEvent::ScheduleUpdate { description } => {
                DialogueContextEventView::ScheduleUpdate { description: description@ }
            },
        }
    }
}

impl Clone for DialogueContextEvent {
    fn clone(&self) -> (copy: Self)
        ensures
            copy@ == self@,
    {
        match self {
            DialogueContextEvent::Trade(trade) => DialogueContextEvent::Trade(trade.clone()),
            DialogueContextEvent::ScheduleUpdate { description } => {
                DialogueContextEvent::ScheduleUpdate { description: description.clone() }
            },
        }
    }
}

/// The views of `events`, in order.
pub open spec fn event_views(events: Seq<DialogueContextEvent>) -> Seq<DialogueContextEventView> {
    Seq::new(events.len(), |i: int| events[i]@)
}

/// The view of an optional string.
pub open spec fn text_view(text: Option<String>) -> Option<Seq<char>> {
    match text {
        Some(text) => Some(text@),
        None => None,
    }
}

/// Optional free-text summary plus the structured events of a request.
#[derive(Debug)]
pub struct DialogueContext {
    pub summary: Option<String>,
    pub events: Vec<DialogueContextEvent>,
}

pub struct DialogueContextView {
    pub summary: Option<Seq<char>>,
    pub events: Seq<DialogueContextEventView>,
}

impl View for DialogueContext {
    type V = DialogueContextView;

    open spec fn view(&self) -> DialogueContextView {
        DialogueContextView { summary: text_view(self.summary), events: event_views(self.events@) }
    }
}

/// A copy of an optional string.
pub fn clone_text(text: &Option<String>) -> (copy: Option<String>)
    ensures
        text_view(copy) == text_view(*text),
{
    match text {
        Some(text) => Some(text.clone()),
        None => None,
    }
}

/// A copy of a list of context events.
pub fn clone_events(events: &Vec<DialogueContextEvent>) -> (copy: Vec<DialogueContextEvent>)
    ensures
        event_views(copy@) == event_views(events@),
{
    let mut copy: Vec<DialogueContextEvent> = Vec::new();
    let mut i: usize = 0;
    while i < events.len()
        invariant
            i <= events.len(),
            copy.len() == i,
            forall|k: int| 0 <= k < i ==> copy@[k]@ == events@[k]@,
        decreases events.len() - i,
    {
        copy.push(events[i].clone());
        i += 1;
    }
    assert(event_views(copy@) =~= event_views(events@));
    copy
}

impl DialogueContext {
    pub fn with_events(events: Vec<DialogueContextEvent>) -> (context: Self)
        ensures
            context@ == (DialogueContextView { summary: None, events: event_views(events@) }),
    {
        Self { summary: None, events }
    }
}

impl Default for DialogueContext {
    fn default() -> (context: Self)
        ensures
            context@ == (DialogueContextView { summary: None, events: Seq::empty() }),
    {
        let context = Self { summary: None, events: Vec::new() };
        assert(context@.events =~= Seq::empty());
        context
    }
}

impl Clone for DialogueContext {
    fn clone(&self) -> (copy: Self)
        ensures
            copy@ == self@,
    {
        Self { summary: clone_text(&self.summary), events: clone_events(&self.events) }
    }
}

/// Who is speaking, to whom, about what, and with which context.
#[derive(Debug)]
pub struct DialogueRequest {
    pub speaker: NpcId,
    pub target: Option<NpcId>,
    pub prompt: String,
    pub topic_hint: DialogueTopicHint,
    pub context: DialogueContext,
}

pub struct DialogueRequestView {
    pub speaker: NpcId,
    pub target: Option<NpcId>,
    pub prompt: Seq<char>,
    pub topic_hint: DialogueTopicHint,
    pub context: DialogueContextView,
}

impl View for DialogueRequest {
    type V = DialogueRequestView;

    open spec fn view(&self) -> DialogueRequestView {
        DialogueRequestView {
            speaker: self.speaker,
            target: self.target,
            prompt: self.prompt@,
            topic_hint: self.topic_hint,
            context: self.context@,
        }
    }
}

impl DialogueRequest {
    pub fn new(
        speaker: NpcId,
        target: Option<NpcId>,
        prompt: &str,
        topic_hint: DialogueTopicHint,
        context: DialogueContext,
    ) -> (request: Self)
        ensures
            request@ == (DialogueRequestView {
                speaker,
                target,
                prompt: prompt@,
                topic_hint,
                context: context@,
            }),
    {
        Self { speaker, target, prompt: String::from_str(prompt), topic_hint, context }
    }
}

impl Clone for DialogueRequest {
    fn clone(&self) -> (copy: Self)
        ensures
            copy@ == self@,
    {
        Self {
            speaker: self.speaker,
            target: self.target,
            prompt: self.prompt.clone(),
            topic_hint: self.topic_hint,
            context: self.context.clone(),
        }
    }
}

/// The text a provider returned for a request.
#[derive(Debug)]
pub struct DialogueResponse {
    pub request_id: DialogueRequestId,
    pub provider: DialogueProviderKind,
    pub speaker: NpcId,
    pub target: Option<NpcId>,
    pub content: String,
}

pub struct DialogueResponseView {
    pub request_id: DialogueRequestId,
    pub provider: DialogueProviderKind,
    pub speaker: NpcId,
    pub target: Option<NpcId>,
    pub content: Seq<char>,
}

impl View for DialogueResponse {
    type V = DialogueResponseView;

    open spec fn view(&self) -> DialogueResponseView {
        DialogueResponseView {
            request_id: self.request_id,
            provider: self.provider,
            speaker: self.speaker,
            target: self.target,
            content: self.content@,
        }
    }
}

impl DialogueResponse {
    pub fn new(
        request_id: DialogueRequestId,
        provider: DialogueProviderKind,
        speaker: NpcId,
        target: Option<NpcId>,
        content: &str,
    ) -> (response: Self)
        ensures
            response@ == (DialogueResponseView {
                request_id,
                provider,
                speaker,
                target,
                content: content@,
            }),
    {
        Self { request_id, provider, speaker, target, content: String::from_str(content) }
    }
}

impl Clone for DialogueResponse {
    fn clone(&self) -> (copy: Self)
        ensures
            copy@ == self@,
    {
        Self {
            request_id: self.request_id,
            provider: self.provider,
            speaker: self.speaker,
            target: self.target,
            content: self.content.clone(),
        }
    }
}

} // verus!
