//! The OpenAI-backed broker: request validation, message assembly, the
//! call it asks its host to make, and what it makes of the provider's reply.
use vstd::prelude::*;

use crate::broker::config::{
    chat_url, config_error_text, OpenAiConfig, OpenAiConfigError, OpenAiConfigErrorView,
    OpenAiConfigView,
};
use crate::broker::DialogueProviderKind;
use crate::decimal::{parse_decimal, parse_decimal_text, saturate_i64};
use crate::errors::{
    DialogueContextSource, DialogueError, DialogueErrorKind, DialogueErrorKindView,
    DialogueErrorView,
};
use crate::status::DialogueConnectionState;
use crate::text::{
    decimal, decimal_text, eq_ignore_ascii_case, equals_ignoring_ascii_case, is_blank,
    is_blank_text, join, join_texts, trim, trimmed, views_of,
};
use crate::types::{
    event_views, npc_label, npc_label_or, text_view, DialogueContextEvent,
    DialogueContextEventView, DialogueRequest, DialogueRequestId, DialogueRequestView,
    DialogueResponse, DialogueResponseView, DialogueTopicHint, NpcId, TradeContext,
    TradeContextReason, TradeContextView,
};

verus! {

pub const MANUAL_RETRY_BACKOFF_MILLIS: i64 = 3000;

pub const DEFAULT_RATE_LIMIT_BACKOFF_MILLIS: i64 = 10000;

pub const TOO_MANY_REQUESTS: u16 = 429;

/// The reason phrase that the `http` crate gives for a status code; none for
/// a number that is no status code or has no phrase.
pub uninterp spec fn status_reason(code: u16) -> Option<Seq<char>>;

/// What `{:?}` writes for an optional text.
pub uninterp spec fn debug_text(value: Option<Seq<char>>) -> Seq<char>;

/// `reqwest::StatusCode::from_u16` and `StatusCode::canonical_reason`: the
/// reason phrase of the status code `code`. The contract names the result and
/// claims nothing about it but that it depends on `code` alone.
#[verifier::external_body]
fn canonical_reason(code: u16) -> (reason: Option<String>)
    ensures
        text_view(reason) == status_reason(code),
{
    match reqwest::StatusCode::from_u16(code) {
        Ok(status) => match status.canonical_reason() {
            Some(phrase) => Some(phrase.to_string()),
            None => None,
        },
        Err(_) => None,
    }
}

/// `format!` with `{:?}` on an optional string. The contract names the text
/// and claims nothing about it but that it depends on the value alone.
#[verifier::external_body]
fn debug_text_of(value: &Option<String>) -> (s: String)
    ensures
        s@ == debug_text(text_view(*value)),
{
    format!("{:?}", value)
}

/// The message of a request whose prompt is blank.
pub open spec fn empty_prompt_message() -> Seq<char> {
    "prompt cannot be empty"@
}

/// The prompt that always yields a rate limit: a hook to force the retry path.
pub open spec fn manual_retry_prompt() -> Seq<char> {
    "retry later"@
}

/// The message of a completion without usable text.
pub open spec fn empty_completion_message() -> Seq<char> {
    "OpenAI returned an empty completion for dialogue request"@
}

/// The instructions that open every conversation with the provider.
pub open spec fn system_prompt() -> Seq<char> {
    "You are a medieval villager in a life-simulation game. Respond briefly (1-3 sentences), stay in character, and reference only the supplied context. If information is missing, acknowledge the gap."@
}

/// The word for a topic.
pub open spec fn topic_text(topic: DialogueTopicHint) -> Seq<char> {
    match topic {
        DialogueTopicHint::Status => "status"@,
        DialogueTopicHint::Trade => "trade"@,
        DialogueTopicHint::Schedule => "schedule"@,
    }
}

/// The verb for what a trade did.
pub open spec fn trade_action(reason: TradeContextReason) -> Seq<char> {
    match reason {
        TradeContextReason::Production => "produced"@,
        TradeContextReason::Processing => "processed"@,
        TradeContextReason::Exchange => "exchanged"@,
    }
}

/// True when `events` holds a trade.
pub open spec fn has_trade_event(events: Seq<DialogueContextEventView>) -> bool {
    exists|i: int| 0 <= i < events.len() && (#[trigger] events[i]) is Trade
}

/// True when `events` holds a schedule update.
pub open spec fn has_schedule_event(events: Seq<DialogueContextEventView>) -> bool {
    exists|i: int| 0 <= i < events.len() && (#[trigger] events[i]) is ScheduleUpdate
}

/// True when the request carries a summary that is not blank.
pub open spec fn has_summary(request: DialogueRequestView) -> bool {
    request.context.summary is Some && !is_blank(request.context.summary->0)
}

/// Why a request is turned down before any provider is asked, if it is: a
/// blank prompt; the manual retry prompt; a trade topic without a summary or
/// without a trade among its events; a schedule topic without a schedule
/// update among its events. The first that applies, in this order.
pub open spec fn validation_error(request: DialogueRequestView) -> Option<DialogueErrorKindView> {
    if is_blank(request.prompt) {
        Some(DialogueErrorKindView::ProviderFailure { message: empty_prompt_message() })
    } else if eq_ignore_ascii_case(request.prompt, manual_retry_prompt()) {
        Some(
            DialogueErrorKindView::RateLimited { retry_after_millis: MANUAL_RETRY_BACKOFF_MILLIS },
        )
    } else {
        match request.topic_hint {
            DialogueTopicHint::Trade => {
                if !has_summary(request) {
                    Some(
                        DialogueErrorKindView::ContextMissing {
                            missing: DialogueContextSource::InventoryState,
                        },
                    )
                } else if !has_trade_event(request.context.events) {
                    Some(
                        DialogueErrorKindView::ContextMissing {
                            missing: DialogueContextSource::TradeHistory,
                        },
                    )
                } else {
                    None
                }
            },
            DialogueTopicHint::Schedule => {
                if !has_schedule_event(request.context.events) {
                    Some(
                        DialogueErrorKindView::ContextMissing {
                            missing: DialogueContextSource::ScheduleState,
                        },
                    )
                } else {
                    None
                }
            },
            DialogueTopicHint::Status => None,
        }
    }
}

/// The line that names the speaker.
pub open spec fn speaker_line(request: DialogueRequestView) -> Seq<char> {
    "Speaker: "@ + npc_label(request.speaker.0)
}

/// The line that names the target, or the player where there is none.
pub open spec fn target_line(request: DialogueRequestView) -> Seq<char> {
    "Target: "@ + npc_label_or(request.target, "player"@)
}

/// The line that names the topic.
pub open spec fn topic_line(request: DialogueRequestView) -> Seq<char> {
    "Topic: "@ + topic_text(request.topic_hint)
}

/// The line that holds the prompt.
pub open spec fn prompt_line(request: DialogueRequestView, live: bool) -> Seq<char> {
    if live {
        "Prompt: "@ + trim(request.prompt)
    } else {
        trim(request.prompt)
    }
}

/// The line that holds the summary.
pub open spec fn summary_line(summary: Seq<char>, live: bool) -> Seq<char> {
    if live {
        "Context summary: "@ + trim(summary)
    } else {
        "Summary: "@ + trim(summary)
    }
}

/// The part of a trade line that names one side of the trade, if there is one.
pub open spec fn party_text(prefix: Seq<char>, party: Option<NpcId>, suffix: Seq<char>) -> Seq<
    char,
> {
    match party {
        Some(id) => prefix + npc_label(id.0) + suffix,
        None => Seq::empty(),
    }
}

/// The line for a trade: day, action, quantity, label and the two sides.
pub open spec fn trade_line(trade: TradeContextView, live: bool) -> Seq<char> {
    let core = decimal(trade.day as nat) + (if live {
        " "@
    } else {
        " they "@
    }) + trade_action(trade.reason) + " "@ + decimal(trade.descriptor.quantity as nat) + " "@
        + trade.descriptor.label;
    if live {
        "Trade event: Day "@ + core + party_text(" (from "@, trade.from, ")"@) + party_text(
            " (to "@,
            trade.to,
            ")"@,
        )
    } else {
        "On day "@ + core + party_text(" with "@, trade.to, Seq::empty()) + party_text(
            " after receiving it from "@,
            trade.from,
            Seq::empty(),
        ) + "."@
    }
}

/// The line for a schedule update.
pub open spec fn schedule_line(description: Seq<char>, live: bool) -> Seq<char> {
    if live {
        "Schedule update: "@ + trim(description)
    } else {
        "Schedule update: "@ + description + "."@
    }
}

/// The line for one context event.
pub open spec fn event_line(event: DialogueContextEventView, live: bool) -> Seq<char> {
    match event {
        DialogueContextEventView::Trade(trade) => trade_line(trade, live),
        DialogueContextEventView::ScheduleUpdate { description } => schedule_line(
            description,
            live,
        ),
    }
}

/// One line per context event, in the events' order.
pub open spec fn event_lines(events: Seq<DialogueContextEventView>, live: bool) -> Seq<Seq<char>> {
    Seq::new(events.len(), |i: int| event_line(events[i], live))
}

/// The summary line, where the summary is not blank, then the event lines.
pub open spec fn context_lines(request: DialogueRequestView, live: bool) -> Seq<Seq<char>> {
    let events = event_lines(request.context.events, live);
    if has_summary(request) {
        seq![summary_line(request.context.summary->0, live)] + events
    } else {
        events
    }
}

/// The line that stands in where a request has no context lines.
pub open spec fn no_context_line() -> Seq<char> {
    "No notable context available."@
}

/// The line that closes a live message.
pub open spec fn response_instruction() -> Seq<char> {
    "Respond as the speaker, addressing the target naturally."@
}

/// The lines of a message, in order: speaker, target, topic, prompt; the
/// context lines, or one fixed line where there are none; and, for a live
/// provider only, the closing instruction.
pub open spec fn message_lines(request: DialogueRequestView, live: bool) -> Seq<Seq<char>> {
    let head = seq![
        speaker_line(request),
        target_line(request),
        topic_line(request),
        prompt_line(request, live),
    ];
    let context = context_lines(request, live);
    let body = if context.len() == 0 {
        seq![no_context_line()]
    } else {
        context
    };
    if live {
        head + body + seq![response_instruction()]
    } else {
        head + body
    }
}

/// The user message sent to a live provider: its lines, one per line.
pub open spec fn user_message(request: DialogueRequestView) -> Seq<char> {
    join(message_lines(request, true), "\n"@)
}

/// The response text made without a provider: the lines, separated by blanks.
pub open spec fn fallback_content(request: DialogueRequestView) -> Seq<char> {
    join(message_lines(request, false), " "@)
}

/// One message of a conversation with the provider.
#[derive(Debug)]
pub struct ChatMessage {
    pub role: String,
    pub content: String,
}

pub struct ChatMessageView {
    pub role: Seq<char>,
    pub content: Seq<char>,
}

impl View for ChatMessage {
    type V = ChatMessageView;

    open spec fn view(&self) -> ChatMessageView {
        ChatMessageView { role: self.role@, content: self.content@ }
    }
}

/// The views of `messages`, in order.
pub open spec fn message_views(messages: Seq<ChatMessage>) -> Seq<ChatMessageView> {
    Seq::new(messages.len(), |i: int| messages[i]@)
}

/// The conversation for a request: the system prompt, then the user message.
pub open spec fn chat_messages(request: DialogueRequestView) -> Seq<ChatMessageView> {
    seq![
        ChatMessageView { role: "system"@, content: system_prompt() },
        ChatMessageView { role: "user"@, content: user_message(request) },
    ]
}

/// The body of a chat-completion call. The temperature is counted in thousandths.
#[derive(Debug)]
pub struct ChatCompletionRequest {
    pub model: String,
    pub messages: Vec<ChatMessage>,
    pub max_tokens: Option<u32>,
    pub temperature_thousandths: i64,
}

pub struct ChatCompletionRequestView {
    pub model: Seq<char>,
    pub messages: Seq<ChatMessageView>,
    pub max_tokens: Option<u32>,
    pub temperature_thousandths: i64,
}

impl View for ChatCompletionRequest {
    type V = ChatCompletionRequestView;

    open spec fn view(&self) -> ChatCompletionRequestView {
        ChatCompletionRequestView {
            model: self.model@,
            messages: message_views(self.messages@),
            max_tokens: self.max_tokens,
            temperature_thousandths: self.temperature_thousandths,
        }
    }
}

/// A call that the broker asks its host to make: where to post the body,
/// with which bearer token, and how long to wait.
#[derive(Debug)]
pub struct ChatCompletionCall {
    pub url: String,
    pub api_key: String,
    pub timeout_secs: u64,
    pub payload: ChatCompletionRequest,
}

pub struct ChatCompletionCallView {
    pub url: Seq<char>,
    pub api_key: Seq<char>,
    pub timeout_secs: u64,
    pub payload: ChatCompletionRequestView,
}

impl View for ChatCompletionCall {
    type V = ChatCompletionCallView;

    open spec fn view(&self) -> ChatCompletionCallView {
        ChatCompletionCallView {
            url: self.url@,
            api_key: self.api_key@,
            timeout_secs: self.timeout_secs,
            payload: self.payload@,
        }
    }
}

/// The call that a live broker with `config` makes for `request`.
pub open spec fn call_for(config: OpenAiConfigView, request: DialogueRequestView)
    -> ChatCompletionCallView {
    ChatCompletionCallView {
        url: chat_url(config.base_url),
        api_key: config.api_key,
        timeout_secs: config.timeout_secs,
        payload: ChatCompletionRequestView {
            model: config.model,
            messages: chat_messages(request),
            max_tokens: Some(config.max_output_tokens as u32),
            temperature_thousandths: config.temperature_thousandths,
        },
    }
}

/// The error that a provider describes in the body of a reply.
#[derive(Debug)]
pub struct OpenAiErrorDetail {
    pub message: String,
    pub error_type: String,
    pub code: Option<String>,
}

pub struct OpenAiErrorDetailView {
    pub message: Seq<char>,
    pub error_type: Seq<char>,
    pub code: Option<Seq<char>>,
}

impl View for OpenAiErrorDetail {
    type V = OpenAiErrorDetailView;

    open spec fn view(&self) -> OpenAiErrorDetailView {
        OpenAiErrorDetailView {
            message: self.message@,
            error_type: self.error_type@,
            code: text_view(self.code),
        }
    }
}

/// What came back from a call. `Unreachable` holds why no reply arrived.
/// `Answered` holds the status code; the text of the `Retry-After` header,
/// if there was one; the error that the body describes, if it decodes as
/// one; and the text of each choice of the completion that the body
/// describes, or why it does not decode as one.
#[derive(Debug)]
pub enum ProviderReply {
    Unreachable { message: String },
    Answered {
        status: u16,
        retry_after: Option<String>,
        error: Option<OpenAiErrorDetail>,
        completion: Result<Vec<Option<String>>, String>,
    },
}

pub enum ProviderReplyView {
    Unreachable { message: Seq<char> },
    Answered {
        status: u16,
        retry_after: Option<Seq<char>>,
        error: Option<OpenAiErrorDetailView>,
        completion: Result<Seq<Option<Seq<char>>>, Seq<char>>,
    },
}

/// The views of the texts of `choices`, in order.
pub open spec fn choice_views(choices: Seq<Option<String>>) -> Seq<Option<Seq<char>>> {
    Seq::new(choices.len(), |i: int| text_view(choices[i]))
}

impl View for ProviderReply {
    type V = ProviderReplyView;

    open spec fn view(&self) -> ProviderReplyView {
        match self {
            ProviderReply::Unreachable { message } => ProviderReplyView::Unreachable {
                message: message@,
            },
            ProviderReply::Answered { status, retry_after, error, completion } => {
                ProviderReplyView::Answered {
                    status: *status,
                    retry_after: text_view(*retry_after),
                    error: match error {
                        Some(detail) => Some(detail@),
                        None => None,
                    },
                    completion: match completion {
                        Ok(choices) => Ok(choice_views(choices@)),
                        Err(message) => Err(message@),
                    },
                }
            },
        }
    }
}

/// True for the status codes from 200 to 299.
pub open spec fn is_success(status: u16) -> bool {
    200 <= status && status <= 299
}

/// The backoff that a rate-limited reply asks for: what its `Retry-After`
/// header holds, read as seconds, or the default where the header is absent
/// or no decimal number.
pub open spec fn retry_after_millis(header: Option<Seq<char>>) -> i64 {
    match header {
        Some(text) => match parse_decimal(text) {
            Some(value) => saturate_i64(value),
            None => DEFAULT_RATE_LIMIT_BACKOFF_MILLIS,
        },
        None => DEFAULT_RATE_LIMIT_BACKOFF_MILLIS,
    }
}

/// The status code with its reason phrase.
pub open spec fn status_text(status: u16) -> Seq<char> {
    decimal(status as nat) + " "@ + match status_reason(status) {
        Some(phrase) => phrase,
        None => "<unknown status code>"@,
    }
}

/// The message made of the error that a reply describes.
pub open spec fn structured_error_message(detail: OpenAiErrorDetailView) -> Seq<char> {
    detail.message + " (type: "@ + detail.error_type + ", code: "@ + debug_text(detail.code)
        + ")"@
}

/// The message for a failed reply that describes no error.
pub open spec fn status_error_message(status: u16) -> Seq<char> {
    "HTTP "@ + status_text(status) + " from OpenAI"@
}

/// The text of the first choice that has one.
pub open spec fn first_content(choices: Seq<Option<Seq<char>>>) -> Option<Seq<char>>
    decreases choices.len(),
{
    if choices.len() == 0 {
        None
    } else {
        match choices[0] {
            Some(text) => Some(text),
            None => first_content(choices.skip(1)),
        }
    }
}

/// The response to `request` with the given text.
pub open spec fn response_with(
    request_id: DialogueRequestId,
    request: DialogueRequestView,
    content: Seq<char>,
) -> DialogueResponseView {
    DialogueResponseView {
        request_id,
        provider: DialogueProviderKind::OpenAi,
        speaker: request.speaker,
        target: request.target,
        content,
    }
}

/// What a reply amounts to. No reply: a provider failure with the reason.
/// Status 429: a rate limit with the backoff of the `Retry-After` header.
/// Another status outside 200 to 299: a provider failure with the error the
/// body describes, or with the status. Success: the trimmed text of the
/// first choice that has one, unless the body does not decode or that text
/// is missing or blank, which are provider failures too.
pub open spec fn reply_outcome(
    request_id: DialogueRequestId,
    request: DialogueRequestView,
    reply: ProviderReplyView,
) -> Result<DialogueResponseView, DialogueErrorKindView> {
    match reply {
        ProviderReplyView::Unreachable { message } => Err(
            DialogueErrorKindView::ProviderFailure { message },
        ),
        ProviderReplyView::Answered { status, retry_after, error, completion } => {
            if status == TOO_MANY_REQUESTS {
                Err(
                    DialogueErrorKindView::RateLimited {
                        retry_after_millis: retry_after_millis(retry_after),
                    },
                )
            } else if !is_success(status) {
                match error {
                    Some(detail) => Err(
                        DialogueErrorKindView::ProviderFailure {
                            message: structured_error_message(detail),
                        },
                    ),
                    None => Err(
                        DialogueErrorKindView::ProviderFailure {
                            message: status_error_message(status),
                        },
                    ),
                }
            } else {
                match completion {
                    Err(message) => Err(DialogueErrorKindView::ProviderFailure { message }),
                    Ok(choices) => match first_content(choices) {
                        Some(text) => if is_blank(text) {
                            Err(
                                DialogueErrorKindView::ProviderFailure {
                                    message: empty_completion_message(),
                                },
                            )
                        } else {
                            Ok(response_with(request_id, request, trim(text)))
                        },
                        None => Err(
                            DialogueErrorKindView::ProviderFailure {
                                message: empty_completion_message(),
                            },
                        ),
                    },
                }
            }
        },
    }
}

/// The word for a topic.
pub fn topic_label(topic: DialogueTopicHint) -> (label: &'static str)
    ensures
        label@ == topic_text(topic),
{
    match topic {
        DialogueTopicHint::Status => "status",
        DialogueTopicHint::Trade => "trade",
        DialogueTopicHint::Schedule => "schedule",
    }
}

fn action_label(reason: TradeContextReason) -> (label: &'static str)
    ensures
        label@ == trade_action(reason),
{
    match reason {
        TradeContextReason::Production => "produced",
        TradeContextReason::Processing => "processed",
        TradeContextReason::Exchange => "exchanged",
    }
}

fn append_party(line: &mut String, prefix: &str, party: Option<NpcId>, suffix: &str)
    ensures
        final(line)@ == old(line)@ + party_text(prefix@, party, suffix@),
{
    match party {
        Some(id) => {
            let label = id.label();
            let ghost start = line@;
            line.append(prefix);
            line.append(label.as_str());
            line.append(suffix);
            assert(line@ =~= start + (prefix@ + npc_label(id.0) + suffix@));
        },
        None => {
            assert(line@ + Seq::<char>::empty() =~= line@);
        },
    }
}

fn render_trade_line(trade: &TradeContext, live: bool) -> (line: String)
    ensures
        line@ == trade_line(trade@, live),
{
    let mut line = if live {
        String::from_str("Trade event: Day ")
    } else {
        String::from_str("On day ")
    };
    let ghost opening = line@;
    let day = decimal_text(trade.day);
    line.append(day.as_str());
    if live {
        line.append(" ");
    } else {
        line.append(" they ");
    }
    line.append(action_label(trade.reason));
    line.append(" ");
    let quantity = decimal_text(trade.descriptor.quantity as u64);
    line.append(quantity.as_str());
    line.append(" ");
    line.append(trade.descriptor.label.as_str());
    let ghost core = decimal(trade.day as nat) + (if live {
        " "@
    } else {
        " they "@
    }) + trade_action(trade.reason) + " "@ + decimal(trade.descriptor.quantity as nat) + " "@
        + trade.descriptor.label@;
    assert(line@ =~= opening + core);
    if live {
        append_party(&mut line, " (from ", trade.from, ")");
        append_party(&mut line, " (to ", trade.to, ")");
    } else {
        append_party(&mut line, " with ", trade.to, "");
        append_party(&mut line, " after receiving it from ", trade.from, "");
        line.append(".");
        proof {
            reveal_strlit("");
            assert(""@ =~= Seq::<char>::empty());
        }
    }
    line
}

fn render_schedule_line(description: &String, live: bool) -> (line: String)
    ensures
        line@ == schedule_line(description@, live),
{
    let mut line = String::from_str("Schedule update: ");
    if live {
        let text = trimmed(description.as_str());
        line.append(text.as_str());
    } else {
        line.append(description.as_str());
        line.append(".");
    }
    line
}

fn render_event_line(event: &DialogueContextEvent, live: bool) -> (line: String)
    ensures
        line@ == event_line(event@, live),
{
    match event {
        DialogueContextEvent::Trade(trade) => render_trade_line(trade, live),
        DialogueContextEvent::ScheduleUpdate { description } => render_schedule_line(
            description,
            live,
        ),
    }
}

fn target_label(target: Option<NpcId>) -> (label: String)
    ensures
        label@ == npc_label_or(target, "player"@),
{
    match target {
        Some(id) => id.label(),
        None => String::from_str("player"),
    }
}

fn with_prefix(prefix: &str, text: &str) -> (line: String)
    ensures
        line@ == prefix@ + text@,
{
    let mut line = String::from_str(prefix);
    line.append(text);
    line
}

fn request_has_summary(request: &DialogueRequest) -> (present: bool)
    ensures
        present == has_summary(request@),
{
    match &request.context.summary {
        Some(summary) => !is_blank_text(summary.as_str()),
        None => false,
    }
}

/// The lines of the message for `request`.
fn assemble_lines(request: &DialogueRequest, live: bool) -> (lines: Vec<String>)
    ensures
        views_of(lines@) == message_lines(request@, live),
{
    let mut lines: Vec<String> = Vec::new();
    let speaker = request.speaker.label();
    lines.push(with_prefix("Speaker: ", speaker.as_str()));
    let target = target_label(request.target);
    lines.push(with_prefix("Target: ", target.as_str()));
    lines.push(with_prefix("Topic: ", topic_label(request.topic_hint)));
    let prompt = trimmed(request.prompt.as_str());
    if live {
        lines.push(with_prefix("Prompt: ", prompt.as_str()));
    } else {
        lines.push(prompt);
    }
    let ghost head = seq![
        speaker_line(request@),
        target_line(request@),
        topic_line(request@),
        prompt_line(request@, live),
    ];
    assert(views_of(lines@) =~= head);
    let with_summary = request_has_summary(request);
    if with_summary {
        match &request.context.summary {
            Some(summary) => {
                let text = trimmed(summary.as_str());
                if live {
                    lines.push(with_prefix("Context summary: ", text.as_str()));
                } else {
                    lines.push(with_prefix("Summary: ", text.as_str()));
                }
            },
            None => {},
        }
    }
    let ghost opening = views_of(lines@);
    let ghost events = request@.context.events;
    proof {
        if with_summary {
            assert(opening =~= head + seq![summary_line(request@.context.summary->0, live)]);
        } else {
            assert(opening =~= head);
        }
    }
    let mut i: usize = 0;
    while i < request.context.events.len()
        invariant
            i <= request.context.events.len(),
            events == event_views(request.context.events@),
            views_of(lines@) == opening + event_lines(events.take(i as int), live),
        decreases request.context.events.len() - i,
    {
        let line = render_event_line(&request.context.events[i], live);
        let ghost before = views_of(lines@);
        let ghost text = line@;
        lines.push(line);
        proof {
            assert(events[i as int] == request.context.events@[i as int]@);
            assert(views_of(lines@) =~= before.push(text));
            assert(event_lines(events.take(i + 1), live) =~= event_lines(
                events.take(i as int),
                live,
            ).push(event_line(events[i as int], live)));
            assert(views_of(lines@) =~= opening + event_lines(events.take(i + 1), live));
        }
        i += 1;
    }
    proof {
        assert(events.take(events.len() as int) =~= events);
        assert(views_of(lines@) =~= head + context_lines(request@, live));
    }
    if lines.len() == 4 {
        lines.push(String::from_str("No notable context available."));
        proof {
            assert(context_lines(request@, live).len() == 0);
            assert(views_of(lines@) =~= head + seq![no_context_line()]);
        }
    }
    let ghost body = if context_lines(request@, live).len() == 0 {
        seq![no_context_line()]
    } else {
        context_lines(request@, live)
    };
    assert(views_of(lines@) =~= head + body);
    if live {
        lines.push(String::from_str("Respond as the speaker, addressing the target naturally."));
        assert(views_of(lines@) =~= head + body + seq![response_instruction()]);
    }
    lines
}

/// The user message sent to a live provider for `request`.
pub fn build_user_message(request: &DialogueRequest) -> (message: String)
    ensures
        message@ == user_message(request@),
{
    let lines = assemble_lines(request, true);
    join_texts(&lines, "\n")
}

/// The response text made for `request` without a provider.
pub fn compose_context_segments(request: &DialogueRequest) -> (content: String)
    ensures
        content@ == fallback_content(request@),
{
    let lines = assemble_lines(request, false);
    join_texts(&lines, " ")
}

/// The conversation sent to a live provider for `request`.
pub fn build_messages(request: &DialogueRequest) -> (messages: Vec<ChatMessage>)
    ensures
        message_views(messages@) == chat_messages(request@),
{
    let mut messages: Vec<ChatMessage> = Vec::new();
    messages.push(
        ChatMessage {
            role: String::from_str("system"),
            content: String::from_str(
                "You are a medieval villager in a life-simulation game. Respond briefly (1-3 sentences), stay in character, and reference only the supplied context. If information is missing, acknowledge the gap.",
            ),
        },
    );
    messages.push(
        ChatMessage { role: String::from_str("user"), content: build_user_message(request) },
    );
    assert(message_views(messages@) =~= chat_messages(request@));
    messages
}

/// The backoff that the `Retry-After` header of a rate-limited reply asks for.
pub fn parse_retry_after(header: &Option<String>) -> (millis: Option<i64>)
    ensures
        millis == match text_view(*header) {
            Some(text) => match parse_decimal(text) {
                Some(value) => Some(saturate_i64(value)),
                None => None,
            },
            None => None,
        },
{
    match header {
        Some(text) => parse_decimal_text(text.as_str()),
        None => None,
    }
}

fn events_hold_trade(events: &Vec<DialogueContextEvent>) -> (found: bool)
    ensures
        found == has_trade_event(event_views(events@)),
{
    let mut i: usize = 0;
    while i < events.len()
        invariant
            i <= events.len(),
            forall|k: int| 0 <= k < i ==> !((#[trigger] event_views(events@)[k]) is Trade),
        decreases events.len() - i,
    {
        match &events[i] {
            DialogueContextEvent::Trade(_) => {
                assert(event_views(events@)[i as int] is Trade);
                return true;
            },
            DialogueContextEvent::ScheduleUpdate { .. } => {},
        }
        i += 1;
    }
    false
}

fn events_hold_schedule(events: &Vec<DialogueContextEvent>) -> (found: bool)
    ensures
        found == has_schedule_event(event_views(events@)),
{
    let mut i: usize = 0;
    while i < events.len()
        invariant
            i <= events.len(),
            forall|k: int|
                0 <= k < i ==> !((#[trigger] event_views(events@)[k]) is ScheduleUpdate),
        decreases events.len() - i,
    {
        match &events[i] {
            DialogueContextEvent::ScheduleUpdate { .. } => {
                assert(event_views(events@)[i as int] is ScheduleUpdate);
                return true;
            },
            DialogueContextEvent::Trade(_) => {},
        }
        i += 1;
    }
    false
}

/// Checks `request` before any provider is asked.
pub fn validate_request(request: &DialogueRequest) -> (checked: Result<(), DialogueErrorKind>)
    ensures
        match checked {
            Ok(_) => validation_error(request@) is None,
            Err(kind) => validation_error(request@) == Some(kind@),
        },
{
    if is_blank_text(request.prompt.as_str()) {
        return Err(DialogueErrorKind::provider_failure("prompt cannot be empty"));
    }
    if equals_ignoring_ascii_case(request.prompt.as_str(), "retry later") {
        return Err(DialogueErrorKind::rate_limited(MANUAL_RETRY_BACKOFF_MILLIS));
    }
    match request.topic_hint {
        DialogueTopicHint::Trade => {
            if !request_has_summary(request) {
                return Err(
                    DialogueErrorKind::context_missing(DialogueContextSource::InventoryState),
                );
            }
            if !events_hold_trade(&request.context.events) {
                return Err(DialogueErrorKind::context_missing(DialogueContextSource::TradeHistory));
            }
        },
        DialogueTopicHint::Schedule => {
            if !events_hold_schedule(&request.context.events) {
                return Err(
                    DialogueErrorKind::context_missing(DialogueContextSource::ScheduleState),
                );
            }
        },
        DialogueTopicHint::Status => {},
    }
    Ok(())
}

fn first_choice(choices: &Vec<Option<String>>) -> (found: Option<String>)
    ensures
        text_view(found) == first_content(choice_views(choices@)),
{
    let ghost all = choice_views(choices@);
    let mut i: usize = 0;
    assert(all.skip(0) =~= all);
    while i < choices.len()
        invariant
            i <= choices.len(),
            all == choice_views(choices@),
            first_content(all) == first_content(all.skip(i as int)),
        decreases choices.len() - i,
    {
        proof {
            assert(all.skip(i as int)[0] == text_view(choices@[i as int]));
            assert(all.skip(i as int).skip(1) =~= all.skip(i + 1));
        }
        match &choices[i] {
            Some(text) => {
                return Some(text.clone());
            },
            None => {},
        }
        i += 1;
    }
    None
}

/// The status code with its reason phrase.
fn status_label(status: u16) -> (label: String)
    ensures
        label@ == status_text(status),
{
    let mut label = decimal_text(status as u64);
    label.append(" ");
    match canonical_reason(status) {
        Some(phrase) => {
            label.append(phrase.as_str());
        },
        None => {
            label.append("<unknown status code>");
        },
    }
    label
}

/// Tells what a reply amounts to for the request it answers.
pub fn classify_reply(request_id: DialogueRequestId, request: &DialogueRequest, reply: &ProviderReply)
    -> (outcome: Result<DialogueResponse, DialogueErrorKind>)
    ensures
        match outcome {
            Ok(response) => reply_outcome(request_id, request@, reply@) == Ok::<
                DialogueResponseView,
                DialogueErrorKindView,
            >(response@),
            Err(kind) => reply_outcome(request_id, request@, reply@) == Err::<
                DialogueResponseView,
                DialogueErrorKindView,
            >(kind@),
        },
{
    match reply {
        ProviderReply::Unreachable { message } => Err(
            DialogueErrorKind::provider_failure(message.as_str()),
        ),
        ProviderReply::Answered { status, retry_after, error, completion } => {
            if *status == TOO_MANY_REQUESTS {
                let backoff = match parse_retry_after(retry_after) {
                    Some(millis) => millis,
                    None => DEFAULT_RATE_LIMIT_BACKOFF_MILLIS,
                };
                return Err(DialogueErrorKind::rate_limited(backoff));
            }
            if !(200 <= *status && *status <= 299) {
                match error {
                    Some(detail) => {
                        let mut message = detail.message.clone();
                        message.append(" (type: ");
                        message.append(detail.error_type.as_str());
                        message.append(", code: ");
                        let code = debug_text_of(&detail.code);
                        message.append(code.as_str());
                        message.append(")");
                        return Err(DialogueErrorKind::provider_failure(message.as_str()));
                    },
                    None => {
                        let mut message = String::from_str("HTTP ");
                        let label = status_label(*status);
                        message.append(label.as_str());
                        message.append(" from OpenAI");
                        return Err(DialogueErrorKind::provider_failure(message.as_str()));
                    },
                }
            }
            match completion {
                Err(message) => Err(DialogueErrorKind::provider_failure(message.as_str())),
                Ok(choices) => match first_choice(choices) {
                    Some(text) => {
                        if is_blank_text(text.as_str()) {
                            Err(
                                DialogueErrorKind::provider_failure(
                                    "OpenAI returned an empty completion for dialogue request",
                                ),
                            )
                        } else {
                            let content = trimmed(text.as_str());
                            Ok(
                                DialogueResponse::new(
                                    request_id,
                                    DialogueProviderKind::OpenAi,
                                    request.speaker,
                                    request.target,
                                    content.as_str(),
                                ),
                            )
                        }
                    },
                    None => Err(
                        DialogueErrorKind::provider_failure(
                            "OpenAI returned an empty completion for dialogue request",
                        ),
                    ),
                },
            }
        },
    }
}

/// How a broker answers: by asking the provider, or locally.
#[derive(Debug)]
pub enum BrokerMode {
    Live(OpenAiConfig),
    Fallback,
}

pub enum BrokerModeView {
    Live(OpenAiConfigView),
    Fallback,
}

impl View for BrokerMode {
    type V = BrokerModeView;

    open spec fn view(&self) -> BrokerModeView {
        match self {
            BrokerMode::Live(config) => BrokerModeView::Live(config@),
            BrokerMode::Fallback => BrokerModeView::Fallback,
        }
    }
}

/// The mode that a configuration gives: live where there is one, fallback
/// where there is none.
pub open spec fn mode_for(config: Result<OpenAiConfigView, OpenAiConfigErrorView>)
    -> BrokerModeView {
    match config {
        Ok(config) => BrokerModeView::Live(config),
        Err(_) => BrokerModeView::Fallback,
    }
}

/// The warning to log once where the broker falls back, if it does.
pub open spec fn fallback_warning(config: Result<OpenAiConfigView, OpenAiConfigErrorView>)
    -> Option<Seq<char>> {
    match config {
        Ok(_) => None,
        Err(OpenAiConfigErrorView::MissingApiKey) => Some(
            "OPENAI_API_KEY not set; dialogue broker using local fallback responses."@,
        ),
        Err(OpenAiConfigErrorView::ClientBuild(message)) => Some(
            "OpenAI broker running in fallback mode ("@ + config_error_text(
                OpenAiConfigErrorView::ClientBuild(message),
            ) + "). Check HTTP client configuration."@,
        ),
    }
}

/// The view of a configuration or of the reason why there is none.
pub open spec fn config_view(config: Result<OpenAiConfig, OpenAiConfigError>) -> Result<
    OpenAiConfigView,
    OpenAiConfigErrorView,
> {
    match config {
        Ok(config) => Ok(config@),
        Err(error) => Err(error@),
    }
}

/// What a broker does with a request next: it is done, with a response or
/// an error, or its host is to make a call and hand back the reply.
#[derive(Debug)]
pub enum BrokerStep {
    Done(Result<DialogueResponse, DialogueError>),
    Send(ChatCompletionCall),
}

pub enum BrokerStepView {
    Done(Result<DialogueResponseView, DialogueErrorView>),
    Send(ChatCompletionCallView),
}

impl View for BrokerStep {
    type V = BrokerStepView;

    open spec fn view(&self) -> BrokerStepView {
        match self {
            BrokerStep::Done(Ok(response)) => BrokerStepView::Done(Ok(response@)),
            BrokerStep::Done(Err(error)) => BrokerStepView::Done(Err(error@)),
            BrokerStep::Send(call) => BrokerStepView::Send(call@),
        }
    }
}

/// The error of kind `kind` for the request `request_id`.
pub open spec fn error_with(request_id: DialogueRequestId, kind: DialogueErrorKindView)
    -> DialogueErrorView {
    DialogueErrorView { request_id, provider: DialogueProviderKind::OpenAi, kind }
}

/// The step that a broker in `mode` takes for `request`: an error where
/// validation turns the request down; else, in fallback mode, the response
/// made locally, and in live mode the call to make.
pub open spec fn step_for(
    mode: BrokerModeView,
    request_id: DialogueRequestId,
    request: DialogueRequestView,
) -> BrokerStepView {
    match validation_error(request) {
        Some(kind) => BrokerStepView::Done(Err(error_with(request_id, kind))),
        None => match mode {
            BrokerModeView::Fallback => BrokerStepView::Done(
                Ok(response_with(request_id, request, fallback_content(request))),
            ),
            BrokerModeView::Live(config) => BrokerStepView::Send(call_for(config, request)),
        },
    }
}

/// What a broker makes of the reply to a call: the outcome of the reply,
/// an error carrying the request and the provider.
pub open spec fn resolution_for(
    request_id: DialogueRequestId,
    request: DialogueRequestView,
    reply: ProviderReplyView,
) -> Result<DialogueResponseView, DialogueErrorView> {
    match reply_outcome(request_id, request, reply) {
        Ok(response) => Ok(response),
        Err(kind) => Err(error_with(request_id, kind)),
    }
}

/// What every dialogue backend offers.
pub trait DialogueBroker: Send + Sync {
    fn provider_kind(&self) -> DialogueProviderKind;

    fn connection_state(&self) -> DialogueConnectionState;

    fn process(&self, request_id: DialogueRequestId, request: &DialogueRequest) -> BrokerStep;
}

/// The broker for the OpenAI provider. Its mode is chosen when it is made
/// and never changes.
#[derive(Debug)]
pub struct OpenAiDialogueBroker {
    mode: BrokerMode,
}

impl View for OpenAiDialogueBroker {
    type V = BrokerModeView;

    closed spec fn view(&self) -> BrokerModeView {
        self.mode@
    }
}

impl OpenAiDialogueBroker {
    /// Makes the broker: live where `config` holds a configuration, in
    /// fallback mode where it holds the reason why there is none.
    pub fn new(config: Result<OpenAiConfig, OpenAiConfigError>) -> (broker: Self)
        ensures
            broker@ == mode_for(config_view(config)),
    {
        match config {
            Ok(config) => Self { mode: BrokerMode::Live(config) },
            Err(_) => Self { mode: BrokerMode::Fallback },
        }
    }

    /// The warning to log once when a broker is made of `config`, if any.
    pub fn startup_warning(config: &Result<OpenAiConfig, OpenAiConfigError>) -> (warning: Option<
        String,
    >)
        ensures
            text_view(warning) == fallback_warning(config_view(*config)),
    {
        match config {
            Ok(_) => None,
            Err(OpenAiConfigError::MissingApiKey) => Some(
                String::from_str(
                    "OPENAI_API_KEY not set; dialogue broker using local fallback responses.",
                ),
            ),
            Err(error) => {
                let mut warning = String::from_str("OpenAI broker running in fallback mode (");
                let reason = error.describe();
                warning.append(reason.as_str());
                warning.append("). Check HTTP client configuration.");
                Some(warning)
            },
        }
    }

    /// Checks `request` before any provider is asked.
    pub fn validate(&self, request: &DialogueRequest) -> (checked: Result<(), DialogueErrorKind>)
        ensures
            match checked {
                Ok(_) => validation_error(request@) is None,
                Err(kind) => validation_error(request@) == Some(kind@),
            },
    {
        validate_request(request)
    }

    /// The response made for `request` without a provider.
    pub fn fabricate_response(&self, request_id: DialogueRequestId, request: &DialogueRequest) -> (response:
        DialogueResponse)
        ensures
            response@ == response_with(request_id, request@, fallback_content(request@)),
    {
        let content = compose_context_segments(request);
        DialogueResponse::new(
            request_id,
            self.provider_kind(),
            request.speaker,
            request.target,
            content.as_str(),
        )
    }

    /// The call that a live broker makes for `request`.
    fn prepare_call(config: &OpenAiConfig, request: &DialogueRequest) -> (call: ChatCompletionCall)
        ensures
            call@ == call_for(config@, request@),
    {
        ChatCompletionCall {
            url: config.chat_url(),
            api_key: config.api_key.clone(),
            timeout_secs: config.timeout_secs,
            payload: ChatCompletionRequest {
                model: config.model.clone(),
                messages: build_messages(request),
                max_tokens: Some(config.max_output_tokens as u32),
                temperature_thousandths: config.temperature_thousandths,
            },
        }
    }

    /// What the broker makes of the reply to the call that `process` asked
    /// for: a response, or an error for the scheduler to act on.
    pub fn resolve_reply(
        &self,
        request_id: DialogueRequestId,
        request: &DialogueRequest,
        reply: &ProviderReply,
    ) -> (resolution: Result<DialogueResponse, DialogueError>)
        ensures
            match resolution {
                Ok(response) => resolution_for(request_id, request@, reply@) == Ok::<
                    DialogueResponseView,
                    DialogueErrorView,
                >(response@),
                Err(error) => resolution_for(request_id, request@, reply@) == Err::<
                    DialogueResponseView,
                    DialogueErrorView,
                >(error@),
            },
    {
        match classify_reply(request_id, request, reply) {
            Ok(response) => Ok(response),
            Err(kind) => Err(DialogueError::new(request_id, self.provider_kind(), kind)),
        }
    }
}

impl DialogueBroker for OpenAiDialogueBroker {
    fn provider_kind(&self) -> (kind: DialogueProviderKind)
        ensures
            kind == DialogueProviderKind::OpenAi,
    {
        DialogueProviderKind::OpenAi
    }

    fn connection_state(&self) -> (state: DialogueConnectionState)
        ensures
            state == match self@ {
                BrokerModeView::Live(_) => DialogueConnectionState::Live,
                BrokerModeView::Fallback => DialogueConnectionState::Fallback,
            },
    {
        match &self.mode {
            BrokerMode::Live(_) => DialogueConnectionState::Live,
            BrokerMode::Fallback => DialogueConnectionState::Fallback,
        }
    }

    /// Takes the next step for `request`: turns it down, answers it locally,
    /// or asks for a call to the provider.
    fn process(&self, request_id: DialogueRequestId, request: &DialogueRequest) -> (step: BrokerStep)
        ensures
            step@ == step_for(self@, request_id, request@),
    {
        match self.validate(request) {
            Err(kind) => {
                return BrokerStep::Done(
                    Err(DialogueError::new(request_id, self.provider_kind(), kind)),
                );
            },
            Ok(_) => {},
        }
        match &self.mode {
            BrokerMode::Live(config) => BrokerStep::Send(Self::prepare_call(config, request)),
            BrokerMode::Fallback => BrokerStep::Done(
                Ok(self.fabricate_response(request_id, request)),
            ),
        }
    }
}

/// A request that validation turns down is answered with its error by a
/// broker in either mode: no call is asked for.
pub proof fn lemma_rejected_request_makes_no_call(
    mode: BrokerModeView,
    request_id: DialogueRequestId,
    request: DialogueRequestView,
)
    requires
        validation_error(request) is Some,
    ensures
        step_for(mode, request_id, request) == BrokerStepView::Done(
            Err(error_with(request_id, validation_error(request)->0)),
        ),
{
}

/// A trade request with a prompt and a summary but without a trade among
/// its events misses its trade history.
pub proof fn lemma_trade_without_trade_event(request: DialogueRequestView)
    requires
        !is_blank(request.prompt),
        !eq_ignore_ascii_case(request.prompt, manual_retry_prompt()),
        request.topic_hint == DialogueTopicHint::Trade,
        has_summary(request),
        !has_trade_event(request.context.events),
    ensures
        validation_error(request) == Some(
            DialogueErrorKindView::ContextMissing { missing: DialogueContextSource::TradeHistory },
        ),
{
}

} // verus!
