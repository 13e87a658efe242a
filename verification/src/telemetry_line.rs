//! The line format of the telemetry log: one JSON object per record, with
//! the fields in a fixed order and no blanks between them.
//!
//! A record is written as
//! `{"occurred_at_seconds":S,"event":E}`, where `S` is the time in seconds
//! with three fraction digits and `E` is one of
//! `{"event_type":"response","request_id":N,"provider":P,"speaker":P,"target":T,"content":P}`
//! and
//! `{"event_type":"failure","request_id":N,"provider":P,"error":F}`,
//! with `F` one of
//! `{"error_kind":"rate_limited","retry_after_seconds":S}`,
//! `{"error_kind":"provider_failure","message":P}` and
//! `{"error_kind":"context_missing","missing":P}`.
//! `N` is a whole number, `P` a quoted string and `T` a quoted string or `null`.
use vstd::prelude::*;

use crate::broker::provider_label;
use crate::decimal::{
    render_signed_thousandths, render_thousandths, signed_thousandths, thousandths,
};
use crate::errors::{context_source_label, DialogueErrorKind, DialogueErrorKindView};
use crate::scan::{
    expect, lemma_expect_only, lemma_expect_prefix, lemma_read_number, lemma_read_number_only,
    lemma_read_signed_thousandths, lemma_read_signed_thousandths_only, lemma_read_string,
    lemma_read_string_only, lemma_read_thousandths, lemma_read_thousandths_only, push_quoted,
    quoted, read_number, read_signed_thousandths, read_string, read_thousandths, Cursor,
};
use crate::telemetry::{
    DialogueTelemetryEvent, DialogueTelemetryEventView, DialogueTelemetryRecord,
    DialogueTelemetryRecordView,
};
use crate::text::{decimal, decimal_text};
use crate::types::{npc_label, text_view, NpcId};

verus! {

/// A failure as the log holds it.
#[derive(Debug)]
pub enum SerializableDialogueError {
    RateLimited { retry_after_millis: i64 },
    ProviderFailure { message: String },
    ContextMissing { missing: String },
}

pub enum SerializableDialogueErrorView {
    RateLimited { retry_after_millis: i64 },
    ProviderFailure { message: Seq<char> },
    ContextMissing { missing: Seq<char> },
}

impl View for SerializableDialogueError {
    type V = SerializableDialogueErrorView;

    open spec fn view(&self) -> SerializableDialogueErrorView {
        match self {
            SerializableDialogueError::RateLimited { retry_after_millis } => {
                SerializableDialogueErrorView::RateLimited {
                    retry_after_millis: *retry_after_millis,
                }
            },
            SerializableDialogueError::ProviderFailure { message } => {
                SerializableDialogueErrorView::ProviderFailure { message: message@ }
            },
            SerializableDialogueError::ContextMissing { missing } => {
                SerializableDialogueErrorView::ContextMissing { missing: missing@ }
            },
        }
    }
}

/// An event as the log holds it: speakers and providers by their labels.
#[derive(Debug)]
pub enum SerializableDialogueTelemetryEvent {
    Response {
        request_id: u64,
        provider: String,
        speaker: String,
        target: Option<String>,
        content: String,
    },
    Failure { request_id: u64, provider: String, error: SerializableDialogueError },
}

pub enum SerializableDialogueTelemetryEventView {
    Response {
        request_id: u64,
        provider: Seq<char>,
        speaker: Seq<char>,
        target: Option<Seq<char>>,
        content: Seq<char>,
    },
    Failure { request_id: u64, provider: Seq<char>, error: SerializableDialogueErrorView },
}

impl View for SerializableDialogueTelemetryEvent {
    type V = SerializableDialogueTelemetryEventView;

    open spec fn view(&self) -> SerializableDialogueTelemetryEventView {
        match self {
            SerializableDialogueTelemetryEvent::Response {
                request_id,
                provider,
                speaker,
                target,
                content,
            } => SerializableDialogueTelemetryEventView::Response {
                request_id: *request_id,
                provider: provider@,
                speaker: speaker@,
                target: text_view(*target),
                content: content@,
            },
            SerializableDialogueTelemetryEvent::Failure { request_id, provider, error } => {
                SerializableDialogueTelemetryEventView::Failure {
                    request_id: *request_id,
                    provider: provider@,
                    error: error@,
                }
            },
        }
    }
}

/// A record as the log holds it.
#[derive(Debug)]
pub struct SerializableDialogueTelemetryRecord {
    pub occurred_at_millis: u64,
    pub event: SerializableDialogueTelemetryEvent,
}

pub struct SerializableDialogueTelemetryRecordView {
    pub occurred_at_millis: u64,
    pub event: SerializableDialogueTelemetryEventView,
}

impl View for SerializableDialogueTelemetryRecord {
    type V = SerializableDialogueTelemetryRecordView;

    open spec fn view(&self) -> SerializableDialogueTelemetryRecordView {
        SerializableDialogueTelemetryRecordView {
            occurred_at_millis: self.occurred_at_millis,
            event: self.event@,
        }
    }
}

/// The label of an optional speaker, where there is one.
pub open spec fn optional_label(id: Option<NpcId>) -> Option<Seq<char>> {
    match id {
        Some(id) => Some(npc_label(id.0)),
        None => None,
    }
}

/// An error kind as the log holds it.
pub open spec fn serializable_error(kind: DialogueErrorKindView) -> SerializableDialogueErrorView {
    match kind {
        DialogueErrorKindView::RateLimited { retry_after_millis } => {
            SerializableDialogueErrorView::RateLimited { retry_after_millis }
        },
        DialogueErrorKindView::ProviderFailure { message } => {
            SerializableDialogueErrorView::ProviderFailure { message }
        },
        DialogueErrorKindView::ContextMissing { missing } => {
            SerializableDialogueErrorView::ContextMissing { missing: context_source_label(missing) }
        },
    }
}

/// An event as the log holds it.
pub open spec fn serializable_event(event: DialogueTelemetryEventView)
    -> SerializableDialogueTelemetryEventView {
    match event {
        DialogueTelemetryEventView::Response(response) => {
            SerializableDialogueTelemetryEventView::Response {
                request_id: response.request_id.0,
                provider: provider_label(response.provider),
                speaker: npc_label(response.speaker.0),
                target: optional_label(response.target),
                content: response.content,
            }
        },
        DialogueTelemetryEventView::Failure(error) => {
            SerializableDialogueTelemetryEventView::Failure {
                request_id: error.request_id.0,
                provider: provider_label(error.provider),
                error: serializable_error(error.kind),
            }
        },
    }
}

/// A record as the log holds it.
pub open spec fn serializable_record(record: DialogueTelemetryRecordView)
    -> SerializableDialogueTelemetryRecordView {
    SerializableDialogueTelemetryRecordView {
        occurred_at_millis: record.occurred_at_millis,
        event: serializable_event(record.event),
    }
}

impl SerializableDialogueError {
    /// The error kind as the log holds it.
    pub fn from_kind(kind: &DialogueErrorKind) -> (error: Self)
        ensures
            error@ == serializable_error(kind@),
    {
        match kind {
            DialogueErrorKind::RateLimited { retry_after_millis } => {
                SerializableDialogueError::RateLimited { retry_after_millis: *retry_after_millis }
            },
            DialogueErrorKind::ProviderFailure { message } => {
                SerializableDialogueError::ProviderFailure { message: message.clone() }
            },
            DialogueErrorKind::ContextMissing { missing } => {
                SerializableDialogueError::ContextMissing { missing: missing.label() }
            },
        }
    }
}

impl SerializableDialogueTelemetryEvent {
    /// The event as the log holds it.
    pub fn from_event(event: &DialogueTelemetryEvent) -> (logged: Self)
        ensures
            logged@ == serializable_event(event@),
    {
        match event {
            DialogueTelemetryEvent::Response(response) => {
                SerializableDialogueTelemetryEvent::Response {
                    request_id: response.request_id.value(),
                    provider: response.provider.label(),
                    speaker: response.speaker.label(),
                    target: match response.target {
                        Some(id) => Some(id.label()),
                        None => None,
                    },
                    content: response.content.clone(),
                }
            },
            DialogueTelemetryEvent::Failure(error) => {
                SerializableDialogueTelemetryEvent::Failure {
                    request_id: error.request_id.value(),
                    provider: error.provider.label(),
                    error: SerializableDialogueError::from_kind(&error.kind),
                }
            },
        }
    }
}

impl SerializableDialogueTelemetryRecord {
    /// The record as the log holds it.
    pub fn from_record(record: &DialogueTelemetryRecord) -> (logged: Self)
        ensures
            logged@ == serializable_record(record@),
    {
        SerializableDialogueTelemetryRecord {
            occurred_at_millis: record.occurred_at_millis,
            event: SerializableDialogueTelemetryEvent::from_event(&record.event),
        }
    }
}

pub open spec fn word_record() -> Seq<char> {
    "{\"occurred_at_seconds\":"@
}

pub open spec fn word_event() -> Seq<char> {
    ",\"event\":"@
}

pub open spec fn word_close() -> Seq<char> {
    "}"@
}

pub open spec fn word_response() -> Seq<char> {
    "{\"event_type\":\"response\",\"request_id\":"@
}

pub open spec fn word_failure() -> Seq<char> {
    "{\"event_type\":\"failure\",\"request_id\":"@
}

pub open spec fn word_provider() -> Seq<char> {
    ",\"provider\":"@
}

pub open spec fn word_speaker() -> Seq<char> {
    ",\"speaker\":"@
}

pub open spec fn word_target() -> Seq<char> {
    ",\"target\":"@
}

pub open spec fn word_null() -> Seq<char> {
    "null"@
}

pub open spec fn word_content() -> Seq<char> {
    ",\"content\":"@
}

pub open spec fn word_error() -> Seq<char> {
    ",\"error\":"@
}

pub open spec fn word_rate_limited() -> Seq<char> {
    "{\"error_kind\":\"rate_limited\",\"retry_after_seconds\":"@
}

pub open spec fn word_provider_failure() -> Seq<char> {
    "{\"error_kind\":\"provider_failure\",\"message\":"@
}

pub open spec fn word_context_missing() -> Seq<char> {
    "{\"error_kind\":\"context_missing\",\"missing\":"@
}

/// A logged error as JSON.
pub open spec fn error_json(error: SerializableDialogueErrorView) -> Seq<char> {
    match error {
        SerializableDialogueErrorView::RateLimited { retry_after_millis } => {
            word_rate_limited() + signed_thousandths(retry_after_millis as int) + word_close()
        },
        SerializableDialogueErrorView::ProviderFailure { message } => {
            word_provider_failure() + quoted(message) + word_close()
        },
        SerializableDialogueErrorView::ContextMissing { missing } => {
            word_context_missing() + quoted(missing) + word_close()
        },
    }
}

/// An optional text as JSON: a quoted string, or `null`.
pub open spec fn optional_json(text: Option<Seq<char>>) -> Seq<char> {
    match text {
        Some(text) => quoted(text),
        None => word_null(),
    }
}

/// The request number and the provider of an event as JSON.
pub open spec fn event_head_json(request_id: u64, provider: Seq<char>) -> Seq<char> {
    decimal(request_id as nat) + word_provider() + quoted(provider)
}

/// What follows the provider in a response, as JSON.
pub open spec fn response_tail_json(
    speaker: Seq<char>,
    target: Option<Seq<char>>,
    content: Seq<char>,
) -> Seq<char> {
    word_speaker() + quoted(speaker) + word_target() + optional_json(target) + word_content()
        + quoted(content) + word_close()
}

/// What follows the provider in a failure, as JSON.
pub open spec fn failure_tail_json(error: SerializableDialogueErrorView) -> Seq<char> {
    word_error() + error_json(error) + word_close()
}

/// A logged event as JSON.
pub open spec fn event_json(event: SerializableDialogueTelemetryEventView) -> Seq<char> {
    match event {
        SerializableDialogueTelemetryEventView::Response {
            request_id,
            provider,
            speaker,
            target,
            content,
        } => {
            word_response() + event_head_json(request_id, provider) + response_tail_json(
                speaker,
                target,
                content,
            )
        },
        SerializableDialogueTelemetryEventView::Failure { request_id, provider, error } => {
            word_failure() + event_head_json(request_id, provider) + failure_tail_json(error)
        },
    }
}

/// A logged record as JSON: the text of its line.
pub open spec fn record_json(record: SerializableDialogueTelemetryRecordView) -> Seq<char> {
    word_record() + thousandths(record.occurred_at_millis as nat) + word_event() + event_json(
        record.event,
    ) + word_close()
}

/// The line that the log holds for a record.
pub open spec fn line_for(record: DialogueTelemetryRecordView) -> Seq<char> {
    record_json(serializable_record(record))
}

/// A logged error at the front of `s`, with the text after it.
pub open spec fn read_error(s: Seq<char>) -> Option<(SerializableDialogueErrorView, Seq<char>)> {
    match expect(s, word_rate_limited()) {
        Some(after) => match read_signed_thousandths(after) {
            Some((value, after_value)) => match expect(after_value, word_close()) {
                Some(rest) => if i64::MIN <= value <= i64::MAX {
                    Some(
                        (
                            SerializableDialogueErrorView::RateLimited {
                                retry_after_millis: value as i64,
                            },
                            rest,
                        ),
                    )
                } else {
                    None
                },
                None => None,
            },
            None => None,
        },
        None => match expect(s, word_provider_failure()) {
            Some(after) => match read_string(after) {
                Some((message, after_text)) => match expect(after_text, word_close()) {
                    Some(rest) => Some(
                        (SerializableDialogueErrorView::ProviderFailure { message }, rest),
                    ),
                    None => None,
                },
                None => None,
            },
            None => match expect(s, word_context_missing()) {
                Some(after) => match read_string(after) {
                    Some((missing, after_text)) => match expect(after_text, word_close()) {
                        Some(rest) => Some(
                            (SerializableDialogueErrorView::ContextMissing { missing }, rest),
                        ),
                        None => None,
                    },
                    None => None,
                },
                None => None,
            },
        },
    }
}

/// A quoted string or `null` at the front of `s`, with the text after it.
pub open spec fn read_optional(s: Seq<char>) -> Option<(Option<Seq<char>>, Seq<char>)> {
    match expect(s, word_null()) {
        Some(rest) => Some((None, rest)),
        None => match read_string(s) {
            Some((text, rest)) => Some((Some(text), rest)),
            None => None,
        },
    }
}

/// A request number and a provider at the front of `s`, as they follow the
/// opening word of an event, with the text after them.
pub open spec fn read_event_head(s: Seq<char>) -> Option<(u64, Seq<char>, Seq<char>)> {
    match read_number(s) {
        Some((number, after_number)) => match expect(after_number, word_provider()) {
            Some(after_word) => match read_string(after_word) {
                Some((provider, rest)) => if number <= u64::MAX {
                    Some((number as u64, provider, rest))
                } else {
                    None
                },
                None => None,
            },
            None => None,
        },
        None => None,
    }
}

/// What follows the provider in a response, with the text after it.
pub open spec fn read_response_tail(s: Seq<char>) -> Option<
    (Seq<char>, Option<Seq<char>>, Seq<char>, Seq<char>),
> {
    match expect(s, word_speaker()) {
        Some(s1) => match read_string(s1) {
            Some((speaker, s2)) => match expect(s2, word_target()) {
                Some(s3) => match read_optional(s3) {
                    Some((target, s4)) => match expect(s4, word_content()) {
                        Some(s5) => match read_string(s5) {
                            Some((content, s6)) => match expect(s6, word_close()) {
                                Some(rest) => Some((speaker, target, content, rest)),
                                None => None,
                            },
                            None => None,
                        },
                        None => None,
                    },
                    None => None,
                },
                None => None,
            },
            None => None,
        },
        None => None,
    }
}

/// What follows the provider in a failure, with the text after it.
pub open spec fn read_failure_tail(s: Seq<char>) -> Option<
    (SerializableDialogueErrorView, Seq<char>),
> {
    match expect(s, word_error()) {
        Some(s1) => match read_error(s1) {
            Some((error, s2)) => match expect(s2, word_close()) {
                Some(rest) => Some((error, rest)),
                None => None,
            },
            None => None,
        },
        None => None,
    }
}

/// A logged event at the front of `s`, with the text after it.
pub open spec fn read_event(s: Seq<char>) -> Option<
    (SerializableDialogueTelemetryEventView, Seq<char>),
> {
    match expect(s, word_response()) {
        Some(after) => match read_event_head(after) {
            Some((request_id, provider, after_head)) => match read_response_tail(after_head) {
                Some((speaker, target, content, rest)) => Some(
                    (
                        SerializableDialogueTelemetryEventView::Response {
                            request_id,
                            provider,
                            speaker,
                            target,
                            content,
                        },
                        rest,
                    ),
                ),
                None => None,
            },
            None => None,
        },
        None => match expect(s, word_failure()) {
            Some(after) => match read_event_head(after) {
                Some((request_id, provider, after_head)) => match read_failure_tail(after_head) {
                    Some((error, rest)) => Some(
                        (
                            SerializableDialogueTelemetryEventView::Failure {
                                request_id,
                                provider,
                                error,
                            },
                            rest,
                        ),
                    ),
                    None => None,
                },
                None => None,
            },
            None => None,
        },
    }
}

/// A logged record at the front of `s`, with the text after it.
pub open spec fn read_record(s: Seq<char>) -> Option<
    (SerializableDialogueTelemetryRecordView, Seq<char>),
> {
    match expect(s, word_record()) {
        Some(s1) => match read_thousandths(s1) {
            Some((millis, s2)) => match expect(s2, word_event()) {
                Some(s3) => match read_event(s3) {
                    Some((event, s4)) => match expect(s4, word_close()) {
                        Some(rest) => if millis <= u64::MAX {
                            Some(
                                (
                                    SerializableDialogueTelemetryRecordView {
                                        occurred_at_millis: millis as u64,
                                        event,
                                    },
                                    rest,
                                ),
                            )
                        } else {
                            None
                        },
                        None => None,
                    },
                    None => None,
                },
                None => None,
            },
            None => None,
        },
        None => None,
    }
}

/// The record that a line holds: the line is a record and nothing else.
pub open spec fn parse_line(line: Seq<char>) -> Option<SerializableDialogueTelemetryRecordView> {
    match read_record(line) {
        Some((record, rest)) => if rest.len() == 0 {
            Some(record)
        } else {
            None
        },
        None => None,
    }
}

fn push_error(out: &mut String, error: &SerializableDialogueError)
    ensures
        final(out)@ == old(out)@ + error_json(error@),
{
    match error {
        SerializableDialogueError::RateLimited { retry_after_millis } => {
            out.append("{\"error_kind\":\"rate_limited\",\"retry_after_seconds\":");
            let seconds = render_signed_thousandths(*retry_after_millis);
            out.append(seconds.as_str());
            out.append("}");
            assert(out@ =~= old(out)@ + error_json(error@));
        },
        SerializableDialogueError::ProviderFailure { message } => {
            out.append("{\"error_kind\":\"provider_failure\",\"message\":");
            push_quoted(out, message.as_str());
            out.append("}");
            assert(out@ =~= old(out)@ + error_json(error@));
        },
        SerializableDialogueError::ContextMissing { missing } => {
            out.append("{\"error_kind\":\"context_missing\",\"missing\":");
            push_quoted(out, missing.as_str());
            out.append("}");
            assert(out@ =~= old(out)@ + error_json(error@));
        },
    }
}

fn push_optional(out: &mut String, text: &Option<String>)
    ensures
        final(out)@ == old(out)@ + optional_json(text_view(*text)),
{
    match text {
        Some(text) => {
            push_quoted(out, text.as_str());
        },
        None => {
            out.append("null");
        },
    }
}

fn push_event(out: &mut String, event: &SerializableDialogueTelemetryEvent)
    ensures
        final(out)@ == old(out)@ + event_json(event@),
{
    match event {
        SerializableDialogueTelemetryEvent::Response {
            request_id,
            provider,
            speaker,
            target,
            content,
        } => {
            out.append("{\"event_type\":\"response\",\"request_id\":");
            let number = decimal_text(*request_id);
            out.append(number.as_str());
            out.append(",\"provider\":");
            push_quoted(out, provider.as_str());
            out.append(",\"speaker\":");
            push_quoted(out, speaker.as_str());
            out.append(",\"target\":");
            push_optional(out, target);
            out.append(",\"content\":");
            push_quoted(out, content.as_str());
            out.append("}");
            assert(out@ =~= old(out)@ + event_json(event@));
        },
        SerializableDialogueTelemetryEvent::Failure { request_id, provider, error } => {
            out.append("{\"event_type\":\"failure\",\"request_id\":");
            let number = decimal_text(*request_id);
            out.append(number.as_str());
            out.append(",\"provider\":");
            push_quoted(out, provider.as_str());
            out.append(",\"error\":");
            push_error(out, error);
            out.append("}");
            assert(out@ =~= old(out)@ + event_json(event@));
        },
    }
}

/// The line for a logged record, without a line break.
pub fn render_line(record: &SerializableDialogueTelemetryRecord) -> (line: String)
    ensures
        line@ == record_json(record@),
{
    let mut line = String::from_str("{\"occurred_at_seconds\":");
    let seconds = render_thousandths(record.occurred_at_millis);
    line.append(seconds.as_str());
    line.append(",\"event\":");
    push_event(&mut line, &record.event);
    line.append("}");
    assert(line@ =~= record_json(record@));
    line
}

fn take_error(cursor: &mut Cursor) -> (error: Option<SerializableDialogueError>)
    requires
        old(cursor).wf(),
    ensures
        final(cursor).wf(),
        match read_error(old(cursor).rest()) {
            Some((expected, rest)) => error is Some && error->0@ == expected && final(cursor).rest() == rest,
            None => error is None,
        },
{
    if cursor.take_word("{\"error_kind\":\"rate_limited\",\"retry_after_seconds\":") {
        let value = match cursor.take_signed_thousandths() {
            Some(value) => value,
            None => {
                return None;
            },
        };
        if !cursor.take_word("}") {
            return None;
        }
        Some(SerializableDialogueError::RateLimited { retry_after_millis: value })
    } else if cursor.take_word("{\"error_kind\":\"provider_failure\",\"message\":") {
        let message = match cursor.take_string() {
            Some(message) => message,
            None => {
                return None;
            },
        };
        if !cursor.take_word("}") {
            return None;
        }
        Some(SerializableDialogueError::ProviderFailure { message })
    } else if cursor.take_word("{\"error_kind\":\"context_missing\",\"missing\":") {
        let missing = match cursor.take_string() {
            Some(missing) => missing,
            None => {
                return None;
            },
        };
        if !cursor.take_word("}") {
            return None;
        }
        Some(SerializableDialogueError::ContextMissing { missing })
    } else {
        None
    }
}

fn take_optional(cursor: &mut Cursor) -> (text: Option<Option<String>>)
    requires
        old(cursor).wf(),
    ensures
        final(cursor).wf(),
        match read_optional(old(cursor).rest()) {
            Some((expected, rest)) => text is Some && text_view(text->0) == expected && final(cursor).rest() == rest,
            None => text is None,
        },
{
    if cursor.take_word("null") {
        Some(None)
    } else {
        match cursor.take_string() {
            Some(text) => Some(Some(text)),
            None => None,
        }
    }
}

fn take_event_head(cursor: &mut Cursor) -> (head: Option<(u64, String)>)
    requires
        old(cursor).wf(),
    ensures
        final(cursor).wf(),
        match read_event_head(old(cursor).rest()) {
            Some((number, provider, rest)) => head is Some && (head->0).0 == number
                && (head->0).1@ == provider && final(cursor).rest() == rest,
            None => head is None,
        },
{
    let number = match cursor.take_number() {
        Some(number) => number,
        None => {
            return None;
        },
    };
    if !cursor.take_word(",\"provider\":") {
        return None;
    }
    match cursor.take_string() {
        Some(provider) => Some((number, provider)),
        None => None,
    }
}

fn take_response_tail(cursor: &mut Cursor) -> (tail: Option<(String, Option<String>, String)>)
    requires
        old(cursor).wf(),
    ensures
        final(cursor).wf(),
        match read_response_tail(old(cursor).rest()) {
            Some((speaker, target, content, rest)) => tail is Some && (tail->0).0@ == speaker
                && text_view((tail->0).1) == target && (tail->0).2@ == content && final(cursor).rest() == rest,
            None => tail is None,
        },
{
    if !cursor.take_word(",\"speaker\":") {
        return None;
    }
    let speaker = match cursor.take_string() {
        Some(speaker) => speaker,
        None => {
            return None;
        },
    };
    if !cursor.take_word(",\"target\":") {
        return None;
    }
    let target = match take_optional(cursor) {
        Some(target) => target,
        None => {
            return None;
        },
    };
    if !cursor.take_word(",\"content\":") {
        return None;
    }
    let content = match cursor.take_string() {
        Some(content) => content,
        None => {
            return None;
        },
    };
    if !cursor.take_word("}") {
        return None;
    }
    Some((speaker, target, content))
}

fn take_failure_tail(cursor: &mut Cursor) -> (tail: Option<SerializableDialogueError>)
    requires
        old(cursor).wf(),
    ensures
        final(cursor).wf(),
        match read_failure_tail(old(cursor).rest()) {
            Some((error, rest)) => tail is Some && tail->0@ == error && final(cursor).rest()
                == rest,
            None => tail is None,
        },
{
    if !cursor.take_word(",\"error\":") {
        return None;
    }
    let error = match take_error(cursor) {
        Some(error) => error,
        None => {
            return None;
        },
    };
    if !cursor.take_word("}") {
        return None;
    }
    Some(error)
}

fn take_event(cursor: &mut Cursor) -> (event: Option<SerializableDialogueTelemetryEvent>)
    requires
        old(cursor).wf(),
    ensures
        final(cursor).wf(),
        match read_event(old(cursor).rest()) {
            Some((expected, rest)) => event is Some && event->0@ == expected && final(cursor).rest() == rest,
            None => event is None,
        },
{
    if cursor.take_word("{\"event_type\":\"response\",\"request_id\":") {
        let (request_id, provider) = match take_event_head(cursor) {
            Some(head) => head,
            None => {
                return None;
            },
        };
        match take_response_tail(cursor) {
            Some((speaker, target, content)) => Some(
                SerializableDialogueTelemetryEvent::Response {
                    request_id,
                    provider,
                    speaker,
                    target,
                    content,
                },
            ),
            None => None,
        }
    } else if cursor.take_word("{\"event_type\":\"failure\",\"request_id\":") {
        let (request_id, provider) = match take_event_head(cursor) {
            Some(head) => head,
            None => {
                return None;
            },
        };
        match take_failure_tail(cursor) {
            Some(error) => Some(
                SerializableDialogueTelemetryEvent::Failure { request_id, provider, error },
            ),
            None => None,
        }
    } else {
        None
    }
}

fn take_record(cursor: &mut Cursor) -> (record: Option<SerializableDialogueTelemetryRecord>)
    requires
        old(cursor).wf(),
    ensures
        final(cursor).wf(),
        match read_record(old(cursor).rest()) {
            Some((expected, rest)) => record is Some && record->0@ == expected && final(cursor).rest() == rest,
            None => record is None,
        },
{
    if !cursor.take_word("{\"occurred_at_seconds\":") {
        return None;
    }
    let occurred_at_millis = match cursor.take_thousandths() {
        Some(millis) => millis,
        None => {
            return None;
        },
    };
    if !cursor.take_word(",\"event\":") {
        return None;
    }
    let event = match take_event(cursor) {
        Some(event) => event,
        None => {
            return None;
        },
    };
    if !cursor.take_word("}") {
        return None;
    }
    Some(SerializableDialogueTelemetryRecord { occurred_at_millis, event })
}

/// Reads a line of the log back: the record that it holds, where it is a
/// line as `render_line` writes it, and nothing for any other text.
pub fn parse_line_text(line: &str) -> (record: Option<SerializableDialogueTelemetryRecord>)
    ensures
        match parse_line(line@) {
            Some(expected) => record is Some && record->0@ == expected,
            None => record is None,
        },
        match record {
            Some(record) => line@ == record_json(record@),
            None => forall|other: SerializableDialogueTelemetryRecordView|
                line@ != #[trigger] record_json(other),
        },
{
    let mut cursor = Cursor::new(line);
    let record = match take_record(&mut cursor) {
        Some(record) => {
            if cursor.at_end() {
                Some(record)
            } else {
                None
            }
        },
        None => None,
    };
    proof {
        if record is Some {
            lemma_line_is_read_iff_written(line@, record->0@);
        } else {
            assert forall|other: SerializableDialogueTelemetryRecordView|
                line@ != #[trigger] record_json(other) by {
                lemma_line_is_read_iff_written(line@, other);
            }
        }
    }
    record
}

/// A text that differs from `word` at some place does not start with it.
proof fn lemma_not_prefix(word: Seq<char>, s: Seq<char>, i: int)
    requires
        0 <= i < word.len(),
        i < s.len() ==> word[i] != s[i],
    ensures
        expect(s, word) is None,
{
    if word.is_prefix_of(s) {
        assert(s.subrange(0, word.len() as int)[i] == s[i]);
    }
}

/// The words that open an error differ in their sixteenth character.
proof fn lemma_error_words()
    ensures
        word_rate_limited().len() > 15,
        word_provider_failure().len() > 15,
        word_context_missing().len() > 15,
        word_rate_limited()[15] == 'r',
        word_provider_failure()[15] == 'p',
        word_context_missing()[15] == 'c',
{
    reveal_strlit("{\"error_kind\":\"rate_limited\",\"retry_after_seconds\":");
    reveal_strlit("{\"error_kind\":\"provider_failure\",\"message\":");
    reveal_strlit("{\"error_kind\":\"context_missing\",\"missing\":");
}

/// The words that open an event differ in their sixteenth character.
proof fn lemma_event_words()
    ensures
        word_response().len() > 15,
        word_failure().len() > 15,
        word_response()[15] == 'r',
        word_failure()[15] == 'f',
{
    reveal_strlit("{\"event_type\":\"response\",\"request_id\":");
    reveal_strlit("{\"event_type\":\"failure\",\"request_id\":");
}

/// The words that follow a number start with a comma, and `null` with an `n`.
proof fn lemma_word_heads()
    ensures
        word_provider().len() > 0,
        word_provider()[0] == ',',
        word_null().len() > 0,
        word_null()[0] == 'n',
{
    reveal_strlit(",\"provider\":");
    reveal_strlit("null");
}

proof fn lemma_read_error(error: SerializableDialogueErrorView, tail: Seq<char>)
    ensures
        read_error(error_json(error) + tail) == Some((error, tail)),
{
    lemma_error_words();
    let s = error_json(error) + tail;
    let end = word_close() + tail;
    lemma_expect_prefix(word_close(), tail);
    match error {
        SerializableDialogueErrorView::RateLimited { retry_after_millis } => {
            let value = signed_thousandths(retry_after_millis as int);
            assert(s =~= word_rate_limited() + (value + end));
            lemma_expect_prefix(word_rate_limited(), value + end);
            lemma_read_signed_thousandths(retry_after_millis as int, end);
        },
        SerializableDialogueErrorView::ProviderFailure { message } => {
            let text = quoted(message);
            assert(s =~= word_provider_failure() + (text + end));
            assert(s[15] == word_provider_failure()[15]);
            lemma_not_prefix(word_rate_limited(), s, 15);
            lemma_expect_prefix(word_provider_failure(), text + end);
            lemma_read_string(message, end);
        },
        SerializableDialogueErrorView::ContextMissing { missing } => {
            let text = quoted(missing);
            assert(s =~= word_context_missing() + (text + end));
            assert(s[15] == word_context_missing()[15]);
            lemma_not_prefix(word_rate_limited(), s, 15);
            lemma_not_prefix(word_provider_failure(), s, 15);
            lemma_expect_prefix(word_context_missing(), text + end);
            lemma_read_string(missing, end);
        },
    }
}

proof fn lemma_read_optional(text: Option<Seq<char>>, tail: Seq<char>)
    ensures
        read_optional(optional_json(text) + tail) == Some((text, tail)),
{
    lemma_word_heads();
    match text {
        Some(text) => {
            lemma_read_string(text, tail);
            lemma_not_prefix(word_null(), quoted(text) + tail, 0);
        },
        None => {
            lemma_expect_prefix(word_null(), tail);
        },
    }
}

proof fn lemma_read_event_head(request_id: u64, provider: Seq<char>, tail: Seq<char>)
    ensures
        read_event_head(event_head_json(request_id, provider) + tail) == Some(
            (request_id, provider, tail),
        ),
{
    lemma_word_heads();
    let s = event_head_json(request_id, provider) + tail;
    let after_number = word_provider() + (quoted(provider) + tail);
    assert(s =~= decimal(request_id as nat) + after_number);
    assert(after_number[0] == ',');
    lemma_read_number(request_id as nat, after_number);
    lemma_expect_prefix(word_provider(), quoted(provider) + tail);
    lemma_read_string(provider, tail);
}

proof fn lemma_read_response_tail(
    speaker: Seq<char>,
    target: Option<Seq<char>>,
    content: Seq<char>,
    tail: Seq<char>,
)
    ensures
        read_response_tail(response_tail_json(speaker, target, content) + tail) == Some(
            (speaker, target, content, tail),
        ),
{
    let s = response_tail_json(speaker, target, content) + tail;
    let s6 = word_close() + tail;
    let s5 = quoted(content) + s6;
    let s4 = word_content() + s5;
    let s3 = optional_json(target) + s4;
    let s2 = word_target() + s3;
    let s1 = quoted(speaker) + s2;
    assert(s =~= word_speaker() + s1);
    lemma_expect_prefix(word_speaker(), s1);
    lemma_read_string(speaker, s2);
    lemma_expect_prefix(word_target(), s3);
    lemma_read_optional(target, s4);
    lemma_expect_prefix(word_content(), s5);
    lemma_read_string(content, s6);
    lemma_expect_prefix(word_close(), tail);
}

proof fn lemma_read_failure_tail(error: SerializableDialogueErrorView, tail: Seq<char>)
    ensures
        read_failure_tail(failure_tail_json(error) + tail) == Some((error, tail)),
{
    let s = failure_tail_json(error) + tail;
    let s2 = word_close() + tail;
    let s1 = error_json(error) + s2;
    assert(s =~= word_error() + s1);
    lemma_expect_prefix(word_error(), s1);
    lemma_read_error(error, s2);
    lemma_expect_prefix(word_close(), tail);
}

proof fn lemma_read_response(
    request_id: u64,
    provider: Seq<char>,
    speaker: Seq<char>,
    target: Option<Seq<char>>,
    content: Seq<char>,
    tail: Seq<char>,
)
    ensures
        read_event(
            word_response() + event_head_json(request_id, provider) + response_tail_json(
                speaker,
                target,
                content,
            ) + tail,
        ) == Some(
            (
                SerializableDialogueTelemetryEventView::Response {
                    request_id,
                    provider,
                    speaker,
                    target,
                    content,
                },
                tail,
            ),
        ),
{
    let head = event_head_json(request_id, provider);
    let rest = response_tail_json(speaker, target, content);
    let s = word_response() + head + rest + tail;
    let after_head = rest + tail;
    let after = head + after_head;
    assert(s =~= word_response() + after);
    lemma_expect_prefix(word_response(), after);
    lemma_read_event_head(request_id, provider, after_head);
    lemma_read_response_tail(speaker, target, content, tail);
}

proof fn lemma_read_failure(
    request_id: u64,
    provider: Seq<char>,
    error: SerializableDialogueErrorView,
    tail: Seq<char>,
)
    ensures
        read_event(
            word_failure() + event_head_json(request_id, provider) + failure_tail_json(error)
                + tail,
        ) == Some(
            (SerializableDialogueTelemetryEventView::Failure { request_id, provider, error }, tail),
        ),
{
    lemma_event_words();
    let head = event_head_json(request_id, provider);
    let rest = failure_tail_json(error);
    let s = word_failure() + head + rest + tail;
    let after_head = rest + tail;
    let after = head + after_head;
    assert(s =~= word_failure() + after);
    assert(s[15] == word_failure()[15]);
    lemma_not_prefix(word_response(), s, 15);
    lemma_expect_prefix(word_failure(), after);
    lemma_read_event_head(request_id, provider, after_head);
    lemma_read_failure_tail(error, tail);
}

proof fn lemma_read_event(event: SerializableDialogueTelemetryEventView, tail: Seq<char>)
    ensures
        read_event(event_json(event) + tail) == Some((event, tail)),
{
    match event {
        SerializableDialogueTelemetryEventView::Response {
            request_id,
            provider,
            speaker,
            target,
            content,
        } => {
            lemma_read_response(request_id, provider, speaker, target, content, tail);
        },
        SerializableDialogueTelemetryEventView::Failure { request_id, provider, error } => {
            lemma_read_failure(request_id, provider, error, tail);
        },
    }
}

proof fn lemma_read_record(record: SerializableDialogueTelemetryRecordView, tail: Seq<char>)
    ensures
        read_record(record_json(record) + tail) == Some((record, tail)),
{
    let s = record_json(record) + tail;
    let s4 = word_close() + tail;
    let s3 = event_json(record.event) + s4;
    let s2 = word_event() + s3;
    let s1 = thousandths(record.occurred_at_millis as nat) + s2;
    assert(s =~= word_record() + s1);
    lemma_expect_prefix(word_record(), s1);
    lemma_read_thousandths(record.occurred_at_millis as nat, s2);
    lemma_expect_prefix(word_event(), s3);
    lemma_read_event(record.event, s4);
    lemma_expect_prefix(word_close(), tail);
}

/// Writing a logged record as a line and reading the line back gives the
/// record again: its time, request number, provider, speaker, target or the
/// absence of one, and its content or error.
pub proof fn lemma_line_round_trip(record: SerializableDialogueTelemetryRecordView)
    ensures
        parse_line(record_json(record)) == Some(record),
{
    lemma_read_record(record, Seq::empty());
    assert(record_json(record) + Seq::<char>::empty() =~= record_json(record));
}

/// Reading back the line of a telemetry record gives the record as the log
/// holds it: the request number, the provider's name, the speaker's label,
/// the target's label or its absence, and the content or the error.
pub proof fn lemma_telemetry_round_trip(record: DialogueTelemetryRecordView)
    ensures
        parse_line(line_for(record)) == Some(serializable_record(record)),
{
    lemma_line_round_trip(serializable_record(record));
}

proof fn lemma_read_error_only(s: Seq<char>)
    requires
        read_error(s) is Some,
    ensures
        s == error_json((read_error(s)->0).0) + (read_error(s)->0).1,
{
    let (error, rest) = read_error(s)->0;
    if expect(s, word_rate_limited()) is Some {
        let after = expect(s, word_rate_limited())->0;
        lemma_expect_only(s, word_rate_limited());
        lemma_read_signed_thousandths_only(after);
        let after_value = (read_signed_thousandths(after)->0).1;
        lemma_expect_only(after_value, word_close());
        assert(s =~= error_json(error) + rest);
    } else if expect(s, word_provider_failure()) is Some {
        let after = expect(s, word_provider_failure())->0;
        lemma_expect_only(s, word_provider_failure());
        lemma_read_string_only(after);
        let after_text = (read_string(after)->0).1;
        lemma_expect_only(after_text, word_close());
        assert(s =~= error_json(error) + rest);
    } else {
        let after = expect(s, word_context_missing())->0;
        lemma_expect_only(s, word_context_missing());
        lemma_read_string_only(after);
        let after_text = (read_string(after)->0).1;
        lemma_expect_only(after_text, word_close());
        assert(s =~= error_json(error) + rest);
    }
}

proof fn lemma_read_optional_only(s: Seq<char>)
    requires
        read_optional(s) is Some,
    ensures
        s == optional_json((read_optional(s)->0).0) + (read_optional(s)->0).1,
{
    if expect(s, word_null()) is Some {
        lemma_expect_only(s, word_null());
    } else {
        lemma_read_string_only(s);
    }
}

proof fn lemma_read_event_head_only(s: Seq<char>)
    requires
        read_event_head(s) is Some,
    ensures
        s == event_head_json((read_event_head(s)->0).0, (read_event_head(s)->0).1) + (
        read_event_head(s)->0).2,
{
    let (request_id, provider, rest) = read_event_head(s)->0;
    lemma_read_number_only(s);
    let after_number = (read_number(s)->0).1;
    lemma_expect_only(after_number, word_provider());
    let after_word = expect(after_number, word_provider())->0;
    lemma_read_string_only(after_word);
    assert(s =~= event_head_json(request_id, provider) + rest);
}

/// Joining three texts gives the same text however the joins are grouped.
proof fn lemma_regroup(prefix: Seq<char>, piece: Seq<char>, rest: Seq<char>)
    ensures
        prefix + (piece + rest) == (prefix + piece) + rest,
{
    assert(prefix + (piece + rest) =~= (prefix + piece) + rest);
}

proof fn lemma_read_response_tail_only(s: Seq<char>)
    requires
        read_response_tail(s) is Some,
    ensures
        s == response_tail_json(
            (read_response_tail(s)->0).0,
            (read_response_tail(s)->0).1,
            (read_response_tail(s)->0).2,
        ) + (read_response_tail(s)->0).3,
{
    let (speaker, target, content, rest) = read_response_tail(s)->0;
    lemma_expect_only(s, word_speaker());
    let s1 = expect(s, word_speaker())->0;
    lemma_read_string_only(s1);
    let s2 = (read_string(s1)->0).1;
    lemma_expect_only(s2, word_target());
    let s3 = expect(s2, word_target())->0;
    lemma_read_optional_only(s3);
    let s4 = (read_optional(s3)->0).1;
    lemma_expect_only(s4, word_content());
    let s5 = expect(s4, word_content())->0;
    lemma_read_string_only(s5);
    let s6 = (read_string(s5)->0).1;
    lemma_expect_only(s6, word_close());
    let joined1 = word_speaker();
    let joined2 = joined1 + quoted(speaker);
    let joined3 = joined2 + word_target();
    let joined4 = joined3 + optional_json(target);
    let joined5 = joined4 + word_content();
    let joined6 = joined5 + quoted(content);
    let joined7 = joined6 + word_close();
    assert(s == joined1 + s1);
    assert(s == joined2 + s2) by {
        lemma_regroup(joined1, quoted(speaker), s2);
    }
    assert(s == joined3 + s3) by {
        lemma_regroup(joined2, word_target(), s3);
    }
    assert(s == joined4 + s4) by {
        lemma_regroup(joined3, optional_json(target), s4);
    }
    assert(s == joined5 + s5) by {
        lemma_regroup(joined4, word_content(), s5);
    }
    assert(s == joined6 + s6) by {
        lemma_regroup(joined5, quoted(content), s6);
    }
    assert(s == joined7 + rest) by {
        lemma_regroup(joined6, word_close(), rest);
    }
    assert(joined7 == response_tail_json(speaker, target, content));
}

proof fn lemma_read_failure_tail_only(s: Seq<char>)
    requires
        read_failure_tail(s) is Some,
    ensures
        s == failure_tail_json((read_failure_tail(s)->0).0) + (read_failure_tail(s)->0).1,
{
    let (error, rest) = read_failure_tail(s)->0;
    lemma_expect_only(s, word_error());
    let s1 = expect(s, word_error())->0;
    lemma_read_error_only(s1);
    let s2 = (read_error(s1)->0).1;
    lemma_expect_only(s2, word_close());
    assert(s =~= failure_tail_json(error) + rest);
}

proof fn lemma_read_event_only(s: Seq<char>)
    requires
        read_event(s) is Some,
    ensures
        s == event_json((read_event(s)->0).0) + (read_event(s)->0).1,
{
    let (event, rest) = read_event(s)->0;
    if expect(s, word_response()) is Some {
        lemma_expect_only(s, word_response());
        let after = expect(s, word_response())->0;
        lemma_read_event_head_only(after);
        let (request_id, provider, after_head) = read_event_head(after)->0;
        lemma_read_response_tail_only(after_head);
        let (speaker, target, content, end) = read_response_tail(after_head)->0;
        let head = event_head_json(request_id, provider);
        let tail = response_tail_json(speaker, target, content);
        assert(end == rest);
        assert(s == word_response() + (head + after_head));
        assert(s == (word_response() + head) + after_head) by {
            lemma_regroup(word_response(), head, after_head);
        }
        assert(s == ((word_response() + head) + tail) + rest) by {
            lemma_regroup(word_response() + head, tail, rest);
        }
    } else {
        lemma_expect_only(s, word_failure());
        let after = expect(s, word_failure())->0;
        lemma_read_event_head_only(after);
        let (request_id, provider, after_head) = read_event_head(after)->0;
        lemma_read_failure_tail_only(after_head);
        let (error, end) = read_failure_tail(after_head)->0;
        let head = event_head_json(request_id, provider);
        let tail = failure_tail_json(error);
        assert(end == rest);
        assert(s == word_failure() + (head + after_head));
        assert(s == (word_failure() + head) + after_head) by {
            lemma_regroup(word_failure(), head, after_head);
        }
        assert(s == ((word_failure() + head) + tail) + rest) by {
            lemma_regroup(word_failure() + head, tail, rest);
        }
    }
}

proof fn lemma_read_record_only(s: Seq<char>)
    requires
        read_record(s) is Some,
    ensures
        s == record_json((read_record(s)->0).0) + (read_record(s)->0).1,
{
    let (record, rest) = read_record(s)->0;
    lemma_expect_only(s, word_record());
    let s1 = expect(s, word_record())->0;
    lemma_read_thousandths_only(s1);
    let s2 = (read_thousandths(s1)->0).1;
    lemma_expect_only(s2, word_event());
    let s3 = expect(s2, word_event())->0;
    lemma_read_event_only(s3);
    let s4 = (read_event(s3)->0).1;
    lemma_expect_only(s4, word_close());
    assert(s3 =~= event_json(record.event) + (word_close() + rest));
    assert(s =~= record_json(record) + rest);
}

/// A line is read as a record exactly where it is the line written for
/// that record: reading accepts the written form and nothing else.
pub proof fn lemma_line_is_read_iff_written(
    line: Seq<char>,
    record: SerializableDialogueTelemetryRecordView,
)
    ensures
        parse_line(line) == Some(record) <==> line == record_json(record),
{
    lemma_line_round_trip(record);
    if parse_line(line) == Some(record) {
        lemma_read_record_only(line);
        assert(record_json(record) + Seq::<char>::empty() =~= record_json(record));
    }
}

} // verus!
