//! Errors that processing a dialogue request can end in.
use vstd::prelude::*;

use crate::broker::{provider_label, DialogueProviderKind};
use crate::decimal::{render_seconds_to_two_places, seconds_to_two_places};
use crate::text::{decimal, decimal_text};
use crate::types::DialogueRequestId;

verus! {

/// Context sources whose absence makes a provider reject a request.
#[derive(Debug, Clone, Copy, PartialEq, Eq, Hash, Structural)]
pub enum DialogueContextSource {
    TradeHistory,
    ScheduleState,
    InventoryState,
}

/// The words that name a context source.
pub open spec fn context_source_label(source: DialogueContextSource) -> Seq<char> {
    match source {
        DialogueContextSource::TradeHistory => "trade history"@,
        DialogueContextSource::ScheduleState => "schedule state"@,
        DialogueContextSource::InventoryState => "inventory state"@,
    }
}

impl DialogueContextSource {
    /// The words that name this context source.
    pub fn label(self) -> (s: String)
        ensures
            s@ == context_source_label(self),
    {
        match self {
            DialogueContextSource::TradeHistory => String::from_str("trade history"),
            DialogueContextSource::ScheduleState => String::from_str("schedule state"),
            DialogueContextSource::InventoryState => String::from_str("inventory state"),
        }
    }
}

/// Error categories returned when processing dialogue requests.
#[derive(Debug)]
pub enum DialogueErrorKind {
    RateLimited { retry_after_millis: i64 },
    ProviderFailure { message: String },
    ContextMissing { missing: DialogueContextSource },
}

pub enum DialogueErrorKindView {
    RateLimited { retry_after_millis: i64 },
    ProviderFailure { message: Seq<char> },
    ContextMissing { missing: DialogueContextSource },
}

impl View for DialogueErrorKind {
    type V = DialogueErrorKindView;

    open spec fn view(&self) -> DialogueErrorKindView {
        match self {
            DialogueErrorKind::RateLimited { retry_after_millis } => {
                DialogueErrorKindView::RateLimited { retry_after_millis: *retry_after_millis }
            },
            DialogueErrorKind::ProviderFailure { message } => {
                DialogueErrorKindView::ProviderFailure { message: message@ }
            },
            DialogueErrorKind::ContextMissing { missing } => {
                DialogueErrorKindView::ContextMissing { missing: *missing }
            },
        }
    }
}

/// The sentence that describes an error kind.
pub open spec fn error_kind_text(kind: DialogueErrorKindView) -> Seq<char> {
    match kind {
        DialogueErrorKindView::RateLimited { retry_after_millis } => {
            "Rate limited. Retry after "@ + seconds_to_two_places(retry_after_millis as int) + "s"@
        },
        DialogueErrorKindView::ProviderFailure { message } => "Provider failure: "@ + message,
        DialogueErrorKindView::ContextMissing { missing } => {
            "Missing context: "@ + context_source_label(missing)
        },
    }
}

impl DialogueErrorKind {
    pub fn rate_limited(retry_after_millis: i64) -> (kind: Self)
        ensures
            kind@ == (DialogueErrorKindView::RateLimited { retry_after_millis }),
    {
        DialogueErrorKind::RateLimited { retry_after_millis }
    }

    pub fn provider_failure(message: &str) -> (kind: Self)
        ensures
            kind@ == (DialogueErrorKindView::ProviderFailure { message: message@ }),
    {
        DialogueErrorKind::ProviderFailure { message: String::from_str(message) }
    }

    pub fn context_missing(missing: DialogueContextSource) -> (kind: Self)
        ensures
            kind@ == (DialogueErrorKindView::ContextMissing { missing }),
    {
        DialogueErrorKind::ContextMissing { missing }
    }

    /// The sentence that describes this error kind.
    pub fn describe(&self) -> (s: String)
        ensures
            s@ == error_kind_text(self@),
    {
        match self {
            DialogueErrorKind::RateLimited { retry_after_millis } => {
                let mut s = String::from_str("Rate limited. Retry after ");
                let seconds = render_seconds_to_two_places(*retry_after_millis);
                s.append(seconds.as_str());
                s.append("s");
                s
            },
            DialogueErrorKind::ProviderFailure { message } => {
                let mut s = String::from_str("Provider failure: ");
                s.append(message.as_str());
                s
            },
            DialogueErrorKind::ContextMissing { missing } => {
                let mut s = String::from_str("Missing context: ");
                let label = missing.label();
                s.append(label.as_str());
                s
            },
        }
    }
}

impl Clone for DialogueErrorKind {
    fn clone(&self) -> (copy: Self)
        ensures
            copy@ == self@,
    {
        match self {
            DialogueErrorKind::RateLimited { retry_after_millis } => {
                DialogueErrorKind::RateLimited { retry_after_millis: *retry_after_millis }
            },
            DialogueErrorKind::ProviderFailure { message } => {
                DialogueErrorKind::ProviderFailure { message: message.clone() }
            },
            DialogueErrorKind::ContextMissing { missing } => {
                DialogueErrorKind::ContextMissing { missing: *missing }
            },
        }
    }
}

/// An error kind with the request it belongs to and the provider that raised it.
#[derive(Debug)]
pub struct DialogueError {
    pub request_id: DialogueRequestId,
    pub provider: DialogueProviderKind,
    pub kind: DialogueErrorKind,
}

pub struct DialogueErrorView {
    pub request_id: DialogueRequestId,
    pub provider: DialogueProviderKind,
    pub kind: DialogueErrorKindView,
}

impl View for DialogueError {
    type V = DialogueErrorView;

    open spec fn view(&self) -> DialogueErrorView {
        DialogueErrorView {
            request_id: self.request_id,
            provider: self.provider,
            kind: self.kind@,
        }
    }
}

/// The sentence that describes an error.
pub open spec fn error_text(error: DialogueErrorView) -> Seq<char> {
    "Dialogue error ("@ + provider_label(error.provider) + " - request "@ + decimal(
        error.request_id.0 as nat,
    ) + "): "@ + error_kind_text(error.kind)
}

impl DialogueError {
    pub fn new(
        request_id: DialogueRequestId,
        provider: DialogueProviderKind,
        kind: DialogueErrorKind,
    ) -> (error: Self)
        ensures
            error@ == (DialogueErrorView { request_id, provider, kind: kind@ }),
            error.kind == kind,
    {
        Self { request_id, provider, kind }
    }

    /// The sentence that describes this error.
    pub fn describe(&self) -> (s: String)
        ensures
            s@ == error_text(self@),
    {
        let mut s = String::from_str("Dialogue error (");
        let provider = self.provider.label();
        s.append(provider.as_str());
        s.append(" - request ");
        let number = decimal_text(self.request_id.value());
        s.append(number.as_str());
        s.append("): ");
        let kind = self.kind.describe();
        s.append(kind.as_str());
        s
    }
}

impl Clone for DialogueError {
    fn clone(&self) -> (copy: Self)
        ensures
            copy@ == self@,
    {
        Self { request_id: self.request_id, provider: self.provider, kind: self.kind.clone() }
    }
}

} // verus!
