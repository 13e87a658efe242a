//! The dialogue broker: provider kinds, configuration and the OpenAI-backed broker.
use vstd::prelude::*;

pub mod config;
pub mod openai;

pub use openai::{DialogueBroker, OpenAiDialogueBroker};

verus! {

/// Dialogue provider flavours requests can be routed to.
#[derive(Debug, Clone, Copy, PartialEq, Eq, Hash, Structural)]
pub enum DialogueProviderKind {
    OpenAi,
}

/// The name under which a provider is shown and logged.
pub open spec fn provider_label(kind: DialogueProviderKind) -> Seq<char> {
    match kind {
        DialogueProviderKind::OpenAi => "OpenAi"@,
    }
}

impl DialogueProviderKind {
    /// The name under which this provider is shown and logged.
    pub fn label(self) -> (s: String)
        ensures
            s@ == provider_label(self),
    {
        match self {
            DialogueProviderKind::OpenAi => String::from_str("OpenAi"),
        }
    }
}

} // verus!
