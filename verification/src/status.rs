//! Which broker is active and how it is connected.
use vstd::prelude::*;

use crate::broker::{provider_label, DialogueProviderKind};

verus! {

/// Connection state of the active dialogue broker.
#[derive(Debug, Clone, Copy, PartialEq, Eq, Structural)]
pub enum DialogueConnectionState {
    Live,
    Fallback,
}

/// The word that names a connection state.
pub open spec fn connection_label(state: DialogueConnectionState) -> Seq<char> {
    match state {
        DialogueConnectionState::Live => "live"@,
        DialogueConnectionState::Fallback => "fallback"@,
    }
}

impl DialogueConnectionState {
    /// The word that names this state in logs.
    pub fn label(self) -> (s: &'static str)
        ensures
            s@ == connection_label(self),
    {
        match self {
            DialogueConnectionState::Live => "live",
            DialogueConnectionState::Fallback => "fallback",
        }
    }
}

/// The currently active dialogue broker.
#[derive(Debug, Clone, Copy)]
pub struct DialogueBrokerStatus {
    provider: DialogueProviderKind,
    connection_state: DialogueConnectionState,
}

impl DialogueBrokerStatus {
    /// The provider this status was made with.
    pub closed spec fn spec_provider(&self) -> DialogueProviderKind {
        self.provider
    }

    /// The connection state this status was made with.
    pub closed spec fn spec_connection_state(&self) -> DialogueConnectionState {
        self.connection_state
    }

    pub fn new(provider: DialogueProviderKind, connection_state: DialogueConnectionState) -> (status:
        Self)
        ensures
            status.spec_provider() == provider,
            status.spec_connection_state() == connection_state,
    {
        Self { provider, connection_state }
    }

    pub fn provider(&self) -> (provider: DialogueProviderKind)
        ensures
            provider == self.spec_provider(),
    {
        self.provider
    }

    pub fn connection_state(&self) -> (state: DialogueConnectionState)
        ensures
            state == self.spec_connection_state(),
    {
        self.connection_state
    }

    pub fn connection_label(&self) -> (s: &'static str)
        ensures
            s@ == connection_label(self.spec_connection_state()),
    {
        self.connection_state.label()
    }

    pub fn to_snapshot(&self) -> (snapshot: DialogueBrokerStatusSnapshot)
        ensures
            snapshot.provider@ == provider_label(self.spec_provider()),
            snapshot.connection_state == self.spec_connection_state(),
    {
        DialogueBrokerStatusSnapshot {
            provider: self.provider.label(),
            connection_state: self.connection_state,
        }
    }
}

/// A broker status with the provider written out, as it is logged.
#[derive(Debug)]
pub struct DialogueBrokerStatusSnapshot {
    pub provider: String,
    pub connection_state: DialogueConnectionState,
}

impl Clone for DialogueBrokerStatusSnapshot {
    fn clone(&self) -> (copy: Self)
        ensures
            copy.provider@ == self.provider@,
            copy.connection_state == self.connection_state,
    {
        Self { provider: self.provider.clone(), connection_state: self.connection_state }
    }
}

} // verus!
