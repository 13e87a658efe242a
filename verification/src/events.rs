//! Notifications raised by the dialogue queue runner.
use vstd::prelude::*;

use crate::errors::DialogueError;
use crate::types::DialogueResponse;

verus! {

/// Raised when a dialogue request succeeds.
#[derive(Debug)]
pub struct DialogueResponseEvent {
    pub response: DialogueResponse,
}

impl Clone for DialogueResponseEvent {
    fn clone(&self) -> (copy: Self)
        ensures
            copy.response@ == self.response@,
    {
        Self { response: self.response.clone() }
    }
}

/// Raised when a dialogue request fails after its retries are used up.
#[derive(Debug)]
pub struct DialogueRequestFailedEvent {
    pub error: DialogueError,
}

impl Clone for DialogueRequestFailedEvent {
    fn clone(&self) -> (copy: Self)
        ensures
            copy.error@ == self.error@,
    {
        Self { error: self.error.clone() }
    }
}

} // verus!
