use vstd::prelude::*;

verus! {

/// Handle to the agent engine that owns a conversation's submission and
/// event streams.  The engine itself (an asynchronous, I/O-bound
/// collaborator) is outside this library; the handle is reduced here to the
/// conversation identifier it serves.
#[derive(Debug, Clone, Copy, PartialEq, Eq, Structural)]
pub struct Codex {
    pub conversation_id: u128,
}

/// Conduit for the bidirectional stream of messages that compose one
/// conversation.  The facade only stores the engine handle; the message
/// traffic itself is driven by the surrounding program.
pub struct CodexConversation {
    icodex: Codex,
}

impl CodexConversation {
    /// The engine handle this conversation speaks through.
    pub closed spec fn engine(&self) -> Codex {
        self.icodex
    }

    /// Wraps an engine handle as a conversation.
    pub fn new(icodex: Codex) -> (c: CodexConversation)
        ensures
            c.engine() == icodex,
    {
        CodexConversation { icodex }
    }
}

} // verus!
