use vstd::prelude::*;

verus! {

/// Identifies a thread by the canonical text of its UUID.
#[derive(Debug)]
pub struct ThreadId {
    pub text: String,
}

impl ThreadId {
    pub fn new(text: String) -> (id: ThreadId)
        ensures
            id.text@ == text@,
    {
        ThreadId { text }
    }

    /// A copy of this identifier.
    pub fn duplicate(&self) -> (id: ThreadId)
        ensures
            id.text@ == self.text@,
    {
        ThreadId { text: self.text.clone() }
    }
}

/// The ways a thread-store request can be refused.
#[derive(Debug)]
pub enum ThreadStoreError {
    /// The request cannot be served as asked, with the reason.
    InvalidRequest { message: String },
    /// No thread with this identifier is stored in the workspace.
    ThreadNotFound { thread_id: ThreadId },
    /// The backing service failed, with its message.
    Internal { message: String },
    /// The store does not offer this operation.
    Unsupported { operation: String },
}

/// The ways an agent-graph request can be refused.
#[derive(Debug)]
pub enum AgentGraphStoreError {
    /// The backing service failed, with its message.
    Internal { message: String },
}

/// A failure of the backing service, carried with its message.
pub fn internal_error(message: String) -> (e: ThreadStoreError)
    ensures
        e matches ThreadStoreError::Internal { message: m } && m@ == message@,
{
    ThreadStoreError::Internal { message }
}

/// A failure of the backing service while serving the agent graph.
pub fn agent_graph_error(message: String) -> (e: AgentGraphStoreError)
    ensures
        e matches AgentGraphStoreError::Internal { message: m } && m@ == message@,
{
    AgentGraphStoreError::Internal { message }
}

} // verus!
