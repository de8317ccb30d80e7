//! The node-attach protocol: what a client attached to a running node sends and is
//! sent (as internally tagged JSON, one message per WebSocket text frame), and the
//! outcome of one evaluation in a REPL session.

use vstd::prelude::*;

verus! {

/// One live process, as a client sees it.
#[derive(Debug, Clone, PartialEq, Eq)]
pub struct ProcessInfo {
    pub pid: u64,
    pub label: Option<String>,
    pub names: Vec<String>,
    pub links: usize,
    pub monitors: usize,
    pub mailbox_depth: usize,
    pub trap_exit: bool,
}

/// A point-in-time view of the whole node.
#[derive(Debug, Clone, PartialEq, Eq)]
pub struct NodeSnapshot {
    pub uptime_ms: u64,
    pub process_count: usize,
    pub processes: Vec<ProcessInfo>,
}

/// What a client sends.
#[derive(Debug, Clone, PartialEq, Eq)]
pub enum ClientCommand {
    /// Turn per-process detail in snapshots on or off.
    SetDetail { enabled: bool },
    /// Evaluate `code` in this connection's REPL session.
    Eval { code: String },
}

/// What the node sends.
#[derive(Debug, Clone, PartialEq, Eq)]
pub enum ServerMessage {
    /// The greeting, naming the node.
    Hello { node: String },
    /// A snapshot of the node.
    Snapshot { snapshot: NodeSnapshot },
    /// A refused command.
    Error { message: String },
    /// The outcome of an `Eval`: the value's text, what the code printed, and the
    /// error, if it failed.
    EvalResult { value: String, output: Vec<String>, error: Option<String> },
}

impl ServerMessage {
    /// The snapshot, if this is a `Snapshot`.
    pub fn snapshot(&self) -> (r: Option<&NodeSnapshot>)
        ensures
            match self {
                ServerMessage::Snapshot { snapshot } => r == Some(snapshot),
                _ => r is None,
            },
    {
        match self {
            ServerMessage::Snapshot { snapshot } => Some(snapshot),
            _ => None,
        }
    }

    /// The node's name, if this is a `Hello`.
    pub fn node(&self) -> (r: Option<&str>)
        ensures
            match self {
                ServerMessage::Hello { node } => r matches Some(n) && n@ == node@,
                _ => r is None,
            },
    {
        match self {
            ServerMessage::Hello { node } => Some(node.as_str()),
            _ => None,
        }
    }
}

/// The outcome of evaluating one snippet: the value's text, what it printed, and the
/// error message if it failed.
#[derive(Debug, Clone, PartialEq, Eq)]
pub struct EvalOutcome {
    pub value: String,
    pub output: Vec<String>,
    pub error: Option<String>,
}

impl Default for EvalOutcome {
    fn default() -> (o: Self)
        ensures
            o.value@ == Seq::<char>::empty(),
            o.output@ == Seq::<String>::empty(),
            o.error is None,
    {
        EvalOutcome { value: String::new(), output: Vec::new(), error: None }
    }
}

impl EvalOutcome {
    /// An outcome that carries only `message` as its error.
    pub fn from_error(message: &str) -> (o: Self)
        ensures
            o.value@ == Seq::<char>::empty(),
            o.output@ == Seq::<String>::empty(),
            o.error matches Some(e) && e@ == message@,
    {
        EvalOutcome { value: String::new(), output: Vec::new(), error: Some(message.to_owned()) }
    }

    /// The `EvalResult` message that reports this outcome, field for field.
    pub fn into_message(self) -> (m: ServerMessage)
        ensures
            m == (ServerMessage::EvalResult {
                value: self.value,
                output: self.output,
                error: self.error,
            }),
    {
        ServerMessage::EvalResult { value: self.value, output: self.output, error: self.error }
    }
}

} // verus!
