//! The decisions a guest's per-connection serve loop makes: which process writes to
//! the client (the first message names it), and whether a message is the monitor
//! notice that the client has gone.

use vstd::prelude::*;
use vstd::utf8::*;
use crate::actor::Pid;
use crate::outside::json::{json_str_member, str_member};
use crate::outside::utf8::str_from_utf8;
use crate::text::{chars_of, parse_u64, parse_u64_spec, starts_with, trim, trim_bounds};

verus! {

/// The bytes every monitor notice starts with: `{"__down":`.
pub open spec fn down_prefix() -> Seq<u8> {
    seq![123u8, 34, 95, 95, 100, 111, 119, 110, 34, 58]
}

/// The member naming the dead process: `__down`.
pub open spec fn down_key() -> Seq<char> {
    seq!['_', '_', 'd', 'o', 'w', 'n']
}

/// The process a monitor notice reports dead: a message that starts with
/// `{"__down":` and is a JSON object whose `__down` member is a decimal pid.
pub open spec fn down_pid_spec(msg: Seq<u8>) -> Option<Pid> {
    if !starts_with(msg, down_prefix()) {
        None
    } else {
        match json_str_member(msg, down_key()) {
            None => None,
            Some(s) => match parse_u64_spec(s) {
                Some(v) => Some(Pid(v)),
                None => None,
            },
        }
    }
}

/// Parse a monitor `__down` message (`{"__down":"<pid>","reason":...}`) into the dead
/// process's pid, or `None` for an ordinary message. Ordinary messages fail the prefix
/// check and are never parsed.
pub fn down_pid(msg: &[u8]) -> (r: Option<Pid>)
    ensures
        r == down_pid_spec(msg@),
{
    let prefix: [u8; 10] = [123u8, 34, 95, 95, 100, 111, 119, 110, 34, 58];
    if msg.len() < 10 {
        return None;
    }
    let mut i: usize = 0;
    while i < 10
        invariant
            i <= 10,
            msg@.len() >= 10,
            prefix@ == down_prefix(),
            forall|j: int| 0 <= j < i ==> msg@[j] == down_prefix()[j],
        decreases 10 - i,
    {
        if msg[i] != prefix[i] {
            assert(msg@.subrange(0, 10)[i as int] == msg@[i as int]);
            assert(msg@.subrange(0, 10) != down_prefix());
            return None;
        }
        i = i + 1;
    }
    assert(msg@.subrange(0, 10) =~= down_prefix());
    let key = "__down";
    proof {
        reveal_strlit("__down");
        assert(key@ =~= down_key());
    }
    match str_member(msg, key) {
        None => None,
        Some(s) => match parse_u64(s.as_str()) {
            Some(v) => Some(Pid(v)),
            None => None,
        },
    }
}

/// The writer named by a connection's first message: its text, trimmed, as a
/// decimal pid; pid 0 when it is not UTF-8 or not a number.
pub open spec fn writer_pid_spec(hello: Seq<u8>) -> Pid {
    if valid_utf8(hello) {
        match parse_u64_spec(trim(decode_utf8(hello))) {
            Some(v) => Pid(v),
            None => Pid(0),
        }
    } else {
        Pid(0)
    }
}

/// The process that writes to this connection's client, from the first message the
/// host sends a per-connection handler.
pub fn writer_pid(hello: &[u8]) -> (r: Pid)
    ensures
        r == writer_pid_spec(hello@),
{
    match str_from_utf8(hello) {
        None => Pid(0),
        Some(text) => {
            let cs = chars_of(text);
            let (a, b) = trim_bounds(&cs, 0, cs.len());
            assert(cs@.subrange(0, cs@.len() as int) =~= cs@);
            match parse_u64(text.substring_char(a, b)) {
                Some(v) => Pid(v),
                None => Pid(0),
            }
        },
    }
}

/// What a per-connection handler does with the next message.
#[derive(Debug, PartialEq, Eq)]
pub enum ConnEvent {
    /// The writer process died: the client is gone, so the handler closes.
    Closed,
    /// An ordinary message for the handler.
    Message(Vec<u8>),
}

/// Classify the next message of a connection whose writer is `writer`: the monitor
/// notice for the writer closes the connection; anything else is handed on unchanged.
pub fn next_event(writer: Pid, data: Vec<u8>) -> (e: ConnEvent)
    ensures
        down_pid_spec(data@) == Some(writer) ==> e is Closed,
        down_pid_spec(data@) != Some(writer) ==> (e matches ConnEvent::Message(m) && m@ == data@),
{
    match down_pid(data.as_slice()) {
        Some(p) => if p.0 == writer.0 {
            ConnEvent::Closed
        } else {
            ConnEvent::Message(data)
        },
        None => ConnEvent::Message(data),
    }
}

/// Where a guest's per-connection serve loop stands.
#[derive(Clone, Copy, Debug, PartialEq, Eq, Structural)]
pub enum LoopState {
    /// Dispatching messages to the handler.
    Running,
    /// The handler's `close` has run; the loop has returned.
    Finished,
}

/// What the serve loop saw next.
pub enum LoopEvent {
    /// The handler closed its stream itself.
    StreamClosed,
    /// A message arrived.
    Received(Vec<u8>),
}

/// What the serve loop does.
#[derive(Debug, PartialEq, Eq)]
pub enum LoopAction {
    /// Hand the message to the handler's `message`.
    Message(Vec<u8>),
    /// Run the handler's `close` and return.
    Close,
    /// Nothing: the loop has already returned.
    Stop,
}

/// Whether a step from `state` on some event runs `close`, and the state it leaves.
pub open spec fn closes(state: LoopState, stream_closed: bool, writer_down: bool) -> (LoopState, bool) {
    match state {
        LoopState::Finished => (LoopState::Finished, false),
        LoopState::Running => if stream_closed || writer_down {
            (LoopState::Finished, true)
        } else {
            (LoopState::Running, false)
        },
    }
}

/// One step of a guest's serve loop over a connection whose writer is `writer`: while
/// running, an ordinary message goes to the handler, and the writer's monitor notice
/// (the client left) or the handler closing its stream runs `close` and ends the loop;
/// once finished nothing more happens, so `close` runs exactly once.
pub fn loop_step(state: LoopState, writer: Pid, event: LoopEvent) -> (r: (LoopState, LoopAction))
    ensures
        (r.0, r.1 is Close) == closes(
            state,
            event is StreamClosed,
            event matches LoopEvent::Received(d) && down_pid_spec(d@) == Some(writer),
        ),
        state is Finished ==> r.1 is Stop,
        state is Running ==> match event {
            LoopEvent::Received(d) => down_pid_spec(d@) != Some(writer) ==> (r.1 matches LoopAction::Message(
                m,
            ) && m@ == d@),
            LoopEvent::StreamClosed => true,
        },
        state is Running ==> !(r.1 is Stop),
{
    match state {
        LoopState::Finished => (LoopState::Finished, LoopAction::Stop),
        LoopState::Running => match event {
            LoopEvent::StreamClosed => (LoopState::Finished, LoopAction::Close),
            LoopEvent::Received(d) => match next_event(writer, d) {
                ConnEvent::Closed => (LoopState::Finished, LoopAction::Close),
                ConnEvent::Message(m) => (LoopState::Running, LoopAction::Message(m)),
            },
        },
    }
}

/// How many times `close` runs over a loop's run from `state`, each step given as
/// whether the stream was closed and whether the message was the writer's notice.
pub open spec fn close_count(state: LoopState, steps: Seq<(bool, bool)>) -> nat
    decreases steps.len(),
{
    if steps.len() == 0 {
        0
    } else {
        let (next, ran) = closes(state, steps[0].0, steps[0].1);
        (if ran { 1nat } else { 0nat }) + close_count(next, steps.subrange(1, steps.len() as int))
    }
}

/// Law: over any run of a serve loop, the handler's `close` runs at most once, and
/// not at all once the loop has finished.
pub proof fn law_close_runs_at_most_once(state: LoopState, steps: Seq<(bool, bool)>)
    ensures
        close_count(state, steps) <= 1,
        state is Finished ==> close_count(state, steps) == 0,
    decreases steps.len(),
{
    if steps.len() > 0 {
        let (next, ran) = closes(state, steps[0].0, steps[0].1);
        law_close_runs_at_most_once(next, steps.subrange(1, steps.len() as int));
    }
}

} // verus!
