//! The life of one served connection: whether a listener admits it under its
//! connection cap, the first messages its handler receives, and how the handler and
//! its writer are torn down when the connection ends.

use vstd::prelude::*;
use crate::actor::Pid;
use crate::sse::{decimal, push_decimal};

verus! {

// ── Connection cap ───────────────────────────────────────────────────────────

/// A listener's count of live connections under its optional cap. A connection takes
/// a slot before its handshake and gives it back when it ends, so the cap bounds live
/// connections, not just handshakes in flight. Without a cap nothing is counted.
pub struct ConnectionLimit {
    max: Option<usize>,
    live: usize,
}

/// Whether a listener with cap `max` and `live` connections admits one more.
pub open spec fn admits(max: Option<usize>, live: nat) -> bool {
    match max {
        None => true,
        Some(m) => live < m,
    }
}

impl ConnectionLimit {
    /// The cap.
    pub closed spec fn spec_max(&self) -> Option<usize> {
        self.max
    }

    /// The live connections counted against the cap.
    pub closed spec fn spec_live(&self) -> nat {
        self.live as nat
    }

    #[verifier::type_invariant]
    closed spec fn within_cap(&self) -> bool {
        match self.max {
            None => self.live == 0,
            Some(m) => self.live <= m,
        }
    }

    /// No connection yet, under cap `max`.
    pub fn new(max: Option<usize>) -> (l: Self)
        ensures
            l.spec_max() == max,
            l.spec_live() == 0,
    {
        ConnectionLimit { max, live: 0 }
    }

    /// The cap.
    pub fn max(&self) -> (r: Option<usize>)
        ensures
            r == self.spec_max(),
    {
        self.max
    }

    /// The live connections counted against the cap (always 0 without a cap).
    pub fn live(&self) -> (r: usize)
        ensures
            r == self.spec_live(),
            self.spec_max() matches Some(m) ==> r <= m,
            self.spec_max() is None ==> r == 0,
    {
        proof {
            use_type_invariant(self);
        }
        self.live
    }

    /// A new connection arrives: admit it (taking a slot under a cap) when the cap
    /// allows, else refuse it, to be dropped before its handshake. The count never
    /// exceeds the cap.
    pub fn try_admit(&mut self) -> (r: bool)
        ensures
            r == admits(old(self).spec_max(), old(self).spec_live()),
            final(self).spec_max() == old(self).spec_max(),
            final(self).spec_live() == if r && old(self).spec_max() is Some {
                old(self).spec_live() + 1
            } else {
                old(self).spec_live()
            },
            final(self).spec_max() matches Some(m) ==> final(self).spec_live() <= m,
    {
        proof {
            use_type_invariant(&*self);
        }
        match self.max {
            None => true,
            Some(m) => {
                if self.live < m {
                    self.live = self.live + 1;
                    true
                } else {
                    false
                }
            },
        }
    }

    /// An admitted connection ended: give its slot back.
    pub fn release(&mut self)
        ensures
            final(self).spec_max() == old(self).spec_max(),
            final(self).spec_live() == if old(self).spec_live() > 0 {
                (old(self).spec_live() - 1) as nat
            } else {
                0
            },
    {
        proof {
            use_type_invariant(&*self);
        }
        if self.live > 0 {
            self.live = self.live - 1;
        }
    }
}

/// Law: at its cap a listener refuses the next connection, and once one of its live
/// connections ends it admits one again; without a cap it admits every connection.
pub proof fn law_cap_refuses_then_readmits(max: Option<usize>, live: nat)
    requires
        max matches Some(m) ==> live == m && m > 0,
    ensures
        max is Some ==> !admits(max, live) && admits(max, (live - 1) as nat),
        max is None ==> admits(max, live),
{
}

// ── A handler's first messages ───────────────────────────────────────────────

/// What a per-connection handler receives before anything from its client: the JS
/// bundle when it runs one, then its writer's pid as decimal text.
pub open spec fn opening_spec(bundle: Option<Seq<u8>>, writer: Pid) -> Seq<Seq<u8>> {
    match bundle {
        Some(b) => seq![b, decimal(writer.0 as nat)],
        None => seq![decimal(writer.0 as nat)],
    }
}

/// The messages a per-connection handler is sent first, in order.
pub fn opening_messages(bundle: Option<&Vec<u8>>, writer: Pid) -> (r: Vec<Vec<u8>>)
    ensures
        r@.map_values(|m: Vec<u8>| m@) == opening_spec(
            match bundle {
                Some(b) => Some(b@),
                None => None,
            },
            writer,
        ),
{
    let mut out: Vec<Vec<u8>> = Vec::new();
    if let Some(b) = bundle {
        out.push(b.clone());
    }
    let mut pid: Vec<u8> = Vec::new();
    push_decimal(&mut pid, writer.0);
    assert(pid@ =~= decimal(writer.0 as nat));
    out.push(pid);
    let ghost want = opening_spec(
        match bundle {
            Some(b) => Some(b@),
            None => None,
        },
        writer,
    );
    assert(out@.map_values(|m: Vec<u8>| m@) =~= want);
    out
}

// ── Teardown ─────────────────────────────────────────────────────────────────

/// Where a connection's teardown stands.
#[derive(Clone, Copy, Debug, PartialEq, Eq, Structural)]
pub enum Teardown {
    /// The connection is open.
    Open,
    /// The writer was killed; the handler has a grace period to exit.
    Draining,
    /// Both processes are gone.
    Done,
}

/// What the connection's supervisor saw.
#[derive(Clone, Copy, Debug, PartialEq, Eq, Structural)]
pub enum TeardownEvent {
    /// The client went away (or the connection failed).
    ConnectionEnded,
    /// The handler process exited.
    HandlerExited,
    /// The grace period ran out.
    GraceElapsed,
}

/// What the supervisor does.
#[derive(Clone, Copy, Debug, PartialEq, Eq, Structural)]
pub enum TeardownAction {
    /// Kill the writer (a handler monitoring it then closes and exits) and start the
    /// grace period.
    KillWriter,
    /// Force-kill a handler that ignored the disconnect.
    KillHandler,
    /// Nothing to do.
    Nothing,
}

/// One step of a connection's teardown: when the connection ends the writer is killed
/// first; a handler that exits within the grace period is left alone, and one still
/// running when the grace elapses is force-killed. The handler is killed only from
/// `Draining`, so never before its writer.
pub fn teardown_step(state: Teardown, event: TeardownEvent) -> (r: (Teardown, TeardownAction))
    ensures
        r == match (state, event) {
            (Teardown::Open, TeardownEvent::ConnectionEnded) => (
                Teardown::Draining,
                TeardownAction::KillWriter,
            ),
            (Teardown::Open, TeardownEvent::HandlerExited) => (Teardown::Open, TeardownAction::Nothing),
            (Teardown::Open, TeardownEvent::GraceElapsed) => (Teardown::Open, TeardownAction::Nothing),
            (Teardown::Draining, TeardownEvent::HandlerExited) => (
                Teardown::Done,
                TeardownAction::Nothing,
            ),
            (Teardown::Draining, TeardownEvent::GraceElapsed) => (
                Teardown::Done,
                TeardownAction::KillHandler,
            ),
            (Teardown::Draining, TeardownEvent::ConnectionEnded) => (
                Teardown::Draining,
                TeardownAction::Nothing,
            ),
            (Teardown::Done, _) => (Teardown::Done, TeardownAction::Nothing),
        },
        r.1 is KillHandler ==> state is Draining && event is GraceElapsed,
        r.1 is KillWriter ==> state is Open,
{
    match (state, event) {
        (Teardown::Open, TeardownEvent::ConnectionEnded) => (Teardown::Draining, TeardownAction::KillWriter),
        (Teardown::Open, _) => (Teardown::Open, TeardownAction::Nothing),
        (Teardown::Draining, TeardownEvent::HandlerExited) => (Teardown::Done, TeardownAction::Nothing),
        (Teardown::Draining, TeardownEvent::GraceElapsed) => (Teardown::Done, TeardownAction::KillHandler),
        (Teardown::Draining, TeardownEvent::ConnectionEnded) => (Teardown::Draining, TeardownAction::Nothing),
        (Teardown::Done, _) => (Teardown::Done, TeardownAction::Nothing),
    }
}

/// The state after a run of events from `state`, and whether the handler was
/// force-killed along the way.
pub open spec fn teardown_run(state: Teardown, events: Seq<TeardownEvent>) -> (Teardown, bool)
    decreases events.len(),
{
    if events.len() == 0 {
        (state, false)
    } else {
        let (s, killed) = teardown_run(state, events.drop_last());
        let next = match (s, events.last()) {
            (Teardown::Open, TeardownEvent::ConnectionEnded) => Teardown::Draining,
            (Teardown::Draining, TeardownEvent::HandlerExited) => Teardown::Done,
            (Teardown::Draining, TeardownEvent::GraceElapsed) => Teardown::Done,
            (s0, _) => s0,
        };
        (next, killed || (s is Draining && events.last() is GraceElapsed))
    }
}

/// Law: a handler that exits during the grace period is never force-killed: once it
/// has exited the teardown is done and no later event kills anything.
pub proof fn law_exited_handler_is_never_killed(events: Seq<TeardownEvent>, i: int)
    requires
        0 <= i < events.len(),
        teardown_run(Teardown::Open, events.subrange(0, i)).0 is Draining,
        events[i] is HandlerExited,
    ensures
        teardown_run(Teardown::Open, events).0 is Done,
        teardown_run(Teardown::Open, events).1 == teardown_run(Teardown::Open, events.subrange(0, i)).1,
    decreases events.len(),
{
    if events.len() == i + 1 {
        assert(events.drop_last() =~= events.subrange(0, i));
    } else {
        let init = events.drop_last();
        assert(init.subrange(0, i) =~= events.subrange(0, i));
        law_exited_handler_is_never_killed(init, i);
    }
}

} // verus!
