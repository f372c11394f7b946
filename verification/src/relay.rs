//! The duplex relay: every message that comes in on a connection goes out
//! on the same connection, in order, until either side closes or the
//! connection fails.
//!
//! The relay decides; it does not read or write. Whoever owns the
//! connection hands it each event and performs the action that it answers
//! with. Each connection has a relay of its own, so the end of one says
//! nothing about another.

use vstd::prelude::*;

verus! {

/// Where a connection failed.
#[derive(Debug, Clone, Copy, PartialEq, Eq, Structural)]
pub enum Fault {
    Read,
    Write,
}

/// What happened on the connection.
#[derive(Debug)]
pub enum Event<M> {
    /// A message came in.
    Inbound(M),
    /// The peer closed the connection.
    End,
    /// Reading or writing failed.
    Failed(Fault),
}

/// What to do on the connection.
#[derive(Debug)]
pub enum Action<M> {
    /// Write this message.
    Send(M),
    /// Close the outbound side.
    Close,
    /// Report the fault; the relay of this connection is over.
    Report(Fault),
    /// The relay is over: do nothing.
    Ignore,
}

/// The state of the relay of one connection.
#[derive(Debug, Clone, Copy, PartialEq, Eq, Structural)]
pub enum Phase {
    /// Messages are relayed.
    Open,
    /// The peer closed.
    Closed,
    /// The connection failed.
    Faulted(Fault),
}

/// The state after an event.
pub open spec fn next_phase<M>(phase: Phase, event: Event<M>) -> Phase {
    match phase {
        Phase::Open => match event {
            Event::Inbound(_) => Phase::Open,
            Event::End => Phase::Closed,
            Event::Failed(fault) => Phase::Faulted(fault),
        },
        _ => phase,
    }
}

/// The action that an event is answered with.
pub open spec fn reaction<M>(phase: Phase, event: Event<M>) -> Action<M> {
    match phase {
        Phase::Open => match event {
            Event::Inbound(message) => Action::Send(message),
            Event::End => Action::Close,
            Event::Failed(fault) => Action::Report(fault),
        },
        _ => Action::Ignore,
    }
}

/// Answers one event.
pub fn step<M>(phase: Phase, event: Event<M>) -> (r: (Phase, Action<M>))
    ensures
        r.0 == next_phase(phase, event),
        r.1 == reaction(phase, event),
{
    match phase {
        Phase::Open => match event {
            Event::Inbound(message) => (Phase::Open, Action::Send(message)),
            Event::End => (Phase::Closed, Action::Close),
            Event::Failed(fault) => (Phase::Faulted(fault), Action::Report(fault)),
        },
        Phase::Closed => (Phase::Closed, Action::Ignore),
        Phase::Faulted(fault) => (Phase::Faulted(fault), Action::Ignore),
    }
}

/// The state after a run of events.
pub open spec fn phase_after<M>(phase: Phase, events: Seq<Event<M>>) -> Phase
    decreases events.len(),
{
    if events.len() == 0 {
        phase
    } else {
        next_phase(phase_after(phase, events.drop_last()), events.last())
    }
}

/// The messages that the relay sends in answer to a run of events.
pub open spec fn sent<M>(phase: Phase, events: Seq<Event<M>>) -> Seq<M>
    decreases events.len(),
{
    if events.len() == 0 {
        Seq::empty()
    } else {
        let before = sent(phase, events.drop_last());
        match reaction(phase_after(phase, events.drop_last()), events.last()) {
            Action::Send(message) => before.push(message),
            _ => before,
        }
    }
}

/// The messages at the front of a run of events: those that came in before
/// the connection closed or failed.
pub open spec fn inbound<M>(events: Seq<Event<M>>) -> Seq<M>
    decreases events.len(),
{
    if events.len() == 0 {
        Seq::empty()
    } else {
        match events[0] {
            Event::Inbound(message) => seq![message] + inbound(events.drop_first()),
            _ => Seq::empty(),
        }
    }
}

/// Answers a run of events: the state after it, and the messages to send.
pub fn relay<M>(phase: Phase, events: Vec<Event<M>>) -> (r: (Phase, Vec<M>))
    ensures
        r.0 == phase_after(phase, events@),
        r.1@ == sent(phase, events@),
{
    let ghost all = events@;
    let mut now = phase;
    let mut out: Vec<M> = Vec::new();
    assert(all.take(0) =~= Seq::<Event<M>>::empty());
    for e in it: events
        invariant
            it.seq() == all,
            now == phase_after(phase, all.take(it.index() as int)),
            out@ == sent(phase, all.take(it.index() as int)),
    {
        let ghost next = all.take(it.index() + 1);
        assert(next.drop_last() =~= all.take(it.index() as int));
        assert(next.last() == e);
        let (after, action) = step(now, e);
        now = after;
        match action {
            Action::Send(message) => {
                out.push(message);
            },
            _ => {},
        }
    }
    assert(all.take(all.len() as int) =~= all);
    (now, out)
}

/// Once a connection has closed or failed, its relay stays as it is and
/// sends nothing more, whatever comes.
pub proof fn lemma_relay_stays_over<M>(phase: Phase, events: Seq<Event<M>>)
    requires
        phase != Phase::Open,
    ensures
        phase_after(phase, events) == phase,
        sent(phase, events) == Seq::<M>::empty(),
    decreases events.len(),
{
    if events.len() > 0 {
        lemma_relay_stays_over(phase, events.drop_last());
    }
}

/// What is sent in answer to a first event and then to the others.
pub proof fn lemma_sent_unfolds<M>(phase: Phase, events: Seq<Event<M>>)
    requires
        events.len() > 0,
    ensures
        phase_after(phase, events) == phase_after(
            next_phase(phase, events[0]),
            events.drop_first(),
        ),
        sent(phase, events) == (match reaction(phase, events[0]) {
            Action::Send(message) => seq![message],
            _ => Seq::empty(),
        }) + sent(next_phase(phase, events[0]), events.drop_first()),
    decreases events.len(),
{
    let first = events[0];
    let rest = events.drop_first();
    let head: Seq<M> = match reaction(phase, first) {
        Action::Send(message) => seq![message],
        _ => Seq::empty(),
    };
    if events.len() == 1 {
        assert(events.drop_last() =~= Seq::<Event<M>>::empty());
        assert(rest =~= Seq::<Event<M>>::empty());
        assert(events.last() == first);
        assert(sent(phase, events.drop_last()) == Seq::<M>::empty());
        assert(phase_after(phase, events.drop_last()) == phase);
        assert(sent(next_phase(phase, first), rest) == Seq::<M>::empty());
        assert(phase_after(next_phase(phase, first), rest) == next_phase(phase, first));
        assert(sent(phase, events) =~= head + sent(next_phase(phase, first), rest));
    } else {
        let front = events.drop_last();
        lemma_sent_unfolds(phase, front);
        assert(front[0] == first);
        assert(front.drop_first() =~= rest.drop_last());
        assert(events.last() == rest.last());
        assert(sent(phase, events) =~= head + sent(next_phase(phase, first), rest));
    }
}

/// The relay echoes: from an open connection it sends exactly the messages
/// that came in before the connection closed or failed, in the order in
/// which they came.
pub proof fn lemma_relay_echoes<M>(events: Seq<Event<M>>)
    ensures
        sent(Phase::Open, events) == inbound(events),
    decreases events.len(),
{
    if events.len() > 0 {
        lemma_sent_unfolds(Phase::Open, events);
        match events[0] {
            Event::Inbound(_) => {
                lemma_relay_echoes(events.drop_first());
            },
            _ => {
                lemma_relay_stays_over(next_phase(Phase::Open, events[0]), events.drop_first());
            },
        }
    }
}

} // verus!
