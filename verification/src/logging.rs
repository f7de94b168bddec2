//! Where events go. One sink implementation serves every vocabulary in
//! [`crate::event`]: `Log` is generic over the event type, so a new
//! vocabulary costs no new plumbing.

use crate::event::{ConversationId, Envelope};
use vstd::prelude::*;

pub mod laws;
use vstd::string::StringExecFns;

verus! {

/// Somewhere events of type `E` can be sent. Emitting is infallible by
/// design: a broken log must never abort the work it is describing.
pub trait Log<E>: Sized {
    /// How a log stands after an event, against how it stood before.
    spec fn emitted(before: Self, event: E, after: Self) -> bool;

    fn emit(&mut self, event: E)
        ensures
            Self::emitted(*old(self), event, *final(self)),
    ;
}

/// The simplest log ignores everything, whatever it is.
#[derive(Debug)]
pub struct Silent;

impl<E> Log<E> for Silent {
    open spec fn emitted(before: Self, event: E, after: Self) -> bool {
        true
    }

    fn emit(&mut self, event: E) {
    }
}

/// Collecting is logging too: the sink for anything that wants the whole
/// stream at the end rather than each event as it happens, which is mostly
/// tests and mostly assertions about order.
impl<E> Log<E> for Vec<E> {
    open spec fn emitted(before: Self, event: E, after: Self) -> bool {
        after@ == before@.push(event)
    }

    fn emit(&mut self, event: E) {
        self.push(event);
    }
}

/// Puts every event into an [`Envelope`] on its way to `inner`: the sink an
/// IPC layer logs through.
///
/// The work being observed emits plain events and does not know which
/// conversation it is; the host, which assigned the id, is what says so. Being
/// generic over the vocabulary, this serves the run cockpit's events as
/// readily as chat's.
#[derive(Debug)]
pub struct Enveloping<L> {
    conversation: ConversationId,
    inner: L,
}

impl<L> Enveloping<L> {
    /// The conversation every event is stamped with.
    pub closed spec fn stamp(&self) -> ConversationId {
        self.conversation
    }

    /// The log the envelopes go to.
    pub closed spec fn within(&self) -> L {
        self.inner
    }

    /// A log that stamps `conversation` onto what it hands to `inner`.
    pub fn new(conversation: ConversationId, inner: L) -> (r: Self)
        ensures
            r.stamp() == conversation,
            r.within() == inner,
    {
        Enveloping { conversation, inner }
    }

    /// The log the envelopes went to.
    pub fn into_inner(self) -> (r: L)
        ensures
            r == self.within(),
    {
        self.inner
    }
}

impl<E, L: Log<Envelope<E>>> Log<E> for Enveloping<L> {
    open spec fn emitted(before: Self, event: E, after: Self) -> bool {
        &&& after.stamp() == before.stamp()
        &&& L::emitted(
            before.within(),
            (Envelope { conversation: before.stamp(), event }),
            after.within(),
        )
    }

    fn emit(&mut self, event: E) {
        self.inner.emit(Envelope { conversation: self.conversation, event });
    }
}

/// An event that can be told as one line of JSON.
pub trait Wire {
    /// The event's JSON.
    fn tell(&self) -> (r: String);
}

/// Keeps each event as one JSON line: the wire format for logs that cross
/// a process boundary.
#[derive(Debug)]
pub struct JsonLines(String);

impl JsonLines {
    /// The lines so far.
    pub closed spec fn lines(&self) -> Seq<char> {
        self.0@
    }

    /// A log that writes after what is already there.
    pub fn new(written: String) -> (r: Self)
        ensures
            r.lines() == written@,
    {
        JsonLines(written)
    }

    /// The lines so far.
    pub fn into_inner(self) -> (r: String)
        ensures
            r@ == self.lines(),
    {
        self.0
    }
}

impl<E: Wire> Log<E> for JsonLines {
    open spec fn emitted(before: Self, event: E, after: Self) -> bool {
        exists|told: String| #[trigger]
            call_ensures(E::tell, (&event,), told) && after.lines() == before.lines() + told@
                + "\n"@
    }

    fn emit(&mut self, event: E) {
        let told = event.tell();
        self.0.append(told.as_str());
        self.0.append("\n");
        proof {
            assert(call_ensures(E::tell, (&event,), told));
        }
    }
}

} // verus!
