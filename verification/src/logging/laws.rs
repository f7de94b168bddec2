//! What holds of every log.

use crate::event::{ConversationId, Envelope};
use crate::logging::{Enveloping, JsonLines, Log, Wire};
use vstd::prelude::*;

verus! {

/// Law: a list keeps what is emitted after what it has.
pub proof fn a_list_keeps_what_is_emitted<E>(log: &mut Vec<E>, event: E)
    requires
        call_ensures(<Vec<E> as Log<E>>::emit, (log, event), ()),
    ensures
        final(log)@.len() == old(log)@.len() + 1,
        final(log)@.drop_last() == old(log)@,
        final(log)@.last() == event,
{
    assert(final(log)@.drop_last() =~= old(log)@);
}

/// Law: an enveloping log hands on what is emitted in an envelope of its
/// own conversation.
pub proof fn an_event_goes_in_its_own_envelope<E>(
    log: &mut Enveloping<Vec<Envelope<E>>>,
    event: E,
)
    requires
        call_ensures(<Enveloping<Vec<Envelope<E>>> as Log<E>>::emit, (log, event), ()),
    ensures
        final(log).stamp() == old(log).stamp(),
        final(log).within()@.len() == old(log).within()@.len() + 1,
        final(log).within()@.last().conversation == old(log).stamp(),
        final(log).within()@.last().event == event,
        final(log).within()@.drop_last() == old(log).within()@,
{
    assert(final(log).within()@.drop_last() =~= old(log).within()@);
}

/// Law: an enveloping log stamps with the conversation it was made with,
/// and gives back the log it was made around.
pub proof fn an_envelope_is_stamped_as_it_was_made<L>(
    conversation: ConversationId,
    inner: L,
    made: Enveloping<L>,
    back: L,
)
    requires
        call_ensures(Enveloping::<L>::new, (conversation, inner), made),
        call_ensures(Enveloping::<L>::into_inner, (made,), back),
    ensures
        made.stamp() == conversation,
        back == inner,
{
}

/// Law: a log of lines keeps each event on a line of its own, after what
/// was there, as the event tells itself.
pub proof fn an_event_is_a_line_of_its_own<E: Wire>(log: &mut JsonLines, event: E)
    requires
        call_ensures(<JsonLines as Log<E>>::emit, (log, event), ()),
    ensures
        exists|told: String| #[trigger]
            call_ensures(E::tell, (&event,), told) && final(log).lines() == old(log).lines() + told@
                + "\n"@,
{
}

/// Law: a log of lines is given back as it was written.
pub proof fn lines_are_given_back(written: String, log: JsonLines, back: String)
    requires
        call_ensures(JsonLines::new, (written,), log),
        call_ensures(JsonLines::into_inner, (log,), back),
    ensures
        back@ == written@,
{
}

} // verus!
