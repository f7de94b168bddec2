//! The zeroth chat model: no network, no keys, no nondeterminism.

use crate::chat;
use crate::chat::openai;
use crate::chat::openai::{Message, MessageView, Reply, ReplyView};
use crate::chat::{StopToken, ToolCall, ToolCallView};
use crate::event::{ChatEvent, Usage};
use crate::text;
use vstd::prelude::*;
use vstd::string::StringExecFns;

verus! {

/// A model that replies from a script.
///
/// It also keeps every transcript it was handed, which is how a test checks
/// what the library would have put on the wire without a wire.
#[derive(Debug)]
pub struct Scripted {
    turns: Vec<Turn>,
    seen: Vec<Vec<Message>>,
    key: Option<String>,
}

#[derive(Debug)]
enum Turn {
    Reply { deltas: Vec<String>, tool_calls: Vec<ToolCall>, usage: Option<Usage> },
    Failure(String),
}

/// One turn of a script.
pub enum TurnView {
    Reply { deltas: Seq<Seq<char>>, tool_calls: Seq<ToolCallView>, usage: Option<Usage> },
    Failure(Seq<char>),
}

/// A [`Scripted`] over sequences.
pub struct ScriptedView {
    pub turns: Seq<TurnView>,
    pub seen: Seq<Seq<MessageView>>,
    pub key: Option<Seq<char>>,
}

closed spec fn turn_view(turn: Turn) -> TurnView {
    match turn {
        Turn::Reply { deltas, tool_calls, usage } => TurnView::Reply {
            deltas: text::views(deltas@),
            tool_calls: chat::call_views(tool_calls@),
            usage,
        },
        Turn::Failure(error) => TurnView::Failure(error@),
    }
}

closed spec fn turn_views(turns: Seq<Turn>) -> Seq<TurnView> {
    turns.map_values(|turn: Turn| turn_view(turn))
}

/// The views of a row of transcripts.
pub open spec fn transcript_views(seen: Seq<Vec<Message>>) -> Seq<Seq<MessageView>> {
    seen.map_values(|transcript: Vec<Message>| openai::message_views(transcript@))
}

impl View for Scripted {
    type V = ScriptedView;

    closed spec fn view(&self) -> ScriptedView {
        ScriptedView {
            turns: turn_views(self.turns@),
            seen: transcript_views(self.seen@),
            key: text::optional(self.key),
        }
    }
}

/// The reply a turn plays: all its deltas, or none where the turn was
/// stopped before the first.
pub open spec fn played(deltas: Seq<Seq<char>>, calls: Seq<ToolCallView>, usage: Option<Usage>, stopped: bool) -> ReplyView {
    if stopped && deltas.len() > 0 {
        ReplyView { text: Seq::empty(), tool_calls: Seq::empty(), usage: None, interrupted: true }
    } else {
        ReplyView {
            text: text::join(deltas, Seq::empty()),
            tool_calls: calls,
            usage,
            interrupted: false,
        }
    }
}

/// The deltas a turn says: all of them, or none where it was stopped
/// before the first.
pub open spec fn said(deltas: Seq<Seq<char>>, stopped: bool) -> Seq<Seq<char>> {
    if stopped {
        Seq::empty()
    } else {
        deltas
    }
}

impl ScriptedView {
    /// The script with one more turn.
    pub open spec fn queued(self, turn: TurnView) -> ScriptedView {
        ScriptedView { turns: self.turns.push(turn), ..self }
    }

    /// The script with its last turn changed, where that is a reply.
    pub open spec fn ending(
        self,
        tool_calls: Option<Seq<ToolCallView>>,
        usage: Option<Usage>,
    ) -> ScriptedView {
        if self.turns.len() > 0 && self.turns.last() is Reply {
            let last = self.turns.last();
            ScriptedView {
                turns: self.turns.drop_last().push(
                    TurnView::Reply {
                        deltas: last->deltas,
                        tool_calls: match tool_calls {
                            Some(calls) => calls,
                            None => last->tool_calls,
                        },
                        usage: if usage is Some {
                            usage
                        } else {
                            last->usage
                        },
                    },
                ),
                ..self
            }
        } else {
            self
        }
    }
}

impl Default for Scripted {
    /// A script with no turns.
    fn default() -> (r: Self)
        ensures
            r@ == (ScriptedView { turns: Seq::empty(), seen: Seq::empty(), key: None }),
    {
        let turns: Vec<Turn> = Vec::new();
        let seen: Vec<Vec<Message>> = Vec::new();
        proof {
            assert(turn_views(turns@) =~= Seq::empty());
            assert(transcript_views(seen@) =~= Seq::empty());
        }
        Scripted { turns, seen, key: None }
    }
}

impl Scripted {
    /// One reply, arriving as the given deltas.
    pub fn saying(deltas: Vec<String>) -> (r: Self)
        ensures
            r@ == (ScriptedView { turns: Seq::empty(), seen: Seq::empty(), key: None }).queued(
                TurnView::Reply {
                    deltas: text::views(deltas@),
                    tool_calls: Seq::empty(),
                    usage: None,
                },
            ),
    {
        Self::default().then_saying(deltas)
    }

    /// One turn that breaks.
    pub fn failing(error: &str) -> (r: Self)
        ensures
            r@ == (ScriptedView { turns: Seq::empty(), seen: Seq::empty(), key: None }).queued(
                TurnView::Failure(error@),
            ),
    {
        Self::default().then_failing(error)
    }

    /// Queues another reply behind the ones already scripted.
    pub fn then_saying(self, deltas: Vec<String>) -> (r: Self)
        ensures
            r@ == self@.queued(
                TurnView::Reply {
                    deltas: text::views(deltas@),
                    tool_calls: Seq::empty(),
                    usage: None,
                },
            ),
    {
        let mut script = self;
        let ghost before = script@.turns;
        let tool_calls: Vec<ToolCall> = Vec::new();
        proof {
            assert(chat::call_views(tool_calls@) =~= Seq::empty());
        }
        let turn = Turn::Reply { deltas, tool_calls, usage: None };
        let ghost shown = turn_view(turn);
        script.turns.push(turn);
        proof {
            assert(script@.turns =~= before.push(shown));
        }
        script
    }

    /// Makes the most recently queued reply end by asking for `calls`, as a
    /// model that wants tools would.
    pub fn asking(self, calls: Vec<ToolCall>) -> (r: Self)
        ensures
            r@ == self@.ending(Some(chat::call_views(calls@)), None),
    {
        let mut script = self;
        let ghost before = script@;
        let n: usize = script.turns.len();
        if n > 0 {
            let turn = script.turns.pop();
            proof {
                assert(turn_views(script.turns@) =~= before.turns.drop_last());
            }
            let turn = match turn {
                Some(Turn::Reply { deltas, tool_calls, usage }) => Turn::Reply {
                    deltas,
                    tool_calls: calls,
                    usage,
                },
                Some(Turn::Failure(error)) => Turn::Failure(error),
                None => Turn::Failure(String::new()),
            };
            let ghost shown = turn_view(turn);
            script.turns.push(turn);
            proof {
                assert(script@.turns =~= before.turns.drop_last().push(shown));
                if !(before.turns.last() is Reply) {
                    assert(script@.turns =~= before.turns);
                }
            }
        }
        script
    }

    /// Queues a failure behind the turns already scripted.
    pub fn then_failing(self, error: &str) -> (r: Self)
        ensures
            r@ == self@.queued(TurnView::Failure(error@)),
    {
        let mut script = self;
        let ghost before = script@.turns;
        let turn = Turn::Failure(error.to_owned());
        let ghost shown = turn_view(turn);
        script.turns.push(turn);
        proof {
            assert(script@.turns =~= before.push(shown));
        }
        script
    }

    /// Makes the most recently queued reply report usage, as a provider that
    /// counts tokens would.
    pub fn reporting(self, reported: Usage) -> (r: Self)
        ensures
            r@ == self@.ending(None, Some(reported)),
    {
        let mut script = self;
        let ghost before = script@;
        let n: usize = script.turns.len();
        if n > 0 {
            let turn = script.turns.pop();
            proof {
                assert(turn_views(script.turns@) =~= before.turns.drop_last());
            }
            let turn = match turn {
                Some(Turn::Reply { deltas, tool_calls, usage }) => Turn::Reply {
                    deltas,
                    tool_calls,
                    usage: Some(reported),
                },
                Some(Turn::Failure(error)) => Turn::Failure(error),
                None => Turn::Failure(String::new()),
            };
            let ghost shown = turn_view(turn);
            script.turns.push(turn);
            proof {
                assert(script@.turns =~= before.turns.drop_last().push(shown));
                if !(before.turns.last() is Reply) {
                    assert(script@.turns =~= before.turns);
                }
            }
        }
        script
    }

    /// Every transcript this model was asked to reply to, in order.
    pub fn seen(&self) -> (r: &Vec<Vec<Message>>)
        ensures
            transcript_views(r@) == self@.seen,
    {
        &self.seen
    }

    /// The key it was last handed. A scripted model has nobody to
    /// authenticate to, so this is here to be asserted on: it is how a test
    /// sees that a key stored through the paste-your-key card reached the
    /// model rather than only the store.
    pub fn key(&self) -> (r: Option<&str>)
        ensures
            match r {
                Some(key) => self@.key == Some(key@),
                None => self@.key is None,
            },
    {
        match &self.key {
            Some(key) => Some(key.as_str()),
            None => None,
        }
    }

    /// The next turn is played with `key`.
    pub fn use_key(&mut self, key: Option<String>)
        ensures
            final(self)@ == (ScriptedView { key: text::optional(key), ..old(self)@ }),
    {
        self.key = key;
    }

    /// Plays the next turn: its deltas reach `log` as they are said, and a
    /// stop is honoured between deltas, where a real model can stop. An
    /// interrupted reply carries no calls: on the wire the asks arrive at
    /// the end, so a cut-off turn never asked.
    ///
    /// # Errors
    ///
    /// The words of a turn scripted to break, and of a script with no turn
    /// left.
    pub fn reply(
        &mut self,
        transcript: &Vec<Message>,
        log: &mut Vec<ChatEvent>,
        stop: &StopToken,
    ) -> (r: Result<Reply, String>)
        ensures
            final(self)@ == (ScriptedView {
                turns: if old(self)@.turns.len() == 0 {
                    Seq::empty()
                } else {
                    old(self)@.turns.skip(1)
                },
                seen: old(self)@.seen.push(openai::message_views(transcript@)),
                ..old(self)@
            }),
            match r {
                Ok(reply) => {
                    &&& old(self)@.turns.len() > 0
                    &&& old(self)@.turns[0] is Reply
                    &&& reply@ == played(
                        old(self)@.turns[0]->deltas,
                        old(self)@.turns[0]->tool_calls,
                        old(self)@.turns[0]->usage,
                        stop.set(),
                    )
                    &&& openai::emitted(
                        old(log)@,
                        said(old(self)@.turns[0]->deltas, stop.set()),
                        final(log)@,
                    )
                },
                Err(words) => {
                    &&& final(log)@ == old(log)@
                    &&& words@ == (if old(self)@.turns.len() == 0 {
                        "the script has no turn left to play"@
                    } else {
                        old(self)@.turns[0]->Failure_0
                    })
                    &&& old(self)@.turns.len() > 0 ==> old(self)@.turns[0] is Failure
                },
            },
    {
        let ghost before = self@;
        let copy = copied(transcript);
        let ghost shown = openai::message_views(copy@);
        self.seen.push(copy);
        proof {
            assert(self@.seen =~= before.seen.push(shown));
        }
        if self.turns.len() == 0 {
            proof {
                assert(self@.turns =~= Seq::empty());
            }
            return Err("the script has no turn left to play".to_owned());
        }
        let turn = self.turns.remove(0);
        proof {
            assert(turn_view(turn) == before.turns[0]);
            assert(self@.turns =~= before.turns.skip(1));
        }
        match turn {
            Turn::Failure(error) => Err(error),
            Turn::Reply { deltas, tool_calls, usage } => Ok(
                speak(&deltas, tool_calls, usage, log, stop),
            ),
        }
    }
}

/// Says the deltas of a turn, one by one.
fn speak(
    deltas: &Vec<String>,
    tool_calls: Vec<ToolCall>,
    usage: Option<Usage>,
    log: &mut Vec<ChatEvent>,
    stop: &StopToken,
) -> (r: Reply)
    ensures
        r@ == played(text::views(deltas@), chat::call_views(tool_calls@), usage, stop.set()),
        openai::emitted(old(log)@, said(text::views(deltas@), stop.set()), final(log)@),
{
    let ghost all = text::views(deltas@);
    let mut text = String::new();
    let mut i: usize = 0;
    proof {
        assert(text@ =~= Seq::empty());
        assert(text::join(all.take(0), Seq::empty()) =~= Seq::empty());
        assert(log@.take(old(log)@.len() as int) =~= old(log)@);
    }
    while i < deltas.len()
        invariant
            i <= deltas@.len() == all.len(),
            all == text::views(deltas@),
            text@ == text::join(all.take(i as int), Seq::empty()),
            openai::emitted(old(log)@, all.take(i as int), log@),
            i > 0 ==> !stop.set(),
        decreases deltas@.len() - i,
    {
        // Between deltas is exactly where a real model can stop.
        if stop.is_stopped() {
            let none: Vec<ToolCall> = Vec::new();
            proof {
                assert(chat::call_views(none@) =~= Seq::empty());
                assert(all.take(0) =~= Seq::empty());
            }
            return Reply { text, tool_calls: none, usage: None, interrupted: true };
        }
        let delta = deltas[i].clone();
        let ghost events = log@;
        let ghost so_far = text@;
        text.append(delta.as_str());
        log.push(ChatEvent::Delta { text: delta });
        proof {
            let longer = all.take(i + 1);
            assert(longer.drop_last() =~= all.take(i as int));
            assert(longer.last() == deltas@[i as int]@);
            if i == 0 {
                assert(so_far + delta@ =~= delta@);
            } else {
                assert(so_far + Seq::<char>::empty() =~= so_far);
            }
            assert(log@.take(old(log)@.len() as int) =~= events.take(old(log)@.len() as int));
        }
        i = i + 1;
    }
    proof {
        assert(all.take(i as int) =~= all);
    }
    Reply { text, tool_calls, usage, interrupted: false }
}

/// A copy of a transcript.
fn copied(transcript: &Vec<Message>) -> (r: Vec<Message>)
    ensures
        openai::message_views(r@) == openai::message_views(transcript@),
{
    let mut copy: Vec<Message> = Vec::new();
    let mut i: usize = 0;
    while i < transcript.len()
        invariant
            i <= transcript@.len(),
            copy@.len() == i,
            forall|k: int| 0 <= k < i ==> (#[trigger] copy@[k])@ == transcript@[k]@,
        decreases transcript@.len() - i,
    {
        copy.push(transcript[i].clone());
        i = i + 1;
    }
    proof {
        assert(openai::message_views(copy@) =~= openai::message_views(transcript@));
    }
    copy
}

} // verus!
