//! A reply as it streams in: the fold from lines to a [`Reply`], and what
//! an endpoint's other answers mean.
//!
//! Deltas are handed back as the model produces them; what the reply
//! turned out to be — the whole text, or the tool calls the model wants
//! made — is known at the end. The caller owns history: nothing here
//! remembers anything.

use crate::chat;
use crate::chat::wire;
use crate::chat::wire::{
    Events, FragmentView, Step, StepView, ToolCallFragment,
};
use crate::chat::{
    ChatError, ChatErrorView, ModelInfo, Reply, ReplyView, ToolCall, ToolCallView,
};
use crate::json;
use crate::json::{Json, JsonView};
use crate::text;
use vstd::prelude::*;
use vstd::string::StringExecFns;

verus! {

// ----- the calls -----

/// Assembles [`ToolCallFragment`]s into completed calls, keyed by
/// index. Yields them in index order when the stream finishes.
#[derive(Debug)]
pub struct Calls {
    calls: Vec<(u64, ToolCall)>,
}

/// The call no fragment has said anything of.
pub open spec fn unsaid() -> ToolCallView {
    ToolCallView { id: Seq::empty(), name: Seq::empty(), arguments: Seq::empty() }
}

/// The call after one more of its fragments: an id or a name takes the
/// place of the one before, arguments follow those before.
pub open spec fn grown(call: ToolCallView, fragment: FragmentView) -> ToolCallView {
    ToolCallView {
        id: match fragment.id {
            Some(id) => id,
            None => call.id,
        },
        name: match fragment.name {
            Some(name) => name,
            None => call.name,
        },
        arguments: match fragment.arguments {
            Some(arguments) => call.arguments + arguments,
            None => call.arguments,
        },
    }
}

/// How many of the calls, from the first on, stand before `index`.
pub open spec fn place(calls: Seq<(nat, ToolCallView)>, index: nat) -> nat
    decreases calls.len(),
{
    if calls.len() == 0 || calls[0].0 >= index {
        0
    } else {
        1 + place(calls.skip(1), index)
    }
}

/// The calls after one more fragment.
pub open spec fn touched(calls: Seq<(nat, ToolCallView)>, fragment: FragmentView) -> Seq<
    (nat, ToolCallView),
> {
    let at = place(calls, fragment.index) as int;
    if at < calls.len() && calls[at].0 == fragment.index {
        calls.update(at, (fragment.index, grown(calls[at].1, fragment)))
    } else {
        calls.insert(at, (fragment.index, grown(unsaid(), fragment)))
    }
}

/// The calls after a row of fragments.
pub open spec fn absorbed(calls: Seq<(nat, ToolCallView)>, fragments: Seq<FragmentView>) -> Seq<
    (nat, ToolCallView),
>
    decreases fragments.len(),
{
    if fragments.len() == 0 {
        calls
    } else {
        touched(absorbed(calls, fragments.drop_last()), fragments.last())
    }
}

/// Whether the calls are kept by index, each index once.
pub open spec fn by_index(calls: Seq<(nat, ToolCallView)>) -> bool {
    forall|i: int, j: int| 0 <= i < j < calls.len() ==> #[trigger] calls[i].0 < #[trigger] calls[j].0
}

/// The call at `index`, if any fragment came for it.
pub open spec fn call_at(calls: Seq<(nat, ToolCallView)>, index: nat) -> Option<ToolCallView> {
    if exists|i: int| 0 <= i < calls.len() && (#[trigger] calls[i]).0 == index {
        Some(calls[choose|i: int| 0 <= i < calls.len() && (#[trigger] calls[i]).0 == index].1)
    } else {
        None
    }
}

/// The call the fragments of one index make, in the order they came.
pub open spec fn assembled(fragments: Seq<FragmentView>, index: nat) -> Option<ToolCallView>
    decreases fragments.len(),
{
    if fragments.len() == 0 {
        None
    } else {
        let before = assembled(fragments.drop_last(), index);
        if fragments.last().index == index {
            Some(
                grown(
                    match before {
                        Some(call) => call,
                        None => unsaid(),
                    },
                    fragments.last(),
                ),
            )
        } else {
            before
        }
    }
}

/// The place of an index is before every call that does not stand before
/// it, and after every one that does.
proof fn placed(calls: Seq<(nat, ToolCallView)>, index: nat)
    requires
        by_index(calls),
    ensures
        place(calls, index) <= calls.len(),
        forall|i: int| 0 <= i < place(calls, index) ==> (#[trigger] calls[i]).0 < index,
        forall|i: int|
            place(calls, index) <= i < calls.len() ==> (#[trigger] calls[i]).0 >= index,
    decreases calls.len(),
{
    if calls.len() > 0 && calls[0].0 < index {
        let rest = calls.skip(1);
        assert forall|i: int, j: int| 0 <= i < j < rest.len() implies #[trigger] rest[i].0
            < #[trigger] rest[j].0 by {
            assert(calls[i + 1].0 < calls[j + 1].0);
        }
        placed(rest, index);
        assert forall|i: int| 0 <= i < place(calls, index) implies (#[trigger] calls[i]).0
            < index by {
            if i > 0 {
                assert(rest[i - 1] == calls[i]);
            }
        }
        assert forall|i: int| place(calls, index) <= i < calls.len() implies (
        #[trigger] calls[i]).0 >= index by {
            assert(rest[i - 1] == calls[i]);
        }
    } else if calls.len() > 0 {
        assert forall|i: int| 0 <= i < calls.len() implies (#[trigger] calls[i]).0 >= index by {
            if i > 0 {
                assert(calls[0].0 < calls[i].0);
            }
        }
    }
}

/// One more fragment keeps the calls by index, and changes its own call
/// alone.
#[verifier::rlimit(60)]
#[verifier::spinoff_prover]
proof fn touched_by_index(calls: Seq<(nat, ToolCallView)>, fragment: FragmentView, index: nat)
    requires
        by_index(calls),
    ensures
        by_index(touched(calls, fragment)),
        fragment.index != index ==> call_at(touched(calls, fragment), index) == call_at(
            calls,
            index,
        ),
        fragment.index == index ==> call_at(touched(calls, fragment), index) == Some(
            grown(
                match call_at(calls, index) {
                    Some(call) => call,
                    None => unsaid(),
                },
                fragment,
            ),
        ),
{
    let at = place(calls, fragment.index) as int;
    let after = touched(calls, fragment);
    placed(calls, fragment.index);
    let known = at < calls.len() && calls[at].0 == fragment.index;
    assert forall|i: int, j: int| 0 <= i < j < after.len() implies #[trigger] after[i].0
        < #[trigger] after[j].0 by {
        if known {
            assert(after[i].0 == calls[i].0 && after[j].0 == calls[j].0);
        } else {
            if i < at {
                assert(after[i] == calls[i]);
            } else if i > at {
                assert(after[i] == calls[i - 1]);
            }
            if j < at {
                assert(after[j] == calls[j]);
            } else if j > at {
                assert(after[j] == calls[j - 1]);
            }
        }
    }
    if fragment.index == index {
        assert(after[at].0 == index);
        let c = choose|i: int| 0 <= i < after.len() && (#[trigger] after[i]).0 == index;
        assert(c == at) by {
            if c < at {
                assert(after[c].0 < after[at].0);
            }
            if at < c {
                assert(after[at].0 < after[c].0);
            }
        }
        if known {
            let o = choose|i: int| 0 <= i < calls.len() && (#[trigger] calls[i]).0 == index;
            assert(o == at) by {
                if o < at {
                    assert(calls[o].0 < calls[at].0);
                }
                if at < o {
                    assert(calls[at].0 < calls[o].0);
                }
            }
        } else {
            assert(call_at(calls, index) is None) by {
                assert forall|i: int| 0 <= i < calls.len() implies (#[trigger] calls[i]).0
                    != index by {
                    if i >= at {
                        if i > at {
                            assert(calls[at].0 < calls[i].0);
                        }
                    }
                }
            }
        }
    } else if exists|i: int| 0 <= i < calls.len() && (#[trigger] calls[i]).0 == index {
        let o = choose|i: int| 0 <= i < calls.len() && (#[trigger] calls[i]).0 == index;
        let there = if known || o < at {
            o
        } else {
            o + 1
        };
        assert(after[there] == calls[o]);
        let c = choose|i: int| 0 <= i < after.len() && (#[trigger] after[i]).0 == index;
        assert(c == there) by {
            if c < there {
                assert(after[c].0 < after[there].0);
            }
            if there < c {
                assert(after[there].0 < after[c].0);
            }
        }
    } else {
        assert forall|i: int| 0 <= i < after.len() implies (#[trigger] after[i]).0 != index by {
            if known {
                assert(after[i].0 == calls[i].0);
            } else if i < at {
                assert(after[i] == calls[i]);
            } else if i > at {
                assert(after[i] == calls[i - 1]);
            }
        }
    }
}

/// Calls whose fragments interleave still come out whole, in index order:
/// the call at an index is what its own fragments make, in the order they
/// came, whatever came between.
pub proof fn interleaved_fragments_make_whole_calls(fragments: Seq<FragmentView>, index: nat)
    ensures
        by_index(absorbed(Seq::empty(), fragments)),
        call_at(absorbed(Seq::empty(), fragments), index) == assembled(fragments, index),
    decreases fragments.len(),
{
    let none = Seq::<(nat, ToolCallView)>::empty();
    if fragments.len() > 0 {
        interleaved_fragments_make_whole_calls(fragments.drop_last(), index);
        touched_by_index(absorbed(none, fragments.drop_last()), fragments.last(), index);
    }
}

/// Fragments may come in any number of payloads: what they make depends on
/// their order alone.
pub proof fn payloads_may_split_anywhere(
    calls: Seq<(nat, ToolCallView)>,
    first: Seq<FragmentView>,
    second: Seq<FragmentView>,
)
    ensures
        absorbed(absorbed(calls, first), second) == absorbed(calls, first + second),
    decreases second.len(),
{
    if second.len() == 0 {
        assert(first + second =~= first);
    } else {
        payloads_may_split_anywhere(calls, first, second.drop_last());
        assert((first + second).drop_last() =~= first + second.drop_last());
    }
}

/// The views of the calls kept.
spec fn kept_views(calls: Seq<(u64, ToolCall)>) -> Seq<(nat, ToolCallView)> {
    calls.map_values(|entry: (u64, ToolCall)| (entry.0 as nat, entry.1@))
}

impl Default for Calls {
    /// No calls yet.
    fn default() -> (r: Self)
        ensures
            r.kept() == Seq::<(nat, ToolCallView)>::empty(),
    {
        let calls: Vec<(u64, ToolCall)> = Vec::new();
        proof {
            assert(kept_views(calls@) =~= Seq::empty());
        }
        Calls { calls }
    }
}

impl Calls {
    /// The calls so far, each with its index.
    pub closed spec fn kept(&self) -> Seq<(nat, ToolCallView)> {
        kept_views(self.calls@)
    }

    /// Folds fragments in, in order.
    pub fn absorb(&mut self, fragments: &Vec<ToolCallFragment>)
        ensures
            final(self).kept() == absorbed(old(self).kept(), wire::fragment_views(fragments@)),
    {
        let ghost before = self.kept();
        let ghost view = wire::fragment_views(fragments@);
        let mut i: usize = 0;
        while i < fragments.len()
            invariant
                i <= fragments@.len() == view.len(),
                view == wire::fragment_views(fragments@),
                self.kept() == absorbed(before, view.take(i as int)),
            decreases fragments@.len() - i,
        {
            proof {
                assert(view.take(i + 1).drop_last() =~= view.take(i as int));
                assert(view.take(i + 1).last() == fragments@[i as int]@);
            }
            self.touch(&fragments[i]);
            i = i + 1;
        }
        proof {
            assert(view.take(i as int) =~= view);
        }
    }

    fn touch(&mut self, fragment: &ToolCallFragment)
        ensures
            final(self).kept() == touched(old(self).kept(), fragment@),
    {
        let ghost all = self.kept();
        let mut at: usize = 0;
        proof {
            assert(all.skip(0) =~= all);
        }
        while at < self.calls.len() && self.calls[at].0 < fragment.index
            invariant
                at <= self.calls@.len(),
                all == kept_views(self.calls@),
                place(all, fragment.index as nat) == at + place(
                    all.skip(at as int),
                    fragment.index as nat,
                ),
            decreases self.calls@.len() - at,
        {
            proof {
                assert(all.skip(at as int)[0] == all[at as int]);
                assert(all.skip(at as int).skip(1) =~= all.skip(at + 1));
            }
            at = at + 1;
        }
        proof {
            if at < self.calls@.len() {
                assert(all.skip(at as int)[0] == all[at as int]);
            } else {
                assert(all.skip(at as int) =~= Seq::empty());
            }
        }
        if at < self.calls.len() && self.calls[at].0 == fragment.index {
            let call = grow(&self.calls[at].1, fragment);
            let ghost shown = call@;
            self.calls.set(at, (fragment.index, call));
            proof {
                assert(self.kept() =~= all.update(at as int, (fragment.index as nat, shown)));
            }
        } else {
            let none = ToolCall { id: String::new(), name: String::new(), arguments: String::new() };
            proof {
                assert(none@.id =~= Seq::empty());
                assert(none@.name =~= Seq::empty());
                assert(none@.arguments =~= Seq::empty());
            }
            let call = grow(&none, fragment);
            let ghost shown = call@;
            self.calls.insert(at, (fragment.index, call));
            proof {
                assert(self.kept() =~= all.insert(at as int, (fragment.index as nat, shown)));
            }
        }
    }

    /// Whether no fragment has come.
    pub fn is_empty(&self) -> (r: bool)
        ensures
            r == (self.kept().len() == 0),
    {
        self.calls.len() == 0
    }

    /// The calls, in index order.
    pub fn finish(self) -> (r: Vec<ToolCall>)
        ensures
            chat::call_views(r@) == self.kept().map_values(|entry: (nat, ToolCallView)| entry.1),
    {
        let ghost all = self.kept();
        let mut calls: Vec<ToolCall> = Vec::new();
        let mut i: usize = 0;
        while i < self.calls.len()
            invariant
                i <= self.calls@.len(),
                calls@.len() == i,
                forall|k: int| 0 <= k < i ==> (#[trigger] calls@[k])@ == self.calls@[k].1@,
            decreases self.calls@.len() - i,
        {
            calls.push(self.calls[i].1.clone());
            i = i + 1;
        }
        proof {
            assert(chat::call_views(calls@) =~= all.map_values(
                |entry: (nat, ToolCallView)| entry.1,
            ));
        }
        calls
    }
}

/// A call with one more of its fragments.
fn grow(call: &ToolCall, fragment: &ToolCallFragment) -> (r: ToolCall)
    ensures
        r@ == grown(call@, fragment@),
{
    ToolCall {
        id: match &fragment.id {
            Some(id) => id.clone(),
            None => call.id.clone(),
        },
        name: match &fragment.name {
            Some(name) => name.clone(),
            None => call.name.clone(),
        },
        arguments: match &fragment.arguments {
            Some(arguments) => text::cat2(call.arguments.as_str(), arguments.as_str()),
            None => call.arguments.clone(),
        },
    }
}

// ----- the reply -----

/// A reply in progress.
#[derive(Debug)]
pub struct Hearing {
    events: Events,
    reply: String,
    calls: Calls,
    tools_finished: bool,
}

/// A [`Hearing`] over sequences.
pub struct HearingView {
    pub pending: Seq<Seq<char>>,
    pub reply: Seq<char>,
    pub calls: Seq<(nat, ToolCallView)>,
    pub tools_finished: bool,
}

/// What a line of the stream came to.
#[derive(Debug, Eq, PartialEq)]
pub enum Heard {
    /// A fragment of the reply, to be shown at once.
    Delta(String),
    /// Nothing to show yet.
    Nothing,
    /// The end of the stream.
    Done,
}

/// A [`Heard`] over sequences.
pub enum HeardView {
    Delta(Seq<char>),
    Nothing,
    Done,
}

impl View for Heard {
    type V = HeardView;

    open spec fn view(&self) -> HeardView {
        match self {
            Heard::Delta(text) => HeardView::Delta(text@),
            Heard::Nothing => HeardView::Nothing,
            Heard::Done => HeardView::Done,
        }
    }
}

impl View for Hearing {
    type V = HearingView;

    closed spec fn view(&self) -> HearingView {
        HearingView {
            pending: self.events.pending(),
            reply: self.reply@,
            calls: self.calls.kept(),
            tools_finished: self.tools_finished,
        }
    }
}

impl HearingView {
    /// Before anything has been heard.
    pub open spec fn fresh() -> HearingView {
        HearingView {
            pending: Seq::empty(),
            reply: Seq::empty(),
            calls: Seq::empty(),
            tools_finished: false,
        }
    }

    /// After a step, and what it came to.
    pub open spec fn took(self, step: StepView) -> (HearingView, HeardView) {
        match step {
            StepView::Delta(delta) => (
                HearingView { reply: self.reply + delta, ..self },
                HeardView::Delta(delta),
            ),
            StepView::ToolCalls(fragments) => (
                HearingView { calls: absorbed(self.calls, fragments), ..self },
                HeardView::Nothing,
            ),
            StepView::ToolsFinished => (
                HearingView { tools_finished: true, ..self },
                HeardView::Nothing,
            ),
            StepView::Done => (self, HeardView::Done),
            StepView::Skip => (self, HeardView::Nothing),
        }
    }

    /// After a payload, if there is one.
    pub open spec fn read(self, payload: Option<Seq<char>>) -> Result<
        (HearingView, HeardView),
        ChatErrorView,
    > {
        match payload {
            None => Ok((self, HeardView::Nothing)),
            Some(payload) => match wire::stepped(payload) {
                Ok(step) => Ok(self.took(step)),
                Err(error) => Err(error),
            },
        }
    }

    /// After a line.
    pub open spec fn heard(self, line: Seq<char>) -> Result<
        (HearingView, HeardView),
        ChatErrorView,
    > {
        let (pending, payload) = wire::after_line(self.pending, line);
        (HearingView { pending, ..self }).read(payload)
    }

    /// What the reply turned out to be.
    pub open spec fn ended(self) -> ReplyView {
        if self.tools_finished || self.calls.len() > 0 {
            ReplyView::ToolCalls(self.calls.map_values(|entry: (nat, ToolCallView)| entry.1))
        } else {
            ReplyView::Text(self.reply)
        }
    }

    /// What the reply turned out to be, where the stream ended without
    /// saying it was done: the event in progress still counts.
    pub open spec fn cut_off(self) -> Result<(ReplyView, HeardView), ChatErrorView> {
        match (HearingView { pending: Seq::empty(), ..self }).read(wire::payload(self.pending)) {
            Ok((after, heard)) => Ok((after.ended(), heard)),
            Err(error) => Err(error),
        }
    }
}

impl Default for Hearing {
    /// Nothing has been heard.
    fn default() -> (r: Self)
        ensures
            r@ == HearingView::fresh(),
    {
        let reply = String::new();
        proof {
            assert(reply@ =~= Seq::empty());
        }
        Hearing { events: Events::default(), reply, calls: Calls::default(), tools_finished: false }
    }
}

impl Hearing {
    /// One line of the stream.
    ///
    /// # Errors
    ///
    /// A stream that stopped making sense.
    pub fn line(&mut self, line: &str) -> (r: Result<Heard, ChatError>)
        ensures
            match r {
                Ok(heard) => old(self)@.heard(line@) == Ok::<_, ChatErrorView>(
                    (final(self)@, heard@),
                ),
                Err(error) => old(self)@.heard(line@) == Err::<(HearingView, HeardView), _>(error@),
            },
    {
        let payload = self.events.line(line);
        self.read(payload)
    }

    fn read(&mut self, payload: Option<String>) -> (r: Result<Heard, ChatError>)
        ensures
            match r {
                Ok(heard) => old(self)@.read(text::optional(payload)) == Ok::<_, ChatErrorView>(
                    (final(self)@, heard@),
                ),
                Err(error) => old(self)@.read(text::optional(payload)) == Err::<
                    (HearingView, HeardView),
                    _,
                >(error@),
            },
    {
        let payload = match payload {
            Some(payload) => payload,
            None => return Ok(Heard::Nothing),
        };
        match wire::step(payload.as_str()) {
            Ok(Step::Delta(delta)) => {
                self.reply.append(delta.as_str());
                Ok(Heard::Delta(delta))
            },
            Ok(Step::ToolCalls(fragments)) => {
                self.calls.absorb(&fragments);
                Ok(Heard::Nothing)
            },
            Ok(Step::ToolsFinished) => {
                self.tools_finished = true;
                Ok(Heard::Nothing)
            },
            Ok(Step::Done) => Ok(Heard::Done),
            Ok(Step::Skip) => Ok(Heard::Nothing),
            Err(error) => Err(error),
        }
    }

    /// The text so far, for a turn that was stopped: the rest of the
    /// stream is left where it is.
    pub fn stopped(self) -> (r: Reply)
        ensures
            r@ == ReplyView::Text(self@.reply),
    {
        Reply::Text(self.reply)
    }

    /// What the reply turned out to be, once the stream said it was done.
    pub fn finish(self) -> (r: Reply)
        ensures
            r@ == self@.ended(),
    {
        if self.tools_finished || !self.calls.is_empty() {
            Reply::ToolCalls(self.calls.finish())
        } else {
            Reply::Text(self.reply)
        }
    }

    /// What the reply turned out to be, and the last delta if there is
    /// one, where the stream ended without saying it was done.
    ///
    /// # Errors
    ///
    /// A last event that made no sense.
    pub fn cut_off(self) -> (r: Result<(Reply, Heard), ChatError>)
        ensures
            match r {
                Ok((reply, heard)) => self@.cut_off() == Ok::<_, ChatErrorView>((reply@, heard@)),
                Err(error) => self@.cut_off() == Err::<(ReplyView, HeardView), _>(error@),
            },
    {
        let mut hearing = self;
        let payload = hearing.events.flush();
        match hearing.read(payload) {
            Ok(heard) => Ok((hearing.finish(), heard)),
            Err(error) => Err(error),
        }
    }
}

/// What a row of lines came to: the deltas in order, and the reply in
/// progress — up to where the stream said it was done.
pub open spec fn listened(hearing: HearingView, lines: Seq<Seq<char>>) -> Result<
    (HearingView, Seq<Seq<char>>, bool),
    ChatErrorView,
>
    decreases lines.len(),
{
    if lines.len() == 0 {
        Ok((hearing, Seq::empty(), false))
    } else {
        match hearing.heard(lines[0]) {
            Err(error) => Err(error),
            Ok((after, HeardView::Done)) => Ok((after, Seq::empty(), true)),
            Ok((after, HeardView::Nothing)) => listened(after, lines.skip(1)),
            Ok((after, HeardView::Delta(delta))) => match listened(after, lines.skip(1)) {
                Ok((last, deltas, done)) => Ok((last, seq![delta] + deltas, done)),
                Err(error) => Err(error),
            },
        }
    }
}

/// One text after the other.
pub open spec fn run_together(texts: Seq<Seq<char>>) -> Seq<char>
    decreases texts.len(),
{
    if texts.len() == 0 {
        Seq::empty()
    } else {
        texts[0] + run_together(texts.skip(1))
    }
}

/// The deltas are the reply: what was shown piece by piece, put together,
/// is the text of the reply.
pub proof fn the_deltas_are_the_reply(hearing: HearingView, lines: Seq<Seq<char>>)
    requires
        listened(hearing, lines) is Ok,
    ensures
        ({
            let (last, deltas, done) = listened(hearing, lines)->Ok_0;
            last.reply == hearing.reply + run_together(deltas)
        }),
    decreases lines.len(),
{
    let (last, deltas, done) = listened(hearing, lines)->Ok_0;
    if lines.len() == 0 {
        assert(hearing.reply + run_together(deltas) =~= hearing.reply);
    } else {
        match hearing.heard(lines[0]) {
            Err(_) => {},
            Ok((after, HeardView::Done)) => {
                assert(hearing.reply + run_together(deltas) =~= hearing.reply);
            },
            Ok((after, HeardView::Nothing)) => {
                the_deltas_are_the_reply(after, lines.skip(1));
            },
            Ok((after, HeardView::Delta(delta))) => {
                the_deltas_are_the_reply(after, lines.skip(1));
                let rest = listened(after, lines.skip(1))->Ok_0.1;
                assert(deltas.skip(1) =~= rest);
                assert((hearing.reply + delta) + run_together(rest) =~= hearing.reply + (delta
                    + run_together(rest)));
            },
        }
    }
}

// ----- the other answers -----

/// The API's own words, when a value carries them.
pub open spec fn error_words(value: JsonView) -> Option<Seq<char>> {
    if !value.holds(1) {
        None
    } else {
        match value.part(0, "error"@) {
            Some(error) => if error.holds(1) {
                json::needed_text(error.part(0, "message"@))
            } else {
                None
            },
            None => None,
        }
    }
}

/// The API's own words for what went wrong: verbatim when the body
/// carries them, with the raw body and then the bare status as
/// fallbacks.
pub open spec fn complaint(status: Seq<char>, body: Seq<char>) -> Seq<char> {
    let carried = match json::read_as(body) {
        Ok(value) => error_words(value),
        Err(_) => None,
    };
    if carried is Some {
        carried->0
    } else if text::trimmed(body).len() == 0 {
        status
    } else {
        body
    }
}

/// The API's own words, when a decoded body carries them.
pub fn error_message(value: &Json) -> (r: Option<String>)
    ensures
        text::optional(r) == error_words(value@),
{
    if !value.holds(1) {
        return None;
    }
    match value.part(0, "error") {
        Some(error) => if error.holds(1) {
            json::read_text(error.part(0, "message"))
        } else {
            None
        },
        None => None,
    }
}

/// The API's own words for what went wrong, verbatim when the body
/// carries them, with the raw body and then the bare status as
/// fallbacks.
pub fn api_message(status: &str, body: &str) -> (r: String)
    ensures
        r@ == complaint(status@, body@),
{
    let carried = match json::read(body) {
        Ok(value) => error_message(&value),
        Err(_) => None,
    };
    match carried {
        Some(message) => message,
        None => if text::is_empty(text::trim(body).as_str()) {
            status.to_owned()
        } else {
            body.to_owned()
        },
    }
}

/// What an answer that is no success means to a turn.
pub fn refused(status: &str, body: &str) -> (r: ChatError)
    ensures
        r@ == ChatErrorView::Api(complaint(status@, body@)),
{
    ChatError::Api(api_message(status, body))
}

/// Where the list of models is asked for.
pub fn models_url(base_url: &str) -> (r: String)
    ensures
        r@ == chat::under(base_url@, "/models?limit=1000"@),
{
    let base = text::trim_end_matches(base_url, '/');
    text::cat2(base.as_str(), "/models?limit=1000")
}

/// A model's id and its name.
pub open spec fn model_of(value: JsonView) -> Option<(Seq<char>, Seq<char>)> {
    let id = json::needed_text(value.part(0, "id"@));
    let name = json::needed_text(value.part(1, "display_name"@));
    if value.holds(2) && id is Some && name is Some {
        Some((id->0, name->0))
    } else {
        None
    }
}

/// A row of models, when every item is one.
pub open spec fn models_of(items: Seq<JsonView>) -> Option<Seq<(Seq<char>, Seq<char>)>>
    decreases items.len(),
{
    if items.len() == 0 {
        Some(Seq::empty())
    } else {
        match (models_of(items.drop_last()), model_of(items.last())) {
            (Some(front), Some(model)) => Some(front.push(model)),
            _ => None,
        }
    }
}

/// The models of a page, in the order the API gives them.
pub open spec fn page_of(value: JsonView) -> Option<Seq<(Seq<char>, Seq<char>)>> {
    if !value.holds(1) {
        None
    } else {
        match value.part(0, "data"@) {
            Some(JsonView::Array(items)) => models_of(items),
            _ => None,
        }
    }
}

/// The views of a row of models.
pub open spec fn model_views(models: Seq<ModelInfo>) -> Seq<(Seq<char>, Seq<char>)> {
    models.map_values(|model: ModelInfo| (model.id@, model.display_name@))
}

/// What an answer to the question for models comes to.
pub open spec fn models_answered(success: bool, status: Seq<char>, body: Seq<char>) -> Result<
    Seq<(Seq<char>, Seq<char>)>,
    ChatErrorView,
> {
    if !success {
        Err(ChatErrorView::Api(complaint(status, body)))
    } else {
        match json::read_as(body) {
            Err(words) => Err(ChatErrorView::MalformedStream("not a model list: "@ + words)),
            Ok(value) => match page_of(value) {
                Some(models) => Ok(models),
                None => Err(
                    ChatErrorView::MalformedStream(
                        "not a model list: it lists no models by id and display_name"@,
                    ),
                ),
            },
        }
    }
}

/// A longer row is not all models where a shorter one is not.
proof fn models_to_the_end(items: Seq<JsonView>, i: int)
    requires
        0 <= i <= items.len(),
        models_of(items.take(i)) is None,
    ensures
        models_of(items) is None,
    decreases items.len() - i,
{
    if i == items.len() {
        assert(items.take(i) =~= items);
    } else {
        assert(items.take(i + 1).drop_last() =~= items.take(i));
        models_to_the_end(items, i + 1);
    }
}

/// The models of a decoded page, in the order the API gives them.
pub fn read_page(value: &Json) -> (r: Option<Vec<ModelInfo>>)
    ensures
        match r {
            Some(models) => page_of(value@) == Some(model_views(models@)),
            None => page_of(value@) is None,
        },
{
    if !value.holds(1) {
        return None;
    }
    match value.part(0, "data") {
        Some(Json::Array(items)) => read_models(items),
        _ => None,
    }
}

fn read_models(items: &Vec<Json>) -> (r: Option<Vec<ModelInfo>>)
    ensures
        match r {
            Some(models) => models_of(json::items_view(items@)) == Some(model_views(models@)),
            None => models_of(json::items_view(items@)) is None,
        },
{
    let ghost view = json::items_view(items@);
    proof {
        json::item_views(items@);
    }
    let mut models: Vec<ModelInfo> = Vec::new();
    let mut i: usize = 0;
    proof {
        assert(model_views(models@) =~= Seq::empty());
    }
    while i < items.len()
        invariant
            i <= items@.len() == view.len(),
            view == json::items_view(items@),
            forall|k: int| 0 <= k < items@.len() ==> #[trigger] view[k] == items@[k]@,
            models_of(view.take(i as int)) == Some(model_views(models@)),
        decreases items@.len() - i,
    {
        proof {
            assert(view.take(i + 1).drop_last() =~= view.take(i as int));
            assert(view.take(i + 1).last() == view[i as int]);
        }
        let item: &Json = &items[i];
        let held = item.holds(2);
        match (json::read_text(item.part(0, "id")), json::read_text(item.part(1, "display_name"))) {
            (Some(id), Some(display_name)) if held => {
                let ghost before = model_views(models@);
                let ghost shown = (id@, display_name@);
                models.push(ModelInfo { id, display_name });
                proof {
                    assert(model_views(models@) =~= before.push(shown));
                }
            },
            _ => {
                proof {
                    models_to_the_end(view, i + 1);
                }
                return None;
            },
        }
        i = i + 1;
    }
    proof {
        assert(view.take(i as int) =~= view);
    }
    Some(models)
}

/// The models Anthropic will answer for, newest first — the order the
/// API returns and the order a dropdown shows — read from its answer.
///
/// A discovery affordance and never load-bearing: a caller that cannot
/// get the list keeps whatever model it already had in mind.
///
/// # Errors
///
/// The API's own errors (verbatim), and an answer that was not a model
/// list.
pub fn models(success: bool, status: &str, body: &str) -> (r: Result<Vec<ModelInfo>, ChatError>)
    ensures
        match r {
            Ok(models) => models_answered(success, status@, body@) == Ok::<_, ChatErrorView>(
                model_views(models@),
            ),
            Err(error) => models_answered(success, status@, body@) == Err::<
                Seq<(Seq<char>, Seq<char>)>,
                _,
            >(error@),
        },
{
    if !success {
        return Err(refused(status, body));
    }
    match json::read(body) {
        Err(words) => Err(
            ChatError::MalformedStream(text::cat2("not a model list: ", words.as_str())),
        ),
        Ok(value) => match read_page(&value) {
            Some(models) => Ok(models),
            None => Err(
                ChatError::MalformedStream(
                    "not a model list: it lists no models by id and display_name".to_owned(),
                ),
            ),
        },
    }
}

} // verus!
