//! Event vocabularies: what the library says about what it is doing.
//!
//! Events cross process and language boundaries, so they are plain values
//! and nothing else. This module holds no I/O and no threads. The sinks
//! that events flow into live in [`crate::logging`].

use crate::json;
use crate::json::spelling;
use crate::json::{Json, JsonView};
use crate::logging::Wire;
use crate::text;
use vstd::prelude::*;

pub mod laws;

verus! {

/// One observable moment in an implementation run.
#[derive(Clone, Copy, Debug, Eq, PartialEq, Structural)]
pub enum Event {
    IssueStarted { id: u32 },
    IssueImplemented { id: u32 },
}

/// One observable moment in an assistant turn.
///
/// A turn is exactly one `TurnFinished` or one `Failed`, preceded by zero or
/// more `Delta`s — and, when the model works through tools, by a
/// `ToolCallStarted` answered by a `ToolCallFinished` or a `ToolCallRefused`
/// for each call, so a window renders progress rather than silence. `Failed`
/// is how a turn that broke mid-stream is reported; it is not how a refused
/// request is reported, because a refusal never started a turn. Keeping
/// those two apart is what lets a host put command errors and streamed
/// failures on different channels.
#[derive(Clone, Debug, Eq, PartialEq)]
pub enum ChatEvent {
    /// The next piece of the assistant's reply, as it generates.
    Delta { text: String },
    /// The reply is complete and has been written into the transcript.
    /// `usage` is present only when the provider reported it.
    TurnFinished { usage: Option<Usage> },
    /// The turn did not complete. Whatever deltas already arrived stand.
    Failed { error: String },
    /// The assistant asked for a tool, and the registry is running the call.
    ToolCallStarted { id: String, name: String, arguments: String },
    /// The call answered. `content` is exactly what goes back to the model.
    ToolCallFinished { id: String, content: String },
    /// The call refused — an unknown tool, arguments that do not fit, or the
    /// tool's own failure — rendered from the typed error. The model reads
    /// the same words as a tool result, which is how it gets to try again.
    /// `remedy` names what the user could do about it, when the loop can
    /// tell — the typed case beside the rendered words, so a window acts on
    /// a value rather than scraping the prose.
    ToolCallRefused { id: String, error: String, remedy: Option<Remedy> },
}

/// What the user could do about a refusal, when the library knows.
///
/// The model already gets the refusal's words as a tool result; this is the
/// same fact in the shape a window can act on. One case so far: a GitHub
/// verb refused for want of a token, which the window answers with the
/// paste-your-PAT card.
#[derive(Clone, Copy, Debug, Eq, PartialEq, Structural)]
pub enum Remedy {
    /// Supply a GitHub token: paste a PAT, or set `EPIK_GITHUB_TOKEN`.
    GithubToken,
}

/// What some work cost, as the provider counted it.
///
/// One vocabulary serves chat turns and agent runs alike: tokens are the base
/// unit, always present, with cache reads distinguished when the provider
/// distinguishes them. Money appears only when it was *reported* — a price
/// table maintained here would be a lie waiting to go stale, so a provider
/// that names no price yields `None`, honestly. In an agent run the readings
/// are cumulative and monotone nondecreasing, with the last reading before
/// the end authoritative.
#[derive(Clone, Copy, Debug, Eq, PartialEq, Structural)]
pub struct Usage {
    pub prompt_tokens: u32,
    pub completion_tokens: u32,
    /// Tokens served from cache, when the provider tells them apart.
    pub cache_tokens: Option<u32>,
    /// What the provider says the work cost. Reported, never synthesized.
    pub cost: Option<Money>,
}

/// Money as a provider reported it: millionths of a US dollar, fixed-point.
///
/// Fixed-point because billing arithmetic in floating point accumulates dust
/// nobody can audit; US dollars because that is the only currency any
/// wrapped provider reports in. A `Money` exists only where a cost was
/// actually stated — see [`Usage::cost`].
#[derive(Clone, Copy, Debug, Default, Eq, Ord, PartialEq, PartialOrd, Structural)]
pub struct Money {
    /// Millionths of a dollar: $3.50 is `3_500_000`.
    pub micro_usd: u64,
}

/// Which conversation something happened in.
///
/// A host's registry assigns these; a conversation never learns its own.
#[derive(Clone, Copy, Debug, Eq, Hash, Ord, PartialEq, PartialOrd, Structural)]
pub struct ConversationId(pub u64);

/// An event, stamped with the conversation it happened in.
#[derive(Clone, Debug, Eq, PartialEq)]
pub struct Envelope<E> {
    pub conversation: ConversationId,
    pub event: E,
}

/// The number a reading stands for: nothing where there is none.
pub open spec fn reading(count: Option<u32>) -> int {
    match count {
        Some(n) => n as int,
        None => 0,
    }
}

/// What a cost stands for: nothing where there is none.
pub open spec fn priced(cost: Option<Money>) -> int {
    match cost {
        Some(money) => money.micro_usd as int,
        None => 0,
    }
}

/// Whether no number of `a` is past that of `b`, and no reading of `a` is
/// missing in `b`.
pub open spec fn at_most(a: Usage, b: Usage) -> bool {
    &&& a.prompt_tokens <= b.prompt_tokens
    &&& a.completion_tokens <= b.completion_tokens
    &&& a.cache_tokens is Some ==> b.cache_tokens is Some
    &&& reading(a.cache_tokens) <= reading(b.cache_tokens)
    &&& a.cost is Some ==> b.cost is Some
    &&& priced(a.cost) <= priced(b.cost)
}

/// The greater of two optional readings.
pub open spec fn greater_reading(a: Option<u32>, b: Option<u32>) -> Option<u32> {
    match (a, b) {
        (Some(m), Some(n)) => Some(if m > n { m } else { n }),
        (Some(m), None) => Some(m),
        (None, n) => n,
    }
}

/// The greater of two optional costs.
pub open spec fn greater_cost(a: Option<Money>, b: Option<Money>) -> Option<Money> {
    match (a, b) {
        (Some(m), Some(n)) => Some(if m.micro_usd > n.micro_usd { m } else { n }),
        (Some(m), None) => Some(m),
        (None, n) => n,
    }
}

/// The componentwise maximum of two readings.
pub open spec fn high_water(a: Usage, b: Usage) -> Usage {
    Usage {
        prompt_tokens: if a.prompt_tokens > b.prompt_tokens {
            a.prompt_tokens
        } else {
            b.prompt_tokens
        },
        completion_tokens: if a.completion_tokens > b.completion_tokens {
            a.completion_tokens
        } else {
            b.completion_tokens
        },
        cache_tokens: greater_reading(a.cache_tokens, b.cache_tokens),
        cost: greater_cost(a.cost, b.cost),
    }
}

impl Default for Usage {
    fn default() -> (r: Self)
        ensures
            r.prompt_tokens == 0,
            r.completion_tokens == 0,
            r.cache_tokens is None,
            r.cost is None,
    {
        Usage { prompt_tokens: 0, completion_tokens: 0, cache_tokens: None, cost: None }
    }
}

impl Usage {
    /// Every token in one number.
    pub open spec fn total(self) -> int {
        self.prompt_tokens + self.completion_tokens + reading(self.cache_tokens)
    }

    /// Token counts alone — the fields every provider reports.
    pub fn tokens(prompt: u32, completion: u32) -> (r: Self)
        ensures
            r.prompt_tokens == prompt,
            r.completion_tokens == completion,
            r.cache_tokens is None,
            r.cost is None,
    {
        Usage {
            prompt_tokens: prompt,
            completion_tokens: completion,
            cache_tokens: None,
            cost: None,
        }
    }

    /// Every token in one number: what a ceiling denominated in tokens is
    /// compared against.
    pub fn total_tokens(&self) -> (r: u64)
        ensures
            r == self.total(),
    {
        let cached: u32 = match self.cache_tokens {
            Some(n) => n,
            None => 0,
        };
        self.prompt_tokens as u64 + self.completion_tokens as u64 + cached as u64
    }

    /// The componentwise sum: how a turn that made several requests bills for
    /// all of them. A count reported by either side is kept; only two absent
    /// counts stay absent, so summing never invents a zero reading.
    pub fn plus(self, other: Self) -> (r: Self)
        requires
            self.prompt_tokens + other.prompt_tokens <= u32::MAX,
            self.completion_tokens + other.completion_tokens <= u32::MAX,
            reading(self.cache_tokens) + reading(other.cache_tokens) <= u32::MAX,
            priced(self.cost) + priced(other.cost) <= u64::MAX,
        ensures
            r.prompt_tokens == self.prompt_tokens + other.prompt_tokens,
            r.completion_tokens == self.completion_tokens + other.completion_tokens,
            r.cache_tokens is Some == (self.cache_tokens is Some || other.cache_tokens is Some),
            reading(r.cache_tokens) == reading(self.cache_tokens) + reading(other.cache_tokens),
            r.cost is Some == (self.cost is Some || other.cost is Some),
            priced(r.cost) == priced(self.cost) + priced(other.cost),
    {
        Usage {
            prompt_tokens: self.prompt_tokens + other.prompt_tokens,
            completion_tokens: self.completion_tokens + other.completion_tokens,
            cache_tokens: match (self.cache_tokens, other.cache_tokens) {
                (Some(a), Some(b)) => Some(a + b),
                (Some(a), None) => Some(a),
                (None, b) => b,
            },
            cost: match (self.cost, other.cost) {
                (Some(a), Some(b)) => Some(Money { micro_usd: a.micro_usd + b.micro_usd }),
                (Some(a), None) => Some(a),
                (None, b) => b,
            },
        }
    }

    /// The componentwise maximum: how a wrapper keeps its cumulative totals
    /// monotone when the process under it claims a total lower than one it
    /// already claimed. Totals never run backward, whatever the feed says.
    pub fn max(self, other: Self) -> (r: Self)
        ensures
            r == high_water(self, other),
            at_most(self, r),
            at_most(other, r),
            forall|bound: Usage|
                at_most(self, bound) && at_most(other, bound) ==> #[trigger] at_most(r, bound),
    {
        Usage {
            prompt_tokens: if self.prompt_tokens > other.prompt_tokens {
                self.prompt_tokens
            } else {
                other.prompt_tokens
            },
            completion_tokens: if self.completion_tokens > other.completion_tokens {
                self.completion_tokens
            } else {
                other.completion_tokens
            },
            cache_tokens: match (self.cache_tokens, other.cache_tokens) {
                (Some(a), Some(b)) => Some(
                    if a > b {
                        a
                    } else {
                        b
                    },
                ),
                (Some(a), None) => Some(a),
                (None, b) => b,
            },
            cost: match (self.cost, other.cost) {
                (Some(a), Some(b)) => Some(
                    if a.micro_usd > b.micro_usd {
                        a
                    } else {
                        b
                    },
                ),
                (Some(a), None) => Some(a),
                (None, b) => b,
            },
        }
    }
}

/// A reading is the readings it is made of: two usages no greater than each
/// other are the same.
pub proof fn usage_order_is_antisymmetric(a: Usage, b: Usage)
    requires
        at_most(a, b),
        at_most(b, a),
    ensures
        a == b,
{
}

// ----- on the wire -----

/// A count that fits in 32 bits.
pub open spec fn small(n: Option<nat>) -> Option<u32> {
    match n {
        Some(n) => if n <= u32::MAX {
            Some(n as u32)
        } else {
            None
        },
        None => None,
    }
}

/// An optional count that fits in 32 bits, and `None` where the field
/// holds something else.
pub open spec fn optional_small(part: Option<JsonView>) -> Option<Option<u32>> {
    match part {
        None => Some(None),
        Some(JsonView::Null) => Some(None),
        Some(value) => match small(value.whole()) {
            Some(n) => Some(Some(n)),
            None => None,
        },
    }
}

/// A price as the wire spells it.
pub open spec fn money_of(value: JsonView) -> Option<Money> {
    match json::needed_whole(value.part(0, "micro_usd"@)) {
        Some(n) => if value.holds(1) && n <= u64::MAX {
            Some(Money { micro_usd: n as u64 })
        } else {
            None
        },
        None => None,
    }
}

/// An optional price, and `None` where the field holds something else.
pub open spec fn optional_money(part: Option<JsonView>) -> Option<Option<Money>> {
    match part {
        None => Some(None),
        Some(JsonView::Null) => Some(None),
        Some(value) => match money_of(value) {
            Some(money) => Some(Some(money)),
            None => None,
        },
    }
}

/// A usage, when the value is one: the counts every provider sends must
/// be there, what came later may be absent.
pub open spec fn usage_of(value: JsonView) -> Option<Usage> {
    let prompt = small(json::needed_whole(value.part(0, "prompt_tokens"@)));
    let completion = small(json::needed_whole(value.part(1, "completion_tokens"@)));
    let cache = optional_small(value.part(2, "cache_tokens"@));
    let cost = optional_money(value.part(3, "cost"@));
    if value.holds(4) && prompt is Some && completion is Some && cache is Some && cost is Some {
        Some(
            Usage {
                prompt_tokens: prompt->0,
                completion_tokens: completion->0,
                cache_tokens: cache->0,
                cost: cost->0,
            },
        )
    } else {
        None
    }
}

pub(crate) fn read_small(n: Option<u64>) -> (r: Option<u32>)
    ensures
        r == small(
            match n {
                Some(n) => Some(n as nat),
                None => None,
            },
        ),
{
    match n {
        Some(n) => if n <= u32::MAX as u64 {
            Some(n as u32)
        } else {
            None
        },
        None => None,
    }
}

impl Usage {
    /// A usage, when the value is one.
    pub fn read(value: &Json) -> (r: Option<Usage>)
        ensures
            r == usage_of(value@),
    {
        if !value.holds(4) {
            return None;
        }
        let prompt = match read_small(json::read_whole(value.part(0, "prompt_tokens"))) {
            Some(n) => n,
            None => return None,
        };
        let completion = match read_small(json::read_whole(value.part(1, "completion_tokens"))) {
            Some(n) => n,
            None => return None,
        };
        let cache = match value.part(2, "cache_tokens") {
            None => None,
            Some(part) => if part.is_null() {
                None
            } else {
                match read_small(part.whole()) {
                    Some(n) => Some(n),
                    None => return None,
                }
            },
        };
        let cost = match value.part(3, "cost") {
            None => None,
            Some(part) => if part.is_null() {
                None
            } else if !part.holds(1) {
                return None;
            } else {
                match json::read_whole(part.part(0, "micro_usd")) {
                    Some(micro_usd) => Some(Money { micro_usd }),
                    None => return None,
                }
            },
        };
        Some(
            Usage {
                prompt_tokens: prompt,
                completion_tokens: completion,
                cache_tokens: cache,
                cost,
            },
        )
    }
}

/// An envelope's JSON around its event's.
pub open spec fn enveloped(conversation: ConversationId, event: Seq<char>) -> Seq<char> {
    "{"@ + spelling::member_text("conversation"@, text::decimal(conversation.0 as nat)) + ","@
        + spelling::member_text("event"@, event) + "}"@
}

impl<E: Wire> Wire for Envelope<E> {
    fn tell(&self) -> (r: String)
        ensures
            exists|event: String| #[trigger]
                call_ensures(E::tell, (&self.event,), event) && r@ == enveloped(
                    self.conversation,
                    event@,
                ),
    {
        let event = self.event.tell();
        let number = text::number(self.conversation.0);
        let stamp = spelling::spell_member("conversation", number.as_str());
        let body = spelling::spell_member("event", event.as_str());
        proof {
            assert(call_ensures(E::tell, (&self.event,), event));
        }
        text::cat5("{", stamp.as_str(), ",", body.as_str(), "}")
    }
}

} // verus!
