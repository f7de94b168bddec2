//! What holds of every count of what a turn used.

use crate::event::Usage;
use crate::json::{Json, JsonView};
use vstd::prelude::*;

verus! {

/// How many tokens an optional count stands for.
pub open spec fn count_of(count: Option<u32>) -> int {
    if count is Some {
        (count->0) as int
    } else {
        0
    }
}

/// Law: a total counts what was asked, what was answered and what came out
/// of the cache, each once.
pub proof fn a_total_counts_everything_once(usage: &Usage, r: u64)
    requires
        call_ensures(Usage::total_tokens, (usage,), r),
    ensures
        r == usage.prompt_tokens + usage.completion_tokens + count_of(usage.cache_tokens),
{
}

/// Law: a count of tokens is of what was asked and what was answered, and
/// says nothing of a cache or a cost.
pub proof fn a_count_is_of_tokens(prompt: u32, completion: u32, r: Usage)
    requires
        call_ensures(Usage::tokens, (prompt, completion), r),
    ensures
        r.prompt_tokens == prompt,
        r.completion_tokens == completion,
        r.cache_tokens is None,
        r.cost is None,
{
}

/// Law: two counts add up, each reading with its own: a reading that only
/// one of them has is kept, and none is made up.
pub proof fn counts_add_up(one: Usage, other: Usage, r: Usage, total: u64, a: u64, b: u64)
    requires
        call_ensures(Usage::plus, (one, other), r),
        call_ensures(Usage::total_tokens, (&r,), total),
        call_ensures(Usage::total_tokens, (&one,), a),
        call_ensures(Usage::total_tokens, (&other,), b),
    ensures
        r.prompt_tokens == one.prompt_tokens + other.prompt_tokens,
        r.completion_tokens == one.completion_tokens + other.completion_tokens,
        r.cache_tokens is None <==> one.cache_tokens is None && other.cache_tokens is None,
        r.cost is None <==> one.cost is None && other.cost is None,
        one.cost is Some && other.cost is Some ==> (r.cost->0).micro_usd == (one.cost->0).micro_usd
            + (other.cost->0).micro_usd,
        one.cost is Some && other.cost is None ==> r.cost == one.cost,
        one.cost is None ==> r.cost == other.cost,
        total == a + b,
{
}

/// Law: counts add up in any order.
pub proof fn counts_add_up_in_any_order(one: Usage, other: Usage, a: Usage, b: Usage)
    requires
        call_ensures(Usage::plus, (one, other), a),
        call_ensures(Usage::plus, (other, one), b),
    ensures
        a == b,
{
}

/// Law: the greater of two counts is, reading by reading, one of the two
/// and no less than either.
pub proof fn the_greater_is_one_of_the_two(one: Usage, other: Usage, r: Usage)
    requires
        call_ensures(Usage::max, (one, other), r),
    ensures
        r.prompt_tokens == one.prompt_tokens || r.prompt_tokens == other.prompt_tokens,
        r.prompt_tokens >= one.prompt_tokens && r.prompt_tokens >= other.prompt_tokens,
        r.completion_tokens == one.completion_tokens || r.completion_tokens
            == other.completion_tokens,
        r.completion_tokens >= one.completion_tokens && r.completion_tokens
            >= other.completion_tokens,
        r.cache_tokens == one.cache_tokens || r.cache_tokens == other.cache_tokens,
        r.cache_tokens is None <==> one.cache_tokens is None && other.cache_tokens is None,
        count_of(r.cache_tokens) >= count_of(one.cache_tokens),
        count_of(r.cache_tokens) >= count_of(other.cache_tokens),
        r.cost == one.cost || r.cost == other.cost,
        r.cost is None <==> one.cost is None && other.cost is None,
        one.cost is Some ==> (r.cost->0).micro_usd >= (one.cost->0).micro_usd,
        other.cost is Some ==> (r.cost->0).micro_usd >= (other.cost->0).micro_usd,
{
}

/// Law: a count is read out of an object member by member, each under its
/// own name; what may be absent is none where it is absent or null.
pub proof fn a_count_is_read_member_by_member(value: &Json, r: Option<Usage>)
    requires
        call_ensures(Usage::read, (value,), r),
        value@ is Object,
    ensures
        r is Some ==> {
            let usage = r->0;
            &&& value@.get("prompt_tokens"@) == Some(JsonView::Whole(usage.prompt_tokens as nat))
            &&& value@.get("completion_tokens"@) == Some(
                JsonView::Whole(usage.completion_tokens as nat),
            )
            &&& usage.cache_tokens is Some ==> value@.get("cache_tokens"@) == Some(
                JsonView::Whole((usage.cache_tokens->0) as nat),
            )
            &&& usage.cache_tokens is None ==> value@.get("cache_tokens"@) is None || value@.get(
                "cache_tokens"@,
            ) == Some(JsonView::Null)
            &&& usage.cost is None ==> value@.get("cost"@) is None || value@.get("cost"@) == Some(
                JsonView::Null,
            )
            &&& usage.cost is Some && value@.get("cost"@)->0 is Object ==> value@.get(
                "cost"@,
            )->0.get("micro_usd"@) == Some(JsonView::Whole((usage.cost->0).micro_usd as nat))
        },
        value@.get("cache_tokens"@) is None && value@.get("cost"@) is None ==> (r is Some <==> {
            let prompt = value@.get("prompt_tokens"@);
            let completion = value@.get("completion_tokens"@);
            &&& prompt is Some && prompt->0 is Whole && (prompt->0)->Whole_0 <= u32::MAX
            &&& completion is Some && completion->0 is Whole && (completion->0)->Whole_0
                <= u32::MAX
        }),
{
}

} // verus!
