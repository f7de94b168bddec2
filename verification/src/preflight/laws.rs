//! What holds of every capability that is looked for.

use crate::keystore::{KeyStore, Secret};
use crate::preflight;
use crate::preflight::{Capability, CapabilityStatus, Standing};
use crate::text;
use vstd::prelude::*;

verus! {

/// Law: a layer holds just when everything in it is present; what is
/// refused is every status that is not, in order.
pub proof fn a_layer_holds_when_everything_is_present(
    layer: Vec<CapabilityStatus>,
    r: Result<(), Vec<CapabilityStatus>>,
)
    requires
        call_ensures(preflight::held, (layer,), r),
    ensures
        r is Ok <==> forall|i: int|
            0 <= i < layer@.len() ==> (#[trigger] layer@[i]).standing is Present,
        r is Err ==> r->Err_0@ == layer@.filter(
            |status: CapabilityStatus| !(status.standing is Present),
        ),
{
    let absent = |status: CapabilityStatus| !(status.standing is Present);
    let stands = |status: CapabilityStatus| !status.stands();
    assert(stands =~= absent);
    let refused = layer@.filter(absent);
    if forall|i: int| 0 <= i < layer@.len() ==> (#[trigger] layer@[i]).standing is Present {
        if refused.len() > 0 {
            layer@.lemma_filter_pred(absent, 0);
            layer@.lemma_filter_contains_rev(absent, refused[0]);
        }
    } else {
        let i = choose|i: int|
            0 <= i < layer@.len() && !((#[trigger] layer@[i]).standing is Present);
        layer@.lemma_filter_contains(absent, i);
    }
}

/// Law: an explicit path is the only candidate; a bare name is looked for
/// in directories, under that name.
pub proof fn a_path_answers_for_itself(
    spelling: &str,
    path: &str,
    explicit: bool,
    r: Vec<String>,
)
    requires
        call_ensures(preflight::explicit, (spelling,), explicit),
        call_ensures(preflight::candidates, (spelling, path), r),
    ensures
        explicit ==> r@.len() == 1 && r@[0]@ == spelling@,
        !explicit ==> r@.len() == preflight::directories(path@).len() && forall|k: int|
            0 <= k < r@.len() ==> (#[trigger] r@[k])@ == preflight::within(
                preflight::directories(path@)[k],
                spelling@,
            ),
        (forall|i: int| 0 <= i < spelling@.len() ==> spelling@[i] != '/') ==> !explicit,
{
    let views = text::views(r@);
    assert(views.len() == r@.len());
    if explicit {
        assert(views[0] == r@[0]@);
    } else {
        assert forall|k: int| 0 <= k < r@.len() implies (#[trigger] r@[k])@ == preflight::within(
            preflight::directories(path@)[k],
            spelling@,
        ) by {
            assert(views[k] == r@[k]@);
        }
    }
    if forall|i: int| 0 <= i < spelling@.len() ==> spelling@[i] != '/' {
        bare_is_bare(spelling@);
    }
}

proof fn bare_is_bare(spelling: Seq<char>)
    requires
        forall|i: int| 0 <= i < spelling.len() ==> spelling[i] != '/',
    ensures
        !preflight::bared(spelling).contains('/'),
{
}

/// Law: a name with a slash between two other characters is a path.
pub proof fn a_name_with_a_slash_is_a_path(dir: Seq<char>, name: Seq<char>)
    requires
        name.len() > 0,
        name.last() != '/',
        name.last() != '.',
    ensures
        preflight::is_explicit(dir + "/"@ + name),
{
    reveal_strlit("/");
    let whole = dir + "/"@ + name;
    assert(whole.last() == name.last());
    assert(whole[dir.len() as int] == '/');
    assert(whole.contains('/'));
}

/// Law: a path of directories is cut at its colons: what comes before the
/// first is searched first, and the rest after it; an empty one is none.
pub proof fn a_path_is_searched_in_its_order(first: Seq<char>, rest: Seq<char>)
    requires
        forall|i: int| 0 <= i < first.len() ==> first[i] != ':',
    ensures
        preflight::directories(first + ":"@ + rest) == (if first.len() > 0 {
            seq![first]
        } else {
            Seq::<Seq<char>>::empty()
        }) + preflight::directories(rest),
        preflight::directories(first) == (if first.len() > 0 {
            seq![first]
        } else {
            Seq::<Seq<char>>::empty()
        }),
{
    reveal_strlit(":");
    reveal(Seq::filter);
    let wanted = |dir: Seq<char>| dir.len() > 0;
    let whole = first + ":"@ + rest;
    let n = first.len() as int;
    assert(whole[n] == ':');
    assert forall|i: int| 0 <= i < n implies #[trigger] whole[i] != ':' by {
        assert(whole[i] == first[i]);
    }
    text::found_first(whole, ':', n);
    assert(whole.take(n) =~= first);
    assert(whole.skip(n + 1) =~= rest);
    let parts = preflight::parts(rest, ':');
    assert(preflight::parts(whole, ':') == seq![first] + parts);
    vstd::seq::Seq::filter_distributes_over_add(seq![first], parts, wanted);
    assert(seq![first].drop_last() =~= Seq::<Seq<char>>::empty());
    assert(Seq::<Seq<char>>::empty().filter(wanted) =~= Seq::empty());
    assert(seq![first].filter(wanted) =~= (if first.len() > 0 {
        seq![first]
    } else {
        Seq::<Seq<char>>::empty()
    }));
    text::first_of_goes_on(first, ':', n);
    assert(text::first_of(first, ':') >= n);
    assert(preflight::parts(first, ':') =~= seq![first]);
}

/// Law: what is found is the first candidate that can be run, and what was
/// searched before it is every candidate before it; where none can be run,
/// all were searched.
pub proof fn the_first_that_runs_is_found(
    candidates: &Vec<String>,
    runnable: &Vec<bool>,
    explicit: bool,
    r: (Vec<String>, Option<String>),
)
    requires
        runnable@.len() == candidates@.len(),
        call_ensures(preflight::hunt, (candidates, runnable, explicit), r),
    ensures
        r.1 is None <==> forall|i: int| 0 <= i < runnable@.len() ==> !(#[trigger] runnable@[i]),
        r.1 is None ==> text::views(r.0@) == text::views(candidates@),
        r.1 is Some ==> exists|i: int|
            {
                &&& 0 <= i < candidates@.len()
                &&& #[trigger] runnable@[i]
                &&& forall|k: int| 0 <= k < i ==> !(#[trigger] runnable@[k])
                &&& (r.1->0)@ == candidates@[i]@
                &&& !explicit ==> text::views(r.0@) == text::views(candidates@).take(i)
            },
{
    let flags = runnable@;
    let all = text::views(candidates@);
    assert(all.len() == candidates@.len());
    if exists|i: int| 0 <= i < all.len() && i < flags.len() && #[trigger] flags[i] {
        let some = choose|i: int| 0 <= i < all.len() && i < flags.len() && #[trigger] flags[i];
        first_is_first(flags, some);
        let at = preflight::first_true(flags) as int;
        assert(flags[at]);
        assert(all[at] == candidates@[at]@);
    } else {
        assert forall|i: int| 0 <= i < flags.len() implies !(#[trigger] flags[i]) by {}
    }
}

proof fn first_is_first(flags: Seq<bool>, some: int)
    requires
        0 <= some < flags.len(),
        flags[some],
    ensures
        preflight::first_true(flags) <= some,
        flags[preflight::first_true(flags) as int],
        forall|k: int| 0 <= k < preflight::first_true(flags) ==> !(#[trigger] flags[k]),
    decreases flags.len(),
{
    if !flags[0] {
        let rest = flags.skip(1);
        assert(rest[some - 1] == flags[some]);
        first_is_first(rest, some - 1);
        assert forall|k: int| 0 <= k < preflight::first_true(flags) implies !(
        #[trigger] flags[k]) by {
            if k > 0 {
                assert(rest[k - 1] == flags[k]);
            }
        }
    }
}

/// Law: a binary stands where it was found, and is absent where it was not,
/// with everywhere that was searched; it is the Agent's own, under the
/// name it was looked for by.
pub proof fn a_binary_stands_where_it_was_found(
    spelling: &str,
    searched: Vec<String>,
    found: Option<String>,
    r: CapabilityStatus,
)
    requires
        call_ensures(preflight::binary, (spelling, searched, found), r),
    ensures
        r.capability is Agent,
        r.capability->binary@ == spelling@,
        r.standing is Present <==> found is Some,
        found is Some ==> r.standing->Present_at@ == (found->0)@,
        found is None ==> r.standing is Absent && text::views(r.standing->searched@)
            == text::views(searched@),
{
}

/// Law: a git that would not start, or would not name its version, or names
/// one beneath 2.30, is unfit; any other stands where it was found.
pub proof fn git_stands_from_its_floor_up(
    at: &str,
    said: &Result<String, String>,
    r: Standing,
    words: &str,
    version: Option<(u32, u32)>,
)
    requires
        call_ensures(preflight::versioned, (at, said), r),
        *said is Ok ==> words@ == said->Ok_0@,
        call_ensures(preflight::version, (words,), version),
    ensures
        r is Present || r is Unfit,
        r is Present ==> r->Present_at@ == at@,
        r is Unfit ==> r->Unfit_at@ == at@,
        r is Present <==> *said is Ok && version is Some && ((version->0).0 > 2 || ((version->0).0
            == 2 && (version->0).1 >= 30)),
        *said is Err ==> r->reason@ == "would not start: "@ + said->Err_0@,
{
}

proof fn digits_lead(digits: Seq<char>, rest: Seq<char>)
    requires
        forall|i: int| 0 <= i < digits.len() ==> text::is_digit(#[trigger] digits[i]),
        rest.len() > 0 ==> !text::is_digit(rest[0]),
    ensures
        preflight::leading_digits(digits + rest) == digits.len(),
    decreases digits.len(),
{
    let whole = digits + rest;
    if digits.len() == 0 {
        assert(whole =~= rest);
    } else {
        assert(text::is_digit(digits[0]));
        assert(whole[0] == digits[0]);
        assert(whole.skip(1) =~= digits.skip(1) + rest);
        assert forall|i: int| 0 <= i < digits.skip(1).len() implies text::is_digit(
            #[trigger] digits.skip(1)[i],
        ) by {
            assert(digits.skip(1)[i] == digits[i + 1]);
        }
        digits_lead(digits.skip(1), rest);
    }
}

/// Law: a version is the number before the first dot and the number after
/// it, whatever follows.
pub proof fn a_version_is_its_first_two_numbers(
    said: &str,
    major: Seq<char>,
    minor: Seq<char>,
    rest: Seq<char>,
    r: Option<(u32, u32)>,
)
    requires
        call_ensures(preflight::version, (said,), r),
        said@ == "git version "@ + major + "."@ + minor + rest,
        forall|i: int| 0 <= i < major.len() ==> text::is_digit(#[trigger] major[i]),
        forall|i: int| 0 <= i < minor.len() ==> text::is_digit(#[trigger] minor[i]),
        rest.len() > 0 ==> !text::is_digit(rest[0]),
    ensures
        r is Some <==> text::parse(major, u32::MAX as nat) is Some && text::parse(
            minor,
            u32::MAX as nat,
        ) is Some,
        r is Some ==> text::parse(major, u32::MAX as nat) == Some((r->0).0 as nat)
            && text::parse(minor, u32::MAX as nat) == Some((r->0).1 as nat),
{
    reveal_strlit("git version ");
    reveal_strlit(".");
    let prefix = "git version "@;
    let numbers = major + ("."@ + minor + rest);
    assert(said@.take(prefix.len() as int) =~= prefix);
    assert(said@.skip(prefix.len() as int) =~= numbers);
    let dotted = "."@ + minor + rest;
    assert(dotted[0] == '.');
    digits_lead(major, dotted);
    let at = major.len() as int;
    assert(numbers.take(at) =~= major);
    let after = numbers.skip(at + 1);
    assert(after =~= minor + rest);
    digits_lead(minor, rest);
    assert(after.take(minor.len() as int) =~= minor);
}

/// Law: git is what its binary was judged to be, and absent where none was
/// found.
pub proof fn git_is_what_it_was_judged(
    searched: Vec<String>,
    standing: Option<Standing>,
    r: CapabilityStatus,
)
    requires
        call_ensures(preflight::git, (searched, standing), r),
    ensures
        r.capability is Git,
        standing is Some ==> r.standing@ == (standing->0)@,
        standing is None ==> r.standing is Absent && text::views(r.standing->searched@)
            == text::views(searched@),
{
}

/// Law: a token that says something is the one in the environment, or else
/// the one in the keyring; one that says nothing is none. A token is
/// present just when there is one.
pub proof fn the_environment_goes_before_the_keyring(
    token_override: Option<Secret>,
    answer: Result<Option<Secret>, String>,
    r: (CapabilityStatus, Option<Secret>),
)
    requires
        call_ensures(preflight::token_status, (token_override, answer), r),
    ensures
        ({
            let overridden = token_override is Some && (token_override->0).bytes().len() > 0;
            let kept = answer is Ok && answer->Ok_0 is Some && (
            answer->Ok_0->0).bytes().len() > 0;
            &&& r.0.capability is GithubToken
            &&& overridden ==> r.1 == token_override
            &&& !overridden && kept ==> r.1 == answer->Ok_0
            &&& !overridden && !kept ==> r.1 is None
            &&& r.0.standing is Present <==> r.1 is Some
            &&& !overridden && answer is Err ==> r.0.standing is Unfit && r.0.standing->reason@
                == answer->Err_0@
            &&& !overridden && !kept && answer is Ok ==> r.0.standing is Absent
        }),
{
}

/// Law: a manifest is refused by its own layer before its Agents', and by
/// both before its token; it is passed only where everything is present,
/// with the token that was found.
pub proof fn a_manifest_is_refused_layer_by_layer<S: KeyStore>(
    own: Vec<CapabilityStatus>,
    agents: Vec<CapabilityStatus>,
    token_override: Option<Secret>,
    store: &S,
    r: Result<Secret, Vec<CapabilityStatus>>,
    first: Result<(), Vec<CapabilityStatus>>,
    second: Result<(), Vec<CapabilityStatus>>,
)
    requires
        call_ensures(preflight::manifest::<S>, (own, agents, token_override, store), r),
        call_ensures(preflight::held, (own,), first),
        call_ensures(preflight::held, (agents,), second),
    ensures
        first is Err ==> r is Err && r->Err_0@ == first->Err_0@,
        first is Ok && second is Err ==> r is Err && r->Err_0@ == second->Err_0@,
        r is Ok ==> first is Ok && second is Ok && r->Ok_0.bytes().len() > 0,
        r is Ok && token_override is Some && (token_override->0).bytes().len() > 0 ==> Some(
            r->Ok_0,
        ) == token_override,
        first is Ok && second is Ok && r is Err ==> r->Err_0@.len() == 1 && r->Err_0@[0].capability
            is GithubToken,
{
}

/// Law: a status is told under its capability's own name, with where it
/// stands or why it does not.
pub proof fn a_status_is_told_under_its_name(
    status: &CapabilityStatus,
    name: String,
    r: String,
)
    requires
        call_ensures(Capability::to_string, (&status.capability,), name),
        call_ensures(CapabilityStatus::to_string, (status,), r),
    ensures
        status.capability is Git ==> name@ == "git"@,
        status.capability is Agent ==> name@ == "the agent's "@ + status.capability->binary@,
        status.capability is GithubToken ==> name@ == "the GitHub token"@,
        status.standing is Present ==> r@ == name@ + " at "@ + status.standing->Present_at@,
        status.standing is Unfit ==> r@ == name@ + " at "@ + status.standing->Unfit_at@
            + " is unfit: "@ + status.standing->reason@,
        status.standing is Absent && status.standing->searched@.len() == 0 ==> r@ == name@
            + " is absent, with nowhere to search"@,
        status.standing is Absent && status.standing->searched@.len() > 0 ==> r@ == name@
            + " is absent: searched "@ + text::join(
            text::views(status.standing->searched@),
            ", "@,
        ),
{
    if status.standing is Absent {
        assert(text::views(status.standing->searched@).len() == status.standing->searched@.len());
    }
}

/// Law: a name within a directory is under it, with one slash between.
pub proof fn a_name_is_within_its_directory(dir: &str, name: &str, r: String)
    requires
        call_ensures(preflight::join, (dir, name), r),
    ensures
        name@.len() > 0 && name@[0] == '/' ==> r@ == name@,
        !(name@.len() > 0 && name@[0] == '/') && dir@.len() > 0 && dir@.last() == '/' ==> r@ == dir@
            + name@,
        !(name@.len() > 0 && name@[0] == '/') && !(dir@.len() > 0 && dir@.last() == '/') ==> r@
            == dir@ + "/"@ + name@,
{
}

/// Law: a token in the environment that says something is the one in hand,
/// whatever the store holds; without one the store is asked for GitHub's
/// own entry.
pub proof fn the_store_is_asked_only_without_an_override<S: KeyStore>(
    token_override: Option<Secret>,
    store: &S,
    r: (CapabilityStatus, Option<Secret>),
)
    requires
        call_ensures(preflight::github_token::<S>, (token_override, store), r),
    ensures
        r.0.capability is GithubToken,
        r.0.standing is Present <==> r.1 is Some,
        token_override is Some && (token_override->0).bytes().len() > 0 ==> r.1 == token_override,
        r.1 is Some ==> (r.1->0).bytes().len() > 0,
{
}

/// Law: Apple's shim with nothing behind it is unfit where it stands.
pub proof fn a_shim_is_unfit(at: &str, r: Standing)
    requires
        call_ensures(preflight::shimmed, (at,), r),
    ensures
        r is Unfit,
        r->Unfit_at@ == at@,
{
}

} // verus!
