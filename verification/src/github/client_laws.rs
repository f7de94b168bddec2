//! What holds of every client of GitHub and of how a repository is spelled.

use crate::github;
use crate::github::{Error, GitHub, Merge, Repo};
use crate::json::{Json, JsonView};
use crate::keystore::Secret;
use crate::text;
use vstd::prelude::*;

verus! {

/// Law: a repository is read out of its spelling: the owner is what stands
/// before the slash and the name what stands after it, and neither is empty
/// nor holds a slash or a space. Put back together they are the spelling.
pub proof fn a_repository_is_what_it_is_spelled(
    spec: &str,
    parsed: Option<Repo>,
    told: String,
)
    requires
        call_ensures(Repo::parse, (spec,), parsed),
        parsed is Some ==> call_ensures(Repo::to_string, (&parsed->0,), told),
    ensures
        parsed is Some ==> {
            let repo = parsed->0;
            &&& told@ == spec@
            &&& told@ == repo.owner@ + "/"@ + repo.name@
            &&& repo.owner@.len() > 0 && repo.name@.len() > 0
            &&& forall|i: int|
                0 <= i < repo.owner@.len() ==> (#[trigger] repo.owner@[i]) != '/'
                    && !text::is_space(repo.owner@[i])
            &&& forall|i: int|
                0 <= i < repo.name@.len() ==> (#[trigger] repo.name@[i]) != '/' && !text::is_space(
                    repo.name@[i],
                )
        },
{
    reveal_strlit("/");
    if parsed is Some {
        let repo = parsed->0;
        text::first_of_goes_on(spec@, '/', 0);
        assert(spec@ =~= repo.owner@ + "/"@ + repo.name@);
    }
}

/// Law: every repository whose halves can be halves is read back from its
/// spelling, as itself.
pub proof fn a_repository_reads_back(repo: &Repo, told: String, spec: &str, parsed: Option<Repo>)
    requires
        repo.owner@.len() > 0,
        repo.name@.len() > 0,
        forall|i: int|
            0 <= i < repo.owner@.len() ==> (#[trigger] repo.owner@[i]) != '/' && !text::is_space(
                repo.owner@[i],
            ),
        forall|i: int|
            0 <= i < repo.name@.len() ==> (#[trigger] repo.name@[i]) != '/' && !text::is_space(
                repo.name@[i],
            ),
        call_ensures(Repo::to_string, (repo,), told),
        spec@ == told@,
        call_ensures(Repo::parse, (spec,), parsed),
    ensures
        parsed is Some,
        (parsed->0).owner@ == repo.owner@,
        (parsed->0).name@ == repo.name@,
{
    github::a_spelled_repository_reads_back(*repo);
}

/// Law: each way to merge has a word of its own on the wire, and is read
/// from the word a tool names it by, and from no other.
pub proof fn a_way_to_merge_has_its_own_word(
    merge: Merge,
    word: &'static str,
    value: &Json,
    read: Option<Merge>,
)
    requires
        call_ensures(Merge::wire, (merge,), word),
        value@ is Text,
        call_ensures(Merge::read, (Some(value),), read),
    ensures
        word@ == (match merge {
            Merge::Commit => "merge"@,
            Merge::Squash => "squash"@,
            Merge::Rebase => "rebase"@,
        }),
        read == Some(Merge::Commit) <==> value@ == JsonView::Text("commit"@),
        read == Some(Merge::Squash) <==> value@ == JsonView::Text("squash"@),
        read == Some(Merge::Rebase) <==> value@ == JsonView::Text("rebase"@),
{
    reveal_strlit("commit");
    reveal_strlit("squash");
    reveal_strlit("rebase");
    assert("commit"@[0] != "squash"@[0]);
    assert("commit"@[0] != "rebase"@[0]);
    assert("squash"@[0] != "rebase"@[0]);
}

/// Law: a client presents the token it was given, as a bearer, and needs
/// one just where it was given none; a base is taken without the slashes it
/// ends in.
pub proof fn a_client_presents_its_token(
    api: &str,
    token: Option<Secret>,
    client: &GitHub,
    base: &str,
    header: Option<String>,
    needed: Result<(), Error>,
)
    requires
        call_ensures(GitHub::at, (api, token), *client),
        call_ensures(GitHub::api, (client,), base),
        call_ensures(GitHub::authorization, (client,), header),
        call_ensures(GitHub::needs_token, (client,), needed),
    ensures
        base@.len() > 0 ==> base@.last() != '/',
        base@.len() <= api@.len(),
        base@ == api@.take(base@.len() as int),
        forall|i: int| base@.len() <= i < api@.len() ==> api@[i] == '/',
        header is Some <==> token is Some,
        token is Some ==> (header->0)@ == "Bearer "@ + (token->0).bytes(),
        needed is Ok <==> token is Some,
        needed is Err ==> needed->Err_0 is TokenAbsent,
{
    slashes_go(api@);
}

proof fn slashes_go(s: Seq<char>)
    ensures
        ({
            let left = text::trim_end_of(s, '/');
            &&& left.len() > 0 ==> left.last() != '/'
            &&& left.len() <= s.len()
            &&& left == s.take(left.len() as int)
            &&& forall|i: int| left.len() <= i < s.len() ==> s[i] == '/'
        }),
    decreases s.len(),
{
    if s.len() > 0 && s.last() == '/' {
        let front = s.drop_last();
        slashes_go(front);
        let left = text::trim_end_of(front, '/');
        assert(front.take(left.len() as int) =~= s.take(left.len() as int));
        assert forall|i: int| left.len() <= i < s.len() implies s[i] == '/' by {
            if i < s.len() - 1 {
                assert(front[i] == s[i]);
            }
        }
    } else {
        assert(s.take(s.len() as int) =~= s);
    }
}

/// Law: GitHub itself is asked at its own address.
pub proof fn github_is_asked_at_its_own_address(
    token: Option<Secret>,
    client: &GitHub,
    base: &str,
)
    requires
        call_ensures(GitHub::new, (token,), *client),
        call_ensures(GitHub::api, (client,), base),
    ensures
        base@ == "https://api.github.com"@,
{
    reveal_strlit("https://api.github.com");
    assert("https://api.github.com"@.last() != '/');
}

/// Law: an error is told in GitHub's own words where there are any.
pub proof fn an_error_keeps_githubs_words(error: &Error, r: String)
    requires
        call_ensures(Error::to_string, (error,), r),
    ensures
        *error is RateLimited ==> r@ == "GitHub rate limit: "@ + error->RateLimited_0@,
        *error is Refused ==> r@ == "GitHub refused with "@ + text::decimal(error->status as nat)
            + ": "@ + error->message@,
        *error is Wire ==> r@ == error->Wire_0@,
{
}

} // verus!
