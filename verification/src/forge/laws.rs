//! What holds of every push.

use crate::agent;
use crate::forge;
use crate::forge::{Credentials, Forge, GitHub, Invocation};
use crate::text;
use vstd::prelude::*;

verus! {

/// Law: a GitHub forge is pushed to over the repository's own address, with
/// the token it holds.
pub proof fn github_is_pushed_to_with_its_token(
    forge: &GitHub,
    remote: String,
    credentials: Option<Credentials>,
)
    requires
        call_ensures(GitHub::remote, (forge,), remote),
        call_ensures(GitHub::credentials, (forge,), credentials),
    ensures
        remote@ == "https://github.com/"@ + forge.repo.owner@ + "/"@ + forge.repo.name@ + ".git"@,
        credentials is Some,
        (credentials->0).username@ == "x-access-token"@,
        (credentials->0).secret.bytes() == forge.token.bytes(),
{
    assert(remote@ =~= "https://github.com/"@ + forge.repo.owner@ + "/"@ + forge.repo.name@
        + ".git"@);
}

/// Law: a branch is pushed out of its directory to the remote, onto the
/// branch of its own name there.
pub proof fn a_branch_is_pushed_onto_its_own_name(
    directory: &str,
    branch: &str,
    remote: &str,
    credentials: &Option<Credentials>,
    askpass: &str,
    r: Invocation,
)
    requires
        call_ensures(forge::push, (directory, branch, remote, credentials, askpass), r),
    ensures
        ({
            let n = r.args@.len();
            &&& n == (if *credentials is Some {
                8int
            } else {
                6int
            })
            &&& r.args@[0]@ == "-C"@
            &&& r.args@[1]@ == directory@
            &&& r.args@[n - 4]@ == "push"@
            &&& r.args@[n - 3]@ == "--"@
            &&& r.args@[n - 2]@ == remote@
            &&& r.args@[n - 1]@ == "refs/heads/"@ + branch@ + ":refs/heads/"@ + branch@
        }),
        *credentials is Some ==> r.args@[2]@ == "-c"@ && r.args@[3]@ == "credential.helper="@,
{
    let views = text::views(r.args@);
    let n = r.args@.len() as int;
    assert(views.len() == n);
    assert(views[0] == r.args@[0]@);
    assert(views[1] == r.args@[1]@);
    assert(views[2] == r.args@[2]@);
    assert(views[3] == r.args@[3]@);
    assert(views[n - 4] == r.args@[n - 4]@);
    assert(views[n - 3] == r.args@[n - 3]@);
    assert(views[n - 2] == r.args@[n - 2]@);
    assert(views[n - 1] == r.args@[n - 1]@);
}

/// Law: a secret is never among the arguments: two pushes that differ in
/// their credentials alone are run with the same ones. It goes by the
/// environment, under the name that the askpass script reads.
pub proof fn a_secret_goes_by_the_environment(
    directory: &str,
    branch: &str,
    remote: &str,
    one: &Option<Credentials>,
    other: &Option<Credentials>,
    askpass: &str,
    a: Invocation,
    b: Invocation,
)
    requires
        *one is Some,
        *other is Some,
        call_ensures(forge::push, (directory, branch, remote, one, askpass), a),
        call_ensures(forge::push, (directory, branch, remote, other, askpass), b),
    ensures
        text::views(a.args@) == text::views(b.args@),
        a.env@.len() == 3,
        a.env@[0].0@ == "GIT_ASKPASS"@,
        a.env@[0].1.bytes() == askpass@,
        a.env@[1].0@ == "EPIK_GIT_USERNAME"@,
        a.env@[1].1.bytes() == (one->0).username@,
        a.env@[2].0@ == "EPIK_GIT_PASSWORD"@,
        a.env@[2].1.bytes() == (one->0).secret.bytes(),
{
    let env = agent::env_view(a.env@);
    assert(env.len() == a.env@.len());
    assert(env[0] == (a.env@[0].0@, a.env@[0].1.bytes()));
    assert(env[1] == (a.env@[1].0@, a.env@[1].1.bytes()));
    assert(env[2] == (a.env@[2].0@, a.env@[2].1.bytes()));
}

/// Law: a push without credentials says nothing of any.
pub proof fn no_credentials_are_made_up(
    directory: &str,
    branch: &str,
    remote: &str,
    askpass: &str,
    r: Invocation,
)
    requires
        call_ensures(forge::push, (directory, branch, remote, &None::<Credentials>, askpass), r),
    ensures
        r.env@.len() == 0,
{
    assert(agent::env_view(r.env@).len() == r.env@.len());
}

/// Law: the askpass scripts of a process are told apart by their number.
pub proof fn askpass_scripts_are_told_apart(
    process: u64,
    nanos: u64,
    one: u64,
    other: u64,
    a: String,
    b: String,
)
    requires
        call_ensures(forge::askpass_name, (process, nanos, one), a),
        call_ensures(forge::askpass_name, (process, nanos, other), b),
        one != other,
    ensures
        a@ != b@,
{
    let front = "epik-askpass-"@ + text::decimal(process as nat) + "-"@ + text::decimal(
        nanos as nat,
    ) + "-"@;
    if a@ == b@ {
        assert(a@.skip(front.len() as int) =~= text::decimal(one as nat));
        assert(b@.skip(front.len() as int) =~= text::decimal(other as nat));
        text::decimal_is_injective(one as nat, other as nat);
    }
}

} // verus!
