//! Where refs live and how to write them.
//!
//! A [`Forge`] is the seam between the merge machinery and whatever
//! hosts a repository: the remote a feature branch is pushed to, and
//! the credentials git pushes with. Thin by design in this slice — pull
//! requests and check runs grow here only when the review conversation
//! arrives; a thin trait that names the right boundary beats a fat one
//! that names the wrong boundary.
//!
//! [`GitHub`] implements it with the token already on the
//! [`keystore`](crate::keystore) rails, so pushing needs nothing
//! installed on the machine. [`push`] is the one writing verb: the
//! credentials answer git's askpass through a script that dies with the
//! push and environment variables that die with the process — never
//! argv, never a file with the secret in it — and ambient credential
//! helpers are switched off so the forge's own credentials are the ones
//! that speak.

use crate::agent;
use crate::github::Repo;
use crate::keystore::Secret;
use crate::text;
use vstd::prelude::*;

pub mod laws;

verus! {

/// Where refs live and how to write them: the remote, and the
/// credentials git pushes with.
pub trait Forge {
    /// The remote refs are written to — anything `git push` takes: an
    /// HTTPS URL, or an absolute local path in tests.
    fn remote(&self) -> (r: String);

    /// The credentials for that remote. `None` pushes bare, which is
    /// what a file remote wants.
    fn credentials(&self) -> (r: Option<Credentials>);
}

/// What git's askpass asks for: a username, and the secret that answers
/// for it.
pub struct Credentials {
    pub username: String,
    pub secret: Secret,
}

impl Clone for Credentials {
    fn clone(&self) -> (r: Self)
        ensures
            r == *self,
    {
        Credentials { username: self.username.clone(), secret: self.secret.clone() }
    }
}

/// GitHub as a forge: one repository, written over HTTPS as the
/// `x-access-token` user with the token from the keystore. The API
/// client in [`github`](crate::github) is the same system's other face;
/// this one only knows where the refs are.
pub struct GitHub {
    pub repo: Repo,
    pub token: Secret,
}

impl Forge for GitHub {
    fn remote(&self) -> (r: String)
        ensures
            r@ == "https://github.com/"@ + self.repo.spelled() + ".git"@,
    {
        let repo = self.repo.to_string();
        text::cat3("https://github.com/", repo.as_str(), ".git")
    }

    fn credentials(&self) -> (r: Option<Credentials>)
        ensures
            r is Some,
            (r->0).username@ == "x-access-token"@,
            (r->0).secret == self.token,
    {
        Some(Credentials { username: "x-access-token".to_owned(), secret: self.token.clone() })
    }
}

/// The askpass script: git calls it once for the username and once for
/// the password, saying which in its one argument, and it answers from
/// the environment — the secret is never written into the script.
pub const ASKPASS: &'static str =
    "#!/bin/sh\ncase \"$1\" in\n  Username*) printf '%s\\n' \"$EPIK_GIT_USERNAME\" ;;\n  *) printf '%s\\n' \"$EPIK_GIT_PASSWORD\" ;;\nesac\n";

/// The name of an askpass script, which no other has: the clock alone can
/// collide when two pushes start in the same tick, and a shared path would
/// let one push delete the other's live script — a process-wide count
/// settles it.
pub fn askpass_name(process: u64, nanos: u64, nth: u64) -> (r: String)
    ensures
        r@ == "epik-askpass-"@ + text::decimal(process as nat) + "-"@ + text::decimal(nanos as nat)
            + "-"@ + text::decimal(nth as nat),
{
    let process = text::number(process);
    let nanos = text::number(nanos);
    let nth = text::number(nth);
    let front = text::cat4("epik-askpass-", process.as_str(), "-", nanos.as_str());
    text::cat3(front.as_str(), "-", nth.as_str())
}

/// A run of git: its arguments, and what its environment is given.
pub struct Invocation {
    pub args: Vec<String>,
    pub env: Vec<(String, Secret)>,
}

/// The refspec that writes a branch to its own name.
pub open spec fn refspec(branch: Seq<char>) -> Seq<char> {
    "refs/heads/"@ + branch + ":refs/heads/"@ + branch
}

/// The arguments of a push: by explicit refspec, so no upstream
/// configuration is needed or touched; with credentials of its own,
/// `credential.helper=` empties the helper list, so the machine's keychain
/// does not answer for them.
pub open spec fn push_args(
    directory: Seq<char>,
    branch: Seq<char>,
    remote: Seq<char>,
    guarded: bool,
) -> Seq<Seq<char>> {
    if guarded {
        seq![
            "-C"@,
            directory,
            "-c"@,
            "credential.helper="@,
            "push"@,
            "--"@,
            remote,
            refspec(branch),
        ]
    } else {
        seq!["-C"@, directory, "push"@, "--"@, remote, refspec(branch)]
    }
}

/// What the environment of a push is given: where its askpass is, and what
/// that answers.
pub open spec fn push_env(askpass: Seq<char>, credentials: Credentials) -> Seq<
    (Seq<char>, Seq<char>),
> {
    seq![
        ("GIT_ASKPASS"@, askpass),
        ("EPIK_GIT_USERNAME"@, credentials.username@),
        ("EPIK_GIT_PASSWORD"@, credentials.secret.bytes()),
    ]
}

/// The push of `branch` of the repository in `directory` to `remote`, as
/// the run of git it is; `askpass` is where the script stands that answers
/// for the credentials. The secret is in the environment of that one git
/// and nowhere else.
pub fn push(
    directory: &str,
    branch: &str,
    remote: &str,
    credentials: &Option<Credentials>,
    askpass: &str,
) -> (r: Invocation)
    ensures
        text::views(r.args@) == push_args(directory@, branch@, remote@, *credentials is Some),
        agent::env_view(r.env@) == (match *credentials {
            Some(credentials) => push_env(askpass@, credentials),
            None => Seq::empty(),
        }),
{
    let refs = text::cat4("refs/heads/", branch, ":refs/heads/", branch);
    match credentials {
        None => {
            let args = vec![
                "-C".to_owned(),
                directory.to_owned(),
                "push".to_owned(),
                "--".to_owned(),
                remote.to_owned(),
                refs,
            ];
            let env: Vec<(String, Secret)> = Vec::new();
            proof {
                assert(text::views(args@) =~= push_args(directory@, branch@, remote@, false));
                assert(agent::env_view(env@) =~= Seq::empty());
            }
            Invocation { args, env }
        },
        Some(credentials) => {
            let args = vec![
                "-C".to_owned(),
                directory.to_owned(),
                "-c".to_owned(),
                "credential.helper=".to_owned(),
                "push".to_owned(),
                "--".to_owned(),
                remote.to_owned(),
                refs,
            ];
            let env = vec![
                ("GIT_ASKPASS".to_owned(), Secret::from(askpass)),
                ("EPIK_GIT_USERNAME".to_owned(), Secret::from(credentials.username.as_str())),
                ("EPIK_GIT_PASSWORD".to_owned(), credentials.secret.clone()),
            ];
            proof {
                assert(text::views(args@) =~= push_args(directory@, branch@, remote@, true));
                assert(agent::env_view(env@) =~= push_env(askpass@, *credentials));
            }
            Invocation { args, env }
        },
    }
}

} // verus!
