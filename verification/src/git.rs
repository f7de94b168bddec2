//! Epik's own git: the user's `git` binary, run as argv.
//!
//! Every invocation is argv straight into a process — never a shell,
//! never a string spliced into a command line — with no terminal to
//! prompt on. [`settled`] settles a finished run into git's answer as a
//! value or its refusal as words, and [`tool_answer`] into the
//! `{ ok, output }` shape the model's git tools answer with. The persona
//! identity every commit Epik itself makes is stated here, once.

use crate::json::{Json, JsonView};
use crate::text;
use vstd::prelude::*;

pub mod laws;

verus! {

/// The Epik persona's git identity: what its own commits are authored as
/// — the root commit `git_init` makes, and everything a build agent
/// commits in a provisioned worktree.
pub const PERSONA_NAME: &'static str = "Epik";

pub const PERSONA_EMAIL: &'static str = "epik@epik-agent.dev";

/// How long one git invocation may take before it is killed and reported,
/// in seconds.
pub const TIMEOUT_SECONDS: u64 = 60;

/// The environment every git is run with: no terminal is attached, so a
/// network verb that wants credentials must fail in words rather than
/// wait for a prompt nobody can see.
pub const NO_PROMPT: (&'static str, &'static str) = ("GIT_TERMINAL_PROMPT", "0");

/// The whole command line of a git run.
pub fn argv(args: &Vec<String>) -> (r: Vec<String>)
    ensures
        text::views(r@) == seq!["git"@] + text::views(args@),
{
    let mut r: Vec<String> = Vec::new();
    r.push("git".to_owned());
    let mut i: usize = 0;
    while i < args.len()
        invariant
            i <= args@.len(),
            r@.len() == i + 1,
            r@[0]@ == "git"@,
            forall|k: int| 0 <= k < i ==> (#[trigger] r@[k + 1])@ == args@[k]@,
        decreases args@.len() - i,
    {
        r.push(args[i].clone());
        i = i + 1;
    }
    proof {
        let whole = seq!["git"@] + text::views(args@);
        assert forall|k: int| 0 <= k < whole.len() implies text::views(r@)[k] == whole[k] by {
            if k > 0 {
                assert(r@[(k - 1) + 1]@ == args@[k - 1]@);
            }
        }
        assert(text::views(r@) =~= whole);
    }
    r
}

/// What the model's git tools answer with: a nonzero exit is `ok: false`,
/// and `output` carries git's own words.
pub fn tool_answer(ok: bool, output: &str) -> (r: Json)
    ensures
        r@ == JsonView::record().with("ok"@, JsonView::Bool(ok)).with(
            "output"@,
            JsonView::Text(output@),
        ),
{
    Json::record().with("ok", Json::Bool(ok)).with("output", Json::string(output))
}

/// Git's answer: the combined output of a run that exited zero, and git's
/// own words where it did not.
pub open spec fn answered(args: Seq<Seq<char>>, ok: bool, output: Seq<char>) -> Result<
    Seq<char>,
    Seq<char>,
> {
    if ok {
        Ok(output)
    } else if text::trimmed(output).len() == 0 {
        Err("git "@ + text::join(args, " "@) + " failed without saying why"@)
    } else {
        Err(text::trimmed(output))
    }
}

/// The texts of an answer.
pub open spec fn words_of(answer: Result<String, String>) -> Result<Seq<char>, Seq<char>> {
    match answer {
        Ok(words) => Ok(words@),
        Err(words) => Err(words@),
    }
}

/// A finished run of git with `args`, for callers that want git's answer
/// and not a tool result.
///
/// # Errors
///
/// Git's own words on a nonzero exit.
pub fn settled(args: &Vec<String>, ok: bool, output: &str) -> (r: Result<String, String>)
    ensures
        words_of(r) == answered(text::views(args@), ok, output@),
{
    if ok {
        return Ok(output.to_owned());
    }
    let words = text::trim(output);
    if text::is_empty(words.as_str()) {
        let joined = text::joined(args, " ");
        Err(text::cat3("git ", joined.as_str(), " failed without saying why"))
    } else {
        Err(words)
    }
}

/// The arguments that ask for the commit `base` names in `repository` — a
/// branch, a tag, a sha — through `rev-parse --verify`.
pub open spec fn base_commit_asked(repository: Seq<char>, base: Seq<char>) -> Seq<Seq<char>> {
    seq![
        "-C"@,
        repository,
        "rev-parse"@,
        "--verify"@,
        "--end-of-options"@,
        base + "^{commit}"@,
    ]
}

/// The arguments that ask for the commit `base` names in `repository`.
pub fn base_commit_args(repository: &str, base: &str) -> (r: Vec<String>)
    ensures
        text::views(r@) == base_commit_asked(repository@, base@),
{
    let r = vec![
        "-C".to_owned(),
        repository.to_owned(),
        "rev-parse".to_owned(),
        "--verify".to_owned(),
        "--end-of-options".to_owned(),
        text::cat2(base, "^{commit}"),
    ];
    proof {
        assert(text::views(r@) =~= base_commit_asked(repository@, base@));
    }
    r
}

/// The commit a base names, or words that name the base that did not.
pub open spec fn base_commit_read(base: Seq<char>, answer: Result<Seq<char>, Seq<char>>) -> Result<
    Seq<char>,
    Seq<char>,
> {
    match answer {
        Ok(sha) => Ok(text::trimmed(sha)),
        Err(words) => Err(
            "the base "@ + text::quoted_as(base) + " does not name a commit: "@ + words,
        ),
    }
}

/// The commit `base` names, read from git's answer.
///
/// # Errors
///
/// Words that name the base that names no commit.
pub fn base_commit(base: &str, answer: &Result<String, String>) -> (r: Result<String, String>)
    ensures
        words_of(r) == base_commit_read(base@, words_of(*answer)),
{
    match answer {
        Ok(sha) => Ok(text::trim(sha.as_str())),
        Err(words) => {
            let quoted = text::quoted(base);
            Err(
                text::cat4(
                    "the base ",
                    quoted.as_str(),
                    " does not name a commit: ",
                    words.as_str(),
                ),
            )
        },
    }
}

} // verus!
