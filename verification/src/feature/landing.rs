//! One issue's journey, judged: what is ordered for it, whether its Agent
//! did the work, and whether the work landed.

use crate::agent::Exit;
use crate::feature::merge::{Outcome, OutcomeView};
use crate::feature::record;
use crate::feature::Issue;
use crate::job::{Commits, Order, Phase};
use crate::text;
use vstd::prelude::*;

verus! {

/// The order for one issue: its brief, on a branch of its own, cut from
/// the settled tip — never the feature ref itself, which mid-merge may
/// hold a commit a red check is about to reset away.
pub fn order(issue: &Issue, repository: &str, tip: &str) -> (r: Order)
    ensures
        r.prompt@ == record::briefed(*issue),
        r.repository@ == repository@,
        r.branch@ == "issue/"@ + issue.id@,
        text::optional(r.base) == Some(tip@),
{
    Order {
        prompt: record::brief(issue),
        repository: repository.to_owned(),
        branch: text::cat2("issue/", issue.id.as_str()),
        base: Some(tip.to_owned()),
    }
}

/// The arguments that delete a standing issue branch: a corpse from an
/// earlier run, kept then on purpose; this run supersedes it.
pub fn corpse_args(order: &Order) -> (r: Vec<String>)
    ensures
        text::views(r@) == seq!["-C"@, order.repository@, "branch"@, "-D"@, order.branch@],
{
    let r = vec![
        "-C".to_owned(),
        order.repository.clone(),
        "branch".to_owned(),
        "-D".to_owned(),
        order.branch.clone(),
    ];
    proof {
        assert(text::views(r@) =~= seq![
            "-C"@,
            order.repository@,
            "branch"@,
            "-D"@,
            order.branch@,
        ]);
    }
    r
}

/// Why a run did not do the work, if it did not: the Agent's own end
/// first, then what was observed of its commits.
pub open spec fn fault(phase: Phase, commits: Option<Commits>) -> Option<Seq<char>> {
    match phase {
        Phase::Finished(Exit::Code(code)) => if code != 0 {
            Some("the Agent exited with code "@ + text::signed_decimal(code as int))
        } else {
            match commits {
                None => Some("the run ended with no commit observation"@),
                Some(commits) => if !commits.advanced {
                    Some(
                        "the Agent committed nothing: the branch never advanced past its base"@,
                    )
                } else if !commits.clean {
                    match commits.kept {
                        Some(path) => Some("the Agent left uncommitted work at "@ + path@),
                        None => Some("the Agent left uncommitted work"@),
                    }
                } else {
                    None
                },
            }
        },
        Phase::Finished(Exit::Signal(signal)) => Some(
            "the Agent was killed by signal "@ + text::signed_decimal(signal as int),
        ),
        Phase::Lost(words) => Some(words@),
        Phase::Running => Some("the run ended without an exit"@),
    }
}

/// Whether a run did the work: its Agent exited cleanly, the branch
/// advanced past its base, and nothing was left uncommitted.
///
/// # Errors
///
/// Why it did not.
pub fn judge(phase: &Phase, commits: &Option<Commits>) -> (r: Result<(), String>)
    ensures
        match r {
            Ok(_) => fault(*phase, *commits) is None,
            Err(words) => fault(*phase, *commits) == Some(words@),
        },
{
    match phase {
        Phase::Finished(Exit::Code(code)) => {
            if *code != 0 {
                let code = text::signed(*code);
                return Err(text::cat2("the Agent exited with code ", code.as_str()));
            }
        },
        Phase::Finished(Exit::Signal(signal)) => {
            let signal = text::signed(*signal);
            return Err(text::cat2("the Agent was killed by signal ", signal.as_str()));
        },
        Phase::Lost(words) => return Err(words.clone()),
        Phase::Running => return Err("the run ended without an exit".to_owned()),
    }
    match commits {
        None => Err("the run ended with no commit observation".to_owned()),
        Some(commits) => if !commits.advanced {
            Err(
                "the Agent committed nothing: the branch never advanced past its base".to_owned(),
            )
        } else if !commits.clean {
            match &commits.kept {
                Some(path) => Err(
                    text::cat2("the Agent left uncommitted work at ", path.as_str()),
                ),
                None => Err("the Agent left uncommitted work".to_owned()),
            }
        } else {
            Ok(())
        },
    }
}

/// What a merge came to for the issue: the commit it landed as, or why it
/// did not.
pub open spec fn landed(merged: Result<OutcomeView, Seq<char>>) -> Result<
    (Seq<char>, bool),
    Seq<char>,
> {
    match merged {
        Ok(OutcomeView::Merged { commit, checked }) => Ok((commit, checked)),
        Ok(OutcomeView::Conflict { paths }) => Err(
            "the merge conflicted at: "@ + text::join(paths, ", "@),
        ),
        Ok(OutcomeView::Red { output }) => Err("the merged result failed the check: "@ + output),
        Err(words) => Err(words),
    }
}

/// What a merge came to for the issue.
///
/// # Errors
///
/// Why the work did not land.
pub fn settle(merged: Result<Outcome, String>) -> (r: Result<(String, bool), String>)
    ensures
        match r {
            Ok((commit, checked)) => landed(merged_view(merged)) == Ok::<_, Seq<char>>(
                (commit@, checked),
            ),
            Err(words) => landed(merged_view(merged)) == Err::<(Seq<char>, bool), _>(words@),
        },
{
    match merged {
        Ok(Outcome::Merged { commit, checked }) => Ok((commit, checked)),
        Ok(Outcome::Conflict { paths }) => {
            let listed = text::joined(&paths, ", ");
            Err(text::cat2("the merge conflicted at: ", listed.as_str()))
        },
        Ok(Outcome::Red { output }) => Err(
            text::cat2("the merged result failed the check: ", output.as_str()),
        ),
        Err(words) => Err(words),
    }
}

/// A merge's end over sequences.
pub open spec fn merged_view(merged: Result<Outcome, String>) -> Result<OutcomeView, Seq<char>> {
    match merged {
        Ok(outcome) => Ok(outcome@),
        Err(words) => Err(words@),
    }
}

/// The words for a worker that panicked; `words` is what came with the
/// panic, if anything did.
pub fn panicked(words: Option<&str>) -> (r: String)
    ensures
        r@ == "the worker panicked: "@ + (match words {
            Some(words) => words@,
            None => "no words came with it"@,
        }),
{
    match words {
        Some(words) => text::cat2("the worker panicked: ", words),
        None => text::cat2("the worker panicked: ", "no words came with it"),
    }
}

} // verus!
