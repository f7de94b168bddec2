//! The run vocabularies: state machines narrating themselves.
//!
//! [`RunEvent`] is the second vocabulary on the envelope channel, and
//! [`FeatureEvent`] is the third: the same
//! [`Envelope`](crate::event::Envelope) and the same sinks carry them, so a
//! console folds a run the way the chat pane folds chat — one more match
//! arm, no new plumbing. State transitions are the harness's own narration;
//! what runs within rides whole — the active agent's [`AgentEvent`] stream
//! inside an issue run, each issue run's stream inside a feature run,
//! stamped with its issue.

use crate::agent::AgentEvent;
use vstd::prelude::*;

verus! {

/// The states of an issue run, in the order a clean run enters them.
///
/// In v1 the run is wide — one invocation does everything from
/// implementing through closing, prompt-instructed — and the middle states
/// verify rather than act. They exist from day one so each future taper
/// moves work across a boundary that is already drawn, never the
/// architecture.
#[derive(Clone, Copy, Debug, Eq, PartialEq, Structural)]
pub enum Phase {
    /// The harness fetches the clone and hangs the worktree off it: the
    /// worktree is harness input, never the agent's errand.
    Worktree,
    /// The wide invocation: the agent implements, opens the pull request,
    /// watches it, reviews, merges, and closes — prompt-instructed, for
    /// now.
    Implement,
    /// Verifies the pull request exists and its checks are green.
    Watch,
    /// The review boundary. Nothing to verify in v1 — the review happened
    /// inside [`Implement`](Self::Implement) — but the state is where the
    /// review taper will land.
    Review,
    /// Verifies the pull request merged into the target branch.
    Merge,
    /// Verifies the issue is closed.
    Close,
    /// The retention policy applied: the worktree is removed on a verified
    /// success, kept for forensics otherwise.
    Cleanup,
}

/// One observable moment in an issue run.
///
/// A run is a walk through [`Phase`]s, each entry narrated, the active
/// agent's whole stream carried within, ended by exactly one
/// [`Finished`](Self::Finished) bearing the harness's verdict.
#[derive(Clone, Debug, Eq, PartialEq)]
pub enum RunEvent {
    /// The run enters a state — the harness's narration, never the agent's.
    Entered(Phase),
    /// The active agent speaks.
    Agent(AgentEvent),
    /// The run is over. Terminal.
    Finished(Verdict),
}

/// How the run ended, as the harness judged it — never as the agent
/// believed.
///
/// Done is verified out-of-band through GitHub after the agent stops; a
/// completed stop that GitHub disbelieves is a failed run with a report,
/// not a success.
#[derive(Clone, Debug, Eq, PartialEq)]
pub enum Verdict {
    /// GitHub agrees: the pull request merged into the target branch, its
    /// checks green, the issue closed.
    Done,
    /// Anything less, with the report to render.
    Failed { report: String },
}

/// The states of a feature run, in the order a clean run enters them.
#[derive(Clone, Copy, Debug, Eq, PartialEq, Structural)]
pub enum FeaturePhase {
    /// The harness reads the feature's sub-issue graph through the seam:
    /// which issues, waiting on what.
    Graph,
    /// The harness ensures the feature branch exists at the remote — cut
    /// from the base branch's tip when absent — so every issue run has a
    /// base to check out and merge into. Machinery, never an agent's
    /// errand.
    Branch,
    /// One scheduling round: the pure fold picks the ready set, and an
    /// issue run is conducted for each. Entered once per round, so the log
    /// shows the graph draining.
    Schedule,
    /// Every sub-issue is closed; the review pull request is opened — or
    /// linked, when one already stands — and never merged.
    Review,
}

/// One observable moment in a feature run.
///
/// A run is a walk through [`FeaturePhase`]s, each entry narrated, every
/// sub-issue's whole [`RunEvent`] stream carried within, ended by exactly
/// one [`Finished`](Self::Finished) bearing the harness's verdict.
#[derive(Clone, Debug, Eq, PartialEq)]
pub enum FeatureEvent {
    /// The run enters a state — the harness's narration.
    Entered(FeaturePhase),
    /// A sub-issue's run speaks: its stream rides within, stamped with the
    /// issue it belongs to, so a console can fold per-issue lanes.
    Issue { number: u64, event: RunEvent },
    /// A sub-issue run's worktree outlived the run. Deliberate when the
    /// run failed — forensics at `path`, until dismissed — and accidental
    /// when a verified success could not delete it, in which case `error`
    /// explains.
    Retained { number: u64, path: String, error: Option<String> },
    /// The run is over. Terminal.
    Finished(FeatureVerdict),
}

/// How the feature run ended, as the harness judged it.
#[derive(Clone, Debug, Eq, PartialEq)]
pub enum FeatureVerdict {
    /// Every sub-issue closed and merged into the feature branch; `review`
    /// is the pull request where the human reviews the feature — opened by
    /// the machinery, never merged by it.
    Done { review: u64 },
    /// Anything less, with the report to render.
    Failed { report: String },
}

} // verus!
