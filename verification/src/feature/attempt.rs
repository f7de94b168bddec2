//! One issue's whole journey, one deed at a time: a branch cut from the
//! settled feature tip at this moment, an Agent launched in a workspace of
//! it, the commit observation judged, and the branch merged.
//!
//! The slot is released — Merging said, scheduler woken — before queueing
//! on the merge, so no issue waits on a slower sibling's check; an attempt
//! that ends earlier still holds it, and its host gives it back.

use crate::feature::landing;
use crate::feature::merge::{Outcome, OutcomeView};
use crate::feature::record;
use crate::feature::Issue;
use crate::git;
use crate::job;
use crate::job::{Commits, Order, Phase, Workspace, WorkspaceView};
use crate::text;
use vstd::prelude::*;

verus! {

/// What is to be done next.
#[derive(Debug)]
pub enum Deed {
    /// The settled tip of the feature branch is to be read.
    Tip,
    /// Git is to be run, whatever it answers.
    Git(Vec<String>),
    /// The workspace of this order is to be provisioned.
    Provision(Order),
    /// The Agent is to be made that works in this workspace, by this brief.
    Man { workspace: Workspace, brief: String },
    /// This workspace is to be removed: its Agent never started.
    Abandon(Workspace),
    /// The Agent is to be run to its end, and its commits observed.
    Run,
    /// The issue is to be called merging, and its slot released.
    HandOver,
    /// This branch is to be merged into the feature branch.
    Merge(String),
}

/// An [`Order`] over sequences.
pub struct OrderView {
    pub prompt: Seq<char>,
    pub repository: Seq<char>,
    pub branch: Seq<char>,
    pub base: Option<Seq<char>>,
}

/// An order over sequences.
pub open spec fn order_view(order: Order) -> OrderView {
    OrderView {
        prompt: order.prompt@,
        repository: order.repository@,
        branch: order.branch@,
        base: text::optional(order.base),
    }
}

/// A [`Deed`] over sequences.
pub enum DeedView {
    Tip,
    Git(Seq<Seq<char>>),
    Provision(OrderView),
    Man { workspace: WorkspaceView, brief: Seq<char> },
    Abandon(WorkspaceView),
    Run,
    HandOver,
    Merge(Seq<char>),
}

impl View for Deed {
    type V = DeedView;

    open spec fn view(&self) -> DeedView {
        match self {
            Deed::Tip => DeedView::Tip,
            Deed::Git(args) => DeedView::Git(text::views(args@)),
            Deed::Provision(order) => DeedView::Provision(order_view(*order)),
            Deed::Man { workspace, brief } => DeedView::Man {
                workspace: workspace@,
                brief: brief@,
            },
            Deed::Abandon(workspace) => DeedView::Abandon(workspace@),
            Deed::Run => DeedView::Run,
            Deed::HandOver => DeedView::HandOver,
            Deed::Merge(branch) => DeedView::Merge(branch@),
        }
    }
}

/// What came of a deed.
#[derive(Debug)]
pub enum Heard {
    /// The tip, or git's answer.
    Git(Result<String, String>),
    /// The workspace, or why there is none.
    Provisioned(Result<Workspace, String>),
    /// The Agent is made, or why not.
    Manned(Result<(), String>),
    /// How the Agent ended, and what was observed of its commits.
    Ran { phase: Phase, commits: Option<Commits> },
    /// It is done.
    Done,
    /// How the merge ended.
    Merged(Result<Outcome, String>),
}

/// A [`Heard`] over sequences: a run by what was wrong with it.
pub enum HeardView {
    Git(Result<Seq<char>, Seq<char>>),
    Provisioned(Result<WorkspaceView, Seq<char>>),
    Manned(Result<(), Seq<char>>),
    Ran(Option<Seq<char>>),
    Done,
    Merged(Result<OutcomeView, Seq<char>>),
}

impl View for Heard {
    type V = HeardView;

    open spec fn view(&self) -> HeardView {
        match self {
            Heard::Git(answer) => HeardView::Git(git::words_of(*answer)),
            Heard::Provisioned(Ok(workspace)) => HeardView::Provisioned(Ok(workspace@)),
            Heard::Provisioned(Err(words)) => HeardView::Provisioned(Err(words@)),
            Heard::Manned(Ok(_)) => HeardView::Manned(Ok(())),
            Heard::Manned(Err(words)) => HeardView::Manned(Err(words@)),
            Heard::Ran { phase, commits } => HeardView::Ran(landing::fault(*phase, *commits)),
            Heard::Done => HeardView::Done,
            Heard::Merged(merged) => HeardView::Merged(landing::merged_view(*merged)),
        }
    }
}

/// How far an attempt got, and what is known by then.
#[derive(Debug)]
enum Place {
    /// The tip is being read.
    Tipping { issue: Issue, repository: String },
    /// A branch left over from an earlier run is being deleted.
    Clearing { order: Order },
    /// The workspace is being provisioned.
    Provisioning { order: Order },
    /// The Agent is being made.
    Manning { order: Order, workspace: Workspace },
    /// The workspace of an Agent that never started is being removed.
    Abandoning { workspace: Workspace, words: String },
    /// The Agent runs.
    Running { branch: String },
    /// The issue is being called merging.
    Handing { branch: String },
    /// The branch is being merged.
    Merging { branch: String },
}

/// How far an attempt got, over sequences.
pub enum PlaceView {
    Tipping { prompt: Seq<char>, id: Seq<char>, repository: Seq<char> },
    Clearing { order: OrderView },
    Provisioning { order: OrderView },
    Manning { order: OrderView, workspace: WorkspaceView },
    Abandoning { workspace: WorkspaceView, words: Seq<char> },
    Running { branch: Seq<char> },
    Handing { branch: Seq<char> },
    Merging { branch: Seq<char> },
}

closed spec fn place_view(place: Place) -> PlaceView {
    match place {
        Place::Tipping { issue, repository } => PlaceView::Tipping {
            prompt: record::briefed(issue),
            id: issue.id@,
            repository: repository@,
        },
        Place::Clearing { order } => PlaceView::Clearing { order: order_view(order) },
        Place::Provisioning { order } => PlaceView::Provisioning { order: order_view(order) },
        Place::Manning { order, workspace } => PlaceView::Manning {
            order: order_view(order),
            workspace: workspace@,
        },
        Place::Abandoning { workspace, words } => PlaceView::Abandoning {
            workspace: workspace@,
            words: words@,
        },
        Place::Running { branch } => PlaceView::Running { branch: branch@ },
        Place::Handing { branch } => PlaceView::Handing { branch: branch@ },
        Place::Merging { branch } => PlaceView::Merging { branch: branch@ },
    }
}

/// An attempt in progress.
#[derive(Debug)]
pub struct Attempt {
    at: Place,
}

impl View for Attempt {
    type V = PlaceView;

    closed spec fn view(&self) -> PlaceView {
        place_view(self.at)
    }
}

/// What an attempt comes to next.
#[derive(Debug)]
pub enum Attempting {
    /// A deed is to be done, and what came of it handed to the attempt.
    Do(Attempt),
    /// The attempt is over: the commit that landed and whether it was
    /// checked, or why nothing did.
    Ended(Result<(String, bool), String>),
}

/// An [`Attempting`] over sequences.
pub enum AttemptingView {
    Do(PlaceView),
    Ended(Result<(Seq<char>, bool), Seq<char>>),
}

impl View for Attempting {
    type V = AttemptingView;

    open spec fn view(&self) -> AttemptingView {
        match self {
            Attempting::Do(attempt) => AttemptingView::Do(attempt@),
            Attempting::Ended(Ok((commit, checked))) => AttemptingView::Ended(
                Ok((commit@, *checked)),
            ),
            Attempting::Ended(Err(words)) => AttemptingView::Ended(Err(words@)),
        }
    }
}

impl PlaceView {
    /// The deed to be done.
    pub open spec fn deed(self) -> DeedView {
        match self {
            PlaceView::Tipping { .. } => DeedView::Tip,
            PlaceView::Clearing { order } => DeedView::Git(
                seq!["-C"@, order.repository, "branch"@, "-D"@, order.branch],
            ),
            PlaceView::Provisioning { order } => DeedView::Provision(order),
            PlaceView::Manning { order, workspace } => DeedView::Man {
                workspace,
                brief: job::briefed(workspace.branch, order.prompt),
            },
            PlaceView::Abandoning { workspace, .. } => DeedView::Abandon(workspace),
            PlaceView::Running { .. } => DeedView::Run,
            PlaceView::Handing { .. } => DeedView::HandOver,
            PlaceView::Merging { branch } => DeedView::Merge(branch),
        }
    }

    /// Whether this could come of the deed.
    pub open spec fn expects(self, heard: HeardView) -> bool {
        match self {
            PlaceView::Tipping { .. } => heard is Git,
            PlaceView::Clearing { .. } => heard is Git,
            PlaceView::Provisioning { .. } => heard is Provisioned,
            PlaceView::Manning { .. } => heard is Manned,
            PlaceView::Abandoning { .. } => heard is Done,
            PlaceView::Running { .. } => heard is Ran,
            PlaceView::Handing { .. } => heard is Done,
            PlaceView::Merging { .. } => heard is Merged,
        }
    }

    /// What the attempt comes to, once its deed is done.
    pub open spec fn went(self, heard: HeardView) -> AttemptingView {
        match (self, heard) {
            (
                PlaceView::Tipping { prompt, id, repository },
                HeardView::Git(Ok(tip)),
            ) => AttemptingView::Do(
                PlaceView::Clearing {
                    order: OrderView {
                        prompt,
                        repository,
                        branch: "issue/"@ + id,
                        base: Some(tip),
                    },
                },
            ),
            (PlaceView::Tipping { .. }, HeardView::Git(Err(words))) => AttemptingView::Ended(
                Err(words),
            ),
            // A standing issue branch is a corpse from an earlier run. One
            // still pinned by a kept worktree refuses in git's words, and
            // the provisioning fails the issue with the corpse named.
            (PlaceView::Clearing { order }, _) => AttemptingView::Do(
                PlaceView::Provisioning { order },
            ),
            (
                PlaceView::Provisioning { order },
                HeardView::Provisioned(Ok(workspace)),
            ) => AttemptingView::Do(PlaceView::Manning { order, workspace }),
            (
                PlaceView::Provisioning { .. },
                HeardView::Provisioned(Err(words)),
            ) => AttemptingView::Ended(Err(words)),
            (PlaceView::Manning { workspace, .. }, HeardView::Manned(Ok(_))) => AttemptingView::Do(
                PlaceView::Running { branch: workspace.branch },
            ),
            // The worktree just provisioned is this attempt's to remove: an
            // Agent that never started leaves nothing behind.
            (
                PlaceView::Manning { workspace, .. },
                HeardView::Manned(Err(words)),
            ) => AttemptingView::Do(PlaceView::Abandoning { workspace, words }),
            (PlaceView::Abandoning { words, .. }, _) => AttemptingView::Ended(Err(words)),
            (PlaceView::Running { branch }, HeardView::Ran(None)) => AttemptingView::Do(
                PlaceView::Handing { branch },
            ),
            (PlaceView::Running { .. }, HeardView::Ran(Some(words))) => AttemptingView::Ended(
                Err(words),
            ),
            (PlaceView::Handing { branch }, _) => AttemptingView::Do(PlaceView::Merging { branch }),
            (PlaceView::Merging { .. }, HeardView::Merged(merged)) => AttemptingView::Ended(
                landing::landed(merged),
            ),
            (place, _) => AttemptingView::Do(place),
        }
    }
}

/// Opens the attempt at an issue, in a repository.
pub fn attempt(issue: &Issue, repository: &str) -> (r: Attempt)
    ensures
        r@ == (PlaceView::Tipping {
            prompt: record::briefed(*issue),
            id: issue.id@,
            repository: repository@,
        }),
{
    Attempt { at: Place::Tipping { issue: issue.clone(), repository: repository.to_owned() } }
}

impl Attempt {
    /// The deed to be done.
    pub fn deed(&self) -> (r: Deed)
        ensures
            r@ == self@.deed(),
    {
        match &self.at {
            Place::Tipping { .. } => Deed::Tip,
            Place::Clearing { order } => Deed::Git(landing::corpse_args(order)),
            Place::Provisioning { order } => Deed::Provision(order.clone()),
            Place::Manning { order, workspace } => Deed::Man {
                workspace: workspace.clone(),
                brief: workspace.brief(order.prompt.as_str()),
            },
            Place::Abandoning { workspace, .. } => Deed::Abandon(workspace.clone()),
            Place::Running { .. } => Deed::Run,
            Place::Handing { .. } => Deed::HandOver,
            Place::Merging { branch } => Deed::Merge(branch.clone()),
        }
    }

    /// What the attempt comes to, once its deed is done.
    pub fn next(self, heard: Heard) -> (r: Attempting)
        requires
            self@.expects(heard@),
        ensures
            r@ == self@.went(heard@),
    {
        match (self.at, heard) {
            (Place::Tipping { issue, repository }, Heard::Git(Ok(tip))) => Attempting::Do(
                Attempt {
                    at: Place::Clearing {
                        order: landing::order(&issue, repository.as_str(), tip.as_str()),
                    },
                },
            ),
            (Place::Tipping { .. }, Heard::Git(Err(words))) => Attempting::Ended(Err(words)),
            (Place::Clearing { order }, _) => Attempting::Do(
                Attempt { at: Place::Provisioning { order } },
            ),
            (Place::Provisioning { order }, Heard::Provisioned(Ok(workspace))) => Attempting::Do(
                Attempt { at: Place::Manning { order, workspace } },
            ),
            (Place::Provisioning { .. }, Heard::Provisioned(Err(words))) => Attempting::Ended(
                Err(words),
            ),
            (Place::Manning { workspace, .. }, Heard::Manned(Ok(_))) => Attempting::Do(
                Attempt { at: Place::Running { branch: workspace.branch } },
            ),
            (Place::Manning { workspace, .. }, Heard::Manned(Err(words))) => Attempting::Do(
                Attempt { at: Place::Abandoning { workspace, words } },
            ),
            (Place::Abandoning { words, .. }, _) => Attempting::Ended(Err(words)),
            (Place::Running { branch }, Heard::Ran { phase, commits }) => match landing::judge(
                &phase,
                &commits,
            ) {
                Ok(_) => Attempting::Do(Attempt { at: Place::Handing { branch } }),
                Err(words) => Attempting::Ended(Err(words)),
            },
            (Place::Handing { branch }, _) => Attempting::Do(
                Attempt { at: Place::Merging { branch } },
            ),
            (Place::Merging { .. }, Heard::Merged(merged)) => Attempting::Ended(
                landing::settle(merged),
            ),
            (at, _) => Attempting::Do(Attempt { at }),
        }
    }
}

// ----- what every attempt keeps -----

/// Law: only a run in which nothing was found wanting is handed over, and
/// only what was handed over is merged; so no work lands that its Agent did
/// not finish, commit and leave clean.
pub proof fn only_a_sound_run_is_merged(place: PlaceView, heard: HeardView)
    requires
        place.expects(heard),
    ensures
        place.went(heard) matches AttemptingView::Do(next) ==> {
            &&& next is Handing ==> place is Running && heard == HeardView::Ran(None)
            &&& next is Merging ==> place is Handing
        },
        place.went(heard) matches AttemptingView::Ended(Ok(_)) ==> place is Merging,
{
}

/// Law: the workspace of an Agent that never started is removed before the
/// attempt ends, and the attempt ends with the words for it.
pub proof fn an_agent_that_never_started_leaves_nothing(
    place: PlaceView,
    words: Seq<char>,
)
    requires
        place is Manning,
    ensures
        ({
            let next = place.went(HeardView::Manned(Err(words)));
            &&& next is Do
            &&& next->Do_0.deed() == DeedView::Abandon(place->Manning_workspace)
            &&& next->Do_0.went(HeardView::Done) == AttemptingView::Ended(Err(words))
        }),
{
}

/// Law: the branch an issue is built on starts at the tip that was settled
/// when the attempt began, and is named after the issue.
pub proof fn an_attempt_starts_at_the_settled_tip(
    prompt: Seq<char>,
    id: Seq<char>,
    repository: Seq<char>,
    tip: Seq<char>,
    cleared: HeardView,
)
    ensures
        ({
            let start = PlaceView::Tipping { prompt, id, repository };
            let clearing = start.went(HeardView::Git(Ok(tip)));
            let provisioning = clearing->Do_0.went(cleared);
            &&& clearing is Do
            &&& provisioning is Do
            &&& provisioning->Do_0.deed() == DeedView::Provision(
                OrderView { prompt, repository, branch: "issue/"@ + id, base: Some(tip) },
            )
        }),
{
}

} // verus!
