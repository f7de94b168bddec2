//! Work lands on a feature branch through machinery, never through an
//! Agent: the build merges; the Agent never touches the feature branch.
//!
//! [`establish`] cuts the feature branch at its base and pushes it — a
//! branch already standing is used as it stands — and the host keeps one
//! workspace of it for merging, distinct from the per-issue workspaces.
//! [`Branch::merge`] then brings issue branches in one at a time:
//! `--no-ff`, the repository's own [`Check`] run on the result — after the
//! merge, not before, so it catches both an Agent that lied and two
//! siblings that build alone and not together — and the branch pushed on
//! green. A conflict aborts the merge, leaves the issue branch intact, and
//! reports the conflicting paths in git's own reckoning; a red check — and
//! a failed push, the same posture — resets the branch to the exact commit
//! it stood on, so an error always means nothing landed. Every commit on
//! a feature branch is green.
//!
//! Each of the two is a machine that says what is to be done next — a
//! [`Deed`] — and is told how that came out. The host does the deeds, one
//! merge at a time, under the lock that makes them so; it reads the
//! branch's settled tip, [`Branch::tip_args`], under the same lock, which
//! is where an issue branch is cut from at dispatch: a merge
//! mid-judgement, whose commit may yet be reset away, can never be the
//! answer.
//!
//! A build handed no check merges on observation alone, and the
//! [`Outcome`] says so.

use crate::check::Check;
use crate::git;
use crate::job;
use crate::job::Workspace;
use crate::text;
use vstd::prelude::*;

verus! {

/// What a host is to do next.
#[derive(Debug, Eq, PartialEq)]
pub enum Deed {
    /// Run git with these arguments. It answers with its output, or with
    /// its words.
    Git(Vec<String>),
    /// Run the check in the workspace: `Ok` is green, and a red one is the
    /// check's own output.
    Check,
    /// Push the branch: the words are git's.
    Push,
}

/// A [`Deed`] over sequences.
pub enum DeedView {
    Git(Seq<Seq<char>>),
    Check,
    Push,
}

impl View for Deed {
    type V = DeedView;

    open spec fn view(&self) -> DeedView {
        match self {
            Deed::Git(args) => DeedView::Git(text::views(args@)),
            Deed::Check => DeedView::Check,
            Deed::Push => DeedView::Push,
        }
    }
}

/// The feature branch as a build holds it: the workspace kept for
/// merging, and the check that judges every merge.
#[derive(Debug)]
pub struct Branch {
    workspace: Workspace,
    check: Option<Check>,
}

/// Where one merge got to. Conflicts and red checks are outcomes, not
/// faults: the branch has been put back where it stood, and the caller
/// has an issue to fail with these words.
#[derive(Clone, Debug, Eq, PartialEq)]
pub enum Outcome {
    /// Merged, judged, pushed. `checked` is false when there was no
    /// check to run — the record must say the branch is unchecked.
    Merged { commit: String, checked: bool },
    /// The merge conflicted: it was aborted, the feature branch never
    /// moved, and the issue branch stands intact. The paths git could
    /// not settle.
    Conflict { paths: Vec<String> },
    /// The merged result failed the check: the feature branch is back
    /// on the commit it stood on and the remote is untouched. The
    /// check's own output.
    Red { output: String },
}

/// An [`Outcome`] over sequences.
pub enum OutcomeView {
    Merged { commit: Seq<char>, checked: bool },
    Conflict { paths: Seq<Seq<char>> },
    Red { output: Seq<char> },
}

impl View for Outcome {
    type V = OutcomeView;

    open spec fn view(&self) -> OutcomeView {
        match self {
            Outcome::Merged { commit, checked } => OutcomeView::Merged {
                commit: commit@,
                checked: *checked,
            },
            Outcome::Conflict { paths } => OutcomeView::Conflict { paths: text::views(paths@) },
            Outcome::Red { output } => OutcomeView::Red { output: output@ },
        }
    }
}

/// How far a merge got: what has been asked, and what is known by then.
#[derive(Debug)]
enum Place {
    /// A standing half-merge is being aborted.
    Aborting,
    /// The workspace is being restored to the tip.
    Restoring,
    /// Where the branch stands is being read.
    Reading,
    /// The issue branch is being merged.
    Joining { before: String },
    /// What could not be settled is being read.
    Probing { words: String },
    /// The failed merge is being aborted.
    Backing { words: String, probed: Result<String, String> },
    /// The check is running.
    Checking { before: String },
    /// A red merge is being taken back.
    Reddening { before: String, output: String },
    /// Where the branch stands now is being read, before anyone sees it.
    Settling { before: String },
    /// A merge whose commit could not be read is being taken back.
    Retreating { before: String, words: String },
    /// The branch is being pushed.
    Pushing { before: String, commit: String },
    /// A merge the remote never saw is being taken back.
    Unwinding { before: String, words: String },
}

/// How far a merge got.
pub enum PlaceView {
    Aborting,
    Restoring,
    Reading,
    Joining { before: Seq<char> },
    Probing { words: Seq<char> },
    Backing { words: Seq<char>, probed: Result<Seq<char>, Seq<char>> },
    Checking { before: Seq<char> },
    Reddening { before: Seq<char>, output: Seq<char> },
    Settling { before: Seq<char> },
    Retreating { before: Seq<char>, words: Seq<char> },
    Pushing { before: Seq<char>, commit: Seq<char> },
    Unwinding { before: Seq<char>, words: Seq<char> },
}

closed spec fn place_view(place: Place) -> PlaceView {
    match place {
        Place::Aborting => PlaceView::Aborting,
        Place::Restoring => PlaceView::Restoring,
        Place::Reading => PlaceView::Reading,
        Place::Joining { before } => PlaceView::Joining { before: before@ },
        Place::Probing { words } => PlaceView::Probing { words: words@ },
        Place::Backing { words, probed } => PlaceView::Backing {
            words: words@,
            probed: git::words_of(probed),
        },
        Place::Checking { before } => PlaceView::Checking { before: before@ },
        Place::Reddening { before, output } => PlaceView::Reddening {
            before: before@,
            output: output@,
        },
        Place::Settling { before } => PlaceView::Settling { before: before@ },
        Place::Retreating { before, words } => PlaceView::Retreating {
            before: before@,
            words: words@,
        },
        Place::Pushing { before, commit } => PlaceView::Pushing {
            before: before@,
            commit: commit@,
        },
        Place::Unwinding { before, words } => PlaceView::Unwinding {
            before: before@,
            words: words@,
        },
    }
}

/// A merge in progress.
#[derive(Debug)]
pub struct Merge {
    directory: String,
    branch: String,
    checked: bool,
    at: Place,
}

/// A [`Merge`] over sequences.
pub struct MergeView {
    pub directory: Seq<char>,
    pub branch: Seq<char>,
    pub checked: bool,
    pub at: PlaceView,
}

impl View for Merge {
    type V = MergeView;

    closed spec fn view(&self) -> MergeView {
        MergeView {
            directory: self.directory@,
            branch: self.branch@,
            checked: self.checked,
            at: place_view(self.at),
        }
    }
}

/// What a merge comes to next.
#[derive(Debug)]
pub enum Merging {
    /// Its deed is to be done, and the answer handed to it.
    Do(Merge),
    /// It is over.
    Ended(Result<Outcome, String>),
}

/// A [`Merging`] over sequences.
pub enum MergingView {
    Do(MergeView),
    Ended(Result<OutcomeView, Seq<char>>),
}

impl View for Merging {
    type V = MergingView;

    open spec fn view(&self) -> MergingView {
        match self {
            Merging::Do(merge) => MergingView::Do(merge@),
            Merging::Ended(Ok(outcome)) => MergingView::Ended(Ok(outcome@)),
            Merging::Ended(Err(words)) => MergingView::Ended(Err(words@)),
        }
    }
}

/// What ended a merge whose joining failed: the conflict, where git has
/// paths it could not settle, and the words otherwise.
pub open spec fn conflicted(words: Seq<char>, probed: Result<Seq<char>, Seq<char>>) -> Result<
    OutcomeView,
    Seq<char>,
> {
    match probed {
        Err(probe) => Err(
            "the merge failed ("@ + words + ") and the conflict could not be read: "@ + probe,
        ),
        Ok(listing) => if text::lines(listing).len() == 0 {
            Err(words)
        } else {
            Ok(OutcomeView::Conflict { paths: text::lines(listing) })
        },
    }
}

/// The arguments that put a workspace back on a commit.
pub open spec fn reset_to(directory: Seq<char>, commit: Seq<char>) -> Seq<Seq<char>> {
    seq!["-C"@, directory, "reset"@, "--hard"@, commit]
}

impl MergeView {
    /// The deed to be done.
    pub open spec fn deed(self) -> DeedView {
        match self.at {
            PlaceView::Aborting => DeedView::Git(
                seq!["-C"@, self.directory, "merge"@, "--abort"@],
            ),
            PlaceView::Restoring => DeedView::Git(reset_to(self.directory, "HEAD"@)),
            PlaceView::Reading => DeedView::Git(
                seq!["-C"@, self.directory, "rev-parse"@, "HEAD"@],
            ),
            PlaceView::Joining { .. } => DeedView::Git(
                seq![
                    "-C"@,
                    self.directory,
                    "-c"@,
                    "commit.gpgsign=false"@,
                    "merge"@,
                    "--no-ff"@,
                    "--no-edit"@,
                    self.branch,
                ],
            ),
            PlaceView::Probing { .. } => DeedView::Git(
                seq!["-C"@, self.directory, "diff"@, "--name-only"@, "--diff-filter=U"@],
            ),
            PlaceView::Backing { .. } => DeedView::Git(
                seq!["-C"@, self.directory, "merge"@, "--abort"@],
            ),
            PlaceView::Checking { .. } => DeedView::Check,
            PlaceView::Reddening { before, .. } => DeedView::Git(
                reset_to(self.directory, before),
            ),
            PlaceView::Settling { .. } => DeedView::Git(
                seq!["-C"@, self.directory, "rev-parse"@, "HEAD"@],
            ),
            PlaceView::Retreating { before, .. } => DeedView::Git(
                reset_to(self.directory, before),
            ),
            PlaceView::Pushing { .. } => DeedView::Push,
            PlaceView::Unwinding { before, .. } => DeedView::Git(
                reset_to(self.directory, before),
            ),
        }
    }

    /// The merge at another place.
    pub open spec fn reaching(self, at: PlaceView) -> MergingView {
        MergingView::Do(MergeView { at, ..self })
    }

    /// What the merge comes to, once its deed is done.
    pub open spec fn went(self, answer: Result<Seq<char>, Seq<char>>) -> MergingView {
        match (self.at, answer) {
            // "There is no merge to abort" is the ordinary answer, not a
            // fault; the reset is what must hold.
            (PlaceView::Aborting, _) => self.reaching(PlaceView::Restoring),
            (PlaceView::Restoring, Ok(_)) => self.reaching(PlaceView::Reading),
            (PlaceView::Reading, Ok(head)) => self.reaching(
                PlaceView::Joining { before: text::trimmed(head) },
            ),
            (PlaceView::Joining { before }, Ok(_)) => if self.checked {
                self.reaching(PlaceView::Checking { before })
            } else {
                self.reaching(PlaceView::Settling { before })
            },
            // Git's own report of what it could not settle — read before
            // the abort erases it, judged after the abort has been
            // attempted, so the report can never skip the abort.
            (PlaceView::Joining { .. }, Err(words)) => self.reaching(PlaceView::Probing { words }),
            (PlaceView::Probing { words }, probed) => self.reaching(
                PlaceView::Backing { words, probed },
            ),
            (PlaceView::Backing { words, probed }, _) => MergingView::Ended(
                conflicted(words, probed),
            ),
            (PlaceView::Checking { before }, Ok(_)) => self.reaching(
                PlaceView::Settling { before },
            ),
            (PlaceView::Checking { before }, Err(output)) => self.reaching(
                PlaceView::Reddening { before, output },
            ),
            (PlaceView::Reddening { output, .. }, Ok(_)) => MergingView::Ended(
                Ok(OutcomeView::Red { output }),
            ),
            // What the merge came to is read while it can still be taken
            // back, so that nothing can fail once it has landed.
            (PlaceView::Settling { before }, Ok(head)) => self.reaching(
                PlaceView::Pushing { before, commit: text::trimmed(head) },
            ),
            (PlaceView::Settling { before }, Err(words)) => self.reaching(
                PlaceView::Retreating { before, words },
            ),
            (PlaceView::Retreating { words, .. }, Ok(_)) => MergingView::Ended(Err(words)),
            (PlaceView::Retreating { words, .. }, Err(reset)) => MergingView::Ended(
                Err(
                    "the merge could not be read ("@ + words + ") and could not be unwound: "@
                        + reset,
                ),
            ),
            (PlaceView::Pushing { commit, .. }, Ok(_)) => MergingView::Ended(
                Ok(OutcomeView::Merged { commit, checked: self.checked }),
            ),
            // A merge the remote never saw must not stand.
            (PlaceView::Pushing { before, .. }, Err(words)) => self.reaching(
                PlaceView::Unwinding { before, words },
            ),
            (PlaceView::Unwinding { words, .. }, Ok(_)) => MergingView::Ended(Err(words)),
            (PlaceView::Unwinding { words, .. }, Err(reset)) => MergingView::Ended(
                Err(
                    "the push failed ("@ + words + ") and the merge could not be unwound: "@
                        + reset,
                ),
            ),
            (_, Err(words)) => MergingView::Ended(Err(words)),
        }
    }
}

/// What a merge opens with: restoring the workspace to a clean checkout
/// of the feature branch tip — a standing half-merge whose abort once
/// failed, or tracked files a green check dirtied, cannot reach it.
pub open spec fn opening(directory: Seq<char>, branch: Seq<char>, checked: bool) -> MergeView {
    MergeView { directory, branch, checked, at: PlaceView::Aborting }
}

fn git4(a: &str, b: &str, c: &str, d: &str) -> (r: Deed)
    ensures
        r@ == DeedView::Git(seq![a@, b@, c@, d@]),
{
    let args = vec![a.to_owned(), b.to_owned(), c.to_owned(), d.to_owned()];
    proof {
        assert(text::views(args@) =~= seq![a@, b@, c@, d@]);
    }
    Deed::Git(args)
}

fn git5(a: &str, b: &str, c: &str, d: &str, e: &str) -> (r: Deed)
    ensures
        r@ == DeedView::Git(seq![a@, b@, c@, d@, e@]),
{
    let args = vec![a.to_owned(), b.to_owned(), c.to_owned(), d.to_owned(), e.to_owned()];
    proof {
        assert(text::views(args@) =~= seq![a@, b@, c@, d@, e@]);
    }
    Deed::Git(args)
}

impl Merge {
    /// The deed to be done.
    pub fn deed(&self) -> (r: Deed)
        ensures
            r@ == self@.deed(),
    {
        let directory = self.directory.as_str();
        match &self.at {
            Place::Aborting => git4("-C", directory, "merge", "--abort"),
            Place::Restoring => git5("-C", directory, "reset", "--hard", "HEAD"),
            Place::Reading => git4("-C", directory, "rev-parse", "HEAD"),
            Place::Joining { .. } => {
                let args = vec![
                    "-C".to_owned(),
                    self.directory.clone(),
                    "-c".to_owned(),
                    "commit.gpgsign=false".to_owned(),
                    "merge".to_owned(),
                    "--no-ff".to_owned(),
                    "--no-edit".to_owned(),
                    self.branch.clone(),
                ];
                proof {
                    assert(text::views(args@) =~= seq![
                        "-C"@,
                        self.directory@,
                        "-c"@,
                        "commit.gpgsign=false"@,
                        "merge"@,
                        "--no-ff"@,
                        "--no-edit"@,
                        self.branch@,
                    ]);
                }
                Deed::Git(args)
            },
            Place::Probing { .. } => git5(
                "-C",
                directory,
                "diff",
                "--name-only",
                "--diff-filter=U",
            ),
            Place::Backing { .. } => git4("-C", directory, "merge", "--abort"),
            Place::Checking { .. } => Deed::Check,
            Place::Reddening { before, .. } => git5(
                "-C",
                directory,
                "reset",
                "--hard",
                before.as_str(),
            ),
            Place::Settling { .. } => git4("-C", directory, "rev-parse", "HEAD"),
            Place::Retreating { before, .. } => git5(
                "-C",
                directory,
                "reset",
                "--hard",
                before.as_str(),
            ),
            Place::Pushing { .. } => Deed::Push,
            Place::Unwinding { before, .. } => git5(
                "-C",
                directory,
                "reset",
                "--hard",
                before.as_str(),
            ),
        }
    }

    fn reach(self, at: Place) -> (r: Merging)
        ensures
            r@ == self@.reaching(place_view(at)),
    {
        Merging::Do(
            Merge { directory: self.directory, branch: self.branch, checked: self.checked, at },
        )
    }

    /// What the merge comes to, once its deed is done.
    pub fn next(self, answer: Result<String, String>) -> (r: Merging)
        ensures
            r@ == self@.went(git::words_of(answer)),
    {
        let Merge { directory, branch, checked, at } = self;
        let held = Merge { directory, branch, checked, at: Place::Aborting };
        match (at, answer) {
            (Place::Aborting, _) => held.reach(Place::Restoring),
            (Place::Restoring, Ok(_)) => held.reach(Place::Reading),
            (Place::Reading, Ok(head)) => held.reach(
                Place::Joining { before: text::trim(head.as_str()) },
            ),
            (Place::Joining { before }, Ok(_)) => if held.checked {
                held.reach(Place::Checking { before })
            } else {
                held.reach(Place::Settling { before })
            },
            (Place::Joining { .. }, Err(words)) => held.reach(Place::Probing { words }),
            (Place::Probing { words }, probed) => held.reach(Place::Backing { words, probed }),
            (Place::Backing { words, probed }, _) => Merging::Ended(conflict(words, probed)),
            (Place::Checking { before }, Ok(_)) => held.reach(Place::Settling { before }),
            (Place::Checking { before }, Err(output)) => held.reach(
                Place::Reddening { before, output },
            ),
            (Place::Reddening { output, .. }, Ok(_)) => Merging::Ended(
                Ok(Outcome::Red { output }),
            ),
            (Place::Settling { before }, Ok(head)) => held.reach(
                Place::Pushing { before, commit: text::trim(head.as_str()) },
            ),
            (Place::Settling { before }, Err(words)) => held.reach(
                Place::Retreating { before, words },
            ),
            (Place::Retreating { words, .. }, Ok(_)) => Merging::Ended(Err(words)),
            (Place::Retreating { words, .. }, Err(reset)) => Merging::Ended(
                Err(
                    text::cat4(
                        "the merge could not be read (",
                        words.as_str(),
                        ") and could not be unwound: ",
                        reset.as_str(),
                    ),
                ),
            ),
            (Place::Pushing { commit, .. }, Ok(_)) => Merging::Ended(
                Ok(Outcome::Merged { commit, checked: held.checked }),
            ),
            (Place::Pushing { before, .. }, Err(words)) => held.reach(
                Place::Unwinding { before, words },
            ),
            (Place::Unwinding { words, .. }, Ok(_)) => Merging::Ended(Err(words)),
            (Place::Unwinding { words, .. }, Err(reset)) => Merging::Ended(
                Err(
                    text::cat4(
                        "the push failed (",
                        words.as_str(),
                        ") and the merge could not be unwound: ",
                        reset.as_str(),
                    ),
                ),
            ),
            (Place::Restoring, Err(words)) => Merging::Ended(Err(words)),
            (Place::Reading, Err(words)) => Merging::Ended(Err(words)),
            (Place::Reddening { .. }, Err(words)) => Merging::Ended(Err(words)),
        }
    }
}

fn conflict(words: String, probed: Result<String, String>) -> (r: Result<Outcome, String>)
    ensures
        match r {
            Ok(outcome) => conflicted(words@, git::words_of(probed)) == Ok::<_, Seq<char>>(
                outcome@,
            ),
            Err(words2) => conflicted(words@, git::words_of(probed)) == Err::<OutcomeView, _>(
                words2@,
            ),
        },
{
    match probed {
        Err(probe) => Err(
            text::cat4(
                "the merge failed (",
                words.as_str(),
                ") and the conflict could not be read: ",
                probe.as_str(),
            ),
        ),
        Ok(listing) => {
            let paths = text::lines_of(listing.as_str());
            proof {
                assert(text::views(paths@).len() == paths@.len());
            }
            if paths.len() == 0 {
                Err(words)
            } else {
                Ok(Outcome::Conflict { paths })
            }
        },
    }
}

impl Branch {
    /// The workspace the branch is held through.
    pub closed spec fn held(&self) -> Workspace {
        self.workspace
    }

    /// The check that judges every merge.
    pub closed spec fn judge(&self) -> Option<Check> {
        self.check
    }

    /// The branch as it stands established, held through `workspace`.
    pub fn new(workspace: Workspace, check: Option<Check>) -> (r: Self)
        ensures
            r.held() == workspace,
            r.judge() == check,
    {
        Branch { workspace, check }
    }

    /// The workspace the branch is held through — where the check runs,
    /// and the mark the branch stood on when established.
    pub fn workspace(&self) -> (r: &Workspace)
        ensures
            *r == self.held(),
    {
        &self.workspace
    }

    /// The check that judges every merge; `None` is an unchecked branch.
    pub fn check(&self) -> (r: Option<&Check>)
        ensures
            match r {
                Some(check) => self.judge() == Some(*check),
                None => self.judge() is None,
            },
    {
        match &self.check {
            Some(check) => Some(check),
            None => None,
        }
    }

    /// The arguments that ask for the feature branch's tip. Every commit
    /// they are answered with under the merge lock is permanent: it is
    /// where an issue branch is cut from at dispatch. The repository is
    /// asked, so the tip still answers once the workspace is retired.
    pub fn tip_args(&self) -> (r: Vec<String>)
        ensures
            text::views(r@) == seq![
                "-C"@,
                self.held().repository@,
                "rev-parse"@,
                "refs/heads/"@ + self.held().branch@,
            ],
    {
        let r = vec![
            "-C".to_owned(),
            self.workspace.repository.clone(),
            "rev-parse".to_owned(),
            text::cat2("refs/heads/", self.workspace.branch.as_str()),
        ];
        proof {
            assert(text::views(r@) =~= seq![
                "-C"@,
                self.held().repository@,
                "rev-parse"@,
                "refs/heads/"@ + self.held().branch@,
            ]);
        }
        r
    }

    /// The tip, from git's answer.
    ///
    /// # Errors
    ///
    /// Git failing to read the ref, in its own words.
    pub fn tip(answer: Result<String, String>) -> (r: Result<String, String>)
        ensures
            match answer {
                Ok(head) => r is Ok && r->Ok_0@ == text::trimmed(head@),
                Err(words) => r == Err::<String, String>(words),
            },
    {
        match answer {
            Ok(head) => Ok(text::trim(head.as_str())),
            Err(words) => Err(words),
        }
    }

    /// Merges `branch` into the feature branch: `--no-ff`, the check run
    /// on the result, the branch pushed when it holds. A conflict or a red
    /// check comes back as an [`Outcome`] with the branch already put
    /// right.
    ///
    /// # Errors
    ///
    /// A name git would read as a flag. What the merge itself can fail of
    /// — git failing for reasons that are not a conflict, and the push
    /// failing, in which case the merge is unwound — is how it ends: an
    /// error always means nothing landed, and a retry can merge again.
    pub fn merge(&self, branch: &str) -> (r: Result<Merge, String>)
        ensures
            match r {
                Ok(merge) => !job::dashed(branch@) && merge@ == opening(
                    self.held().directory@,
                    branch@,
                    self.judge() is Some,
                ),
                Err(words) => job::dashed(branch@) && words@ == job::dashed_words(
                    "branch"@,
                    branch@,
                ),
            },
    {
        match job::positional("branch", branch) {
            Ok(_) => Ok(
                Merge {
                    directory: self.workspace.directory.clone(),
                    branch: branch.to_owned(),
                    checked: self.check.is_some(),
                    at: Place::Aborting,
                },
            ),
            Err(words) => Err(words),
        }
    }
}

// ----- establishing -----

/// How far an establishing got.
#[derive(Debug)]
enum Ground {
    /// Whether the branch stands is being read.
    Standing,
    /// Which commit the base names is being read.
    Basing,
    /// The branch is being cut.
    Cutting { base_commit: String },
    /// The branch is being pushed.
    Pushing,
    /// A branch the remote never saw is being taken back.
    Unwinding { words: String },
}

/// How far an establishing got.
pub enum GroundView {
    Standing,
    Basing,
    Cutting { base_commit: Seq<char> },
    Pushing,
    Unwinding { words: Seq<char> },
}

closed spec fn ground_view(ground: Ground) -> GroundView {
    match ground {
        Ground::Standing => GroundView::Standing,
        Ground::Basing => GroundView::Basing,
        Ground::Cutting { base_commit } => GroundView::Cutting { base_commit: base_commit@ },
        Ground::Pushing => GroundView::Pushing,
        Ground::Unwinding { words } => GroundView::Unwinding { words: words@ },
    }
}

/// An establishing in progress.
#[derive(Debug)]
pub struct Establish {
    repository: String,
    name: String,
    base: String,
    at: Ground,
}

/// An [`Establish`] over sequences.
pub struct EstablishView {
    pub repository: Seq<char>,
    pub name: Seq<char>,
    pub base: Seq<char>,
    pub at: GroundView,
}

impl View for Establish {
    type V = EstablishView;

    closed spec fn view(&self) -> EstablishView {
        EstablishView {
            repository: self.repository@,
            name: self.name@,
            base: self.base@,
            at: ground_view(self.at),
        }
    }
}

/// What an establishing comes to next.
#[derive(Debug)]
pub enum Establishing {
    /// Its deed is to be done, and the answer handed to it.
    Do(Establish),
    /// The branch stands: a workspace of it is to be kept for merging.
    Established,
    /// It does not, for these reasons.
    Refused(String),
}

/// An [`Establishing`] over sequences.
pub enum EstablishingView {
    Do(EstablishView),
    Established,
    Refused(Seq<char>),
}

impl View for Establishing {
    type V = EstablishingView;

    open spec fn view(&self) -> EstablishingView {
        match self {
            Establishing::Do(establish) => EstablishingView::Do(establish@),
            Establishing::Established => EstablishingView::Established,
            Establishing::Refused(words) => EstablishingView::Refused(words@),
        }
    }
}

/// Whether a listing of refs has this one.
pub open spec fn lists(listing: Seq<char>, name: Seq<char>) -> bool {
    exists|i: int|
        0 <= i < text::lines(listing).len() && #[trigger] text::trimmed(text::lines(listing)[i])
            == name
}

impl EstablishView {
    /// The ref of the branch.
    pub open spec fn ref_name(self) -> Seq<char> {
        "refs/heads/"@ + self.name
    }

    /// The deed to be done.
    pub open spec fn deed(self) -> DeedView {
        match self.at {
            GroundView::Standing => DeedView::Git(
                seq![
                    "-C"@,
                    self.repository,
                    "for-each-ref"@,
                    "--format=%(refname)"@,
                    self.ref_name(),
                ],
            ),
            GroundView::Basing => DeedView::Git(git::base_commit_asked(self.repository, self.base)),
            GroundView::Cutting { base_commit } => DeedView::Git(
                seq!["-C"@, self.repository, "branch"@, "--"@, self.name, base_commit],
            ),
            GroundView::Pushing => DeedView::Push,
            GroundView::Unwinding { .. } => DeedView::Git(
                seq!["-C"@, self.repository, "branch"@, "-D"@, self.name],
            ),
        }
    }

    /// The establishing at another place.
    pub open spec fn reaching(self, at: GroundView) -> EstablishingView {
        EstablishingView::Do(EstablishView { at, ..self })
    }

    /// What the establishing comes to, once its deed is done.
    pub open spec fn went(self, answer: Result<Seq<char>, Seq<char>>) -> EstablishingView {
        match (self.at, answer) {
            // Absence and failure are different answers: `for-each-ref`
            // exits zero either way and simply lists nothing for a branch
            // that is not there, so a repository that cannot be read blames
            // itself — never the base — and never sends the build down the
            // create path onto a name that exists.
            (GroundView::Standing, Err(words)) => EstablishingView::Refused(
                "could not read the branches of "@ + self.repository + ": "@ + words,
            ),
            (GroundView::Standing, Ok(listing)) => if lists(listing, self.ref_name()) {
                EstablishingView::Established
            } else if job::dashed(self.base) {
                EstablishingView::Refused(job::dashed_words("base"@, self.base))
            } else {
                self.reaching(GroundView::Basing)
            },
            (GroundView::Basing, answer) => match git::base_commit_read(self.base, answer) {
                Ok(base_commit) => self.reaching(GroundView::Cutting { base_commit }),
                Err(words) => EstablishingView::Refused(words),
            },
            (GroundView::Cutting { .. }, Ok(_)) => self.reaching(GroundView::Pushing),
            (GroundView::Cutting { .. }, Err(words)) => EstablishingView::Refused(words),
            (GroundView::Pushing, Ok(_)) => EstablishingView::Established,
            // A branch created but never pushed must not read as standing
            // on retry — unwind it, so the retry re-creates and re-pushes
            // instead of silently skipping the remote.
            (GroundView::Pushing, Err(words)) => self.reaching(GroundView::Unwinding { words }),
            (GroundView::Unwinding { words }, _) => EstablishingView::Refused(words),
        }
    }
}

/// Whether a listing of refs has this one.
fn has_line(listing: &str, name: &str) -> (r: bool)
    ensures
        r == lists(listing@, name@),
{
    let lines = text::lines_of(listing);
    let ghost all = text::lines(listing@);
    let mut i: usize = 0;
    while i < lines.len()
        invariant
            i <= lines@.len(),
            all == text::lines(listing@),
            text::views(lines@) == all,
            forall|k: int| 0 <= k < i ==> #[trigger] text::trimmed(all[k]) != name@,
        decreases lines@.len() - i,
    {
        proof {
            assert(text::views(lines@)[i as int] == lines@[i as int]@);
        }
        if text::same(text::trim(lines[i].as_str()).as_str(), name) {
            proof {
                assert(text::trimmed(text::lines(listing@)[i as int]) == name@);
            }
            return true;
        }
        i = i + 1;
    }
    proof {
        assert(text::views(lines@).len() == lines@.len());
    }
    false
}

/// Establishes the feature branch `name` in `repository`: created at
/// `base` and pushed when new; a branch already standing is used as it
/// stands, and not moved. What comes back is the first thing to do.
///
/// # Errors
///
/// A name git would read as a flag. What else can go wrong — the
/// repository is not one, the base does not name a commit, the branch
/// could not be pushed, or git failed along the way — is how the
/// establishing ends, in words for the model.
pub fn establish(repository: &str, name: &str, base: &str) -> (r: Result<Establish, String>)
    ensures
        match r {
            Ok(establish) => !job::dashed(name@) && establish@ == (EstablishView {
                repository: repository@,
                name: name@,
                base: base@,
                at: GroundView::Standing,
            }),
            Err(words) => job::dashed(name@) && words@ == job::dashed_words("branch"@, name@),
        },
{
    match job::positional("branch", name) {
        Ok(_) => Ok(
            Establish {
                repository: repository.to_owned(),
                name: name.to_owned(),
                base: base.to_owned(),
                at: Ground::Standing,
            },
        ),
        Err(words) => Err(words),
    }
}

impl Establish {
    /// The deed to be done.
    pub fn deed(&self) -> (r: Deed)
        ensures
            r@ == self@.deed(),
    {
        let repository = self.repository.as_str();
        match &self.at {
            Ground::Standing => {
                let ref_name = text::cat2("refs/heads/", self.name.as_str());
                git5(
                    "-C",
                    repository,
                    "for-each-ref",
                    "--format=%(refname)",
                    ref_name.as_str(),
                )
            },
            Ground::Basing => Deed::Git(git::base_commit_args(repository, self.base.as_str())),
            Ground::Cutting { base_commit } => {
                let args = vec![
                    "-C".to_owned(),
                    self.repository.clone(),
                    "branch".to_owned(),
                    "--".to_owned(),
                    self.name.clone(),
                    base_commit.clone(),
                ];
                proof {
                    assert(text::views(args@) =~= seq![
                        "-C"@,
                        self.repository@,
                        "branch"@,
                        "--"@,
                        self.name@,
                        base_commit@,
                    ]);
                }
                Deed::Git(args)
            },
            Ground::Pushing => Deed::Push,
            Ground::Unwinding { .. } => git5(
                "-C",
                repository,
                "branch",
                "-D",
                self.name.as_str(),
            ),
        }
    }

    fn reach(self, at: Ground) -> (r: Establishing)
        ensures
            r@ == self@.reaching(ground_view(at)),
    {
        Establishing::Do(
            Establish { repository: self.repository, name: self.name, base: self.base, at },
        )
    }

    /// What the establishing comes to, once its deed is done.
    pub fn next(self, answer: Result<String, String>) -> (r: Establishing)
        ensures
            r@ == self@.went(git::words_of(answer)),
    {
        let Establish { repository, name, base, at } = self;
        let held = Establish { repository, name, base, at: Ground::Standing };
        match (at, answer) {
            (Ground::Standing, Err(words)) => Establishing::Refused(
                text::cat4(
                    "could not read the branches of ",
                    held.repository.as_str(),
                    ": ",
                    words.as_str(),
                ),
            ),
            (Ground::Standing, Ok(listing)) => {
                let ref_name = text::cat2("refs/heads/", held.name.as_str());
                if has_line(listing.as_str(), ref_name.as_str()) {
                    return Establishing::Established;
                }
                match job::positional("base", held.base.as_str()) {
                    Ok(_) => held.reach(Ground::Basing),
                    Err(words) => Establishing::Refused(words),
                }
            },
            (Ground::Basing, answer) => match git::base_commit(held.base.as_str(), &answer) {
                Ok(base_commit) => held.reach(Ground::Cutting { base_commit }),
                Err(words) => Establishing::Refused(words),
            },
            (Ground::Cutting { .. }, Ok(_)) => held.reach(Ground::Pushing),
            (Ground::Cutting { .. }, Err(words)) => Establishing::Refused(words),
            (Ground::Pushing, Ok(_)) => Establishing::Established,
            (Ground::Pushing, Err(words)) => held.reach(Ground::Unwinding { words }),
            (Ground::Unwinding { words }, _) => Establishing::Refused(words),
        }
    }
}

// ----- what holds of every merge -----

/// What a merge has come to, after a row of answers.
pub open spec fn ran(start: MergeView, answers: Seq<Result<Seq<char>, Seq<char>>>) -> MergingView
    decreases answers.len(),
{
    if answers.len() == 0 {
        MergingView::Do(start)
    } else {
        match ran(start, answers.drop_last()) {
            MergingView::Do(merge) => merge.went(answers.last()),
            ended => ended,
        }
    }
}

/// Whether a deed of the merge was done and answered well, in the course
/// of a row of answers.
pub open spec fn did(
    start: MergeView,
    answers: Seq<Result<Seq<char>, Seq<char>>>,
    deed: DeedView,
) -> bool
    decreases answers.len(),
{
    if answers.len() == 0 {
        false
    } else {
        ||| did(start, answers.drop_last(), deed)
        ||| {
            &&& ran(start, answers.drop_last()) is Do
            &&& ran(start, answers.drop_last())->Do_0.deed() == deed
            &&& answers.last() is Ok
        }
    }
}

/// Whether a merge in progress has been pushed, and been judged green
/// where there is a check, just as its place says.
spec fn on_course(
    start: MergeView,
    answers: Seq<Result<Seq<char>, Seq<char>>>,
    merge: MergeView,
) -> bool {
    &&& merge.checked == start.checked
    &&& merge.directory == start.directory
    &&& !did(start, answers, DeedView::Push)
    &&& (merge.at is Settling || merge.at is Pushing) ==> (start.checked ==> did(
        start,
        answers,
        DeedView::Check,
    ))
}

proof fn stays_on_course(
    directory: Seq<char>,
    branch: Seq<char>,
    checked: bool,
    answers: Seq<Result<Seq<char>, Seq<char>>>,
)
    ensures
        ({
            let start = opening(directory, branch, checked);
            match ran(start, answers) {
                MergingView::Do(merge) => on_course(start, answers, merge),
                MergingView::Ended(Ok(OutcomeView::Merged { checked: judged, .. })) => {
                    &&& judged == checked
                    &&& did(start, answers, DeedView::Push)
                    &&& checked ==> did(start, answers, DeedView::Check)
                },
                MergingView::Ended(_) => !did(start, answers, DeedView::Push),
            }
        }),
    decreases answers.len(),
{
    let start = opening(directory, branch, checked);
    if answers.len() > 0 {
        stays_on_course(directory, branch, checked, answers.drop_last());
    }
}

/// Every commit on a feature branch is green: a merge that landed was
/// pushed, and where there is a check, the check had been run on it and
/// was green.
pub proof fn what_lands_was_judged(
    directory: Seq<char>,
    branch: Seq<char>,
    checked: bool,
    answers: Seq<Result<Seq<char>, Seq<char>>>,
)
    requires
        ran(opening(directory, branch, checked), answers) is Ended,
        ran(opening(directory, branch, checked), answers)->Ended_0 is Ok,
        ran(opening(directory, branch, checked), answers)->Ended_0->Ok_0 is Merged,
    ensures
        did(opening(directory, branch, checked), answers, DeedView::Push),
        checked ==> did(opening(directory, branch, checked), answers, DeedView::Check),
        ran(opening(directory, branch, checked), answers)->Ended_0->Ok_0->checked == checked,
{
    stays_on_course(directory, branch, checked, answers);
}

/// No push without a green check: in the course of a merge that is
/// checked, nothing is pushed before the check was green.
pub proof fn nothing_unjudged_is_pushed(
    directory: Seq<char>,
    branch: Seq<char>,
    answers: Seq<Result<Seq<char>, Seq<char>>>,
)
    requires
        ran(opening(directory, branch, true), answers) is Do,
        ran(opening(directory, branch, true), answers)->Do_0.deed() is Push,
    ensures
        did(opening(directory, branch, true), answers, DeedView::Check),
{
    stays_on_course(directory, branch, true, answers);
}

/// An error always means nothing landed, and so do a conflict and a red
/// check: the branch was never pushed.
pub proof fn an_error_lands_nothing(
    directory: Seq<char>,
    branch: Seq<char>,
    checked: bool,
    answers: Seq<Result<Seq<char>, Seq<char>>>,
)
    requires
        ran(opening(directory, branch, checked), answers) is Ended,
        !(ran(opening(directory, branch, checked), answers)->Ended_0 matches Ok(
            OutcomeView::Merged { .. },
        )),
    ensures
        !did(opening(directory, branch, checked), answers, DeedView::Push),
{
    stays_on_course(directory, branch, checked, answers);
}

/// A red check, a merge that cannot be read and a failed push reset the
/// branch to the exact commit it stood on: the deed that follows each is
/// that reset, and a red outcome comes only once it was done.
pub proof fn what_does_not_land_is_unwound(merge: MergeView, answer: Result<Seq<char>, Seq<char>>)
    ensures
        merge.at is Checking && answer is Err ==> {
            &&& merge.went(answer) is Do
            &&& merge.went(answer)->Do_0.deed() == DeedView::Git(
                reset_to(merge.directory, merge.at->Checking_before),
            )
        },
        merge.at is Settling && answer is Err ==> {
            &&& merge.went(answer) is Do
            &&& merge.went(answer)->Do_0.deed() == DeedView::Git(
                reset_to(merge.directory, merge.at->Settling_before),
            )
        },
        merge.at is Pushing && answer is Err ==> {
            &&& merge.went(answer) is Do
            &&& merge.went(answer)->Do_0.deed() == DeedView::Git(
                reset_to(merge.directory, merge.at->Pushing_before),
            )
        },
        merge.went(answer) matches MergingView::Ended(Ok(OutcomeView::Red { .. }))
            ==> merge.deed() == DeedView::Git(
            reset_to(merge.directory, merge.at->Reddening_before),
        ) && answer is Ok,
{
}

} // verus!
