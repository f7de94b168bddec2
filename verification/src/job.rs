//! Building from chat: provisioning a private worktree, launching a
//! coding Agent in it, and keeping the run record the persona reports
//! from.
//!
//! An [`Order`] is the build as the persona asked for it — the tool's
//! arguments, exactly. [`Provision`] turns it into a [`Workspace`]: a
//! fresh worktree of the repository on a new branch at the base, never a
//! checkout of the repository itself, with the Epik persona's identity set
//! per-worktree so every commit the Agent makes is attributed to the
//! persona — the attribution invariant lives here, in provisioning, and
//! per-worktree config never touches the identity the repository's own
//! config keeps. (Enabling `extensions.worktreeConfig` does touch the
//! repository once, and a bare repository's `core.bare` moves into its
//! main-tree `config.worktree` as git requires; that is plumbing, not
//! identity.) Each decision is here; the host runs the git commands it
//! asks for and hands back what git answered.
//!
//! The Agent's events fold into the [`Record`]: stdout lines interpreted
//! through [`claude_code::interpret`] into narration, and at the end the
//! commit *observation* — did the branch advance past the base, is the
//! worktree clean. The harness observes; the Agent commits. A clean
//! worktree is removed; a dirty one is left where it is and its path
//! noted.

use crate::agent::claude_code;
use crate::agent::claude_code::{Update, UpdateView};
use crate::agent::Exit;
use crate::git;
use crate::text;
use vstd::prelude::*;

pub mod laws;
pub mod record_laws;

verus! {

/// A build as ordered: the prompt, the repository — a git URL, of which
/// a local path is one — the branch to build on, and the base to start
/// it from, the repository's default branch when unnamed.
#[derive(Debug, Eq, PartialEq)]
pub struct Order {
    pub prompt: String,
    pub repository: String,
    pub branch: String,
    pub base: Option<String>,
}

impl Clone for Order {
    fn clone(&self) -> (r: Self)
        ensures
            r == *self,
    {
        Order {
            prompt: self.prompt.clone(),
            repository: self.repository.clone(),
            branch: self.branch.clone(),
            base: self.base.clone(),
        }
    }
}

/// A provisioned place to build: the repository, the branch checked out
/// in `directory`, and the commit the branch started from — the mark the
/// commit observation measures against.
#[derive(Debug, Eq, PartialEq)]
pub struct Workspace {
    pub repository: String,
    pub branch: String,
    pub base_commit: String,
    pub directory: String,
}

/// A [`Workspace`] over sequences.
pub struct WorkspaceView {
    pub repository: Seq<char>,
    pub branch: Seq<char>,
    pub base_commit: Seq<char>,
    pub directory: Seq<char>,
}

impl View for Workspace {
    type V = WorkspaceView;

    open spec fn view(&self) -> WorkspaceView {
        WorkspaceView {
            repository: self.repository@,
            branch: self.branch@,
            base_commit: self.base_commit@,
            directory: self.directory@,
        }
    }
}

impl Clone for Workspace {
    fn clone(&self) -> (r: Self)
        ensures
            r == *self,
    {
        Workspace {
            repository: self.repository.clone(),
            branch: self.branch.clone(),
            base_commit: self.base_commit.clone(),
            directory: self.directory.clone(),
        }
    }
}

/// The standing preface every build prompt opens with. What the Agent
/// needs to know about where it is and what it must not do; the branch
/// is named in the line [`Workspace::brief`] adds beneath it.
pub const PREAMBLE: &'static str =
    "You are working in a git worktree that has been prepared for you, on the branch named below, which is already checked out. Implement the instructions that follow. Commit your work as you go, with clear commit messages, so that the branch tells the story of what you built. Do not push, do not create or switch branches, and do not touch git configuration — the identity and branch are set for you.";

/// The prompt an Agent receives.
pub open spec fn briefed(branch: Seq<char>, prompt: Seq<char>) -> Seq<char> {
    PREAMBLE@ + "\n\nBranch: "@ + branch + "\n\n"@ + prompt
}

impl Workspace {
    /// The prompt the Agent receives: the preamble, the branch, then the
    /// order's own instructions.
    pub fn brief(&self, prompt: &str) -> (r: String)
        ensures
            r@ == briefed(self.branch@, prompt@),
    {
        text::cat5(PREAMBLE, "\n\nBranch: ", self.branch.as_str(), "\n\n", prompt)
    }
}

/// Whether a text would be read as a flag.
pub open spec fn dashed(value: Seq<char>) -> bool {
    value.len() > 0 && value[0] == '-'
}

/// The words for a name that would be read as a flag.
pub open spec fn dashed_words(name: Seq<char>, value: Seq<char>) -> Seq<char> {
    "the "@ + name + " may not start with a dash: "@ + text::quoted_as(value)
}

/// A user-supplied name that will reach git as a positional argument:
/// one that starts with a dash would be read as a flag.
///
/// # Errors
///
/// Words that quote it.
pub fn positional(name: &str, value: &str) -> (r: Result<(), String>)
    ensures
        match r {
            Ok(_) => !dashed(value@),
            Err(words) => dashed(value@) && words@ == dashed_words(name@, value@),
        },
{
    let chars: Vec<char> = text::chars_of(value);
    if chars.len() > 0 && chars[0] == '-' {
        let quoted = text::quoted(value);
        return Err(text::cat4("the ", name, " may not start with a dash: ", quoted.as_str()));
    }
    Ok(())
}

/// The name of a fresh worktree's directory, which no other has: the
/// branch with its slashes put as dashes, the process and the moment.
pub fn worktree_name(branch: &str, process: u64, nanos: u64) -> (r: String)
    ensures
        r@ == "epik-build-"@ + text::replaced(branch@, '/', '\\', '-') + "-"@ + text::decimal(
            process as nat,
        ) + "-"@ + text::decimal(nanos as nat),
{
    let plain = text::replace_either(branch, '/', '\\', '-');
    let process = text::number(process);
    let nanos = text::number(nanos);
    let front = text::cat4("epik-build-", plain.as_str(), "-", process.as_str());
    text::cat3(front.as_str(), "-", nanos.as_str())
}

// ----- provisioning -----

/// How far a provisioning got: what git has been asked, and what is known
/// by then.
#[derive(Debug)]
enum Place {
    /// Whether the repository is one.
    Opening,
    /// Whether the branch could be one.
    Naming { git_dir: String },
    /// What the repository's default branch is.
    Defaulting { git_dir: String },
    /// Which commit the base names.
    Basing { git_dir: String, base: String },
    /// Whether the repository is bare.
    Baring { git_dir: String, base_commit: String },
    /// Per-worktree config is being switched on.
    Extending { git_dir: String, base_commit: String, bare: bool },
    /// Whether the common config calls the repository bare.
    Probing { common: String, base_commit: String },
    /// The main tree's own config is being told it is bare.
    Moving { common: String, base_commit: String },
    /// The common config is being told nothing of it.
    Unsetting { common: String, base_commit: String },
    /// The worktree is being added.
    Adding { base_commit: String },
    /// The persona's name is being set.
    Christening { base_commit: String },
    /// The persona's address is being set.
    Addressing { base_commit: String },
}

/// A provisioning in progress.
#[derive(Debug)]
pub struct Provision {
    repository: String,
    branch: String,
    base: Option<String>,
    directory: String,
    at: Place,
}

/// How far a provisioning got.
pub enum PlaceView {
    Opening,
    Naming { git_dir: Seq<char> },
    Defaulting { git_dir: Seq<char> },
    Basing { git_dir: Seq<char>, base: Seq<char> },
    Baring { git_dir: Seq<char>, base_commit: Seq<char> },
    Extending { git_dir: Seq<char>, base_commit: Seq<char>, bare: bool },
    Probing { common: Seq<char>, base_commit: Seq<char> },
    Moving { common: Seq<char>, base_commit: Seq<char> },
    Unsetting { common: Seq<char>, base_commit: Seq<char> },
    Adding { base_commit: Seq<char> },
    Christening { base_commit: Seq<char> },
    Addressing { base_commit: Seq<char> },
}

/// A [`Provision`] over sequences.
pub struct ProvisionView {
    pub repository: Seq<char>,
    pub branch: Seq<char>,
    pub base: Option<Seq<char>>,
    pub directory: Seq<char>,
    pub at: PlaceView,
}

closed spec fn place_view(place: Place) -> PlaceView {
    match place {
        Place::Opening => PlaceView::Opening,
        Place::Naming { git_dir } => PlaceView::Naming { git_dir: git_dir@ },
        Place::Defaulting { git_dir } => PlaceView::Defaulting { git_dir: git_dir@ },
        Place::Basing { git_dir, base } => PlaceView::Basing { git_dir: git_dir@, base: base@ },
        Place::Baring { git_dir, base_commit } => PlaceView::Baring {
            git_dir: git_dir@,
            base_commit: base_commit@,
        },
        Place::Extending { git_dir, base_commit, bare } => PlaceView::Extending {
            git_dir: git_dir@,
            base_commit: base_commit@,
            bare,
        },
        Place::Probing { common, base_commit } => PlaceView::Probing {
            common: common@,
            base_commit: base_commit@,
        },
        Place::Moving { common, base_commit } => PlaceView::Moving {
            common: common@,
            base_commit: base_commit@,
        },
        Place::Unsetting { common, base_commit } => PlaceView::Unsetting {
            common: common@,
            base_commit: base_commit@,
        },
        Place::Adding { base_commit } => PlaceView::Adding { base_commit: base_commit@ },
        Place::Christening { base_commit } => PlaceView::Christening { base_commit: base_commit@ },
        Place::Addressing { base_commit } => PlaceView::Addressing { base_commit: base_commit@ },
    }
}

impl View for Provision {
    type V = ProvisionView;

    closed spec fn view(&self) -> ProvisionView {
        ProvisionView {
            repository: self.repository@,
            branch: self.branch@,
            base: text::optional(self.base),
            directory: self.directory@,
            at: place_view(self.at),
        }
    }
}

/// What a provisioning comes to next.
#[derive(Debug)]
pub enum Provisioning {
    /// Git is to be run, and its answer handed to the provisioning.
    Ask(Provision),
    /// The workspace stands.
    Provisioned(Workspace),
    /// There will be none, for these reasons.
    Refused(String),
}

/// A [`Provisioning`] over sequences.
pub enum ProvisioningView {
    Ask(ProvisionView),
    Provisioned(WorkspaceView),
    Refused(Seq<char>),
}

impl View for Provisioning {
    type V = ProvisioningView;

    open spec fn view(&self) -> ProvisioningView {
        match self {
            Provisioning::Ask(provision) => ProvisioningView::Ask(provision@),
            Provisioning::Provisioned(workspace) => ProvisioningView::Provisioned(workspace@),
            Provisioning::Refused(words) => ProvisioningView::Refused(words@),
        }
    }
}

impl ProvisionView {
    /// The arguments git is to be run with.
    pub open spec fn asked(self) -> Seq<Seq<char>> {
        match self.at {
            PlaceView::Opening => seq![
                "-C"@,
                self.repository,
                "rev-parse"@,
                "--absolute-git-dir"@,
            ],
            PlaceView::Naming { .. } => seq![
                "-C"@,
                self.repository,
                "check-ref-format"@,
                "--branch"@,
                self.branch,
            ],
            PlaceView::Defaulting { .. } => seq![
                "-C"@,
                self.repository,
                "symbolic-ref"@,
                "--short"@,
                "HEAD"@,
            ],
            PlaceView::Basing { base, .. } => git::base_commit_asked(self.repository, base),
            PlaceView::Baring { .. } => seq![
                "-C"@,
                self.repository,
                "rev-parse"@,
                "--is-bare-repository"@,
            ],
            PlaceView::Extending { .. } => seq![
                "-C"@,
                self.repository,
                "config"@,
                "extensions.worktreeConfig"@,
                "true"@,
            ],
            PlaceView::Probing { common, .. } => seq![
                "config"@,
                "--file"@,
                common,
                "--get"@,
                "core.bare"@,
            ],
            PlaceView::Moving { .. } => seq![
                "-C"@,
                self.repository,
                "config"@,
                "--worktree"@,
                "core.bare"@,
                "true"@,
            ],
            PlaceView::Unsetting { common, .. } => seq![
                "config"@,
                "--file"@,
                common,
                "--unset"@,
                "core.bare"@,
            ],
            PlaceView::Adding { base_commit } => seq![
                "-C"@,
                self.repository,
                "worktree"@,
                "add"@,
                "-b"@,
                self.branch,
                self.directory,
                base_commit,
            ],
            PlaceView::Christening { .. } => seq![
                "-C"@,
                self.directory,
                "config"@,
                "--worktree"@,
                "user.name"@,
                git::PERSONA_NAME@,
            ],
            PlaceView::Addressing { .. } => seq![
                "-C"@,
                self.directory,
                "config"@,
                "--worktree"@,
                "user.email"@,
                git::PERSONA_EMAIL@,
            ],
        }
    }
    /// The provisioning at another place.
    pub open spec fn reaching(self, at: PlaceView) -> ProvisioningView {
        ProvisioningView::Ask(ProvisionView { at, ..self })
    }

    /// The workspace being provisioned.
    pub open spec fn workspace(self, base_commit: Seq<char>) -> WorkspaceView {
        WorkspaceView {
            repository: self.repository,
            branch: self.branch,
            base_commit,
            directory: self.directory,
        }
    }

    /// What the provisioning comes to, once git has answered.
    pub open spec fn went(self, answer: Result<Seq<char>, Seq<char>>) -> ProvisioningView {
        match (self.at, answer) {
            (PlaceView::Opening, Ok(git_dir)) => if dashed(self.branch) {
                ProvisioningView::Refused(dashed_words("branch"@, self.branch))
            } else {
                self.reaching(PlaceView::Naming { git_dir: text::trimmed(git_dir) })
            },
            (PlaceView::Opening, Err(words)) => ProvisioningView::Refused(
                self.repository + " is not a git repository: "@ + words,
            ),
            (PlaceView::Naming { git_dir }, Ok(_)) => match self.base {
                Some(base) => if dashed(base) {
                    ProvisioningView::Refused(dashed_words("base"@, base))
                } else {
                    self.reaching(PlaceView::Basing { git_dir, base })
                },
                None => self.reaching(PlaceView::Defaulting { git_dir }),
            },
            (PlaceView::Naming { .. }, Err(words)) => ProvisioningView::Refused(
                text::quoted_as(self.branch) + " is not a valid branch name: "@ + words,
            ),
            (PlaceView::Defaulting { git_dir }, Ok(base)) => self.reaching(
                PlaceView::Basing { git_dir, base: text::trimmed(base) },
            ),
            (PlaceView::Defaulting { .. }, Err(words)) => ProvisioningView::Refused(
                "the repository has no default branch: "@ + words,
            ),
            (PlaceView::Basing { git_dir, base }, answer) => match git::base_commit_read(
                base,
                answer,
            ) {
                Ok(base_commit) => self.reaching(PlaceView::Baring { git_dir, base_commit }),
                Err(words) => ProvisioningView::Refused(words),
            },
            (PlaceView::Baring { git_dir, base_commit }, Ok(bare)) => self.reaching(
                PlaceView::Extending {
                    git_dir,
                    base_commit,
                    bare: text::trimmed(bare) == "true"@,
                },
            ),
            (PlaceView::Extending { git_dir, base_commit, bare }, Ok(_)) => if bare {
                self.reaching(PlaceView::Probing { common: git_dir + "/config"@, base_commit })
            } else {
                self.reaching(PlaceView::Adding { base_commit })
            },
            (PlaceView::Probing { common, base_commit }, answer) => if answer is Ok
                && text::trimmed(answer->Ok_0) == "true"@ {
                self.reaching(PlaceView::Moving { common, base_commit })
            } else {
                self.reaching(PlaceView::Adding { base_commit })
            },
            (PlaceView::Moving { common, base_commit }, Ok(_)) => self.reaching(
                PlaceView::Unsetting { common, base_commit },
            ),
            (PlaceView::Unsetting { base_commit, .. }, Ok(_)) => self.reaching(
                PlaceView::Adding { base_commit },
            ),
            (PlaceView::Adding { base_commit }, Ok(_)) => self.reaching(
                PlaceView::Christening { base_commit },
            ),
            (PlaceView::Christening { base_commit }, Ok(_)) => self.reaching(
                PlaceView::Addressing { base_commit },
            ),
            (PlaceView::Addressing { base_commit }, Ok(_)) => ProvisioningView::Provisioned(
                self.workspace(base_commit),
            ),
            (_, Err(words)) => ProvisioningView::Refused(words),
        }
    }
}

/// What an order comes to, before git has been asked anything: a
/// repository that is no absolute path is refused.
pub open spec fn ordered(order: Order, directory: Seq<char>) -> ProvisioningView {
    if text::begins(order.repository@, "/"@) {
        ProvisioningView::Ask(
            ProvisionView {
                repository: order.repository@,
                branch: order.branch@,
                base: text::optional(order.base),
                directory,
                at: PlaceView::Opening,
            },
        )
    } else {
        ProvisioningView::Refused(
            "the repository must be an absolute local path for now, not "@ + text::quoted_as(
                order.repository@,
            ),
        )
    }
}

/// The texts of git's answer.
pub open spec fn answer_view(answer: Result<String, String>) -> Result<Seq<char>, Seq<char>> {
    git::words_of(answer)
}

fn args4(a: &str, b: &str, c: &str, d: &str) -> (r: Vec<String>)
    ensures
        text::views(r@) == seq![a@, b@, c@, d@],
{
    let r = vec![a.to_owned(), b.to_owned(), c.to_owned(), d.to_owned()];
    proof {
        assert(text::views(r@) =~= seq![a@, b@, c@, d@]);
    }
    r
}

fn args5(a: &str, b: &str, c: &str, d: &str, e: &str) -> (r: Vec<String>)
    ensures
        text::views(r@) == seq![a@, b@, c@, d@, e@],
{
    let r = vec![a.to_owned(), b.to_owned(), c.to_owned(), d.to_owned(), e.to_owned()];
    proof {
        assert(text::views(r@) =~= seq![a@, b@, c@, d@, e@]);
    }
    r
}

fn args6(a: &str, b: &str, c: &str, d: &str, e: &str, f: &str) -> (r: Vec<String>)
    ensures
        text::views(r@) == seq![a@, b@, c@, d@, e@, f@],
{
    let r = vec![
        a.to_owned(),
        b.to_owned(),
        c.to_owned(),
        d.to_owned(),
        e.to_owned(),
        f.to_owned(),
    ];
    proof {
        assert(text::views(r@) =~= seq![a@, b@, c@, d@, e@, f@]);
    }
    r
}

/// Provisions the workspace for `order` in `directory`: checks the
/// repository, resolves the base, adds the worktree on the new branch, and
/// sets the persona identity per-worktree. What comes back is the first
/// thing to ask git, or the refusal of an order nothing can come of.
pub fn provision(order: &Order, directory: String) -> (r: Provisioning)
    ensures
        r@ == ordered(*order, directory@),
{
    if !text::starts_with(order.repository.as_str(), "/") {
        let quoted = text::quoted(order.repository.as_str());
        return Provisioning::Refused(
            text::cat2(
                "the repository must be an absolute local path for now, not ",
                quoted.as_str(),
            ),
        );
    }
    Provisioning::Ask(
        Provision {
            repository: order.repository.clone(),
            branch: order.branch.clone(),
            base: order.base.clone(),
            directory,
            at: Place::Opening,
        },
    )
}

impl Provision {
    /// The arguments git is to be run with.
    pub fn args(&self) -> (r: Vec<String>)
        ensures
            text::views(r@) == self@.asked(),
    {
        let repository = self.repository.as_str();
        let directory = self.directory.as_str();
        match &self.at {
            Place::Opening => args4("-C", repository, "rev-parse", "--absolute-git-dir"),
            Place::Naming { .. } => args5(
                "-C",
                repository,
                "check-ref-format",
                "--branch",
                self.branch.as_str(),
            ),
            Place::Defaulting { .. } => args5("-C", repository, "symbolic-ref", "--short", "HEAD"),
            Place::Basing { base, .. } => git::base_commit_args(repository, base.as_str()),
            Place::Baring { .. } => args4("-C", repository, "rev-parse", "--is-bare-repository"),
            Place::Extending { .. } => args5(
                "-C",
                repository,
                "config",
                "extensions.worktreeConfig",
                "true",
            ),
            Place::Probing { common, .. } => args5(
                "config",
                "--file",
                common.as_str(),
                "--get",
                "core.bare",
            ),
            Place::Moving { .. } => args6(
                "-C",
                repository,
                "config",
                "--worktree",
                "core.bare",
                "true",
            ),
            Place::Unsetting { common, .. } => args5(
                "config",
                "--file",
                common.as_str(),
                "--unset",
                "core.bare",
            ),
            Place::Adding { base_commit } => {
                let mut r = args6(
                    "-C",
                    repository,
                    "worktree",
                    "add",
                    "-b",
                    self.branch.as_str(),
                );
                let ghost front = text::views(r@);
                r.push(self.directory.clone());
                r.push(base_commit.clone());
                proof {
                    assert(text::views(r@) =~= front.push(directory@).push(base_commit@));
                    assert(text::views(r@) =~= self@.asked());
                }
                r
            },
            Place::Christening { .. } => args6(
                "-C",
                directory,
                "config",
                "--worktree",
                "user.name",
                git::PERSONA_NAME,
            ),
            Place::Addressing { .. } => args6(
                "-C",
                directory,
                "config",
                "--worktree",
                "user.email",
                git::PERSONA_EMAIL,
            ),
        }
    }

    fn reach(self, at: Place) -> (r: Provisioning)
        ensures
            r@ == self@.reaching(place_view(at)),
    {
        Provisioning::Ask(
            Provision {
                repository: self.repository,
                branch: self.branch,
                base: self.base,
                directory: self.directory,
                at,
            },
        )
    }

    /// What the provisioning comes to, once git has answered.
    pub fn next(self, answer: Result<String, String>) -> (r: Provisioning)
        ensures
            r@ == self@.went(answer_view(answer)),
    {
        let Provision { repository, branch, base, directory, at } = self;
        let held = Provision { repository, branch, base, directory, at: Place::Opening };
        match (at, answer) {
            (Place::Opening, Ok(git_dir)) => match positional("branch", held.branch.as_str()) {
                Ok(_) => held.reach(Place::Naming { git_dir: text::trim(git_dir.as_str()) }),
                Err(words) => Provisioning::Refused(words),
            },
            (Place::Opening, Err(words)) => Provisioning::Refused(
                text::cat3(
                    held.repository.as_str(),
                    " is not a git repository: ",
                    words.as_str(),
                ),
            ),
            (Place::Naming { git_dir }, Ok(_)) => {
                let base = held.base.clone();
                match base {
                    Some(base) => match positional("base", base.as_str()) {
                        Ok(_) => held.reach(Place::Basing { git_dir, base }),
                        Err(words) => Provisioning::Refused(words),
                    },
                    None => held.reach(Place::Defaulting { git_dir }),
                }
            },
            (Place::Naming { .. }, Err(words)) => {
                let quoted = text::quoted(held.branch.as_str());
                Provisioning::Refused(
                    text::cat3(quoted.as_str(), " is not a valid branch name: ", words.as_str()),
                )
            },
            (Place::Defaulting { git_dir }, Ok(base)) => held.reach(
                Place::Basing { git_dir, base: text::trim(base.as_str()) },
            ),
            (Place::Defaulting { .. }, Err(words)) => Provisioning::Refused(
                text::cat2("the repository has no default branch: ", words.as_str()),
            ),
            (Place::Basing { git_dir, base }, answer) => match git::base_commit(
                base.as_str(),
                &answer,
            ) {
                Ok(base_commit) => held.reach(Place::Baring { git_dir, base_commit }),
                Err(words) => Provisioning::Refused(words),
            },
            (Place::Baring { git_dir, base_commit }, Ok(bare)) => {
                let bare = text::same(text::trim(bare.as_str()).as_str(), "true");
                held.reach(Place::Extending { git_dir, base_commit, bare })
            },
            (Place::Extending { git_dir, base_commit, bare }, Ok(_)) => if bare {
                let common = text::cat2(git_dir.as_str(), "/config");
                held.reach(Place::Probing { common, base_commit })
            } else {
                held.reach(Place::Adding { base_commit })
            },
            (Place::Probing { common, base_commit }, answer) => {
                let bare = match &answer {
                    Ok(value) => text::same(text::trim(value.as_str()).as_str(), "true"),
                    Err(_) => false,
                };
                if bare {
                    held.reach(Place::Moving { common, base_commit })
                } else {
                    held.reach(Place::Adding { base_commit })
                }
            },
            (Place::Moving { common, base_commit }, Ok(_)) => held.reach(
                Place::Unsetting { common, base_commit },
            ),
            (Place::Unsetting { base_commit, .. }, Ok(_)) => held.reach(
                Place::Adding { base_commit },
            ),
            (Place::Adding { base_commit }, Ok(_)) => held.reach(
                Place::Christening { base_commit },
            ),
            (Place::Christening { base_commit }, Ok(_)) => held.reach(
                Place::Addressing { base_commit },
            ),
            (Place::Addressing { base_commit }, Ok(_)) => Provisioning::Provisioned(
                Workspace {
                    repository: held.repository,
                    branch: held.branch,
                    base_commit,
                    directory: held.directory,
                },
            ),
            (Place::Baring { .. }, Err(words)) => Provisioning::Refused(words),
            (Place::Extending { .. }, Err(words)) => Provisioning::Refused(words),
            (Place::Moving { .. }, Err(words)) => Provisioning::Refused(words),
            (Place::Unsetting { .. }, Err(words)) => Provisioning::Refused(words),
            (Place::Adding { .. }, Err(words)) => Provisioning::Refused(words),
            (Place::Christening { .. }, Err(words)) => Provisioning::Refused(words),
            (Place::Addressing { .. }, Err(words)) => Provisioning::Refused(words),
        }
    }
}

/// What a provisioning has come to, after a row of git's answers.
pub open spec fn provisioned_by(
    start: ProvisioningView,
    answers: Seq<Result<Seq<char>, Seq<char>>>,
) -> ProvisioningView
    decreases answers.len(),
{
    if answers.len() == 0 {
        start
    } else {
        match provisioned_by(start, answers.drop_last()) {
            ProvisioningView::Ask(provision) => provision.went(answers.last()),
            ended => ended,
        }
    }
}

/// Whether a provisioning is of this order, into this directory.
pub open spec fn is_of(provision: ProvisionView, order: Order, directory: Seq<char>) -> bool {
    &&& provision.repository == order.repository@
    &&& provision.branch == order.branch@
    &&& provision.base == text::optional(order.base)
    &&& provision.directory == directory
    &&& !(provision.at is Opening) ==> !dashed(order.branch@)
}

/// The attribution invariant: whatever git answers, a workspace that is
/// handed over is the order's — its repository, its branch, in the fresh
/// directory — with a branch no git reads as a flag, and the last thing
/// git did for it was to set the persona's address in that directory,
/// right after its name.
pub proof fn a_workspace_is_the_orders_and_the_personas(
    order: Order,
    directory: Seq<char>,
    answers: Seq<Result<Seq<char>, Seq<char>>>,
)
    ensures
        match provisioned_by(ordered(order, directory), answers) {
            ProvisioningView::Ask(provision) => is_of(provision, order, directory),
            ProvisioningView::Provisioned(workspace) => {
                &&& workspace.repository == order.repository@
                &&& workspace.branch == order.branch@
                &&& workspace.directory == directory
                &&& !dashed(workspace.branch)
                &&& exists|k: int|
                    #![trigger answers.take(k)]
                    0 <= k && k + 2 <= answers.len() && set_by(
                        provisioned_by(ordered(order, directory), answers.take(k)),
                        directory,
                        "user.name"@,
                        git::PERSONA_NAME@,
                    ) && answers[k] is Ok && set_by(
                        provisioned_by(ordered(order, directory), answers.take(k + 1)),
                        directory,
                        "user.email"@,
                        git::PERSONA_EMAIL@,
                    ) && answers[k + 1] is Ok
            },
            ProvisioningView::Refused(_) => true,
        },
        provisioned_by(ordered(order, directory), answers) matches ProvisioningView::Ask(provision)
            && provision.at is Addressing ==> answers.len() > 0 && answers.last() is Ok && set_by(
            provisioned_by(ordered(order, directory), answers.drop_last()),
            directory,
            "user.name"@,
            git::PERSONA_NAME@,
        ),
    decreases answers.len(),
{
    let start = ordered(order, directory);
    if answers.len() > 0 {
        let before = answers.drop_last();
        a_workspace_is_the_orders_and_the_personas(order, directory, before);
        match provisioned_by(start, before) {
            ProvisioningView::Ask(provision) => {
                match provision.went(answers.last()) {
                    ProvisioningView::Provisioned(_) => {
                        let k = answers.len() - 2;
                        assert(answers.take(k + 1) =~= before);
                        assert(answers.take(k) =~= before.drop_last());
                        assert(answers[k] == before.last());
                    },
                    _ => {},
                }
            },
            ProvisioningView::Provisioned(_) => {
                let k = choose|k: int|
                    #![trigger before.take(k)]
                    0 <= k && k + 2 <= before.len() && set_by(
                        provisioned_by(start, before.take(k)),
                        directory,
                        "user.name"@,
                        git::PERSONA_NAME@,
                    ) && before[k] is Ok && set_by(
                        provisioned_by(start, before.take(k + 1)),
                        directory,
                        "user.email"@,
                        git::PERSONA_EMAIL@,
                    ) && before[k + 1] is Ok;
                assert(answers.take(k) =~= before.take(k));
                assert(answers.take(k + 1) =~= before.take(k + 1));
            },
            ProvisioningView::Refused(_) => {},
        }
    }
}

/// Whether what a provisioning asks of git is to set `key` to `value` in
/// the directory alone.
pub open spec fn set_by(
    state: ProvisioningView,
    directory: Seq<char>,
    key: Seq<char>,
    value: Seq<char>,
) -> bool {
    state matches ProvisioningView::Ask(provision) && provision.asked() == seq![
        "-C"@,
        directory,
        "config"@,
        "--worktree"@,
        key,
        value,
    ]
}

// ----- the run -----

/// Where a run stands.
#[derive(Debug, Eq, PartialEq)]
pub enum Phase {
    /// The Agent is running.
    Running,
    /// The Agent is gone; this is how it ended.
    Finished(Exit),
    /// The Agent could not be followed to its end; these are the words.
    Lost(String),
}

impl Clone for Phase {
    fn clone(&self) -> (r: Self)
        ensures
            r == *self,
    {
        match self {
            Phase::Running => Phase::Running,
            Phase::Finished(exit) => Phase::Finished(*exit),
            Phase::Lost(words) => Phase::Lost(words.clone()),
        }
    }
}

/// What the branch and the worktree looked like when the Agent was
/// reaped. Observation only.
#[derive(Debug, Eq, PartialEq)]
pub struct Commits {
    /// The branch's tip at reap.
    pub head: String,
    /// Whether the tip moved past the base commit — whether the Agent
    /// committed anything at all.
    pub advanced: bool,
    /// Whether `status --porcelain` was empty: nothing uncommitted,
    /// nothing untracked.
    pub clean: bool,
    /// Where the worktree still is, when it was left in place — dirty,
    /// or clean but unremovable. `None` means it was removed.
    pub kept: Option<String>,
}

impl Clone for Commits {
    fn clone(&self) -> (r: Self)
        ensures
            r == *self,
    {
        Commits {
            head: self.head.clone(),
            advanced: self.advanced,
            clean: self.clean,
            kept: self.kept.clone(),
        }
    }
}

/// The most narration updates a record retains; the oldest go first.
pub const NARRATION_CAP: usize = 1000;

/// The most stderr lines a record retains; the oldest go first.
pub const STDERR_CAP: usize = 50;

/// One thing an Agent's run says.
#[derive(Debug, Eq, PartialEq)]
pub enum Event {
    /// The process is there.
    Started { pid: u32 },
    /// One line of the Agent's stdout.
    Stdout { line: String },
    /// One line of the Agent's stderr.
    Stderr { line: String },
    /// The Agent is gone.
    Exited(Exit),
    /// Something a newer runner says.
    Unknown,
}

/// The run record: everything about one build.
#[derive(Clone, Debug)]
pub struct Record {
    pub order: Order,
    pub workspace: Workspace,
    pub phase: Phase,
    /// The Agent's stdout, interpreted: session, tool uses, texts, and
    /// the terminal result — capped at [`NARRATION_CAP`].
    pub narration: Vec<Update>,
    /// The Agent's stderr, verbatim — capped at [`STDERR_CAP`]. Where a
    /// CLI that could not start says why.
    pub stderr: Vec<String>,
    /// The commit observation, taken at reap.
    pub commits: Option<Commits>,
}

/// The last `cap` of a row.
pub open spec fn last_of<T>(row: Seq<T>, cap: nat) -> Seq<T> {
    if row.len() > cap {
        row.skip(row.len() - cap)
    } else {
        row
    }
}

/// Whether an update is the terminal result.
pub open spec fn is_result(update: UpdateView) -> bool {
    update is Result
}

impl Record {
    /// A record for a run about to start.
    pub fn new(order: Order, workspace: Workspace) -> (r: Self)
        ensures
            r.order == order,
            r.workspace == workspace,
            r.phase is Running,
            r.narration@.len() == 0,
            r.stderr@.len() == 0,
            r.commits is None,
    {
        Record {
            order,
            workspace,
            phase: Phase::Running,
            narration: Vec::new(),
            stderr: Vec::new(),
            commits: None,
        }
    }

    /// The terminal result, when the Agent said one: the last, where it
    /// said more.
    pub fn result(&self) -> (r: Option<&Update>)
        ensures
            match r {
                Some(update) => exists|i: int|
                    0 <= i < self.narration@.len() && #[trigger] self.narration@[i] == *update
                        && is_result(update@) && forall|j: int|
                        i < j < self.narration@.len() ==> !is_result(
                            (#[trigger] self.narration@[j])@,
                        ),
                None => forall|j: int|
                    0 <= j < self.narration@.len() ==> !is_result((#[trigger] self.narration@[j])@),
            },
    {
        let mut i: usize = self.narration.len();
        while i > 0
            invariant
                i <= self.narration@.len(),
                forall|j: int|
                    i <= j < self.narration@.len() ==> !is_result((#[trigger] self.narration@[j])@),
            decreases i,
        {
            i = i - 1;
            match &self.narration[i] {
                Update::Result { .. } => {
                    return Some(&self.narration[i]);
                },
                _ => {},
            }
        }
        None
    }

    /// Folds one event in: narration, stderr, or the end.
    pub fn absorb(&mut self, event: Event)
        ensures
            final(self).order == old(self).order,
            final(self).workspace == old(self).workspace,
            final(self).commits == old(self).commits,
            final(self).phase == (match event {
                Event::Exited(exit) => Phase::Finished(exit),
                _ => old(self).phase,
            }),
            claude_code::update_views(final(self).narration@) == (match event {
                Event::Stdout { line } => last_of(
                    claude_code::update_views(old(self).narration@) + claude_code::interpreted(
                        line@,
                    ),
                    NARRATION_CAP as nat,
                ),
                _ => claude_code::update_views(old(self).narration@),
            }),
            text::views(final(self).stderr@) == (match event {
                Event::Stderr { line } => if old(self).stderr@.len() < STDERR_CAP {
                    text::views(old(self).stderr@).push(line@)
                } else {
                    text::views(old(self).stderr@).push(line@).skip(1)
                },
                _ => text::views(old(self).stderr@),
            }),
    {
        match event {
            Event::Stdout { line } => {
                let updates = claude_code::interpret(line.as_str());
                self.narrate(updates);
            },
            Event::Stderr { line } => {
                let ghost before = text::views(self.stderr@);
                self.stderr.push(line);
                proof {
                    assert(text::views(self.stderr@) =~= before.push(line@));
                }
                if self.stderr.len() > STDERR_CAP {
                    let ghost all = text::views(self.stderr@);
                    self.stderr.remove(0);
                    proof {
                        assert(text::views(self.stderr@) =~= all.skip(1));
                    }
                }
            },
            Event::Exited(exit) => {
                self.phase = Phase::Finished(exit);
            },
            Event::Started { .. } => {},
            Event::Unknown => {},
        }
    }

    /// Adds updates to the narration; the oldest go where there are too
    /// many.
    pub fn narrate(&mut self, updates: Vec<Update>)
        ensures
            final(self).order == old(self).order,
            final(self).workspace == old(self).workspace,
            final(self).phase == old(self).phase,
            final(self).stderr == old(self).stderr,
            final(self).commits == old(self).commits,
            claude_code::update_views(final(self).narration@) == last_of(
                claude_code::update_views(old(self).narration@) + claude_code::update_views(
                    updates@,
                ),
                NARRATION_CAP as nat,
            ),
    {
        let ghost before = self.narration@;
        let mut all: Vec<Update> = Vec::new();
        let total: usize = self.narration.len();
        let added: usize = updates.len();
        let ghost whole = claude_code::update_views(before) + claude_code::update_views(updates@);
        let mut i: usize = 0;
        // Of what is already there, the last that still fit.
        let skipped: usize = if added >= NARRATION_CAP {
            total
        } else if total > NARRATION_CAP - added {
            total - (NARRATION_CAP - added)
        } else {
            0
        };
        i = skipped;
        while i < total
            invariant
                skipped <= i <= total == self.narration@.len(),
                self.narration@ == before,
                all@.len() == i - skipped,
                forall|k: int|
                    0 <= k < i - skipped ==> (#[trigger] all@[k])@ == before[k + skipped]@,
            decreases total - i,
        {
            all.push(self.narration[i].clone());
            i = i + 1;
        }
        let first: usize = if added > NARRATION_CAP {
            added - NARRATION_CAP
        } else {
            0
        };
        let mut j: usize = first;
        while j < added
            invariant
                first <= j <= added == updates@.len(),
                skipped <= total == before.len(),
                all@.len() == total - skipped + (j - first),
                forall|k: int|
                    0 <= k < total - skipped ==> (#[trigger] all@[k])@ == before[k + skipped]@,
                forall|k: int|
                    total - skipped <= k < all@.len() ==> (#[trigger] all@[k])@ == updates@[k - (
                    total - skipped) + first]@,
            decreases added - j,
        {
            all.push(updates[j].clone());
            j = j + 1;
        }
        self.narration = all;
        proof {
            let kept = last_of(whole, NARRATION_CAP as nat);
            assert(claude_code::update_views(self.narration@) =~= kept);
        }
    }

    /// The commit observation, taken at reap.
    pub fn observed(&mut self, commits: Commits)
        ensures
            final(self).commits == Some(commits),
            final(self).order == old(self).order,
            final(self).workspace == old(self).workspace,
            final(self).phase == old(self).phase,
            final(self).narration == old(self).narration,
            final(self).stderr == old(self).stderr,
    {
        self.commits = Some(commits);
    }

    /// The Agent could not be followed to its end.
    pub fn lose(&mut self, words: String)
        ensures
            final(self).phase == Phase::Lost(words),
            final(self).order == old(self).order,
            final(self).workspace == old(self).workspace,
            final(self).commits == old(self).commits,
            final(self).narration == old(self).narration,
            final(self).stderr == old(self).stderr,
    {
        self.phase = Phase::Lost(words);
    }
}

impl Workspace {
    /// The arguments that ask where the branch stands.
    pub fn head_args(&self) -> (r: Vec<String>)
        ensures
            text::views(r@) == seq!["-C"@, self.directory@, "rev-parse"@, "HEAD"@],
    {
        args4("-C", self.directory.as_str(), "rev-parse", "HEAD")
    }

    /// The arguments that ask whether anything is uncommitted.
    pub fn status_args(&self) -> (r: Vec<String>)
        ensures
            text::views(r@) == seq!["-C"@, self.directory@, "status"@, "--porcelain"@],
    {
        args4("-C", self.directory.as_str(), "status", "--porcelain")
    }

    /// The arguments that remove a clean worktree.
    pub fn remove_args(&self) -> (r: Vec<String>)
        ensures
            text::views(r@) == seq![
                "-C"@,
                self.repository@,
                "worktree"@,
                "remove"@,
                "--"@,
                self.directory@,
            ],
    {
        args6(
            "-C",
            self.repository.as_str(),
            "worktree",
            "remove",
            "--",
            self.directory.as_str(),
        )
    }

    /// The two runs of git that remove a provisioned worktree that never
    /// got its Agent, so a failed launch leaves nothing behind. Best
    /// effort.
    pub fn abandon_args(&self) -> (r: (Vec<String>, Vec<String>))
        ensures
            text::views(r.0@) == seq![
                "-C"@,
                self.repository@,
                "worktree"@,
                "remove"@,
                "--force"@,
                "--"@,
                self.directory@,
            ],
            text::views(r.1@) == seq!["-C"@, self.repository@, "branch"@, "-D"@, self.branch@],
    {
        let mut first = args6(
            "-C",
            self.repository.as_str(),
            "worktree",
            "remove",
            "--force",
            "--",
        );
        let ghost front = text::views(first@);
        first.push(self.directory.clone());
        proof {
            assert(text::views(first@) =~= front.push(self.directory@));
            assert(text::views(first@) =~= seq![
                "-C"@,
                self.repository@,
                "worktree"@,
                "remove"@,
                "--force"@,
                "--"@,
                self.directory@,
            ]);
        }
        let second = args5(
            "-C",
            self.repository.as_str(),
            "branch",
            "-D",
            self.branch.as_str(),
        );
        (first, second)
    }

    /// Whether the tree is clean, by git's answer.
    pub fn is_clean(status: &Result<String, String>) -> (r: bool)
        ensures
            r == clean_by(git::words_of(*status)),
    {
        match status {
            Ok(status) => text::is_empty(text::trim(status.as_str()).as_str()),
            Err(_) => false,
        }
    }

    /// Reads the workspace back at reap: the branch tip, whether it
    /// advanced, whether the tree is clean, and where it still is —
    /// `removed` is what git answered to removing it, which is only asked
    /// of a clean one.
    pub fn observe(
        &self,
        head: &Result<String, String>,
        status: &Result<String, String>,
        removed: &Option<Result<String, String>>,
    ) -> (r: Commits)
        ensures
            r.head@ == head_by(git::words_of(*head)),
            r.advanced == (r.head@.len() > 0 && r.head@ != self.base_commit@),
            r.clean == clean_by(git::words_of(*status)),
            text::optional(r.kept) == (if r.clean && *removed is Some && (*removed)->0 is Ok {
                None
            } else {
                Some(self.directory@)
            }),
    {
        let head = match head {
            Ok(head) => text::trim(head.as_str()),
            Err(_) => {
                let none = String::new();
                proof {
                    assert(none@ =~= Seq::empty());
                }
                none
            },
        };
        let clean = Self::is_clean(status);
        let gone = clean && match removed {
            Some(Ok(_)) => true,
            _ => false,
        };
        let advanced = !text::is_empty(head.as_str()) && !text::same(
            head.as_str(),
            self.base_commit.as_str(),
        );
        Commits {
            head,
            advanced,
            clean,
            kept: if gone {
                None
            } else {
                Some(self.directory.clone())
            },
        }
    }
}

/// Whether the tree is clean, by git's answer.
pub open spec fn clean_by(status: Result<Seq<char>, Seq<char>>) -> bool {
    status is Ok && text::trimmed(status->Ok_0).len() == 0
}

/// The tip, by git's answer.
pub open spec fn head_by(head: Result<Seq<char>, Seq<char>>) -> Seq<char> {
    match head {
        Ok(head) => text::trimmed(head),
        Err(_) => Seq::empty(),
    }
}

// ----- reading a clone before anything is provisioned in it -----

/// The arguments that ask whether `repository` is one.
///
/// # Errors
///
/// Words for a path that is not absolute.
pub fn locate(repository: &str) -> (r: Result<Vec<String>, String>)
    ensures
        match r {
            Ok(args) => text::begins(repository@, "/"@) && text::views(args@) == seq![
                "-C"@,
                repository@,
                "rev-parse"@,
                "--absolute-git-dir"@,
            ],
            Err(words) => !text::begins(repository@, "/"@) && words@
                == "the repository must be an absolute local path for now, not "@
                + text::quoted_as(repository@),
        },
{
    if text::starts_with(repository, "/") {
        Ok(args4("-C", repository, "rev-parse", "--absolute-git-dir"))
    } else {
        let quoted = text::quoted(repository);
        Err(
            text::cat2(
                "the repository must be an absolute local path for now, not ",
                quoted.as_str(),
            ),
        )
    }
}

/// Whether `repository` is one, by git's answer.
///
/// # Errors
///
/// Words that name what is not a repository.
pub fn located(repository: &str, answer: &Result<String, String>) -> (r: Result<(), String>)
    ensures
        match *answer {
            Ok(_) => r is Ok,
            Err(words) => r is Err && r->Err_0@ == repository@ + " is not a git repository: "@
                + words@,
        },
{
    match answer {
        Ok(_) => Ok(()),
        Err(words) => Err(
            text::cat3(repository, " is not a git repository: ", words.as_str()),
        ),
    }
}

/// The arguments that ask for the repository's default branch.
pub fn default_branch_args(repository: &str) -> (r: Vec<String>)
    ensures
        text::views(r@) == seq!["-C"@, repository@, "symbolic-ref"@, "--short"@, "HEAD"@],
{
    args5("-C", repository, "symbolic-ref", "--short", "HEAD")
}

/// The repository's default branch, by git's answer.
///
/// # Errors
///
/// Git's words for a repository that has none.
pub fn default_branch(answer: &Result<String, String>) -> (r: Result<String, String>)
    ensures
        match *answer {
            Ok(branch) => r is Ok && r->Ok_0@ == text::trimmed(branch@),
            Err(words) => r is Err && r->Err_0@ == "the repository has no default branch: "@
                + words@,
        },
{
    match answer {
        Ok(branch) => Ok(text::trim(branch.as_str())),
        Err(words) => Err(text::cat2("the repository has no default branch: ", words.as_str())),
    }
}

/// The record never holds more than its caps.
pub proof fn the_last_are_at_most_the_cap<T>(row: Seq<T>, cap: nat)
    ensures
        last_of(row, cap).len() <= cap,
        row.len() <= cap ==> last_of(row, cap) == row,
{
}

// ----- who holds a branch -----

/// The worktree that a line of a listing opens, or the one before it.
pub open spec fn opened_by(line: Seq<char>, before: Seq<char>) -> Seq<char> {
    match text::after_prefix(line, "worktree "@) {
        Some(path) => path,
        None => before,
    }
}

/// The worktree the last of these lines is of.
pub open spec fn worktree_at(lines: Seq<Seq<char>>) -> Seq<char>
    decreases lines.len(),
{
    if lines.len() == 0 {
        ""@
    } else {
        opened_by(lines.last(), worktree_at(lines.drop_last()))
    }
}

/// The first worktree of a listing that has the branch checked out.
pub open spec fn holder_in(lines: Seq<Seq<char>>, branch: Seq<char>) -> Option<Seq<char>>
    decreases lines.len(),
{
    if lines.len() == 0 {
        None
    } else {
        match holder_in(lines.drop_last(), branch) {
            Some(holder) => Some(holder),
            None => if lines.last() == "branch refs/heads/"@ + branch {
                Some(worktree_at(lines.drop_last()))
            } else {
                None
            },
        }
    }
}

/// A holder among the first lines is the holder of all.
proof fn holder_to_the_end(lines: Seq<Seq<char>>, branch: Seq<char>, n: int)
    requires
        0 <= n <= lines.len(),
        holder_in(lines.take(n), branch) is Some,
    ensures
        holder_in(lines, branch) == holder_in(lines.take(n), branch),
    decreases lines.len(),
{
    if n == lines.len() {
        assert(lines.take(n) =~= lines);
    } else {
        assert(lines.drop_last().take(n) =~= lines.take(n));
        holder_to_the_end(lines.drop_last(), branch, n);
    }
}

/// The worktree that has `branch` checked out, by git's listing of the
/// worktrees of a repository: a branch has one at most.
pub fn holder(listing: &str, branch: &str) -> (r: Option<String>)
    ensures
        text::optional(r) == holder_in(text::lines(listing@), branch@),
{
    let lines = text::lines_of(listing);
    let ghost all = text::lines(listing@);
    let wanted = text::cat2("branch refs/heads/", branch);
    let mut at: String = "".to_owned();
    let mut i: usize = 0;
    proof {
        assert(all.take(0) =~= Seq::empty());
    }
    while i < lines.len()
        invariant
            i <= lines@.len() == all.len(),
            text::views(lines@) == all,
            all == text::lines(listing@),
            wanted@ == "branch refs/heads/"@ + branch@,
            at@ == worktree_at(all.take(i as int)),
            holder_in(all.take(i as int), branch@) is None,
        decreases lines@.len() - i,
    {
        proof {
            assert(all[i as int] == lines@[i as int]@);
            assert(all.take(i + 1).drop_last() =~= all.take(i as int));
            assert(all.take(i + 1).last() == all[i as int]);
        }
        if text::same(lines[i].as_str(), wanted.as_str()) {
            proof {
                holder_to_the_end(all, branch@, i + 1);
            }
            return Some(at);
        }
        match text::strip_prefix(lines[i].as_str(), "worktree ") {
            Some(path) => {
                at = path;
            },
            None => {},
        }
        i = i + 1;
    }
    proof {
        assert(all.take(i as int) =~= all);
    }
    None
}

} // verus!
