//! Talking to GitHub.
//!
//! The protocol is spoken directly, the surface covers exactly Epik's
//! verbs, and provider quirks are ours to absorb rather than a
//! dependency's to reinterpret. REST carries the ordinary verbs — issues,
//! pull requests, check conclusions, the default branch — and GraphQL (a
//! POST to `/graphql`) carries the relationship mutations that never got
//! REST endpoints: sub-issue and blocked-by edges. Query strings and JSON
//! shapes stay inside this module; callers see types.
//!
//! The token arrives on the [`keystore`](crate::keystore) rails and is
//! optional on purpose: reading a public repository needs none, so only the
//! verbs that write — and GraphQL, which answers nothing unauthenticated —
//! refuse without one. The refusal is [`Error::TokenAbsent`], a value to
//! render, never a panic or a prose log line. Rate limiting gets its own
//! variant for the same reason: "come back later" and "no" call for
//! different behavior, so they are different values.
//!
//! A verb is a [`Request`]; the host sends it, and [`answer`] settles what
//! came back.

use crate::json;
use crate::json::{Json, JsonView};
use crate::keystore;
use crate::keystore::Secret;
use crate::text;
use vstd::prelude::*;

pub mod decode;
pub mod answer_laws;
pub mod client_laws;
pub mod laws;
pub mod tool_laws;
pub mod tools;

verus! {

/// Where GitHub is. One value, because Epik talks to one GitHub; tests point
/// [`GitHub::at`] somewhere else.
pub const API: &'static str = "https://api.github.com";

/// The REST API version this module speaks, sent on every request so a
/// payload never changes shape under us without someone bumping this.
pub const API_VERSION: &'static str = "2022-11-28";

/// How long to wait for GitHub to answer, in seconds. These are bounded
/// request-response exchanges, not streams, so the whole call gets a
/// deadline.
pub const TIMEOUT_SECONDS: u64 = 30;

/// A repository, named the way GitHub names one.
#[derive(Debug, Eq, PartialEq)]
pub struct Repo {
    pub owner: String,
    pub name: String,
}

impl Clone for Repo {
    fn clone(&self) -> (r: Self)
        ensures
            r == *self,
    {
        Repo { owner: self.owner.clone(), name: self.name.clone() }
    }
}

/// Whether a text can be one half of a repository's spelling: something,
/// with no slash and no space in it.
pub open spec fn is_half(s: Seq<char>) -> bool {
    &&& s.len() > 0
    &&& forall|i: int| 0 <= i < s.len() ==> (#[trigger] s[i]) != '/' && !text::is_space(s[i])
}

/// The owner and the name a spelling gives: two halves around one slash.
pub open spec fn spelled_halves(spec: Seq<char>) -> Option<(Seq<char>, Seq<char>)> {
    match text::cut(spec, '/') {
        Some((owner, name)) => if is_half(owner) && is_half(name) {
            Some((owner, name))
        } else {
            None
        },
        None => None,
    }
}

fn half(s: &str) -> (r: bool)
    ensures
        r == is_half(s@),
{
    let chars: Vec<char> = text::chars_of(s);
    let mut i: usize = 0;
    while i < chars.len()
        invariant
            i <= chars@.len(),
            chars@ == s@,
            forall|k: int|
                0 <= k < i ==> (#[trigger] chars@[k]) != '/' && !text::is_space(chars@[k]),
        decreases chars@.len() - i,
    {
        if chars[i] == '/' || text::space(chars[i]) {
            proof {
                assert(s@[i as int] == chars@[i as int]);
            }
            return false;
        }
        i = i + 1;
    }
    chars.len() > 0
}

/// Law: a repository whose halves can be halves of a spelling is read back
/// from the way it is spelled.
pub proof fn a_spelled_repository_reads_back(repo: Repo)
    requires
        is_half(repo.owner@),
        is_half(repo.name@),
    ensures
        spelled_halves(repo.spelled()) == Some((repo.owner@, repo.name@)),
{
    reveal_strlit("/");
    let spelled = repo.spelled();
    let n = repo.owner@.len() as int;
    assert forall|i: int| 0 <= i < n implies #[trigger] spelled[i] != '/' by {
        assert(spelled[i] == repo.owner@[i]);
    }
    assert(spelled[n] == '/');
    text::found_first(spelled, '/', n);
    assert(spelled.take(n) =~= repo.owner@);
    assert(spelled.skip(n + 1) =~= repo.name@);
}

impl Repo {
    /// The repository the way GitHub spells one.
    pub open spec fn spelled(&self) -> Seq<char> {
        self.owner@ + "/"@ + self.name@
    }

    /// A repository of an owner.
    pub fn new(owner: String, name: String) -> (r: Self)
        ensures
            r.owner == owner,
            r.name == name,
    {
        Repo { owner, name }
    }

    /// The repository one `owner/name` string names, if it names one.
    pub fn parse(spec: &str) -> (r: Option<Repo>)
        ensures
            match r {
                Some(repo) => spelled_halves(spec@) == Some((repo.owner@, repo.name@)),
                None => spelled_halves(spec@) is None,
            },
    {
        match text::split_once(spec, '/') {
            Some((owner, name)) => if half(owner.as_str()) && half(name.as_str()) {
                Some(Repo { owner, name })
            } else {
                None
            },
            None => None,
        }
    }

    /// The repository the way GitHub spells one.
    pub fn to_string(&self) -> (r: String)
        ensures
            r@ == self.spelled(),
    {
        text::cat3(self.owner.as_str(), "/", self.name.as_str())
    }
}

/// Open or closed. GitHub has no third state for issues or pull requests.
///
/// REST spells these `open`/`closed` and GraphQL shouts `OPEN`/`CLOSED`;
/// both spellings land here so the difference stays inside the module.
/// A tool result on its way to a model always spells them the REST way.
#[derive(Clone, Copy, Debug, Eq, PartialEq, Structural)]
pub enum State {
    Open,
    Closed,
}

/// An issue, as Epik reads one.
#[derive(Clone, Debug, Eq, PartialEq)]
pub struct Issue {
    pub number: u64,
    pub title: String,
    /// GitHub sends `null` for an issue with no description; to Epik that is
    /// the same as an empty one.
    pub body: String,
    pub state: State,
}

/// One end of a pull request: a branch name and the commit it points at.
#[derive(Clone, Debug, Eq, PartialEq)]
pub struct Branch {
    pub name: String,
    pub sha: String,
}

/// A pull request, as Epik reads one. `head.sha` is what
/// [`check_conclusions`](GitHub::check_conclusions) wants.
#[derive(Clone, Debug, Eq, PartialEq)]
pub struct Pull {
    pub number: u64,
    pub title: String,
    pub state: State,
    /// A merged pull request is `Closed` with this set; GitHub does not
    /// distinguish merged from closed in `state`.
    pub merged: bool,
    pub head: Branch,
    pub base: Branch,
}

/// How to merge a pull request, by the lowercase words GitHub's own UI
/// uses, which is how a tool argument names one.
#[derive(Clone, Copy, Debug, Eq, PartialEq, Structural)]
pub enum Merge {
    Commit,
    Squash,
    Rebase,
}

/// How the wire spells a way to merge.
pub open spec fn merge_word(merge: Merge) -> Seq<char> {
    match merge {
        Merge::Commit => "merge"@,
        Merge::Squash => "squash"@,
        Merge::Rebase => "rebase"@,
    }
}

/// The way to merge a word names.
pub open spec fn merge_named(word: Option<Seq<char>>) -> Option<Merge> {
    if word == Some("commit"@) {
        Some(Merge::Commit)
    } else if word == Some("squash"@) {
        Some(Merge::Squash)
    } else if word == Some("rebase"@) {
        Some(Merge::Rebase)
    } else {
        None
    }
}

impl Merge {
    /// How the wire spells it.
    pub fn wire(self) -> (r: &'static str)
        ensures
            r@ == merge_word(self),
    {
        match self {
            Merge::Commit => "merge",
            Merge::Squash => "squash",
            Merge::Rebase => "rebase",
        }
    }

    /// The way to merge a tool argument names, if it names one.
    pub fn read(value: Option<&Json>) -> (r: Option<Merge>)
        ensures
            r == merge_named(
                match json::part_view(value) {
                    Some(value) => value.word(),
                    None => None,
                },
            ),
    {
        let word = match value {
            Some(value) => value.word(),
            None => None,
        };
        match word {
            Some(word) => if text::same(word.as_str(), "commit") {
                Some(Merge::Commit)
            } else if text::same(word.as_str(), "squash") {
                Some(Merge::Squash)
            } else if text::same(word.as_str(), "rebase") {
                Some(Merge::Rebase)
            } else {
                None
            },
            None => None,
        }
    }
}

/// One check run's verdict on a commit.
#[derive(Clone, Debug, Eq, PartialEq)]
pub struct Check {
    pub name: String,
    /// `None` while the check is still running.
    pub conclusion: Option<Conclusion>,
}

/// How a finished check run ended. `Other` absorbs conclusions GitHub
/// invents after this enum was written; an unmodelled verdict must not break
/// decoding, and it is nobody's green.
#[derive(Clone, Copy, Debug, Eq, PartialEq, Structural)]
pub enum Conclusion {
    Success,
    Failure,
    Neutral,
    Cancelled,
    Skipped,
    Stale,
    TimedOut,
    ActionRequired,
    Other,
}

/// An issue as it appears at the far end of an edge: enough to schedule
/// against, not the whole issue.
#[derive(Clone, Debug, Eq, PartialEq)]
pub struct Edge {
    pub number: u64,
    pub title: String,
    pub state: State,
}

/// One issue and the edges around it: the children it decomposes into, and
/// the issues it waits on.
///
/// This is what the scheduler folds over — and, as a tool result, what a
/// model reads to answer for an issue's place in a plan.
#[derive(Clone, Debug, Eq, PartialEq)]
pub struct IssueGraph {
    pub issue: Issue,
    pub sub_issues: Vec<Edge>,
    pub blocked_by: Vec<Edge>,
}

/// What went wrong, as a value. Doors render these; nothing here is meant to
/// be scraped out of a log.
#[derive(Clone, Debug, Eq, PartialEq)]
pub enum Error {
    /// The verb needs a token — it writes, or it speaks GraphQL — and there
    /// is none. The ordinary state of a fresh install, and a card to render
    /// rather than a fault: paste a PAT, or set `EPIK_GITHUB_TOKEN`.
    TokenAbsent,
    /// GitHub said "come back later" rather than "no": a primary or
    /// secondary rate limit, in GitHub's own words. Retrying after a pause
    /// is legitimate; retrying [`Refused`](Self::Refused) is not.
    RateLimited(String),
    /// GitHub answered no, in its own words. A GraphQL refusal arrives under
    /// HTTP 200; `status` reports what the transport said either way.
    Refused { status: u16, message: String },
    /// The request never got an answer, or got one this client could not
    /// read. Names the endpoint it was reaching for.
    Wire(String),
}

/// An [`Error`] over sequences.
pub enum ErrorView {
    TokenAbsent,
    RateLimited(Seq<char>),
    Refused { status: nat, message: Seq<char> },
    Wire(Seq<char>),
}

impl View for Error {
    type V = ErrorView;

    open spec fn view(&self) -> ErrorView {
        match self {
            Error::TokenAbsent => ErrorView::TokenAbsent,
            Error::RateLimited(message) => ErrorView::RateLimited(message@),
            Error::Refused { status, message } => ErrorView::Refused {
                status: *status as nat,
                message: message@,
            },
            Error::Wire(message) => ErrorView::Wire(message@),
        }
    }
}

impl ErrorView {
    /// The error in words.
    pub open spec fn words(self) -> Seq<char> {
        match self {
            ErrorView::TokenAbsent =>
                "no GitHub token: this needs one — paste a PAT into Epik's Settings (Cmd+,), or set "@
                + keystore::GITHUB_OVERRIDE_ENV@,
            ErrorView::RateLimited(message) => "GitHub rate limit: "@ + message,
            ErrorView::Refused { status, message } => "GitHub refused with "@ + text::decimal(
                status,
            ) + ": "@ + message,
            ErrorView::Wire(message) => message,
        }
    }
}

impl Error {
    /// The error in words.
    pub fn to_string(&self) -> (r: String)
        ensures
            r@ == self@.words(),
    {
        match self {
            Error::TokenAbsent => text::cat2(
                "no GitHub token: this needs one — paste a PAT into Epik's Settings (Cmd+,), or set ",
                keystore::GITHUB_OVERRIDE_ENV,
            ),
            Error::RateLimited(message) => text::cat2("GitHub rate limit: ", message.as_str()),
            Error::Refused { status, message } => {
                let status = text::number(*status as u64);
                text::cat4("GitHub refused with ", status.as_str(), ": ", message.as_str())
            },
            Error::Wire(message) => message.clone(),
        }
    }
}

// ----- the requests -----

/// The methods this module speaks with.
#[derive(Clone, Copy, Debug, Eq, PartialEq, Structural)]
pub enum Method {
    Get,
    Post,
    Patch,
    Put,
}

/// One request: how, where, and with what. A `rest` one carries the REST
/// headers; each carries the token where there is one.
#[derive(Debug, Eq, PartialEq)]
pub struct Request {
    pub method: Method,
    pub url: String,
    pub body: Option<Json>,
    pub rest: bool,
}

/// A [`Request`] over sequences.
pub struct RequestView {
    pub method: Method,
    pub url: Seq<char>,
    pub body: Option<JsonView>,
    pub rest: bool,
}

impl View for Request {
    type V = RequestView;

    open spec fn view(&self) -> RequestView {
        RequestView {
            method: self.method,
            url: self.url@,
            body: match self.body {
                Some(body) => Some(body@),
                None => None,
            },
            rest: self.rest,
        }
    }
}

/// GitHub, as Epik needs it: exactly the verbs the harness speaks.
pub struct GitHub {
    api: String,
    token: Option<Secret>,
}

/// A read of the REST API.
pub open spec fn reading(api: Seq<char>, path: Seq<char>) -> RequestView {
    RequestView { method: Method::Get, url: api + "/"@ + path, body: None, rest: true }
}

/// A write of the REST API.
pub open spec fn writing(
    api: Seq<char>,
    method: Method,
    path: Seq<char>,
    body: JsonView,
) -> RequestView {
    RequestView { method, url: api + "/"@ + path, body: Some(body), rest: true }
}

/// A GraphQL exchange: the query with its variables.
pub open spec fn querying(api: Seq<char>, query: Seq<char>, variables: JsonView) -> RequestView {
    RequestView {
        method: Method::Post,
        url: api + "/graphql"@,
        body: Some(
            JsonView::record().with("query"@, JsonView::Text(query)).with(
                "variables"@,
                variables,
            ),
        ),
        rest: false,
    }
}

/// Where a repository's REST endpoints stand.
pub open spec fn repo_path(repo: Repo, rest: Seq<char>) -> Seq<char> {
    "repos/"@ + repo.spelled() + rest
}

/// Where one of a repository's numbered things stands.
pub open spec fn numbered_path(repo: Repo, kind: Seq<char>, number: u64, rest: Seq<char>) -> Seq<
    char,
> {
    "repos/"@ + repo.spelled() + kind + text::decimal(number as nat) + rest
}

/// A request, or the refusal of a verb that needs a token.
pub open spec fn guarded(token: Option<Seq<char>>, request: RequestView) -> Result<
    RequestView,
    ErrorView,
> {
    match token {
        Some(_) => Ok(request),
        None => Err(ErrorView::TokenAbsent),
    }
}

/// A request, or an error, over sequences.
pub open spec fn request_result(r: Result<Request, Error>) -> Result<RequestView, ErrorView> {
    match r {
        Ok(request) => Ok(request@),
        Err(error) => Err(error@),
    }
}

/// The variables every per-issue query takes.
pub open spec fn variables_of(repo: Repo, number: u64) -> JsonView {
    JsonView::record().with("owner"@, JsonView::Text(repo.owner@)).with(
        "name"@,
        JsonView::Text(repo.name@),
    ).with("number"@, JsonView::Whole(number as nat))
}

/// The variables every per-issue query takes.
fn variables(repo: &Repo, number: u64) -> (r: Json)
    ensures
        r@ == variables_of(*repo, number),
{
    Json::record().with("owner", Json::string(repo.owner.as_str())).with(
        "name",
        Json::string(repo.name.as_str()),
    ).with("number", Json::Whole(number))
}

// The GraphQL strings. Sub-issues and blocked-by have no REST endpoints, and
// each fetch asks for the first hundred edges without paginating: GitHub
// itself caps sub-issues at one hundred per parent, and an issue blocked by
// more than a hundred others has problems no client can fix.

pub const ID_QUERY: &'static str =
    "query($owner: String!, $name: String!, $number: Int!) { repository(owner: $owner, name: $name) { issue(number: $number) { id } } }";

pub const GRAPH_QUERY: &'static str =
    "query($owner: String!, $name: String!, $number: Int!) { repository(owner: $owner, name: $name) { issue(number: $number) { number title state body subIssues(first: 100) { nodes { number title state } } blockedBy(first: 100) { nodes { number title state } } } } }";

pub const ADD_SUB_ISSUE: &'static str =
    "mutation($from: ID!, $to: ID!) { addSubIssue(input: {issueId: $from, subIssueId: $to}) { clientMutationId } }";

pub const REMOVE_SUB_ISSUE: &'static str =
    "mutation($from: ID!, $to: ID!) { removeSubIssue(input: {issueId: $from, subIssueId: $to}) { clientMutationId } }";

pub const ADD_BLOCKED_BY: &'static str =
    "mutation($from: ID!, $to: ID!) { addBlockedBy(input: {issueId: $from, blockingIssueId: $to}) { clientMutationId } }";

pub const REMOVE_BLOCKED_BY: &'static str =
    "mutation($from: ID!, $to: ID!) { removeBlockedBy(input: {issueId: $from, blockingIssueId: $to}) { clientMutationId } }";

impl GitHub {
    /// The API's base.
    pub closed spec fn based(&self) -> Seq<char> {
        self.api@
    }

    /// The token presented.
    pub closed spec fn presents(&self) -> Option<Seq<char>> {
        keystore::bytes_of(self.token)
    }

    /// A client for GitHub itself, authenticating with `token` when there is
    /// one. A missing token is not an error here: public repositories read
    /// fine without one, and the verbs that do need one refuse individually.
    pub fn new(token: Option<Secret>) -> (r: Self)
        ensures
            r.based() == text::trim_end_of(API@, '/'),
            r.presents() == keystore::bytes_of(token),
    {
        Self::at(API, token)
    }

    /// [`new`](Self::new), aimed at a stated API base — which is how a test
    /// talks to a fake GitHub on a loopback port.
    pub fn at(api: &str, token: Option<Secret>) -> (r: Self)
        ensures
            r.based() == text::trim_end_of(api@, '/'),
            r.presents() == keystore::bytes_of(token),
    {
        GitHub { api: text::trim_end_matches(api, '/'), token }
    }

    /// The API's base.
    pub fn api(&self) -> (r: &str)
        ensures
            r@ == self.based(),
    {
        self.api.as_str()
    }

    /// The `authorization` header a request carries, when there is a token.
    pub fn authorization(&self) -> (r: Option<String>)
        ensures
            text::optional(r) == (match self.presents() {
                Some(token) => Some("Bearer "@ + token),
                None => None,
            }),
    {
        match &self.token {
            Some(token) => Some(text::cat2("Bearer ", token.expose())),
            None => None,
        }
    }

    // ----- the REST verbs -----

    /// The branch a pull request merges into by default.
    pub fn default_branch(&self, repo: &Repo) -> (r: Request)
        ensures
            r@ == reading(self.based(), repo_path(*repo, Seq::empty())),
    {
        let spelled = repo.to_string();
        let path = text::cat2("repos/", spelled.as_str());
        proof {
            assert(path@ =~= repo_path(*repo, Seq::empty()));
        }
        self.get(path.as_str())
    }

    /// One issue, by number.
    pub fn issue(&self, repo: &Repo, number: u64) -> (r: Request)
        ensures
            r@ == reading(self.based(), numbered_path(*repo, "/issues/"@, number, ""@)),
    {
        let path = numbered(repo, "/issues/", number, "");
        self.get(path.as_str())
    }

    /// Opens an issue.
    ///
    /// # Errors
    ///
    /// Refuses with [`Error::TokenAbsent`] when there is no token.
    pub fn create_issue(&self, repo: &Repo, title: &str, body: &str) -> (r: Result<Request, Error>)
        ensures
            request_result(r) == guarded(
                self.presents(),
                writing(
                    self.based(),
                    Method::Post,
                    repo_path(*repo, "/issues"@),
                    JsonView::record().with("title"@, JsonView::Text(title@)).with(
                        "body"@,
                        JsonView::Text(body@),
                    ),
                ),
            ),
    {
        match self.needs_token() {
            Err(error) => Err(error),
            Ok(_) => {
                let spelled = repo.to_string();
                let path = text::cat3("repos/", spelled.as_str(), "/issues");
                Ok(
                    self.send(
                        Method::Post,
                        path.as_str(),
                        Json::record().with("title", Json::string(title)).with(
                            "body",
                            Json::string(body),
                        ),
                    ),
                )
            },
        }
    }

    /// Rewrites an issue's title, body, or both. `None` leaves a field as it
    /// stands.
    ///
    /// # Errors
    ///
    /// Refuses with [`Error::TokenAbsent`] when there is no token.
    pub fn edit_issue(
        &self,
        repo: &Repo,
        number: u64,
        title: &Option<String>,
        body: &Option<String>,
    ) -> (r: Result<Request, Error>)
        ensures
            request_result(r) == guarded(
                self.presents(),
                writing(
                    self.based(),
                    Method::Patch,
                    numbered_path(*repo, "/issues/"@, number, ""@),
                    edited(text::optional(*title), text::optional(*body)),
                ),
            ),
    {
        match self.needs_token() {
            Err(error) => Err(error),
            Ok(_) => {
                let mut fields = Json::record();
                match title {
                    Some(title) => {
                        fields = fields.with("title", Json::string(title.as_str()));
                    },
                    None => {},
                }
                match body {
                    Some(body) => {
                        fields = fields.with("body", Json::string(body.as_str()));
                    },
                    None => {},
                }
                let path = numbered(repo, "/issues/", number, "");
                Ok(self.send(Method::Patch, path.as_str(), fields))
            },
        }
    }

    /// Adds a comment to an issue — or to a pull request, which is an issue
    /// to this endpoint.
    ///
    /// # Errors
    ///
    /// Refuses with [`Error::TokenAbsent`] when there is no token.
    pub fn comment(&self, repo: &Repo, number: u64, body: &str) -> (r: Result<Request, Error>)
        ensures
            request_result(r) == guarded(
                self.presents(),
                writing(
                    self.based(),
                    Method::Post,
                    numbered_path(*repo, "/issues/"@, number, "/comments"@),
                    JsonView::record().with("body"@, JsonView::Text(body@)),
                ),
            ),
    {
        match self.needs_token() {
            Err(error) => Err(error),
            Ok(_) => {
                let path = numbered(repo, "/issues/", number, "/comments");
                Ok(
                    self.send(
                        Method::Post,
                        path.as_str(),
                        Json::record().with("body", Json::string(body)),
                    ),
                )
            },
        }
    }

    /// Closes an issue.
    ///
    /// # Errors
    ///
    /// Refuses with [`Error::TokenAbsent`] when there is no token.
    pub fn close_issue(&self, repo: &Repo, number: u64) -> (r: Result<Request, Error>)
        ensures
            request_result(r) == guarded(
                self.presents(),
                writing(
                    self.based(),
                    Method::Patch,
                    numbered_path(*repo, "/issues/"@, number, ""@),
                    JsonView::record().with("state"@, JsonView::Text("closed"@)),
                ),
            ),
    {
        match self.needs_token() {
            Err(error) => Err(error),
            Ok(_) => {
                let path = numbered(repo, "/issues/", number, "");
                Ok(
                    self.send(
                        Method::Patch,
                        path.as_str(),
                        Json::record().with("state", Json::string("closed")),
                    ),
                )
            },
        }
    }

    /// Opens a pull request merging `head` into `base`.
    ///
    /// # Errors
    ///
    /// Refuses with [`Error::TokenAbsent`] when there is no token.
    pub fn open_pull(
        &self,
        repo: &Repo,
        title: &str,
        head: &str,
        base: &str,
        body: &str,
    ) -> (r: Result<Request, Error>)
        ensures
            request_result(r) == guarded(
                self.presents(),
                writing(
                    self.based(),
                    Method::Post,
                    repo_path(*repo, "/pulls"@),
                    JsonView::record().with("title"@, JsonView::Text(title@)).with(
                        "head"@,
                        JsonView::Text(head@),
                    ).with("base"@, JsonView::Text(base@)).with("body"@, JsonView::Text(body@)),
                ),
            ),
    {
        match self.needs_token() {
            Err(error) => Err(error),
            Ok(_) => {
                let spelled = repo.to_string();
                let path = text::cat3("repos/", spelled.as_str(), "/pulls");
                Ok(
                    self.send(
                        Method::Post,
                        path.as_str(),
                        Json::record().with("title", Json::string(title)).with(
                            "head",
                            Json::string(head),
                        ).with("base", Json::string(base)).with("body", Json::string(body)),
                    ),
                )
            },
        }
    }

    /// One pull request, by number.
    pub fn pull(&self, repo: &Repo, number: u64) -> (r: Request)
        ensures
            r@ == reading(self.based(), numbered_path(*repo, "/pulls/"@, number, ""@)),
    {
        let path = numbered(repo, "/pulls/", number, "");
        self.get(path.as_str())
    }

    /// Merges a pull request. A branch that is not mergeable — red checks, a
    /// ruleset, a conflict — comes back as [`Error::Refused`] in GitHub's
    /// own words.
    ///
    /// # Errors
    ///
    /// Refuses with [`Error::TokenAbsent`] when there is no token.
    pub fn merge_pull(&self, repo: &Repo, number: u64, method: Merge) -> (r: Result<Request, Error>)
        ensures
            request_result(r) == guarded(
                self.presents(),
                writing(
                    self.based(),
                    Method::Put,
                    numbered_path(*repo, "/pulls/"@, number, "/merge"@),
                    JsonView::record().with("merge_method"@, JsonView::Text(merge_word(method))),
                ),
            ),
    {
        match self.needs_token() {
            Err(error) => Err(error),
            Ok(_) => {
                let path = numbered(repo, "/pulls/", number, "/merge");
                Ok(
                    self.send(
                        Method::Put,
                        path.as_str(),
                        Json::record().with("merge_method", Json::string(method.wire())),
                    ),
                )
            },
        }
    }

    /// Every check run's verdict on `git_ref` — a branch name, a tag, or a
    /// commit SHA. "Is this green" is a fold over the result; a run still
    /// executing has no conclusion yet.
    ///
    /// One page of a hundred runs, unpaginated. Epik's own repositories run
    /// a handful of checks; a commit carrying more than a hundred would come
    /// back truncated, and a fold over a truncated list can call red green —
    /// so the cap is stated here, where a caller reads, until a repository
    /// exists that needs the pagination.
    pub fn check_conclusions(&self, repo: &Repo, git_ref: &str) -> (r: Request)
        ensures
            r@ == reading(
                self.based(),
                "repos/"@ + repo.spelled() + "/commits/"@ + git_ref@
                    + "/check-runs?per_page=100"@,
            ),
    {
        let spelled = repo.to_string();
        let path = text::cat5(
            "repos/",
            spelled.as_str(),
            "/commits/",
            git_ref,
            "/check-runs?per_page=100",
        );
        self.get(path.as_str())
    }

    // ----- the GraphQL verbs -----

    /// One issue and its edges: sub-issues and blocked-by, which REST never
    /// learned to serve.
    ///
    /// # Errors
    ///
    /// Refuses with [`Error::TokenAbsent`] when there is no token — GraphQL
    /// answers nothing unauthenticated, even about a public repository.
    pub fn issue_graph(&self, repo: &Repo, number: u64) -> (r: Result<Request, Error>)
        ensures
            request_result(r) == guarded(
                self.presents(),
                querying(self.based(), GRAPH_QUERY@, variables_of(*repo, number)),
            ),
    {
        self.graphql(GRAPH_QUERY, variables(repo, number))
    }

    /// The GraphQL node id behind an issue number — what the relationship
    /// mutations take, and a name for an issue no caller ever sees.
    ///
    /// # Errors
    ///
    /// Refuses with [`Error::TokenAbsent`] when there is no token.
    pub fn issue_id(&self, repo: &Repo, number: u64) -> (r: Result<Request, Error>)
        ensures
            request_result(r) == guarded(
                self.presents(),
                querying(self.based(), ID_QUERY@, variables_of(*repo, number)),
            ),
    {
        self.graphql(ID_QUERY, variables(repo, number))
    }

    /// Makes the issue behind node `child` a sub-issue of the one behind
    /// `parent`.
    ///
    /// # Errors
    ///
    /// Refuses with [`Error::TokenAbsent`] when there is no token.
    pub fn add_sub_issue(&self, parent: &str, child: &str) -> (r: Result<Request, Error>)
        ensures
            request_result(r) == guarded(
                self.presents(),
                querying(self.based(), ADD_SUB_ISSUE@, linked(parent@, child@)),
            ),
    {
        self.link(ADD_SUB_ISSUE, parent, child)
    }

    /// Detaches the issue behind node `child` from the one behind `parent`.
    /// The issue survives; the edge does not.
    ///
    /// # Errors
    ///
    /// Refuses with [`Error::TokenAbsent`] when there is no token.
    pub fn remove_sub_issue(&self, parent: &str, child: &str) -> (r: Result<Request, Error>)
        ensures
            request_result(r) == guarded(
                self.presents(),
                querying(self.based(), REMOVE_SUB_ISSUE@, linked(parent@, child@)),
            ),
    {
        self.link(REMOVE_SUB_ISSUE, parent, child)
    }

    /// Records that the issue behind node `issue` is blocked by the one
    /// behind `blocker`.
    ///
    /// # Errors
    ///
    /// Refuses with [`Error::TokenAbsent`] when there is no token.
    pub fn add_blocked_by(&self, issue: &str, blocker: &str) -> (r: Result<Request, Error>)
        ensures
            request_result(r) == guarded(
                self.presents(),
                querying(self.based(), ADD_BLOCKED_BY@, linked(issue@, blocker@)),
            ),
    {
        self.link(ADD_BLOCKED_BY, issue, blocker)
    }

    /// Removes a blocked-by edge — what "unblocked" is.
    ///
    /// # Errors
    ///
    /// Refuses with [`Error::TokenAbsent`] when there is no token.
    pub fn remove_blocked_by(&self, issue: &str, blocker: &str) -> (r: Result<Request, Error>)
        ensures
            request_result(r) == guarded(
                self.presents(),
                querying(self.based(), REMOVE_BLOCKED_BY@, linked(issue@, blocker@)),
            ),
    {
        self.link(REMOVE_BLOCKED_BY, issue, blocker)
    }

    // ----- plumbing -----

    /// The precondition of every verb that needs a token — the writes, and
    /// all of GraphQL — checked before any request goes out: a refusal for
    /// want of a token should cost nothing and change nothing.
    ///
    /// # Errors
    ///
    /// [`Error::TokenAbsent`], when there is no token.
    pub fn needs_token(&self) -> (r: Result<(), Error>)
        ensures
            match r {
                Ok(_) => self.presents() is Some,
                Err(error) => self.presents() is None && error@ == ErrorView::TokenAbsent,
            },
    {
        match &self.token {
            Some(_) => Ok(()),
            None => Err(Error::TokenAbsent),
        }
    }

    fn get(&self, path: &str) -> (r: Request)
        ensures
            r@ == reading(self.based(), path@),
    {
        Request {
            method: Method::Get,
            url: text::cat3(self.api.as_str(), "/", path),
            body: None,
            rest: true,
        }
    }

    fn send(&self, method: Method, path: &str, body: Json) -> (r: Request)
        ensures
            r@ == writing(self.based(), method, path@, body@),
    {
        Request {
            method,
            url: text::cat3(self.api.as_str(), "/", path),
            body: Some(body),
            rest: true,
        }
    }

    /// One GraphQL exchange: the query goes out with its variables.
    fn graphql(&self, query: &'static str, variables: Json) -> (r: Result<Request, Error>)
        ensures
            request_result(r) == guarded(
                self.presents(),
                querying(self.based(), query@, variables@),
            ),
    {
        match self.needs_token() {
            Err(error) => Err(error),
            Ok(_) => Ok(
                Request {
                    method: Method::Post,
                    url: text::cat2(self.api.as_str(), "/graphql"),
                    body: Some(
                        Json::record().with("query", Json::string(query)).with(
                            "variables",
                            variables,
                        ),
                    ),
                    rest: false,
                },
            ),
        }
    }

    /// The shared shape of every relationship mutation: `mutation` over two
    /// node ids.
    fn link(&self, mutation: &'static str, from: &str, to: &str) -> (r: Result<Request, Error>)
        ensures
            request_result(r) == guarded(
                self.presents(),
                querying(self.based(), mutation@, linked(from@, to@)),
            ),
    {
        self.graphql(
            mutation,
            Json::record().with("from", Json::string(from)).with("to", Json::string(to)),
        )
    }
}

/// The variables of a relationship mutation.
pub open spec fn linked(from: Seq<char>, to: Seq<char>) -> JsonView {
    JsonView::record().with("from"@, JsonView::Text(from)).with("to"@, JsonView::Text(to))
}

/// The fields an edit changes.
pub open spec fn edited(title: Option<Seq<char>>, body: Option<Seq<char>>) -> JsonView {
    let fields = match title {
        Some(title) => JsonView::record().with("title"@, JsonView::Text(title)),
        None => JsonView::record(),
    };
    match body {
        Some(body) => fields.with("body"@, JsonView::Text(body)),
        None => fields,
    }
}

fn numbered(repo: &Repo, kind: &str, number: u64, rest: &str) -> (r: String)
    ensures
        r@ == numbered_path(*repo, kind@, number, rest@),
{
    let spelled = repo.to_string();
    let number = text::number(number);
    text::cat5("repos/", spelled.as_str(), kind, number.as_str(), rest)
}

// ----- the answers -----

/// What came back of a request.
#[derive(Debug)]
pub enum Outcome {
    /// Nothing did, for this reason.
    Unasked(String),
    /// An answer whose body could not be read, for this reason.
    Unread(String),
    /// An answer: its status, what its headers say is left of the rate
    /// limit, and its body.
    Answered { status: u16, remaining: Option<String>, body: String },
}

/// GitHub's own words for a refusal: the `message` field when the body is
/// the usual error shape, the raw body when it is not.
pub open spec fn own_words(body: Seq<char>) -> Seq<char> {
    match json::read_as(body) {
        Ok(value) => match carried_words(value) {
            Some(message) => message,
            None => text::trimmed(body),
        },
        Err(_) => text::trimmed(body),
    }
}

/// The `message` a value carries.
pub open spec fn carried_words(value: JsonView) -> Option<Seq<char>> {
    if value.holds(1) {
        json::needed_text(value.part(0, "message"@))
    } else {
        None
    }
}

/// What a non-success REST answer means. Rate limiting is recognized two
/// ways, because GitHub reports it two ways: a primary limit is a 403 or 429
/// with `x-ratelimit-remaining: 0`, and a secondary limit is a 403 whose
/// message says so with a nonzero remaining count.
pub open spec fn refused(status: nat, remaining: Option<Seq<char>>, message: Seq<char>) -> ErrorView {
    let exhausted = remaining == Some("0"@);
    let named = text::contains_text(text::lowercase_as(message), "rate limit"@);
    if status == 429 || (status == 403 && (exhausted || named)) {
        ErrorView::RateLimited(message)
    } else {
        ErrorView::Refused { status, message }
    }
}

/// The `message` a decoded body carries, if it does.
pub fn carried_message(value: &Json) -> (r: Option<String>)
    ensures
        text::optional(r) == carried_words(value@),
{
    if value.holds(1) {
        json::read_text(value.part(0, "message"))
    } else {
        None
    }
}

/// GitHub's own words for a refusal: the `message` field when the body is
/// the usual error shape, the raw body when it is not.
pub fn message(body: &str) -> (r: String)
    ensures
        r@ == own_words(body@),
{
    let carried = match json::read(body) {
        Ok(value) => carried_message(&value),
        Err(_) => None,
    };
    match carried {
        Some(message) => message,
        None => text::trim(body),
    }
}

/// Classifies a refusal in these words; `lowered` is the words in lower
/// case.
pub fn classify(
    status: u16,
    remaining: Option<&str>,
    message: String,
    lowered: &str,
) -> (r: Error)
    ensures
        r@ == (if status == 429 || (status == 403 && ((remaining is Some && (remaining->0)@
            == "0"@) || text::contains_text(lowered@, "rate limit"@))) {
            ErrorView::RateLimited(message@)
        } else {
            ErrorView::Refused { status: status as nat, message: message@ }
        }),
{
    let exhausted = match remaining {
        Some(remaining) => text::same(remaining, "0"),
        None => false,
    };
    let named = text::contains(lowered, "rate limit");
    if status == 429 || (status == 403 && (exhausted || named)) {
        Error::RateLimited(message)
    } else {
        Error::Refused { status, message }
    }
}

/// Classifies a non-success REST answer.
pub fn refusal(status: u16, remaining: Option<&str>, body: &str) -> (r: Error)
    ensures
        r@ == refused(
            status as nat,
            match remaining {
                Some(remaining) => Some(remaining@),
                None => None,
            },
            own_words(body@),
        ),
{
    let message = message(body);
    let lowered = text::lowercase(message.as_str());
    classify(status, remaining, message, lowered.as_str())
}

/// What came of a request to `url`: a success's decoded body, or the typed
/// refusal the status and rate-limit headers add up to.
pub open spec fn answered(url: Seq<char>, outcome: Outcome) -> Result<JsonView, ErrorView> {
    match outcome {
        Outcome::Unasked(error) => Err(ErrorView::Wire("asking "@ + url + ": "@ + error@)),
        Outcome::Unread(error) => Err(
            ErrorView::Wire("reading "@ + url + "'s answer: "@ + error@),
        ),
        Outcome::Answered { status, remaining, body } => if 200 <= status < 300 {
            if body@.len() == 0 {
                Ok(JsonView::Null)
            } else {
                match json::read_as(body@) {
                    Ok(value) => Ok(value),
                    Err(error) => Err(
                        ErrorView::Wire("decoding "@ + url + "'s answer: "@ + error),
                    ),
                }
            }
        } else {
            Err(refused(status as nat, text::optional(remaining), own_words(body@)))
        },
    }
}

/// One response, settled: a success's decoded body, or the typed refusal
/// the status and rate-limit headers add up to.
///
/// # Errors
///
/// An [`Error`] when GitHub could not be asked or answered no.
pub fn answer(url: &str, outcome: Outcome) -> (r: Result<Json, Error>)
    ensures
        match r {
            Ok(value) => answered(url@, outcome) == Ok::<JsonView, ErrorView>(value@),
            Err(error) => answered(url@, outcome) == Err::<JsonView, ErrorView>(error@),
        },
{
    match outcome {
        Outcome::Unasked(error) => Err(
            Error::Wire(text::cat4("asking ", url, ": ", error.as_str())),
        ),
        Outcome::Unread(error) => Err(
            Error::Wire(text::cat4("reading ", url, "'s answer: ", error.as_str())),
        ),
        Outcome::Answered { status, remaining, body } => {
            if 200 <= status && status < 300 {
                if text::is_empty(body.as_str()) {
                    return Ok(Json::Null);
                }
                return match json::read(body.as_str()) {
                    Ok(value) => Ok(value),
                    Err(error) => Err(
                        Error::Wire(text::cat4("decoding ", url, "'s answer: ", error.as_str())),
                    ),
                };
            }
            match &remaining {
                Some(remaining) => Err(
                    refusal(status, Some(remaining.as_str()), body.as_str()),
                ),
                None => Err(refusal(status, None, body.as_str())),
            }
        },
    }
}

} // verus!
